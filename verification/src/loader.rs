//! Per-unit collection of file reads.
//!
//! Loading one unit yields a sequence of per-file read results; collection
//! turns it into either the full list of file contents or the first read
//! failure — success means every file in the unit was read.

use vstd::prelude::*;

verus! {

/// A unit-local I/O failure: the description of the first error met while
/// traversing or reading a unit's source root.
#[derive(Debug)]
pub struct LoadError {
    pub message: String,
}

impl Clone for LoadError {
    fn clone(&self) -> (r: Self)
        ensures
            r == *self,
    {
        LoadError { message: self.message.clone() }
    }
}

/// The result of loading one unit: every file's contents, in the order the
/// files were met, or the first failure.
pub type UnitOutcome = Result<Vec<String>, LoadError>;

/// Whether every read of the sequence succeeded.
pub open spec fn all_ok(reads: Seq<Result<String, LoadError>>) -> bool {
    forall|i: int| 0 <= i < reads.len() ==> reads[i] is Ok
}

/// The contents carried by a sequence of successful reads.
pub open spec fn contents_of(reads: Seq<Result<String, LoadError>>) -> Seq<String> {
    reads.map_values(|x: Result<String, LoadError>| x->Ok_0)
}

/// Index of the first failed read of the sequence; meaningful only when some
/// read failed.
pub open spec fn first_err_index(reads: Seq<Result<String, LoadError>>) -> int
    decreases reads.len(),
{
    if reads.len() == 0 {
        0
    } else if reads[0] is Err {
        0
    } else {
        1 + first_err_index(reads.drop_first())
    }
}

/// A failure preceded only by successes is the first failure.
proof fn lemma_first_err_at(reads: Seq<Result<String, LoadError>>, i: int)
    requires
        0 <= i < reads.len(),
        reads[i] is Err,
        forall|k: int| 0 <= k < i ==> reads[k] is Ok,
    ensures
        first_err_index(reads) == i,
    decreases i,
{
    if i > 0 {
        lemma_first_err_at(reads.drop_first(), i - 1);
    }
}

/// Collect a unit's per-file reads: the full list of contents when every
/// read succeeded, otherwise the first failure (fail-fast per unit).
pub fn collect_reads(reads: &Vec<Result<String, LoadError>>) -> (r: UnitOutcome)
    ensures
        (r is Ok) == all_ok(reads@),
        r is Ok ==> r->Ok_0@ == contents_of(reads@),
        r is Err ==> reads@[first_err_index(reads@)] is Err && r->Err_0
            == reads@[first_err_index(reads@)]->Err_0,
{
    let mut out: Vec<String> = Vec::new();
    let mut i: usize = 0;
    while i < reads.len()
        invariant
            i <= reads@.len(),
            forall|k: int| 0 <= k < i ==> reads@[k] is Ok,
            out@ == contents_of(reads@.take(i as int)),
        decreases reads@.len() - i,
    {
        match &reads[i] {
            Ok(content) => {
                out.push(content.clone());
            },
            Err(e) => {
                proof {
                    lemma_first_err_at(reads@, i as int);
                }
                return Err(e.clone());
            },
        }
        proof {
            assert(out@ =~= contents_of(reads@.take(i + 1 as int)));
        }
        i = i + 1;
    }
    proof {
        assert(reads@.take(reads@.len() as int) =~= reads@);
    }
    Ok(out)
}

/// A fully successful unit yields one content entry per read, in order.
pub proof fn lemma_collect_lengths(reads: Seq<Result<String, LoadError>>)
    ensures
        contents_of(reads).len() == reads.len(),
        forall|i: int| 0 <= i < reads.len() ==> contents_of(reads)[i] == reads[i]->Ok_0,
{
}

} // verus!

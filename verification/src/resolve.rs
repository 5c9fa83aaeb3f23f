//! Resolution of crates to loadable units.
//!
//! A crate is loadable when it carries a display name and its root module
//! has a parent directory; the unit is that (name, parent) pair. A crate
//! missing either is silently excluded from loading.

use vstd::prelude::*;

use crate::model::Crate;
use crate::paths::{parent_dir, parent_dir_spec};

verus! {

/// One loadable unit: a display name and the source root under which the
/// unit's files are discovered.
#[derive(Clone, Debug, PartialEq, Eq)]
pub struct LoadUnit {
    pub name: String,
    pub root: String,
}

impl View for LoadUnit {
    type V = (Seq<char>, Seq<char>);

    open spec fn view(&self) -> (Seq<char>, Seq<char>) {
        (self.name@, self.root@)
    }
}

/// Whether a crate can be resolved to a loadable unit.
pub open spec fn resolvable(c: Crate) -> bool {
    c.display_name is Some && parent_dir_spec(c.root_module@) is Some
}

/// The (name, source root) pair of a resolvable crate.
pub open spec fn resolved_pair(c: Crate) -> (Seq<char>, Seq<char>) {
    (c.display_name->Some_0@, parent_dir_spec(c.root_module@)->Some_0)
}

/// The units resolved from a crate sequence: exactly the (name, parent)
/// pairs of its resolvable crates, in order.
pub open spec fn resolved_units_spec(cs: Seq<Crate>) -> Seq<(Seq<char>, Seq<char>)>
    decreases cs.len(),
{
    if cs.len() == 0 {
        Seq::empty()
    } else {
        let rest = resolved_units_spec(cs.drop_last());
        if resolvable(cs.last()) {
            rest.push(resolved_pair(cs.last()))
        } else {
            rest
        }
    }
}

/// How many crates of the sequence are excluded from loading.
pub open spec fn excluded_count(cs: Seq<Crate>) -> nat
    decreases cs.len(),
{
    if cs.len() == 0 {
        0
    } else {
        excluded_count(cs.drop_last()) + if resolvable(cs.last()) {
            0nat
        } else {
            1nat
        }
    }
}

/// Every crate is either resolved or excluded: the number of resolved units
/// plus the number of excluded crates equals the number of crates.
pub proof fn lemma_resolution_partition(cs: Seq<Crate>)
    ensures
        resolved_units_spec(cs).len() + excluded_count(cs) == cs.len(),
    decreases cs.len(),
{
    if cs.len() > 0 {
        lemma_resolution_partition(cs.drop_last());
    }
}

/// Every resolvable crate contributes exactly its own (name, parent) pair to
/// the resolved units.
pub proof fn lemma_resolution_contains(cs: Seq<Crate>, i: int)
    requires
        0 <= i < cs.len(),
        resolvable(cs[i]),
    ensures
        resolved_units_spec(cs).contains(resolved_pair(cs[i])),
    decreases cs.len(),
{
    if i == cs.len() - 1 {
        assert(resolved_units_spec(cs).last() == resolved_pair(cs[i]));
    } else {
        lemma_resolution_contains(cs.drop_last(), i);
        let rest = resolved_units_spec(cs.drop_last());
        let k = choose|k: int| 0 <= k < rest.len() && rest[k] == resolved_pair(cs[i]);
        assert(resolved_units_spec(cs)[k] == resolved_pair(cs[i]));
    }
}

/// Resolve each crate that has a display name and whose root module has a
/// parent directory to its (name, parent) unit; exclude the rest silently.
pub fn resolve_units(crates: &Vec<Crate>) -> (r: Vec<LoadUnit>)
    ensures
        r@.map_values(|u: LoadUnit| u@) == resolved_units_spec(crates@),
{
    let mut r: Vec<LoadUnit> = Vec::new();
    let mut i: usize = 0;
    while i < crates.len()
        invariant
            i <= crates@.len(),
            r@.map_values(|u: LoadUnit| u@) == resolved_units_spec(crates@.take(i as int)),
        decreases crates@.len() - i,
    {
        let c = &crates[i];
        match (&c.display_name, parent_dir(&c.root_module)) {
            (Some(name), Some(root)) => {
                r.push(LoadUnit { name: name.clone(), root });
            },
            _ => {},
        }
        proof {
            assert(crates@.take(i + 1 as int).drop_last() =~= crates@.take(i as int));
            assert(crates@.take(i + 1 as int).last() == crates@[i as int]);
            assert(r@.map_values(|u: LoadUnit| u@) =~= resolved_units_spec(
                crates@.take(i + 1 as int),
            ));
        }
        i = i + 1;
    }
    proof {
        assert(crates@.take(crates@.len() as int) =~= crates@);
    }
    r
}

/// One build target reported by a build-system metadata query: its name and
/// the path of its entry source file.
#[derive(Clone, Debug, PartialEq, Eq)]
pub struct TargetInfo {
    pub name: String,
    pub src_path: String,
}

/// The units resolved from a target sequence: each target whose source path
/// has a parent directory becomes one unit keyed by the target's name.
pub open spec fn resolved_targets_spec(ts: Seq<TargetInfo>) -> Seq<(Seq<char>, Seq<char>)>
    decreases ts.len(),
{
    if ts.len() == 0 {
        Seq::empty()
    } else {
        let rest = resolved_targets_spec(ts.drop_last());
        if parent_dir_spec(ts.last().src_path@) is Some {
            rest.push((ts.last().name@, parent_dir_spec(ts.last().src_path@)->Some_0))
        } else {
            rest
        }
    }
}

/// Resolve each target whose source path has a parent directory to a
/// (target name, parent) unit; exclude the rest silently.
pub fn resolve_targets(targets: &Vec<TargetInfo>) -> (r: Vec<LoadUnit>)
    ensures
        r@.map_values(|u: LoadUnit| u@) == resolved_targets_spec(targets@),
{
    let mut r: Vec<LoadUnit> = Vec::new();
    let mut i: usize = 0;
    while i < targets.len()
        invariant
            i <= targets@.len(),
            r@.map_values(|u: LoadUnit| u@) == resolved_targets_spec(targets@.take(i as int)),
        decreases targets@.len() - i,
    {
        let t = &targets[i];
        match parent_dir(&t.src_path) {
            Some(root) => {
                r.push(LoadUnit { name: t.name.clone(), root });
            },
            None => {},
        }
        proof {
            assert(targets@.take(i + 1 as int).drop_last() =~= targets@.take(i as int));
            assert(targets@.take(i + 1 as int).last() == targets@[i as int]);
            assert(r@.map_values(|u: LoadUnit| u@) =~= resolved_targets_spec(
                targets@.take(i + 1 as int),
            ));
        }
        i = i + 1;
    }
    proof {
        assert(targets@.take(targets@.len() as int) =~= targets@);
    }
    r
}

} // verus!

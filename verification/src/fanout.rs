//! Fan-in of per-unit results into the result mapping.
//!
//! Units run independently; `assemble` folds their (name, outcome) pairs, in
//! arrival order, into a mapping with one entry per distinct name. A
//! duplicated name keeps the outcome that arrived last (last write wins).

use vstd::prelude::*;

use crate::loader::UnitOutcome;
use crate::mapping::ResultMap;

verus! {

/// Index of the last pair of `s` carrying the name `k`, or -1 when none
/// does.
pub open spec fn last_index_with_name(s: Seq<(String, UnitOutcome)>, k: Seq<char>) -> int
    decreases s.len(),
{
    if s.len() == 0 {
        -1
    } else if s.last().0@ == k {
        s.len() - 1
    } else {
        last_index_with_name(s.drop_last(), k)
    }
}

/// Whether some pair of `s` carries the name `k`.
pub open spec fn has_name(s: Seq<(String, UnitOutcome)>, k: Seq<char>) -> bool {
    exists|i: int| 0 <= i < s.len() && s[i].0@ == k
}

/// How many distinct names the pairs of `s` carry.
pub open spec fn num_distinct_names(s: Seq<(String, UnitOutcome)>) -> nat
    decreases s.len(),
{
    if s.len() == 0 {
        0
    } else {
        num_distinct_names(s.drop_last()) + if last_index_with_name(
            s.drop_last(),
            s.last().0@,
        ) >= 0 {
            0nat
        } else {
            1nat
        }
    }
}

/// The last index found for a name lies within bounds and carries that name.
pub proof fn lemma_last_index_props(s: Seq<(String, UnitOutcome)>, k: Seq<char>)
    ensures
        last_index_with_name(s, k) < s.len(),
        last_index_with_name(s, k) >= 0 ==> s[last_index_with_name(s, k)].0@ == k,
    decreases s.len(),
{
    if s.len() > 0 && s.last().0@ != k {
        lemma_last_index_props(s.drop_last(), k);
    }
}

/// A name occurs among the pairs exactly when a last index is found for it.
pub proof fn lemma_has_name_iff(s: Seq<(String, UnitOutcome)>, k: Seq<char>)
    ensures
        has_name(s, k) == (last_index_with_name(s, k) >= 0),
    decreases s.len(),
{
    if s.len() > 0 {
        lemma_has_name_iff(s.drop_last(), k);
        if s.last().0@ == k {
            assert(s[s.len() - 1].0@ == k);
        } else {
            if has_name(s, k) {
                let i = choose|i: int| 0 <= i < s.len() && s[i].0@ == k;
                assert(s.drop_last()[i] == s[i]);
            }
            if has_name(s.drop_last(), k) {
                let i = choose|i: int| 0 <= i < s.drop_last().len() && s.drop_last()[i].0@ == k;
                assert(s[i].0@ == k);
            }
        }
    }
}

/// Fold per-unit results into the mapping: one entry per distinct name, and
/// a name that arrived more than once keeps the outcome that arrived last.
pub fn assemble(results: Vec<(String, UnitOutcome)>) -> (m: ResultMap)
    ensures
        m.wf(),
        forall|k: Seq<char>|
            #[trigger] m.contains_name(k) == (last_index_with_name(results@, k) >= 0),
        forall|k: Seq<char>|
            last_index_with_name(results@, k) >= 0 ==> #[trigger] m.value_for(k) == results@[last_index_with_name(results@, k)].1,
        m.num_entries() == num_distinct_names(results@),
{
    let ghost orig = results@;
    let mut rest = results;
    let mut m = ResultMap::new();
    let ghost mut i: int = 0;
    while rest.len() > 0
        invariant
            0 <= i,
            i + rest@.len() == orig.len(),
            rest@ == orig.skip(i),
            m.wf(),
            forall|k: Seq<char>|
                #[trigger] m.contains_name(k) == (last_index_with_name(orig.take(i), k)
                    >= 0),
            forall|k: Seq<char>|
                last_index_with_name(orig.take(i), k) >= 0 ==> #[trigger] m.value_for(k)
                    == orig.take(i)[last_index_with_name(orig.take(i), k)].1,
            m.num_entries() == num_distinct_names(orig.take(i)),
        decreases rest@.len(),
    {
        let pair = rest.remove(0);
        proof {
            assert(pair == orig[i]);
            assert(rest@ =~= orig.skip(i + 1));
        }
        let ghost pre = orig.take(i);
        let ghost post = orig.take(i + 1 as int);
        let ghost name = pair.0@;
        m.insert(pair.0, pair.1);
        proof {
            assert(post.drop_last() =~= pre);
            assert(post.last() == orig[i]);
            assert forall|k: Seq<char>| #[trigger] last_index_with_name(post, k) == (if name == k {
                i
            } else {
                last_index_with_name(pre, k)
            }) by {
                assert(last_index_with_name(post, k) == if post.last().0@ == k {
                    post.len() - 1
                } else {
                    last_index_with_name(post.drop_last(), k)
                });
            }
            assert(num_distinct_names(post) == num_distinct_names(pre) + if last_index_with_name(
                pre,
                name,
            ) >= 0 {
                0nat
            } else {
                1nat
            });
            lemma_last_index_props(pre, name);
            assert forall|k: Seq<char>| last_index_with_name(post, k) >= 0 implies #[trigger] m
                .value_for(k) == post[last_index_with_name(post, k)].1 by {
                if k == name {
                    assert(post[i] == orig[i]);
                } else {
                    lemma_last_index_props(pre, k);
                    assert(pre[last_index_with_name(pre, k)] == post[last_index_with_name(
                        pre,
                        k,
                    )]);
                }
            }
        }
        proof {
            i = i + 1;
        }
    }
    proof {
        assert(orig.take(orig.len() as int) =~= orig);
    }
    m
}

/// In a sequence of pairs with pairwise-distinct names, every pair is the
/// last carrier of its own name.
proof fn lemma_last_index_distinct(s: Seq<(String, UnitOutcome)>, i: int)
    requires
        forall|p: int, q: int| 0 <= p < q < s.len() ==> s[p].0@ != s[q].0@,
        0 <= i < s.len(),
    ensures
        last_index_with_name(s, s[i].0@) == i,
    decreases s.len(),
{
    if i == s.len() - 1 {
        assert(s.last().0@ == s[i].0@);
    } else {
        assert(s[i].0@ != s[s.len() - 1].0@);
        assert(s.drop_last()[i] == s[i]);
        lemma_last_index_distinct(s.drop_last(), i);
    }
}

/// Pairwise-distinct names are all distinct: the count of distinct names is
/// the count of pairs.
proof fn lemma_num_distinct_all(s: Seq<(String, UnitOutcome)>)
    requires
        forall|p: int, q: int| 0 <= p < q < s.len() ==> s[p].0@ != s[q].0@,
    ensures
        num_distinct_names(s) == s.len(),
    decreases s.len(),
{
    if s.len() > 0 {
        assert(forall|p: int, q: int|
            0 <= p < q < s.drop_last().len() ==> s.drop_last()[p].0@ != s.drop_last()[q].0@);
        lemma_num_distinct_all(s.drop_last());
        let k = s.last().0@;
        lemma_last_index_props(s.drop_last(), k);
        if last_index_with_name(s.drop_last(), k) >= 0 {
            let j = last_index_with_name(s.drop_last(), k);
            assert(s[j].0@ == s[s.len() - 1].0@);
            assert(false);
        }
    }
}

/// Fan-out over units with pairwise-distinct names fills the mapping
/// completely: exactly one entry per unit, and each name is bound to that
/// unit's own outcome — so one unit's failure never disturbs any other
/// unit's entry.
pub proof fn lemma_distinct_names_complete(results: Seq<(String, UnitOutcome)>, m: ResultMap)
    requires
        m.wf(),
        forall|k: Seq<char>|
            #[trigger] m.contains_name(k) == (last_index_with_name(results, k) >= 0),
        forall|k: Seq<char>|
            last_index_with_name(results, k) >= 0 ==> #[trigger] m.value_for(k)
                == results[last_index_with_name(results, k)].1,
        m.num_entries() == num_distinct_names(results),
        forall|p: int, q: int| 0 <= p < q < results.len() ==> results[p].0@ != results[q].0@,
    ensures
        m.num_entries() == results.len(),
        forall|i: int|
            0 <= i < results.len() ==> m.contains_name(#[trigger] results[i].0@) && m.value_for(
                results[i].0@,
            ) == results[i].1,
{
    lemma_num_distinct_all(results);
    assert forall|i: int| 0 <= i < results.len() implies m.contains_name(
        #[trigger] results[i].0@,
    ) && m.value_for(results[i].0@) == results[i].1 by {
        lemma_last_index_distinct(results, i);
    }
}

/// The mapping's entry for a name equals the outcome of one of the units
/// that carried that name: the one whose result arrived last.
pub proof fn lemma_last_write_wins(results: Seq<(String, UnitOutcome)>, m: ResultMap, k: Seq<char>)
    requires
        m.wf(),
        forall|k: Seq<char>|
            #[trigger] m.contains_name(k) == (last_index_with_name(results, k) >= 0),
        forall|k: Seq<char>|
            last_index_with_name(results, k) >= 0 ==> #[trigger] m.value_for(k)
                == results[last_index_with_name(results, k)].1,
        has_name(results, k),
    ensures
        m.contains_name(k),
        exists|i: int|
            0 <= i < results.len() && results[i].0@ == k && m.value_for(k) == results[i].1,
{
    lemma_has_name_iff(results, k);
    let i = last_index_with_name(results, k);
    lemma_last_index_props(results, k);
    assert(0 <= i < results.len() && results[i].0@ == k && m.value_for(k) == results[i].1);
}

/// Two units with identical names assemble to a mapping with a single
/// entry, equal to one of the two units' results.
pub proof fn lemma_duplicate_pair(results: Seq<(String, UnitOutcome)>, m: ResultMap)
    requires
        m.wf(),
        forall|k: Seq<char>|
            #[trigger] m.contains_name(k) == (last_index_with_name(results, k) >= 0),
        forall|k: Seq<char>|
            last_index_with_name(results, k) >= 0 ==> #[trigger] m.value_for(k)
                == results[last_index_with_name(results, k)].1,
        m.num_entries() == num_distinct_names(results),
        results.len() == 2,
        results[0].0@ == results[1].0@,
    ensures
        m.num_entries() == 1,
        m.contains_name(results[0].0@),
        m.value_for(results[0].0@) == results[0].1 || m.value_for(results[0].0@) == results[1].1,
{
    let k = results[0].0@;
    let first = results.drop_last();
    assert(first.len() == 1);
    assert(first.last() == results[0]);
    assert(first.drop_last() =~= Seq::<(String, UnitOutcome)>::empty());
    assert(num_distinct_names(Seq::<(String, UnitOutcome)>::empty()) == 0);
    assert(last_index_with_name(Seq::<(String, UnitOutcome)>::empty(), k) == -1);
    assert(last_index_with_name(first, results[1].0@) == 0);
    assert(num_distinct_names(first) == 1);
    assert(num_distinct_names(results) == 1);
    assert(last_index_with_name(results, k) == 1);
    assert(m.value_for(k) == results[1].1);
}

} // verus!

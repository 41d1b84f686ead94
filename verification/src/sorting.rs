//! The stable sort that keeps the registry's list ordered by (name, kind).

use crate::metric::key_lt;
use crate::metric::key_of;
use crate::metric::lemma_key_before_irreflexive;
use crate::metric::lemma_key_before_transitive;
use crate::metric::lemma_key_not_after_transitive;
use crate::metric::MetricView;
use crate::metric::RegisteredMetric;
use vstd::prelude::*;
use vstd::seq_lib::to_multiset_build;
use vstd::seq_lib::to_multiset_insert;

verus! {

/// No metric stands before one that precedes it by key.
pub open spec fn is_sorted(s: Seq<MetricView>) -> bool {
    forall|i: int, j: int| 0 <= i < j < s.len() ==> !key_lt(#[trigger] s[j], #[trigger] s[i])
}

/// Where `m` goes into `s`: right behind the last metric that it does not
/// precede, so that it lands after every metric with its own key.
pub open spec fn insert_position(s: Seq<MetricView>, m: MetricView) -> int
    decreases s.len(),
{
    if s.len() == 0 {
        0
    } else if key_lt(m, s.last()) {
        insert_position(s.drop_last(), m)
    } else {
        s.len() as int
    }
}

/// `s` with `m` put in at its position.
pub open spec fn insert_sorted(s: Seq<MetricView>, m: MetricView) -> Seq<MetricView> {
    s.insert(insert_position(s, m), m)
}

/// The metrics of `s` ordered by key, metrics of one key in the order in
/// which they stand in `s`.
pub open spec fn sort_by_key(s: Seq<MetricView>) -> Seq<MetricView>
    decreases s.len(),
{
    if s.len() == 0 {
        s
    } else {
        insert_sorted(sort_by_key(s.drop_last()), s.last())
    }
}

/// The position lies inside the list, everything from it on comes after `m`,
/// and the metric right before it does not.
pub proof fn lemma_insert_position(s: Seq<MetricView>, m: MetricView)
    ensures
        0 <= insert_position(s, m) <= s.len(),
        forall|k: int| insert_position(s, m) <= k < s.len() ==> key_lt(m, #[trigger] s[k]),
        insert_position(s, m) > 0 ==> !key_lt(m, s[insert_position(s, m) - 1]),
    decreases s.len(),
{
    if s.len() > 0 && key_lt(m, s.last()) {
        let front = s.drop_last();
        lemma_insert_position(front, m);
        assert forall|k: int| insert_position(s, m) <= k < s.len() implies key_lt(
            m,
            #[trigger] s[k],
        ) by {
            if k < front.len() {
                assert(s[k] == front[k]);
            }
        }
    }
}

/// Sorting changes the order only: the length stays.
pub proof fn lemma_sort_len(s: Seq<MetricView>)
    ensures
        sort_by_key(s).len() == s.len(),
    decreases s.len(),
{
    if s.len() > 0 {
        lemma_sort_len(s.drop_last());
        lemma_insert_position(sort_by_key(s.drop_last()), s.last());
    }
}

/// Putting a metric into a sorted list at its position leaves the list sorted.
pub proof fn lemma_insert_keeps_sorted(s: Seq<MetricView>, m: MetricView)
    requires
        is_sorted(s),
    ensures
        is_sorted(insert_sorted(s, m)),
{
    let p = insert_position(s, m);
    let t = insert_sorted(s, m);
    lemma_insert_position(s, m);
    assert forall|i: int, j: int| 0 <= i < j < t.len() implies !key_lt(
        #[trigger] t[j],
        #[trigger] t[i],
    ) by {
        if j < p {
            assert(t[i] == s[i] && t[j] == s[j]);
        } else if j == p {
            assert(t[i] == s[i]);
            if i < p - 1 {
                lemma_key_not_after_transitive(key_of(s[i]), key_of(s[p - 1]), key_of(m));
            }
        } else if i < p {
            assert(t[i] == s[i] && t[j] == s[j - 1]);
        } else if i == p {
            assert(t[j] == s[j - 1]);
            assert(key_lt(m, s[j - 1]));
            if key_lt(s[j - 1], m) {
                lemma_key_before_transitive(key_of(m), key_of(s[j - 1]), key_of(m));
                lemma_key_before_irreflexive(key_of(m));
            }
        } else {
            assert(t[i] == s[i - 1] && t[j] == s[j - 1]);
        }
    }
}

/// What `sort_by_key` returns is sorted.
pub proof fn lemma_sort_sorted(s: Seq<MetricView>)
    ensures
        is_sorted(sort_by_key(s)),
    decreases s.len(),
{
    if s.len() > 0 {
        lemma_sort_sorted(s.drop_last());
        lemma_insert_keeps_sorted(sort_by_key(s.drop_last()), s.last());
    }
}

/// Sorting neither drops nor invents a metric.
pub proof fn lemma_sort_permutes(s: Seq<MetricView>)
    ensures
        sort_by_key(s).to_multiset() == s.to_multiset(),
    decreases s.len(),
{
    if s.len() > 0 {
        let rest = sort_by_key(s.drop_last());
        lemma_sort_permutes(s.drop_last());
        lemma_insert_position(rest, s.last());
        to_multiset_insert(rest, insert_position(rest, s.last()), s.last());
        to_multiset_build(s.drop_last(), s.last());
        assert(s.drop_last().push(s.last()) =~= s);
    }
}

/// A list that is sorted already is left as it is.
pub proof fn lemma_sort_of_sorted(s: Seq<MetricView>)
    requires
        is_sorted(s),
    ensures
        sort_by_key(s) == s,
    decreases s.len(),
{
    if s.len() > 0 {
        let front = s.drop_last();
        lemma_sort_of_sorted(front);
        lemma_insert_position(front, s.last());
        let p = insert_position(front, s.last());
        if p < front.len() {
            assert(key_lt(s.last(), front[p]));
            assert(front[p] == s[p]);
            assert(!key_lt(s[s.len() - 1], s[p]));
        }
        assert(front.insert(p, s.last()) =~= s);
    }
}

/// Sorts the list in place by (name, kind), keeping metrics of one key in
/// their order.
pub fn sort_metrics(list: &mut Vec<RegisteredMetric>)
    ensures
        final(list).deep_view() == sort_by_key(old(list).deep_view()),
{
    let ghost before = list.deep_view();
    let n = list.len();
    let mut i: usize = 0;
    assert(before.subrange(0, 0) =~= Seq::empty());
    assert(list.deep_view().subrange(0, 0) =~= sort_by_key(before.subrange(0, 0)));
    while i < n
        invariant
            i <= n,
            n == list.len(),
            n == before.len(),
            list.deep_view().subrange(0, i as int) == sort_by_key(before.subrange(0, i as int)),
            list.deep_view().subrange(i as int, n as int) == before.subrange(i as int, n as int),
        decreases n - i,
    {
        let ghost current = list.deep_view();
        let ghost front = current.subrange(0, i as int);
        let ghost moved = current[i as int];
        let mut j: usize = i;
        assert(front.subrange(0, j as int) =~= front);
        while j > 0 && list[i].key_less(&list[j - 1])
            invariant
                j <= i < n,
                n == list.len(),
                list.deep_view() == current,
                front == current.subrange(0, i as int),
                moved == current[i as int],
                insert_position(front, moved) == insert_position(front.subrange(0, j as int), moved),
            decreases j,
        {
            assert(front.subrange(0, j as int).drop_last() =~= front.subrange(0, j as int - 1));
            j -= 1;
        }
        assert(insert_position(front, moved) == j);
        let metric = list.remove(i);
        list.insert(j, metric);
        proof {
            let after = list.deep_view();
            let upto = before.subrange(0, i as int + 1);
            assert(upto.drop_last() =~= before.subrange(0, i as int));
            assert(before.subrange(i as int, n as int)[0] == before[i as int]);
            assert(upto.last() == moved);
            assert(after.subrange(0, i as int + 1) =~= front.insert(j as int, moved));
            let rest = after.subrange(i as int + 1, n as int);
            assert forall|k: int| 0 <= k < rest.len() implies #[trigger] rest[k] == before[i + 1 + k] by {
                assert(current.subrange(i as int, n as int)[k + 1] == before.subrange(
                    i as int,
                    n as int,
                )[k + 1]);
            }
            assert(rest =~= before.subrange(i as int + 1, n as int));
        }
        i += 1;
    }
    assert(list.deep_view().subrange(0, n as int) =~= list.deep_view());
    assert(before.subrange(0, n as int) =~= before);
}

} // verus!

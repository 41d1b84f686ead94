//! What holds of every registry and every rendering.

use crate::metric::key_of;
use crate::metric::lemma_key_before_irreflexive;
use crate::metric::lemma_key_before_total;
use crate::metric::lemma_key_not_after_transitive;
use crate::metric::key_before;
use crate::metric::lemma_key_before_transitive;
use crate::metric::same_key;
use crate::metric::MetricType;
use crate::metric::MetricView;
use crate::render::decimal;
use crate::render::exposition;
use crate::render::label_block;
use crate::render::sample_line;
use crate::render::starts_block;
use crate::sorting::is_sorted;
use crate::sorting::lemma_sort_permutes;
use crate::sorting::lemma_sort_sorted;
use crate::sorting::sort_by_key;
use vstd::prelude::*;
use vstd::relations::sorted_by;
use vstd::relations::total_ordering;
use vstd::seq_lib::lemma_sorted_unique;
use vstd::seq_lib::to_multiset_build;
use vstd::seq_lib::to_multiset_insert;
use vstd::seq_lib::to_multiset_remove;

verus! {

/// In a sorted list the metrics of one name and kind stand together: what
/// stands between two of them is of that name and kind too.
pub proof fn lemma_same_key_contiguous(s: Seq<MetricView>, i: int, k: int, j: int)
    requires
        is_sorted(s),
        0 <= i <= k <= j < s.len(),
        same_key(s[i], s[j]),
    ensures
        same_key(s[i], s[k]),
{
    if i < k && k < j {
        lemma_key_before_irreflexive(key_of(s[i]));
        lemma_key_not_after_transitive(key_of(s[k]), key_of(s[j]), key_of(s[i]));
        lemma_key_before_total(key_of(s[i]), key_of(s[k]));
    }
}

/// A sorted list renders one HELP/TYPE pair per name and kind: a metric
/// opens a block exactly when no metric before it has its name and kind.
pub proof fn lemma_one_block_per_key(s: Seq<MetricView>, i: int)
    requires
        is_sorted(s),
        0 <= i < s.len(),
    ensures
        starts_block(s, i) <==> forall|j: int| 0 <= j < i ==> !same_key(#[trigger] s[j], s[i]),
{
    if starts_block(s, i) {
        assert forall|j: int| 0 <= j < i implies !same_key(#[trigger] s[j], s[i]) by {
            if same_key(s[j], s[i]) {
                lemma_same_key_contiguous(s, j, i - 1, i);
            }
        }
    } else {
        assert(same_key(s[i - 1], s[i]));
    }
}

/// A metric without attributes renders without braces: its line is the
/// name, a space, the value and a line feed.
pub proof fn lemma_no_attributes_no_braces(m: MetricView, value: u64)
    requires
        m.attributes.len() == 0,
    ensures
        label_block(m.attributes) == Seq::<char>::empty(),
        sample_line(m, value) == m.name + " "@ + decimal(value as nat) + "\n"@,
{
    assert(m.name + label_block(m.attributes) =~= m.name);
}

/// Without metrics nothing is rendered, whatever the values.
pub proof fn lemma_empty_renders_nothing(values: Seq<u64>)
    ensures
        exposition(Seq::<MetricView>::empty(), values) == Seq::<char>::empty(),
{
}

/// The names and kinds of a list, in the list's order.
pub open spec fn keys(s: Seq<MetricView>) -> Seq<(Seq<char>, MetricType)> {
    s.map_values(|m: MetricView| key_of(m))
}

/// Lists of the same metrics have the same names and kinds, whatever the
/// order of either.
pub proof fn lemma_keys_permute(a: Seq<MetricView>, b: Seq<MetricView>)
    requires
        a.to_multiset() == b.to_multiset(),
    ensures
        keys(a).to_multiset() == keys(b).to_multiset(),
    decreases a.len(),
{
    a.to_multiset_ensures();
    b.to_multiset_ensures();
    if a.len() == 0 {
        assert(keys(a) =~= keys(b));
    } else {
        let x = a.last();
        assert(a[a.len() - 1] == x);
        assert(a.to_multiset().count(x) > 0);
        assert(b.to_multiset().count(x) > 0);
        assert(b.contains(x));
        let i = choose|i: int| 0 <= i < b.len() && b[i] == x;
        let front = a.drop_last();
        let rest = b.remove(i);
        assert(a.remove(a.len() - 1) =~= front);
        to_multiset_remove(a, a.len() - 1);
        to_multiset_remove(b, i);
        lemma_keys_permute(front, rest);
        assert(keys(a) =~= keys(front).push(key_of(x)));
        assert(keys(b) =~= keys(rest).insert(i, key_of(x)));
        to_multiset_build(keys(front), key_of(x));
        to_multiset_insert(keys(rest), i, key_of(x));
    }
}

/// The order in which metrics were registered does not show in the blocks
/// that are rendered: lists of the same metrics, once sorted, have the same
/// names and kinds at the same places.
pub proof fn lemma_order_independent(a: Seq<MetricView>, b: Seq<MetricView>)
    requires
        a.to_multiset() == b.to_multiset(),
    ensures
        keys(sort_by_key(a)) == keys(sort_by_key(b)),
{
    let x = sort_by_key(a);
    let y = sort_by_key(b);
    let not_after = |p: (Seq<char>, MetricType), q: (Seq<char>, MetricType)| !key_before(q, p);
    lemma_sort_sorted(a);
    lemma_sort_sorted(b);
    lemma_sort_permutes(a);
    lemma_sort_permutes(b);
    lemma_keys_permute(x, y);
    assert(total_ordering(not_after)) by {
        assert forall|p: (Seq<char>, MetricType)| #[trigger] not_after(p, p) by {
            lemma_key_before_irreflexive(p);
        }
        assert forall|p: (Seq<char>, MetricType), q: (Seq<char>, MetricType)|
            #[trigger] not_after(p, q) && #[trigger] not_after(q, p) implies p == q by {
            lemma_key_before_total(p, q);
        }
        assert forall|
            p: (Seq<char>, MetricType),
            q: (Seq<char>, MetricType),
            r: (Seq<char>, MetricType),
        | #[trigger] not_after(p, q) && #[trigger] not_after(q, r) implies not_after(p, r) by {
            lemma_key_not_after_transitive(p, q, r);
        }
        assert forall|p: (Seq<char>, MetricType), q: (Seq<char>, MetricType)|
            #[trigger] not_after(p, q) || #[trigger] not_after(q, p) by {
            if key_before(q, p) && key_before(p, q) {
                lemma_key_before_transitive(p, q, p);
                lemma_key_before_irreflexive(p);
            }
        }
    }
    assert(sorted_by(keys(x), not_after)) by {
        assert forall|i: int, j: int| 0 <= i < j < keys(x).len() implies #[trigger] not_after(
            keys(x)[i],
            keys(x)[j],
        ) by {
            assert(!crate::metric::key_lt(x[j], x[i]));
        }
    }
    assert(sorted_by(keys(y), not_after)) by {
        assert forall|i: int, j: int| 0 <= i < j < keys(y).len() implies #[trigger] not_after(
            keys(y)[i],
            keys(y)[j],
        ) by {
            assert(!crate::metric::key_lt(y[j], y[i]));
        }
    }
    lemma_sorted_unique(keys(x), keys(y), not_after);
}

} // verus!

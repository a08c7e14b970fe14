//! Stable ordering of classified beans by a day count.

use crate::bean::{BeanFreshnessInfo, FreshnessView};
use crate::filters::{lemma_count_in_filter, lemma_filter_insert, lemma_filter_none};
use vstd::prelude::*;

verus! {

/// The day count by which a group is ordered.
#[derive(Debug, Clone, Copy, PartialEq, Eq, Structural)]
pub enum SortKey {
    /// Days left until the flavor window ends.
    DaysLeft,
    /// Days until the flavor window opens.
    DaysUntilReady,
    /// Days since the roast.
    DaysSinceRoast,
}

/// The day count of `info` that `by` names.
pub open spec fn key_of(info: FreshnessView, by: SortKey) -> int {
    match by {
        SortKey::DaysLeft => info.end_day - info.days_since_roast,
        SortKey::DaysUntilReady => info.start_day - info.days_since_roast,
        SortKey::DaysSinceRoast => info.days_since_roast,
    }
}

/// The predicate "has the day count `k`".
pub open spec fn has_key(by: SortKey, k: int) -> spec_fn(FreshnessView) -> bool {
    |info: FreshnessView| key_of(info, by) == k
}

/// Whether the day counts never go down along `s`.
pub open spec fn sorted_by(s: Seq<FreshnessView>, by: SortKey) -> bool {
    forall|i: int, j: int| 0 <= i <= j < s.len() ==> key_of(s[i], by) <= key_of(s[j], by)
}

/// Whether `out` is `input` put in ascending order of the day count with
/// ties left as they were: the counts never go down, and for each count the
/// items that have it are the same, in the same order, on both sides.
pub open spec fn is_stable_sort(
    out: Seq<FreshnessView>,
    input: Seq<FreshnessView>,
    by: SortKey,
) -> bool {
    &&& sorted_by(out, by)
    &&& forall|k: int| #[trigger] out.filter(has_key(by, k)) == input.filter(has_key(by, k))
}

/// Two sequences with the same items per day count are equally long and hold
/// the same items, each as often.
pub proof fn lemma_same_keys_same_items(a: Seq<FreshnessView>, b: Seq<FreshnessView>, by: SortKey)
    requires
        forall|k: int| #[trigger] a.filter(has_key(by, k)) == b.filter(has_key(by, k)),
    ensures
        a.len() == b.len(),
        a.to_multiset() == b.to_multiset(),
{
    assert forall|x: FreshnessView| a.to_multiset().count(x) == b.to_multiset().count(x) by {
        let k = key_of(x, by);
        lemma_count_in_filter(a, has_key(by, k), x);
        lemma_count_in_filter(b, has_key(by, k), x);
        assert(a.filter(has_key(by, k)) == b.filter(has_key(by, k)));
    }
    assert(a.to_multiset() =~= b.to_multiset());
    a.to_multiset_ensures();
    b.to_multiset_ensures();
}

/// Two ordered sequences with the same items per day count, in the same
/// order, are the same sequence.
pub proof fn lemma_sorted_same_keys_equal(
    a: Seq<FreshnessView>,
    b: Seq<FreshnessView>,
    by: SortKey,
)
    requires
        sorted_by(a, by),
        sorted_by(b, by),
        forall|k: int| #[trigger] a.filter(has_key(by, k)) == b.filter(has_key(by, k)),
    ensures
        a == b,
    decreases a.len(),
{
    lemma_same_keys_same_items(a, b, by);
    if a.len() == 0 {
        assert(a =~= b);
    } else {
        let x = a.last();
        let y = b.last();
        let a0 = a.drop_last();
        let b0 = b.drop_last();
        assert(a =~= a0.push(x));
        assert(b =~= b0.push(y));
        a.to_multiset_ensures();
        b.to_multiset_ensures();
        assert(a.contains(x));
        assert(b.contains(y));
        assert(a.to_multiset().count(x) > 0);
        assert(b.to_multiset().count(y) > 0);
        assert(b.to_multiset().count(x) > 0);
        assert(a.to_multiset().count(y) > 0);
        assert(b.contains(x));
        assert(a.contains(y));
        let i = choose|i: int| 0 <= i < b.len() && b[i] == x;
        let j = choose|j: int| 0 <= j < a.len() && a[j] == y;
        assert(key_of(b[i], by) <= key_of(b[b.len() - 1], by));
        assert(key_of(a[j], by) <= key_of(a[a.len() - 1], by));
        let top = key_of(x, by);
        assert(key_of(y, by) == top);
        a0.lemma_filter_push(x, has_key(by, top));
        b0.lemma_filter_push(y, has_key(by, top));
        assert(a.filter(has_key(by, top)) == b.filter(has_key(by, top)));
        let fa = a0.filter(has_key(by, top));
        let fb = b0.filter(has_key(by, top));
        assert(fa.push(x) == fb.push(y));
        assert(fa.push(x).last() == x);
        assert(fb.push(y).last() == y);
        assert(x == y);
        assert(fa =~= fa.push(x).drop_last());
        assert(fb =~= fb.push(y).drop_last());
        assert forall|k: int| #[trigger] a0.filter(has_key(by, k)) == b0.filter(has_key(by, k)) by {
            a0.lemma_filter_push(x, has_key(by, k));
            b0.lemma_filter_push(y, has_key(by, k));
            assert(a.filter(has_key(by, k)) == b.filter(has_key(by, k)));
        }
        assert forall|m: int, n: int| 0 <= m <= n < a0.len() implies key_of(a0[m], by) <= key_of(
            a0[n],
            by,
        ) by {
            assert(a0[m] == a[m] && a0[n] == a[n]);
        }
        assert forall|m: int, n: int| 0 <= m <= n < b0.len() implies key_of(b0[m], by) <= key_of(
            b0[n],
            by,
        ) by {
            assert(b0[m] == b[m] && b0[n] == b[n]);
        }
        lemma_sorted_same_keys_equal(a0, b0, by);
    }
}

/// An input has at most one stable sort.
pub proof fn lemma_stable_sort_unique(
    a: Seq<FreshnessView>,
    b: Seq<FreshnessView>,
    input: Seq<FreshnessView>,
    by: SortKey,
)
    requires
        is_stable_sort(a, input, by),
        is_stable_sort(b, input, by),
    ensures
        a == b,
{
    assert forall|k: int| #[trigger] a.filter(has_key(by, k)) == b.filter(has_key(by, k)) by {
        assert(a.filter(has_key(by, k)) == input.filter(has_key(by, k)));
        assert(b.filter(has_key(by, k)) == input.filter(has_key(by, k)));
    }
    lemma_sorted_same_keys_equal(a, b, by);
}

/// A stable sort holds the items of its input, each as often.
pub proof fn lemma_stable_sort_permutes(
    out: Seq<FreshnessView>,
    input: Seq<FreshnessView>,
    by: SortKey,
)
    requires
        is_stable_sort(out, input, by),
    ensures
        out.len() == input.len(),
        out.to_multiset() == input.to_multiset(),
{
    lemma_same_keys_same_items(out, input, by);
}

/// The day count of `info` that `by` names.
pub fn sort_key(info: &BeanFreshnessInfo, by: SortKey) -> (k: i128)
    ensures
        k == key_of(info@, by),
{
    match by {
        SortKey::DaysLeft => info.end_day as i128 - info.days_since_roast as i128,
        SortKey::DaysUntilReady => info.start_day as i128 - info.days_since_roast as i128,
        SortKey::DaysSinceRoast => info.days_since_roast as i128,
    }
}

/// Puts `items` in ascending order of the day count that `by` names. Items
/// with the same count keep their order.
pub fn sort_stable(items: Vec<BeanFreshnessInfo>, by: SortKey) -> (out: Vec<BeanFreshnessInfo>)
    ensures
        is_stable_sort(out.deep_view(), items.deep_view(), by),
        out.len() == items.len(),
{
    let ghost input = items.deep_view();
    let mut rest = items;
    let mut out: Vec<BeanFreshnessInfo> = Vec::new();
    proof {
        assert(input.skip(rest.len() as int) =~= Seq::<FreshnessView>::empty());
        assert(out.deep_view() =~= Seq::<FreshnessView>::empty());
        assert(rest.deep_view().take(rest.len() as int) =~= rest.deep_view());
    }
    while rest.len() > 0
        invariant
            rest.len() <= input.len(),
            rest.deep_view() == input.take(rest.len() as int),
            out.len() + rest.len() == input.len(),
            is_stable_sort(out.deep_view(), input.skip(rest.len() as int), by),
        decreases rest.len(),
    {
        let ghost before = out.deep_view();
        let ghost done = input.skip(rest.len() as int);
        let ghost old_rest = rest.deep_view();
        let item = rest.pop().unwrap();
        let key = sort_key(&item, by);
        proof {
            assert(item@ == old_rest[old_rest.len() - 1]);
            assert(item@ == input[rest.len() as int]);
            assert(rest.deep_view() =~= input.take(rest.len() as int));
        }
        let mut at: usize = 0;
        while at < out.len() && sort_key(&out[at], by) < key
            invariant
                at <= out.len(),
                out.deep_view() == before,
                key == key_of(item@, by),
                forall|j: int| 0 <= j < at ==> key_of(#[trigger] before[j], by) < key,
            decreases out.len() - at,
        {
            assert(out.deep_view()[at as int] == out@[at as int]@);
            at += 1;
        }
        proof {
            if at < out.len() {
                assert(before[at as int] == out@[at as int]@);
            }
        }
        out.insert(at, item);
        proof {
            let after = out.deep_view();
            let grown = input.skip(rest.len() as int);
            assert(after =~= before.insert(at as int, item@));
            assert(grown =~= seq![item@] + done);
            assert forall|i: int, j: int| 0 <= i <= j < after.len() implies key_of(after[i], by)
                <= key_of(after[j], by) by {
                if i < at {
                    assert(after[i] == before[i]);
                }
                if j < at {
                    assert(after[j] == before[j]);
                }
                if i > at {
                    assert(after[i] == before[i - 1]);
                }
                if j > at {
                    assert(after[j] == before[j - 1]);
                    assert(key_of(before[at as int], by) <= key_of(before[j - 1], by));
                }
            }
            assert forall|k: int| #[trigger]
                after.filter(has_key(by, k)) == grown.filter(has_key(by, k)) by {
                let pred = has_key(by, k);
                lemma_filter_insert(before, at as int, item@, pred);
                lemma_filter_insert(done, 0, item@, pred);
                assert(done.insert(0, item@) =~= grown);
                assert(done.take(0) =~= Seq::<FreshnessView>::empty());
                assert(done.skip(0) =~= done);
                lemma_filter_none(done.take(0), pred);
                assert(before.filter(pred) == done.filter(pred));
                if key == k {
                    assert forall|j: int| 0 <= j < before.take(at as int).len() implies !pred(
                        #[trigger] before.take(at as int)[j],
                    ) by {
                        assert(before.take(at as int)[j] == before[j]);
                    }
                    lemma_filter_none(before.take(at as int), pred);
                    assert(after.filter(pred) =~= grown.filter(pred));
                } else {
                    assert(after.filter(pred) =~= grown.filter(pred));
                }
            }
        }
    }
    proof {
        assert(input.skip(0) =~= input);
    }
    out
}

} // verus!

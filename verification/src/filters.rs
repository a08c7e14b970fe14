//! Facts about what a filter keeps of a sequence.

use vstd::prelude::*;

verus! {

/// An item that passes a filter occurs as often after it as before.
pub proof fn lemma_count_in_filter<T>(s: Seq<T>, pred: spec_fn(T) -> bool, x: T)
    requires
        pred(x),
    ensures
        s.filter(pred).to_multiset().count(x) == s.to_multiset().count(x),
    decreases s.len(),
{
    broadcast use vstd::seq_lib::group_to_multiset_ensures;

    reveal(Seq::filter);
    if s.len() == 0 {
    } else {
        let rest = s.drop_last();
        lemma_count_in_filter(rest, pred, x);
        assert(s =~= rest.push(s.last()));
    }
}

/// Where no item passes, nothing is left.
pub proof fn lemma_filter_none<T>(s: Seq<T>, pred: spec_fn(T) -> bool)
    requires
        forall|i: int| 0 <= i < s.len() ==> !pred(#[trigger] s[i]),
    ensures
        s.filter(pred) == Seq::<T>::empty(),
    decreases s.len(),
{
    reveal(Seq::filter);
    if s.len() > 0 {
        lemma_filter_none(s.drop_last(), pred);
    }
}

/// What a filter keeps of a sequence with one more item put in at `at`.
pub proof fn lemma_filter_insert<T>(s: Seq<T>, at: int, x: T, pred: spec_fn(T) -> bool)
    requires
        0 <= at <= s.len(),
    ensures
        s.insert(at, x).filter(pred) == s.take(at).filter(pred) + seq![x].filter(pred) + s.skip(
            at,
        ).filter(pred),
        s.filter(pred) == s.take(at).filter(pred) + s.skip(at).filter(pred),
        seq![x].filter(pred) == if pred(x) {
            seq![x]
        } else {
            Seq::<T>::empty()
        },
{
    let head = s.take(at);
    let tail = s.skip(at);
    assert(s.insert(at, x) =~= head + seq![x] + tail);
    assert(s =~= head + tail);
    Seq::filter_distributes_over_add(head + seq![x], tail, pred);
    Seq::filter_distributes_over_add(head, seq![x], pred);
    Seq::filter_distributes_over_add(head, tail, pred);
    reveal_with_fuel(Seq::filter, 2);
    assert(seq![x].drop_last() =~= Seq::<T>::empty());
    assert(seq![x].last() == x);
    if pred(x) {
        assert(seq![x].filter(pred) =~= seq![x]);
    } else {
        assert(seq![x].filter(pred) =~= Seq::<T>::empty());
    }
}

/// What a filter keeps passes it and was there before.
pub proof fn lemma_filter_member<T>(s: Seq<T>, pred: spec_fn(T) -> bool, x: T)
    requires
        s.filter(pred).contains(x),
    ensures
        pred(x),
        s.contains(x),
    decreases s.len(),
{
    reveal(Seq::filter);
    if s.len() > 0 {
        let rest = s.drop_last();
        if pred(s.last()) && x == s.last() {
            assert(s[s.len() - 1] == x);
        } else {
            let kept = rest.filter(pred);
            if pred(s.last()) {
                let i = choose|i: int| 0 <= i < s.filter(pred).len() && s.filter(pred)[i] == x;
                assert(kept.push(s.last())[i] == x);
                assert(kept[i] == x);
            }
            lemma_filter_member(rest, pred, x);
            let j = choose|j: int| 0 <= j < rest.len() && rest[j] == x;
            assert(s[j] == x);
        }
    }
}

/// What passes a filter is kept by it.
pub proof fn lemma_member_filter<T>(s: Seq<T>, pred: spec_fn(T) -> bool, x: T)
    requires
        s.contains(x),
        pred(x),
    ensures
        s.filter(pred).contains(x),
    decreases s.len(),
{
    reveal(Seq::filter);
    if s.len() > 0 {
        let rest = s.drop_last();
        let kept = rest.filter(pred);
        if x == s.last() {
            assert(kept.push(x)[kept.len() as int] == x);
        } else {
            let i = choose|i: int| 0 <= i < s.len() && s[i] == x;
            assert(rest[i] == x);
            lemma_member_filter(rest, pred, x);
            let j = choose|j: int| 0 <= j < kept.len() && kept[j] == x;
            if pred(s.last()) {
                assert(kept.push(s.last())[j] == x);
            }
        }
    }
}

} // verus!

//! Properties of the two-way merge, stated over its mathematical model.

use vstd::prelude::*;
use crate::order::{
    Order,
    Natural,
    strict_weak,
    sorted_by,
    lemma_natural_strict_weak,
};
use vstd::laws_cmp::obeys_cmp;
use crate::merge::merged;
use vstd::multiset::Multiset;

verus! {

broadcast use vstd::seq_lib::group_to_multiset_ensures;

/// Merging keeps every element: the output holds exactly the elements of both
/// inputs, with multiplicity, whatever the policy and whether or not the
/// inputs are sorted.
pub proof fn lemma_merged_multiset<T, P: Order<T>>(ord: &P, a: Seq<T>, b: Seq<T>)
    ensures
        merged(ord, a, b).to_multiset() == a.to_multiset().add(b.to_multiset()),
    decreases a.len() + b.len(),
{
    broadcast use vstd::multiset::group_multiset_axioms;

    if a.len() == 0 {
        assert(a.to_multiset() =~= Multiset::empty());
        assert(merged(ord, a, b).to_multiset() =~= a.to_multiset().add(b.to_multiset()));
    } else if b.len() == 0 {
        assert(b.to_multiset() =~= Multiset::empty());
        assert(merged(ord, a, b).to_multiset() =~= a.to_multiset().add(b.to_multiset()));
    } else if ord.before(a[0], b[0]) {
        let t = merged(ord, a.drop_first(), b);
        lemma_merged_multiset(ord, a.drop_first(), b);
        vstd::seq_lib::lemma_multiset_commutative(seq![a[0]], t);
        vstd::seq_lib::lemma_multiset_commutative(seq![a[0]], a.drop_first());
        assert(seq![a[0]] + a.drop_first() =~= a);
        assert(merged(ord, a, b).to_multiset() =~= a.to_multiset().add(b.to_multiset()));
    } else {
        let t = merged(ord, a, b.drop_first());
        lemma_merged_multiset(ord, a, b.drop_first());
        vstd::seq_lib::lemma_multiset_commutative(seq![b[0]], t);
        vstd::seq_lib::lemma_multiset_commutative(seq![b[0]], b.drop_first());
        assert(seq![b[0]] + b.drop_first() =~= b);
        assert(merged(ord, a, b).to_multiset() =~= a.to_multiset().add(b.to_multiset()));
    }
}

/// Every element of a merge comes from one of its inputs.
proof fn lemma_merged_contains<T, P: Order<T>>(ord: &P, a: Seq<T>, b: Seq<T>, x: T)
    requires
        merged(ord, a, b).contains(x),
    ensures
        a.contains(x) || b.contains(x),
{
    lemma_merged_multiset(ord, a, b);
    assert(merged(ord, a, b).to_multiset().count(x) > 0);
}

/// An element that nothing in `t` goes before, followed by a sorted `t`, is sorted.
proof fn lemma_sorted_cons<T, P: Order<T>>(ord: &P, h: T, t: Seq<T>)
    requires
        sorted_by(ord, t),
        forall|k: int| 0 <= k < t.len() ==> !ord.before(#[trigger] t[k], h),
    ensures
        sorted_by(ord, seq![h] + t),
{
    let s = seq![h] + t;
    assert forall|i: int, j: int| 0 <= i < j < s.len() implies !ord.before(
        #[trigger] s[j],
        #[trigger] s[i],
    ) by {
        assert(s[j] == t[j - 1]);
        if i > 0 {
            assert(s[i] == t[i - 1]);
        }
    }
}

/// Merging two sorted inputs under a strict weak ordering gives a sorted
/// output whose length is the sum of the inputs' lengths.
pub proof fn lemma_merged_sorted<T, P: Order<T>>(ord: &P, a: Seq<T>, b: Seq<T>)
    requires
        strict_weak(ord),
        sorted_by(ord, a),
        sorted_by(ord, b),
    ensures
        sorted_by(ord, merged(ord, a, b)),
        merged(ord, a, b).len() == a.len() + b.len(),
    decreases a.len() + b.len(),
{
    crate::merge::lemma_merged_len(ord, a, b);
    if a.len() > 0 && b.len() > 0 {
        let a1 = a.drop_first();
        let b1 = b.drop_first();
        assert(sorted_by(ord, a1)) by {
            assert forall|i: int, j: int| 0 <= i < j < a1.len() implies !ord.before(
                #[trigger] a1[j],
                #[trigger] a1[i],
            ) by {
                assert(a1[j] == a[j + 1] && a1[i] == a[i + 1]);
            }
        }
        assert(sorted_by(ord, b1)) by {
            assert forall|i: int, j: int| 0 <= i < j < b1.len() implies !ord.before(
                #[trigger] b1[j],
                #[trigger] b1[i],
            ) by {
                assert(b1[j] == b[j + 1] && b1[i] == b[i + 1]);
            }
        }
        if ord.before(a[0], b[0]) {
            let t = merged(ord, a1, b);
            lemma_merged_sorted(ord, a1, b);
            assert forall|k: int| 0 <= k < t.len() implies !ord.before(#[trigger] t[k], a[0]) by {
                let x = t[k];
                assert(t.contains(x));
                lemma_merged_contains(ord, a1, b, x);
                if a1.contains(x) {
                    let i = choose|i: int| 0 <= i < a1.len() && a1[i] == x;
                    assert(a[i + 1] == x);
                    assert(!ord.before(a[i + 1], a[0]));
                } else {
                    let j = choose|j: int| 0 <= j < b.len() && b[j] == x;
                    if j > 0 {
                        assert(!ord.before(b[j], b[0]));
                    }
                    if ord.before(x, a[0]) {
                        assert(ord.before(x, b[0]));
                    }
                }
            }
            lemma_sorted_cons(ord, a[0], t);
        } else {
            let t = merged(ord, a, b1);
            lemma_merged_sorted(ord, a, b1);
            assert forall|k: int| 0 <= k < t.len() implies !ord.before(#[trigger] t[k], b[0]) by {
                let x = t[k];
                assert(t.contains(x));
                lemma_merged_contains(ord, a, b1, x);
                if b1.contains(x) {
                    let j = choose|j: int| 0 <= j < b1.len() && b1[j] == x;
                    assert(b[j + 1] == x);
                    assert(!ord.before(b[j + 1], b[0]));
                } else {
                    let i = choose|i: int| 0 <= i < a.len() && a[i] == x;
                    if i > 0 {
                        assert(!ord.before(a[i], a[0]));
                    }
                    if ord.before(x, b[0]) {
                        assert(ord.before(x, a[0]) || ord.before(a[0], b[0]));
                    }
                }
            }
            lemma_sorted_cons(ord, b[0], t);
        }
    }
}

/// Merging with an empty input gives the other input unchanged; merging two
/// empty inputs gives nothing.
pub proof fn lemma_merged_empty<T, P: Order<T>>(ord: &P, a: Seq<T>)
    ensures
        merged(ord, a, Seq::empty()) == a,
        merged(ord, Seq::empty(), a) == a,
        merged(ord, Seq::<T>::empty(), Seq::empty()).len() == 0,
{
}

/// Under a strict weak ordering, merging is associative: merging the merge of
/// `a` and `b` with `c` gives exactly the merge of `a` with the merge of `b`
/// and `c`, element for element, ties included.
pub proof fn lemma_merged_associative<T, P: Order<T>>(ord: &P, a: Seq<T>, b: Seq<T>, c: Seq<T>)
    requires
        strict_weak(ord),
    ensures
        merged(ord, merged(ord, a, b), c) == merged(ord, a, merged(ord, b, c)),
    decreases a.len() + b.len() + c.len(),
{
    if a.len() == 0 || b.len() == 0 || c.len() == 0 {
        lemma_merged_empty(ord, a);
        lemma_merged_empty(ord, b);
        lemma_merged_empty(ord, c);
        return;
    }
    let m = merged(ord, a, b);
    let n = merged(ord, b, c);
    crate::merge::lemma_merged_len(ord, a, b);
    crate::merge::lemma_merged_len(ord, b, c);
    let (a0, b0, c0) = (a[0], b[0], c[0]);
    if ord.before(a0, b0) && ord.before(a0, c0) {
        let m1 = merged(ord, a.drop_first(), b);
        assert(m == seq![a0] + m1);
        assert(m.drop_first() =~= m1);
        assert(m[0] == a0);
        lemma_merged_associative(ord, a.drop_first(), b, c);
        assert(merged(ord, m, c) == seq![a0] + merged(ord, m1, c));
        assert(ord.before(a0, n[0]));
        assert(merged(ord, a, n) == seq![a0] + merged(ord, a.drop_first(), n));
    } else if !ord.before(a0, b0) && ord.before(b0, c0) {
        let m1 = merged(ord, a, b.drop_first());
        let n1 = merged(ord, b.drop_first(), c);
        assert(m == seq![b0] + m1);
        assert(m.drop_first() =~= m1);
        assert(m[0] == b0);
        assert(n == seq![b0] + n1);
        assert(n.drop_first() =~= n1);
        assert(n[0] == b0);
        lemma_merged_associative(ord, a, b.drop_first(), c);
        assert(merged(ord, m, c) == seq![b0] + merged(ord, m1, c));
        assert(merged(ord, a, n) == seq![b0] + merged(ord, a, n1));
    } else {
        let n1 = merged(ord, b, c.drop_first());
        assert(!ord.before(m[0], c0));
        assert(!ord.before(b0, c0)) by {
            if ord.before(b0, c0) {
                assert(ord.before(a0, b0));
            }
        }
        assert(!ord.before(a0, c0)) by {
            if ord.before(a0, c0) {
                assert(ord.before(a0, b0) || ord.before(b0, c0));
            }
        }
        assert(n == seq![c0] + n1);
        assert(n.drop_first() =~= n1);
        assert(n[0] == c0);
        lemma_merged_associative(ord, a, b, c.drop_first());
        assert(merged(ord, m, c) == seq![c0] + merged(ord, m, c.drop_first()));
        assert(merged(ord, a, n) == seq![c0] + merged(ord, a, n1));
    }
}

/// Merging two inputs sorted by the natural ordering of `T` gives an output
/// sorted by that ordering, as long as `T`'s comparison obeys the laws of a
/// total order (true of the primitive integer types).
pub proof fn lemma_natural_merged_sorted<T: Ord>(a: Seq<T>, b: Seq<T>)
    requires
        obeys_cmp::<T>(),
        sorted_by(&Natural, a),
        sorted_by(&Natural, b),
    ensures
        sorted_by(&Natural, merged(&Natural, a, b)),
        merged(&Natural, a, b).len() == a.len() + b.len(),
{
    lemma_natural_strict_weak::<T>();
    lemma_merged_sorted(&Natural, a, b);
}

/// Under the natural ordering of `T`, nesting merges either way gives the
/// same output, as long as `T`'s comparison obeys the laws of a total order.
pub proof fn lemma_natural_merged_associative<T: Ord>(a: Seq<T>, b: Seq<T>, c: Seq<T>)
    requires
        obeys_cmp::<T>(),
    ensures
        merged(&Natural, merged(&Natural, a, b), c) == merged(
            &Natural,
            a,
            merged(&Natural, b, c),
        ),
{
    lemma_natural_strict_weak::<T>();
    lemma_merged_associative(&Natural, a, b, c);
}

} // verus!

//! Ordering policies: the predicate that decides which side is emitted first.

use vstd::prelude::*;
use vstd::std_specs::cmp::{OrdSpec, PartialEqSpec, PartialOrdSpec};
use vstd::laws_cmp::{obeys_cmp, obeys_cmp_ord, obeys_partial_cmp_spec_properties};
use vstd::laws_eq::obeys_eq_spec_properties;
use core::cmp::Ordering;

verus! {

/// A policy that answers "should `a` be emitted before `b`".
pub trait Order<T> {
    /// The relation the policy computes.
    spec fn before(&self, a: T, b: T) -> bool;

    /// Whether the executable comparison agrees with `before`.
    spec fn consistent(&self) -> bool;

    /// Evaluates the policy on two elements.
    fn less(&self, a: &T, b: &T) -> (r: bool)
        requires
            self.consistent(),
        ensures
            r == self.before(*a, *b),
    ;
}

/// The natural ordering of the element type: `a` goes first when `a < b`.
pub struct Natural;

/// The natural ordering turned around: `a` goes first when `b < a`.
pub struct Reverse;

impl<T: Ord> Order<T> for Natural {
    open spec fn before(&self, a: T, b: T) -> bool {
        a.partial_cmp_spec(&b) == Some(core::cmp::Ordering::Less)
    }

    open spec fn consistent(&self) -> bool {
        T::obeys_partial_cmp_spec()
    }

    fn less(&self, a: &T, b: &T) -> (r: bool) {
        *a < *b
    }
}

impl<T: Ord> Order<T> for Reverse {
    open spec fn before(&self, a: T, b: T) -> bool {
        b.partial_cmp_spec(&a) == Some(core::cmp::Ordering::Less)
    }

    open spec fn consistent(&self) -> bool {
        T::obeys_partial_cmp_spec()
    }

    fn less(&self, a: &T, b: &T) -> (r: bool) {
        *b < *a
    }
}

/// `before` is a strict weak ordering: irreflexive, transitive, and
/// incomparability is transitive (stated as: if `a` goes before `c`, then any
/// `b` goes after `a` or before `c`).
pub open spec fn strict_weak<T, P: Order<T>>(ord: &P) -> bool {
    &&& forall|a: T| !(#[trigger] ord.before(a, a))
    &&& forall|a: T, b: T, c: T|
        #[trigger] ord.before(a, b) && #[trigger] ord.before(b, c) ==> ord.before(a, c)
    &&& forall|a: T, b: T, c: T|
        #![trigger ord.before(a, b), ord.before(b, c)]
        ord.before(a, c) ==> ord.before(a, b) || ord.before(b, c)
}

/// No element of `s` goes before an element that precedes it.
pub open spec fn sorted_by<T, P: Order<T>>(ord: &P, s: Seq<T>) -> bool {
    forall|i: int, j: int| 0 <= i < j < s.len() ==> !ord.before(#[trigger] s[j], #[trigger] s[i])
}

/// For any type whose comparison obeys the laws of a total order, the
/// natural ordering is a strict weak ordering.
pub proof fn lemma_natural_strict_weak<T: Ord>()
    requires
        obeys_cmp::<T>(),
    ensures
        strict_weak::<T, Natural>(&Natural),
{
    reveal(obeys_partial_cmp_spec_properties);
    reveal(obeys_eq_spec_properties);
    reveal(obeys_cmp_ord);
    let lt = |x: T, y: T| x.partial_cmp_spec(&y) == Some(Ordering::Less);
    assert forall|a: T| !(#[trigger] Order::<T>::before(&Natural, a, a)) by {
        assert(lt(a, a) <==> a.partial_cmp_spec(&a) == Some(Ordering::Greater));
    }
    assert forall|a: T, b: T, c: T|
        #[trigger] Order::<T>::before(&Natural, a, b) && #[trigger] Order::<T>::before(
            &Natural,
            b,
            c,
        ) implies Order::<T>::before(&Natural, a, c) by {
        assert(lt(a, b) && b.partial_cmp_spec(&c) == Some(Ordering::Less));
    }
    assert forall|a: T, b: T, c: T|
        #![trigger Order::<T>::before(&Natural, a, b), Order::<T>::before(&Natural, b, c)]
        Order::<T>::before(&Natural, a, c) implies Order::<T>::before(&Natural, a, b)
            || Order::<T>::before(&Natural, b, c) by {
        assert(a.partial_cmp_spec(&b) == Some(a.cmp_spec(&b)));
        assert(b.partial_cmp_spec(&c) == Some(b.cmp_spec(&c)));
        if a.cmp_spec(&b) == Ordering::Greater {
            assert(lt(b, a));
            assert(a.partial_cmp_spec(&c) == Some(Ordering::Less));
            assert(lt(b, c));
        } else if a.cmp_spec(&b) == Ordering::Equal {
            assert(a.eq_spec(&b));
            if b.cmp_spec(&c) == Ordering::Greater {
                assert(lt(c, b));
                assert(c.partial_cmp_spec(&b) == Some(Ordering::Less));
                assert(lt(a, b));
            } else if b.cmp_spec(&c) == Ordering::Equal {
                assert(b.eq_spec(&c));
                assert(a.eq_spec(&c));
                assert(a.partial_cmp_spec(&c) == Some(Ordering::Equal));
            }
        }
    }
}

/// For any type whose comparison obeys the laws of a total order, the
/// reversed ordering is a strict weak ordering.
pub proof fn lemma_reverse_strict_weak<T: Ord>()
    requires
        obeys_cmp::<T>(),
    ensures
        strict_weak::<T, Reverse>(&Reverse),
{
    lemma_natural_strict_weak::<T>();
    assert forall|a: T, b: T, c: T|
        #![trigger Order::<T>::before(&Reverse, a, b), Order::<T>::before(&Reverse, b, c)]
        Order::<T>::before(&Reverse, a, c) implies Order::<T>::before(&Reverse, a, b)
            || Order::<T>::before(&Reverse, b, c) by {
        assert(Order::<T>::before(&Natural, c, a));
        assert(Order::<T>::before(&Natural, c, b) || Order::<T>::before(&Natural, b, a));
    }
    assert forall|a: T, b: T, c: T|
        #[trigger] Order::<T>::before(&Reverse, a, b) && #[trigger] Order::<T>::before(
            &Reverse,
            b,
            c,
        ) implies Order::<T>::before(&Reverse, a, c) by {
        assert(Order::<T>::before(&Natural, c, b) && Order::<T>::before(&Natural, b, a));
    }
    assert forall|a: T| !(#[trigger] Order::<T>::before(&Reverse, a, a)) by {
        assert(!Order::<T>::before(&Natural, a, a));
    }
}

} // verus!

//! The merge engine: two sources, one lookahead slot per side, and a policy.

use vstd::prelude::*;
use crate::order::{Order, Natural};
use crate::source::Source;
use vstd::std_specs::cmp::PartialOrdSpec;

verus! {

/// The elements held in a lookahead slot.
pub open spec fn slot<T>(o: Option<T>) -> Seq<T> {
    match o {
        Some(x) => seq![x],
        None => Seq::empty(),
    }
}

/// The two-way merge of `a` and `b` under `ord`: the head of `a` goes first
/// when it goes before the head of `b`; otherwise (ties included) the head
/// of `b` does.
pub open spec fn merged<T, P: Order<T>>(ord: &P, a: Seq<T>, b: Seq<T>) -> Seq<T>
    decreases a.len() + b.len(),
{
    if a.len() == 0 {
        b
    } else if b.len() == 0 {
        a
    } else if ord.before(a[0], b[0]) {
        seq![a[0]] + merged(ord, a.drop_first(), b)
    } else {
        seq![b[0]] + merged(ord, a, b.drop_first())
    }
}

/// The merge always has as many elements as its two inputs together.
pub proof fn lemma_merged_len<T, P: Order<T>>(ord: &P, a: Seq<T>, b: Seq<T>)
    ensures
        merged(ord, a, b).len() == a.len() + b.len(),
    decreases a.len() + b.len(),
{
    if a.len() > 0 && b.len() > 0 {
        if ord.before(a[0], b[0]) {
            lemma_merged_len(ord, a.drop_first(), b);
        } else {
            lemma_merged_len(ord, a, b.drop_first());
        }
    }
}

/// A sorted merge over two sources, each assumed sorted under the policy `P`.
///
/// Each side has a lookahead slot that holds an element already pulled from
/// that side's source but not yet handed out. A slot is refilled lazily: only
/// when a pull finds it empty.
pub struct MergeIter<L, R, T, P> {
    left: L,
    right: R,
    l_next: Option<T>,
    r_next: Option<T>,
    order: P,
}

impl<L, R, T, P> MergeIter<L, R, T, P> {
    /// What is still to come from the left side: its slot, then its source.
    pub closed spec fn left_pending(&self) -> Seq<T> where L: Source<T> {
        slot(self.l_next) + self.left.rest()
    }

    /// What is still to come from the right side: its slot, then its source.
    pub closed spec fn right_pending(&self) -> Seq<T> where R: Source<T> {
        slot(self.r_next) + self.right.rest()
    }

    /// The left side's source, without its slot.
    pub closed spec fn left_source(&self) -> L {
        self.left
    }

    /// The right side's source, without its slot.
    pub closed spec fn right_source(&self) -> R {
        self.right
    }

    /// How many of the two lookahead slots hold an element.
    pub closed spec fn held(&self) -> int {
        (if self.l_next is Some { 1int } else { 0int }) + (if self.r_next is Some { 1int } else { 0int })
    }

    /// The ordering policy in use.
    pub closed spec fn policy(&self) -> P {
        self.order
    }
}

impl<L: Source<T>, R: Source<T>, T: Ord> MergeIter<L, R, T, Natural> {
    /// Merges `left` and `right` under the natural ordering of `T`. Nothing is
    /// pulled from either source until the first element is asked for.
    /// `T`'s comparison must behave as its specification says, which holds
    /// of the primitive integer types.
    pub fn new(left: L, right: R) -> (m: Self)
        requires
            left.wf(),
            right.wf(),
            T::obeys_partial_cmp_spec(),
        ensures
            m.wf(),
            m.left_pending() == left.rest(),
            m.right_pending() == right.rest(),
            m.rest() == merged(&Natural, left.rest(), right.rest()),
            m.left_source() == left,
            m.right_source() == right,
            m.held() == 0,
    {
        let m = MergeIter { left, right, l_next: None, r_next: None, order: Natural };
        assert(m.left_pending() =~= left.rest());
        assert(m.right_pending() =~= right.rest());
        m
    }
}

impl<L: Source<T>, R: Source<T>, T, P: Order<T>> MergeIter<L, R, T, P> {
    /// Merges `left` and `right` under the policy `cmp`, which should order
    /// the sources the way they were sorted. Nothing is pulled from either
    /// source until the first element is asked for.
    pub fn with_custom_ordering(left: L, right: R, cmp: P) -> (m: Self)
        requires
            left.wf(),
            right.wf(),
            cmp.consistent(),
        ensures
            m.wf(),
            m.policy() == cmp,
            m.left_pending() == left.rest(),
            m.right_pending() == right.rest(),
            m.rest() == merged(&cmp, left.rest(), right.rest()),
            m.left_source() == left,
            m.right_source() == right,
            m.held() == 0,
    {
        let m = MergeIter { left, right, l_next: None, r_next: None, order: cmp };
        assert(m.left_pending() =~= left.rest());
        assert(m.right_pending() =~= right.rest());
        m
    }
}

impl<L: Source<T>, R: Source<T>, T, P: Order<T>> Source<T> for MergeIter<L, R, T, P> {
    open spec fn rest(&self) -> Seq<T> {
        merged(&self.policy(), self.left_pending(), self.right_pending())
    }

    /// The lower bound adds both sources' lower bounds and the held elements,
    /// saturating at `usize::MAX`. The upper bound adds both sources' upper
    /// bounds and the held elements; it is given only when both sources give
    /// one and the sum fits in `usize`.
    open spec fn hint(&self) -> (usize, Option<usize>) {
        let l = self.left_source().hint();
        let r = self.right_source().hint();
        let lo = l.0 + r.0 + self.held();
        let lo = if lo > usize::MAX { usize::MAX } else { lo as usize };
        let hi = match (l.1, r.1) {
            (Some(a), Some(b)) => if a + b + self.held() <= usize::MAX {
                Some((a + b + self.held()) as usize)
            } else {
                None
            },
            _ => None,
        };
        (lo, hi)
    }

    closed spec fn wf(&self) -> bool {
        &&& self.left.wf()
        &&& self.right.wf()
        &&& self.order.consistent()
    }

    /// Exactly one side gives up one element: the left one when its head goes
    /// before the right one's, the right one otherwise. The other side keeps
    /// what it had.
    fn next(&mut self) -> (r: Option<T>)
        ensures
            final(self).policy() == old(self).policy(),
            ({
                let lp = old(self).left_pending();
                let rp = old(self).right_pending();
                if lp.len() > 0 && (rp.len() == 0 || old(self).policy().before(lp[0], rp[0])) {
                    &&& final(self).left_pending() == lp.drop_first()
                    &&& final(self).right_pending() == rp
                } else if rp.len() > 0 {
                    &&& final(self).left_pending() == lp
                    &&& final(self).right_pending() == rp.drop_first()
                } else {
                    &&& final(self).left_pending() == lp
                    &&& final(self).right_pending() == rp
                }
            }),
    {
        if self.l_next.is_none() {
            self.l_next = self.left.next();
        }
        if self.r_next.is_none() {
            self.r_next = self.right.next();
        }
        let ghost lp = self.left_pending();
        let ghost rp = self.right_pending();
        assert(lp =~= old(self).left_pending());
        assert(rp =~= old(self).right_pending());
        let l = self.l_next.take();
        let r = self.r_next.take();
        match (l, r) {
            (Some(l), Some(r)) => {
                if self.order.less(&l, &r) {
                    self.r_next = Some(r);
                    assert(lp.drop_first() =~= self.left_pending());
                    assert(rp =~= self.right_pending());
                    Some(l)
                } else {
                    self.l_next = Some(l);
                    assert(lp =~= self.left_pending());
                    assert(rp.drop_first() =~= self.right_pending());
                    Some(r)
                }
            },
            (Some(l), None) => {
                assert(lp.drop_first() =~= self.left_pending());
                assert(rp.len() == 0);
                assert(self.right_pending() =~= rp);
                Some(l)
            },
            (None, Some(r)) => {
                assert(rp.drop_first() =~= self.right_pending());
                assert(lp.len() == 0);
                assert(self.left_pending() =~= lp);
                Some(r)
            },
            (None, None) => {
                assert(self.left_pending() =~= lp);
                assert(self.right_pending() =~= rp);
                None
            },
        }
    }

    /// Adds up both sides' bounds together with the elements held in the
    /// slots. A lower bound that does not fit in `usize` saturates; an upper
    /// bound that does not fit, or that one side cannot give, is dropped.
    fn size_hint(&self) -> (r: (usize, Option<usize>)) {
        let (l_lo, l_hi) = self.left.size_hint();
        let (r_lo, r_hi) = self.right.size_hint();
        let held: usize = if self.l_next.is_some() { 1 } else { 0 };
        let held: usize = if self.r_next.is_some() { held + 1 } else { held };
        proof {
            lemma_merged_len(&self.order, self.left_pending(), self.right_pending());
        }
        let lo = l_lo.saturating_add(r_lo).saturating_add(held);
        let hi = match (l_hi, r_hi) {
            (Some(a), Some(b)) => match a.checked_add(b) {
                Some(s) => s.checked_add(held),
                None => None,
            },
            _ => None,
        };
        (lo, hi)
    }
}

} // verus!

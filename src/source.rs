//! The pull interface shared by the inputs and the output of a merge.

use vstd::prelude::*;
use std::collections::VecDeque;

verus! {

/// A producer of elements, pulled one at a time.
///
/// The model `rest` is a finite sequence, so the contracts below speak of
/// sources that run out. Nothing in the code reads ahead, so an endless
/// producer still works lazily; it just cannot be described by `rest`.
pub trait Source<T> {
    /// The elements that are still to come, in order.
    spec fn rest(&self) -> Seq<T>;

    /// The size estimate the source reports in its current state.
    spec fn hint(&self) -> (usize, Option<usize>);

    /// The source's internal invariant.
    spec fn wf(&self) -> bool;

    /// Hands out the next element, or `None` once the source is exhausted.
    /// An exhausted source stays exhausted.
    fn next(&mut self) -> (r: Option<T>)
        requires
            old(self).wf(),
        ensures
            final(self).wf(),
            old(self).rest().len() == 0 ==> r is None && final(self).rest() == old(self).rest(),
            old(self).rest().len() > 0 ==> r == Some(old(self).rest()[0]) && final(self).rest()
                == old(self).rest().drop_first(),
    ;

    /// An advisory estimate of how many elements remain: a lower bound and,
    /// where one is known, an upper bound.
    fn size_hint(&self) -> (r: (usize, Option<usize>))
        requires
            self.wf(),
        ensures
            r == self.hint(),
            r.0 <= self.rest().len(),
            r.1 matches Some(u) ==> self.rest().len() <= u,
    ;
}

/// A source that hands out the elements of a vector, front to back.
pub struct VecSource<T> {
    items: VecDeque<T>,
}

impl<T> VecSource<T> {
    /// Takes ownership of `v`; its elements come out in the vector's order.
    pub fn new(v: Vec<T>) -> (s: Self)
        ensures
            s.rest() == v@,
            s.wf(),
    {
        let mut v = v;
        let ghost orig = v@;
        let mut items: VecDeque<T> = VecDeque::new();
        while v.len() > 0
            invariant
                v@ + items@ == orig,
            decreases v.len(),
        {
            let x = v.pop().unwrap();
            items.push_front(x);
            assert(v@ + items@ =~= orig);
        }
        assert(items@ =~= orig);
        VecSource { items }
    }
}

impl<T> Source<T> for VecSource<T> {
    closed spec fn rest(&self) -> Seq<T> {
        self.items@
    }

    open spec fn hint(&self) -> (usize, Option<usize>) {
        (self.rest().len() as usize, Some(self.rest().len() as usize))
    }

    closed spec fn wf(&self) -> bool {
        true
    }

    fn next(&mut self) -> (r: Option<T>) {
        self.items.pop_front()
    }

    fn size_hint(&self) -> (r: (usize, Option<usize>)) {
        let n = self.items.len();
        (n, Some(n))
    }
}

/// Pulls every remaining element out of `src` into a vector, in order.
pub fn collect<T, S: Source<T>>(src: S) -> (v: Vec<T>)
    requires
        src.wf(),
    ensures
        v@ == src.rest(),
{
    let mut s = src;
    let ghost all = s.rest();
    let mut v: Vec<T> = Vec::new();
    loop
        invariant
            s.wf(),
            v@ + s.rest() == all,
            all == src.rest(),
        decreases s.rest().len(),
    {
        match s.next() {
            Some(x) => {
                v.push(x);
                assert(v@ + s.rest() =~= all);
            },
            None => {
                assert(v@ =~= all);
                return v;
            },
        }
    }
}

} // verus!

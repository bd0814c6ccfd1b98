//! The pull-based collaborator that feeds the chunking adapter.

use vstd::pervasive::cloned;
use vstd::prelude::*;

verus! {

/// A pull-based producer of a finite sequence of elements.
///
/// `remaining` is the abstract model: the elements the source will still
/// yield, in order. `pull` hands out the front element of that model and
/// shortens it by one; once the model is empty, every further `pull`
/// answers `None` and leaves the model empty.
pub trait Source<T>: Sized {
    /// The elements this source will still yield, front first.
    spec fn remaining(&self) -> Seq<T>;

    /// Yields the next element, or `None` once the source is exhausted.
    fn pull(&mut self) -> (r: Option<T>)
        ensures
            old(self).remaining().len() == 0 ==> ({
                &&& r is None
                &&& final(self).remaining() == old(self).remaining()
            }),
            old(self).remaining().len() > 0 ==> ({
                &&& r == Some(old(self).remaining()[0])
                &&& final(self).remaining() == old(self).remaining().drop_first()
            }),
    ;

    /// A lower bound on how many elements are still to come, and an upper
    /// bound when one is known.
    fn size_hint(&self) -> (r: (usize, Option<usize>))
        ensures
            r.0 <= self.remaining().len(),
            r.1 matches Some(u) ==> self.remaining().len() <= u,
    ;
}

/// A source backed by a vector, yielding its elements front to back.
pub struct VecSource<T> {
    items: Vec<T>,
}

impl<T> VecSource<T> {
    /// Wraps a vector; the source will yield exactly its elements, in order.
    pub fn new(items: Vec<T>) -> (r: Self)
        ensures
            r.remaining() == items@,
    {
        VecSource { items }
    }
}

impl<T> Source<T> for VecSource<T> {
    closed spec fn remaining(&self) -> Seq<T> {
        self.items@
    }

    fn pull(&mut self) -> (r: Option<T>) {
        if self.items.len() > 0 {
            let x = self.items.remove(0);
            proof {
                assert(old(self).items@.remove(0) =~= old(self).items@.drop_first());
            }
            Some(x)
        } else {
            None
        }
    }

    fn size_hint(&self) -> (r: (usize, Option<usize>)) {
        let n = self.items.len();
        (n, Some(n))
    }
}

impl<T: Clone> Clone for VecSource<T> {
    /// Duplicates the source: the copy yields, independently, clones of the
    /// same elements in the same order.
    fn clone(&self) -> (res: Self)
        ensures
            res.remaining().len() == self.remaining().len(),
            forall|i: int|
                0 <= i < self.remaining().len() ==> cloned::<T>(
                    self.remaining()[i],
                    res.remaining()[i],
                ),
    {
        VecSource { items: self.items.clone() }
    }
}

} // verus!

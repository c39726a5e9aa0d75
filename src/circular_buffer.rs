//! A bounded buffer that never grows: pushing onto a full buffer drops its
//! oldest item.

use vstd::prelude::*;

verus! {

/// A buffer of at most `N` items.
pub struct CircularBuffer<const N: usize, T> {
    items: Vec<T>,
}

impl<const N: usize, T> CircularBuffer<N, T> {
    /// The items, oldest first.
    pub closed spec fn items(&self) -> Seq<T> {
        self.items@
    }

    pub closed spec fn wf(&self) -> bool {
        self.items@.len() <= N
    }

    /// An empty buffer.
    pub fn new() -> (r: Self)
        ensures
            r.wf(),
            r.items() == Seq::<T>::empty(),
    {
        CircularBuffer { items: Vec::new() }
    }

    /// The buffer holds no item.
    pub fn empty(&self) -> (r: bool)
        ensures
            r == (self.items().len() == 0),
    {
        self.items.len() == 0
    }

    /// Appends `item`; when the buffer is full its oldest item is dropped to
    /// make room. A buffer of capacity 0 stays empty.
    pub fn push_back(&mut self, item: T)
        requires
            old(self).wf(),
        ensures
            final(self).wf(),
            N == 0 ==> final(self).items() == old(self).items(),
            N > 0 && old(self).items().len() < N ==> final(self).items() == old(self).items().push(item),
            N > 0 && old(self).items().len() >= N ==> final(self).items() == old(self).items().drop_first().push(item),
    {
        if N == 0 {
            return;
        }
        if self.items.len() >= N {
            self.items.remove(0);
            assert(self.items@ =~= old(self).items@.drop_first());
        }
        self.items.push(item);
    }

    /// Removes and returns the newest item, if any.
    pub fn pop_back(&mut self) -> (r: Option<T>)
        requires
            old(self).wf(),
        ensures
            final(self).wf(),
            old(self).items().len() == 0 ==> r is None && final(self).items() == old(self).items(),
            old(self).items().len() > 0 ==> r == Some(old(self).items().last())
                && final(self).items() == old(self).items().drop_last(),
    {
        self.items.pop()
    }
}

} // verus!

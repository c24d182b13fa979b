//! Bounded first-in first-out queue over a ring buffer.

use vstd::prelude::*;

verus! {

/// Ring buffer of fixed capacity. Items leave in the order in which they came.
pub struct Queue<T> {
    max: usize,
    len: usize,
    first: usize,
    last: usize,
    data: Vec<Option<T>>,
}

/// Slot of the `i`-th waiting item in a ring of `max` slots that starts at `first`.
pub open spec fn ring_slot(first: int, i: int, max: int) -> int {
    if first + i < max {
        first + i
    } else {
        first + i - max
    }
}

impl<T> Queue<T> {
    /// The ring is consistent: every slot between the oldest and the newest item is filled.
    pub closed spec fn wf(&self) -> bool {
        &&& self.max > 0
        &&& self.data@.len() == self.max
        &&& self.len <= self.max
        &&& self.first < self.max
        &&& self.last < self.max
        &&& ring_slot(self.last as int, 1, self.max as int) == ring_slot(
            self.first as int,
            self.len as int,
            self.max as int,
        )
        &&& forall|i: int|
            0 <= i < self.len ==> (#[trigger] self.data@[ring_slot(
                self.first as int,
                i,
                self.max as int,
            )]).is_some()
    }

    /// The waiting items, oldest first.
    pub closed spec fn view(&self) -> Seq<T> {
        Seq::new(
            self.len as nat,
            |i: int| self.data@[ring_slot(self.first as int, i, self.max as int)].unwrap(),
        )
    }

    /// The largest number of items that can wait at once.
    pub closed spec fn capacity(&self) -> nat {
        self.max as nat
    }

    /// An empty queue with room for `max` items.
    pub fn new(max: usize) -> (q: Queue<T>)
        requires
            max > 0,
        ensures
            q.wf(),
            q@ == Seq::<T>::empty(),
            q.capacity() == max,
    {
        let mut list: Vec<Option<T>> = Vec::with_capacity(max);
        let mut i: usize = 0;
        while i < max
            invariant
                i <= max,
                list@.len() == i,
            decreases max - i,
        {
            list.push(None);
            i += 1;
        }
        let q = Queue { max, len: 0, first: 0, last: max - 1, data: list };
        assert(q@ =~= Seq::<T>::empty());
        q
    }

    /// Number of waiting items.
    pub fn len(&self) -> (n: usize)
        requires
            self.wf(),
        ensures
            n == self@.len(),
    {
        self.len
    }

    /// Appends `item` behind the waiting ones, or hands it back when the queue is full.
    pub fn push(&mut self, item: T) -> (back: Option<T>)
        requires
            old(self).wf(),
        ensures
            final(self).wf(),
            final(self).capacity() == old(self).capacity(),
            old(self)@.len() == old(self).capacity() ==> back == Some(item) && final(self)@
                == old(self)@,
            old(self)@.len() < old(self).capacity() ==> back.is_none() && final(self)@ == old(
                self,
            )@.push(item),
    {
        if self.len == self.max {
            return Some(item);
        }
        let mut next = self.last + 1;
        if next == self.max {
            next = 0;
        }
        let ghost before = *self;
        self.len += 1;
        self.last = next;
        self.data.set(next, Some(item));
        proof {
            assert forall|i: int| 0 <= i < self.len implies (#[trigger] self.data@[ring_slot(
                self.first as int,
                i,
                self.max as int,
            )]).is_some() by {
                if i < before.len {
                    assert(before.data@[ring_slot(before.first as int, i, before.max as int)]
                        .is_some());
                }
            }
            assert(self@ =~= before@.push(item));
        }
        None
    }

    /// Removes and returns the oldest waiting item, if there is one.
    pub fn take(&mut self) -> (item: Option<T>)
        requires
            old(self).wf(),
        ensures
            final(self).wf(),
            final(self).capacity() == old(self).capacity(),
            old(self)@.len() == 0 ==> item.is_none() && final(self)@ == old(self)@,
            old(self)@.len() > 0 ==> item == Some(old(self)@[0]) && final(self)@ == old(
                self,
            )@.subrange(1, old(self)@.len() as int),
    {
        if self.len == 0 {
            return None;
        }
        let ghost before = *self;
        assert(before.data@[ring_slot(before.first as int, 0, before.max as int)].is_some());
        self.len -= 1;
        let mut slot: Option<T> = None;
        core::mem::swap(&mut slot, &mut self.data[self.first]);
        let mut next = self.first + 1;
        if next == self.max {
            next = 0;
        }
        self.first = next;
        proof {
            assert forall|i: int| 0 <= i < self.len implies (#[trigger] self.data@[ring_slot(
                self.first as int,
                i,
                self.max as int,
            )]).is_some() && self.data@[ring_slot(self.first as int, i, self.max as int)]
                == before.data@[ring_slot(before.first as int, i + 1, before.max as int)] by {
                assert(before.data@[ring_slot(before.first as int, i + 1, before.max as int)]
                    .is_some());
            }
            assert(self@ =~= before@.subrange(1, before@.len() as int));
        }
        slot
    }
}

} // verus!

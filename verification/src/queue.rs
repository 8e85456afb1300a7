//! The bounded FIFO queue between the dispatcher and a lane's worker.
//!
//! The queue has a fixed capacity, chosen when it is made: together with the
//! flush threshold it bounds the pipeline's peak memory. `try_push` refuses a
//! batch when the queue is full instead of growing — the dispatcher then
//! waits and offers the batch again, which is the backpressure the design
//! calls for, not an error. Batches leave in arrival order.

use vstd::prelude::*;

use std::collections::VecDeque;

verus! {

/// A bounded FIFO queue of fixed capacity.
pub struct BoundedQueue<T> {
    items: VecDeque<T>,
    cap: usize,
}

impl<T> BoundedQueue<T> {
    /// The queued items, front first.
    pub closed spec fn contents(self) -> Seq<T> {
        self.items@
    }

    /// The fixed capacity.
    pub closed spec fn capacity(self) -> int {
        self.cap as int
    }

    /// Well-formed: the queue never holds more than its capacity.
    pub open spec fn wf(self) -> bool {
        self.capacity() >= 1 && self.contents().len() <= self.capacity()
    }

    /// Makes an empty queue of the given capacity.
    pub fn new(cap: usize) -> (r: Self)
        requires
            cap >= 1,
        ensures
            r.wf(),
            r.capacity() == cap,
            r.contents() == Seq::<T>::empty(),
    {
        BoundedQueue { items: VecDeque::new(), cap }
    }

    /// How many items are queued.
    pub fn len(&self) -> (r: usize)
        ensures
            r == self.contents().len(),
    {
        self.items.len()
    }

    /// Offers one item: accepted at the back when the queue has room,
    /// refused — handed back unchanged — when the queue is full.
    pub fn try_push(&mut self, x: T) -> (r: Result<(), T>)
        requires
            old(self).wf(),
        ensures
            final(self).wf(),
            final(self).capacity() == old(self).capacity(),
            old(self).contents().len() < old(self).capacity() ==> r is Ok
                && final(self).contents() == old(self).contents().push(x),
            old(self).contents().len() >= old(self).capacity() ==> (r matches Err(y) && y == x)
                && final(self).contents() == old(self).contents(),
    {
        if self.items.len() < self.cap {
            self.items.push_back(x);
            Ok(())
        } else {
            Err(x)
        }
    }

    /// Takes the oldest item, or nothing when the queue is empty.
    pub fn pop(&mut self) -> (r: Option<T>)
        requires
            old(self).wf(),
        ensures
            final(self).wf(),
            final(self).capacity() == old(self).capacity(),
            old(self).contents().len() > 0 ==> (r matches Some(y) && y == old(self).contents()[0])
                && final(self).contents() == old(self).contents().drop_first(),
            old(self).contents().len() == 0 ==> r is None
                && final(self).contents() == old(self).contents(),
    {
        let r = self.items.pop_front();
        proof {
            if old(self).contents().len() > 0 {
                assert(self.items@ =~= old(self).contents().drop_first());
            }
        }
        r
    }
}

} // verus!

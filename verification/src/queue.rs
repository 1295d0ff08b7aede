//! A bounded FIFO queue with an explicit closed flag: the decision core of
//! the backpressure behavior. A push against a full queue is refused and
//! hands the item back, so an asynchronous wrapper can suspend the caller
//! and retry once space frees; once the queue is closed every push is
//! refused with the item back, which callers surface as a queue-closed
//! error.

use vstd::prelude::*;

verus! {

/// Result of a non-blocking push: either the queue took the item, or it
/// hands the item back with the reason.
pub enum PushOutcome<T> {
    Accepted,
    Full(T),
    Closed(T),
}

/// A bounded FIFO queue of capacity `capacity`; `closed` refuses further
/// pushes while the remaining items can still be drained.
pub struct BoundedQueue<T> {
    pub items: Vec<T>,
    pub capacity: usize,
    pub closed: bool,
}

impl<T> BoundedQueue<T> {
    /// The queue never holds more than its capacity.
    pub open spec fn wf(&self) -> bool {
        self.items@.len() <= self.capacity
    }

    pub fn new(capacity: usize) -> (r: BoundedQueue<T>)
        requires
            capacity >= 1,
        ensures
            r.wf(),
            r.items@.len() == 0,
            r.capacity == capacity,
            !r.closed,
    {
        BoundedQueue { items: Vec::new(), capacity, closed: false }
    }

    /// Push without blocking: a closed queue refuses with `Closed`, a full
    /// queue refuses with `Full`; in both cases the queue is unchanged and
    /// the caller gets the item back.
    pub fn try_push(&mut self, x: T) -> (r: PushOutcome<T>)
        requires
            old(self).wf(),
        ensures
            final(self).wf(),
            final(self).capacity == old(self).capacity,
            final(self).closed == old(self).closed,
            old(self).closed ==> (r matches PushOutcome::Closed(y) && y == x) && final(self).items
                == old(self).items,
            !old(self).closed && old(self).items@.len() >= old(self).capacity ==> (r matches
                PushOutcome::Full(y) && y == x) && final(self).items == old(self).items,
            !old(self).closed && old(self).items@.len() < old(self).capacity ==> r is Accepted
                && final(self).items@ == old(self).items@.push(x),
    {
        if self.closed {
            PushOutcome::Closed(x)
        } else if self.items.len() >= self.capacity {
            PushOutcome::Full(x)
        } else {
            self.items.push(x);
            PushOutcome::Accepted
        }
    }

    /// Pop the oldest item without blocking; `None` means the queue is
    /// currently empty (and, if it is also closed, will stay empty).
    pub fn try_pop(&mut self) -> (r: Option<T>)
        requires
            old(self).wf(),
        ensures
            final(self).wf(),
            final(self).capacity == old(self).capacity,
            final(self).closed == old(self).closed,
            old(self).items@.len() == 0 ==> r is None && final(self).items == old(self).items,
            old(self).items@.len() > 0 ==> (r matches Some(y) && y == old(self).items@[0])
                && final(self).items@ == old(self).items@.drop_first(),
    {
        if self.items.len() == 0 {
            None
        } else {
            let x = self.items.remove(0);
            proof {
                assert(self.items@ =~= old(self).items@.drop_first());
            }
            Some(x)
        }
    }

    /// Close the queue: later pushes are refused, items already queued can
    /// still be drained.
    pub fn close(&mut self)
        requires
            old(self).wf(),
        ensures
            final(self).wf(),
            final(self).closed,
            final(self).items == old(self).items,
            final(self).capacity == old(self).capacity,
    {
        self.closed = true;
    }

    pub fn len(&self) -> (r: usize)
        ensures
            r == self.items@.len(),
    {
        self.items.len()
    }

    pub fn is_empty(&self) -> (r: bool)
        ensures
            r == (self.items@.len() == 0),
    {
        self.items.len() == 0
    }

    pub fn is_full(&self) -> (r: bool)
        ensures
            r == (self.items@.len() >= self.capacity),
    {
        self.items.len() >= self.capacity
    }

    pub fn is_closed(&self) -> (r: bool)
        ensures
            r == self.closed,
    {
        self.closed
    }
}

} // verus!

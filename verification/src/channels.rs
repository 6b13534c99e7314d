//! Fixed-capacity event queue primitives.
use std::collections::VecDeque;
use vstd::prelude::*;

verus! {

broadcast use vstd::std_specs::vecdeque::group_vec_dequeue_axioms;

/// Bounded synchronous FIFO queue for buffering runtime events.
#[derive(Debug, Clone)]
pub struct EventQueue<T> {
    capacity: usize,
    ring: VecDeque<T>,
}

impl<T> View for EventQueue<T> {
    type V = Seq<T>;

    /// Queued items from the front (oldest) to the back (newest).
    closed spec fn view(&self) -> Seq<T> {
        self.ring@
    }
}

impl<T> EventQueue<T> {
    /// The maximum number of elements, for specifications.
    pub closed spec fn spec_capacity(&self) -> usize {
        self.capacity
    }

    /// Creates a new bounded event queue with a fixed capacity.
    pub fn new(capacity: usize) -> (queue: Self)
        ensures
            queue@ == Seq::<T>::empty(),
            queue.spec_capacity() == capacity,
    {
        Self { capacity, ring: VecDeque::with_capacity(capacity) }
    }

    /// Pushes an item to the back of the queue if capacity allows; a full
    /// queue hands the item back unchanged.
    pub fn push(&mut self, item: T) -> (result: Result<(), T>)
        ensures
            final(self).spec_capacity() == old(self).spec_capacity(),
            old(self)@.len() >= old(self).spec_capacity() ==> {
                &&& result == Err::<(), T>(item)
                &&& final(self)@ == old(self)@
            },
            old(self)@.len() < old(self).spec_capacity() ==> {
                &&& result is Ok
                &&& final(self)@ == old(self)@.push(item)
            },
    {
        if self.ring.len() >= self.capacity {
            Err(item)
        } else {
            self.ring.push_back(item);
            Ok(())
        }
    }

    /// Removes and returns the item at the front of the queue.
    pub fn pop(&mut self) -> (item: Option<T>)
        ensures
            final(self).spec_capacity() == old(self).spec_capacity(),
            old(self)@.len() == 0 ==> item is None && final(self)@ == old(self)@,
            old(self)@.len() > 0 ==> {
                &&& item == Some(old(self)@[0])
                &&& final(self)@ == old(self)@.drop_first()
            },
    {
        self.ring.pop_front()
    }

    /// Returns the number of items currently stored in the queue.
    pub fn len(&self) -> (len: usize)
        ensures
            len == self@.len(),
    {
        self.ring.len()
    }

    /// Checks whether the queue contains no elements.
    pub fn is_empty(&self) -> (empty: bool)
        ensures
            empty == (self@.len() == 0),
    {
        self.ring.len() == 0
    }

    /// Returns the maximum capacity of the queue.
    pub fn capacity(&self) -> (capacity: usize)
        ensures
            capacity == self.spec_capacity(),
    {
        self.capacity
    }
}

/// First in, first out: pushing onto a queue with room and then popping
/// returns the oldest item when the queue was non-empty, and the pushed item
/// when it was empty.
pub proof fn law_fifo_order<T>(before: Seq<T>, item: T, popped: Option<T>, after: Seq<T>)
    requires
        popped == (if before.push(item).len() > 0 { Some(before.push(item)[0]) } else { None }),
        after == before.push(item).drop_first(),
    ensures
        before.len() == 0 ==> popped == Some(item) && after.len() == 0,
        before.len() > 0 ==> popped == Some(before[0]) && after == before.drop_first().push(item),
{
    assert(before.len() > 0 ==> before.push(item).drop_first() =~= before.drop_first().push(item));
    assert(before.len() == 0 ==> before.push(item).drop_first() =~= Seq::<T>::empty());
}

} // verus!

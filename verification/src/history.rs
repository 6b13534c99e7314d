//! Fixed-capacity history storage for active workspace summaries.
use std::collections::vec_deque::Iter;
use std::collections::VecDeque;
use vstd::prelude::*;
use vstd::std_specs::iter::IteratorSpec;

verus! {

broadcast use vstd::std_specs::vecdeque::group_vec_dequeue_axioms;

/// FIFO history that allocates for a fixed logical capacity and never grows.
///
/// Pushing into a full history evicts the oldest entry. A zero-capacity
/// history returns every pushed entry immediately.
#[derive(Debug, Clone, PartialEq, Eq)]
pub struct BoundedHistory<T> {
    entries: VecDeque<T>,
    capacity: usize,
}

impl<T> View for BoundedHistory<T> {
    type V = Seq<T>;

    /// Retained entries from the oldest to the newest.
    closed spec fn view(&self) -> Seq<T> {
        self.entries@
    }
}

impl<T> BoundedHistory<T> {
    /// The configured logical entry limit, for specifications.
    pub closed spec fn spec_capacity(&self) -> usize {
        self.capacity
    }

    /// Well-formedness: never more entries than the capacity.
    pub open spec fn inv(&self) -> bool {
        self@.len() <= self.spec_capacity()
    }

    /// Allocates storage for at most `capacity` history entries.
    pub fn new(capacity: usize) -> (history: Self)
        ensures
            history.inv(),
            history@ == Seq::<T>::empty(),
            history.spec_capacity() == capacity,
    {
        Self { entries: VecDeque::with_capacity(capacity), capacity }
    }

    /// Rebuilds a history from its stored entries (oldest first) and
    /// declared capacity, rejecting a representation that holds more entries
    /// than its capacity.
    pub fn from_entries(entries: Vec<T>, capacity: usize) -> (history: Option<Self>)
        ensures
            history is None <==> entries@.len() > capacity,
            history matches Some(h) ==> h.inv() && h@ == entries@ && h.spec_capacity() == capacity,
    {
        if entries.len() > capacity {
            return None;
        }
        let ghost input = entries@;
        let mut remaining = entries;
        let mut deque: VecDeque<T> = VecDeque::with_capacity(capacity);
        while remaining.len() > 0
            invariant
                input == remaining@ + deque@,
            decreases remaining.len(),
        {
            let ghost before = remaining@;
            match remaining.pop() {
                Some(last) => {
                    deque.push_front(last);
                    assert(before == remaining@.push(last));
                    assert(input == remaining@ + deque@);
                },
                None => {},
            }
        }
        assert(remaining@ =~= Seq::<T>::empty());
        assert(deque@ =~= input);
        Some(Self { entries: deque, capacity })
    }

    /// Returns the configured logical entry limit.
    pub fn capacity(&self) -> (capacity: usize)
        ensures
            capacity == self.spec_capacity(),
    {
        self.capacity
    }

    /// Returns the number of retained entries.
    pub fn len(&self) -> (len: usize)
        ensures
            len == self@.len(),
    {
        self.entries.len()
    }

    /// Returns whether the history is empty.
    pub fn is_empty(&self) -> (empty: bool)
        ensures
            empty == (self@.len() == 0),
    {
        self.entries.len() == 0
    }

    /// Returns the oldest retained entry.
    pub fn front(&self) -> (oldest: Option<&T>)
        ensures
            self@.len() == 0 ==> oldest is None,
            self@.len() > 0 ==> oldest == Some(&self@[0]),
    {
        if self.entries.len() == 0 {
            None
        } else {
            Some(&self.entries[0])
        }
    }

    /// Returns the newest retained entry.
    pub fn back(&self) -> (newest: Option<&T>)
        ensures
            self@.len() == 0 ==> newest is None,
            self@.len() > 0 ==> newest == Some(&self@[self@.len() - 1]),
    {
        let len = self.entries.len();
        if len == 0 {
            None
        } else {
            Some(&self.entries[len - 1])
        }
    }

    /// Iterates from the oldest entry to the newest.
    pub fn iter(&self) -> (entries: Iter<'_, T>)
        ensures
            entries.remaining() == self@.as_ref(),
    {
        self.entries.iter()
    }

    /// Returns the two contiguous slices backing the ring buffer.
    pub fn as_slices(&self) -> (slices: (&[T], &[T]))
        ensures
            slices.0@ + slices.1@ == self@,
    {
        deque_as_slices(&self.entries)
    }

    /// Clears retained entries without releasing capacity.
    pub fn clear(&mut self)
        requires
            old(self).inv(),
        ensures
            final(self).inv(),
            final(self)@ == Seq::<T>::empty(),
            final(self).spec_capacity() == old(self).spec_capacity(),
    {
        self.entries.clear();
    }

    /// Appends an entry and returns the evicted oldest entry, if any.
    pub fn push(&mut self, entry: T) -> (evicted: Option<T>)
        requires
            old(self).inv(),
        ensures
            final(self).inv(),
            final(self).spec_capacity() == old(self).spec_capacity(),
            old(self).spec_capacity() == 0 ==> evicted == Some(entry) && final(self)@ == old(
                self,
            )@,
            0 < old(self).spec_capacity() && old(self)@.len() < old(self).spec_capacity() ==> {
                &&& evicted is None
                &&& final(self)@ == old(self)@.push(entry)
            },
            0 < old(self).spec_capacity() && old(self)@.len() == old(self).spec_capacity() ==> {
                &&& evicted == Some(old(self)@[0])
                &&& final(self)@ == old(self)@.drop_first().push(entry)
            },
            final(self)@ == push_step(old(self)@, old(self).spec_capacity(), entry),
    {
        if self.capacity == 0 {
            return Some(entry);
        }
        let evicted = if self.entries.len() == self.capacity {
            self.entries.pop_front()
        } else {
            None
        };
        self.entries.push_back(entry);
        evicted
    }
}

/// The entries a history with limit `capacity` retains after `entry` is
/// pushed onto `entries`: a zero limit keeps nothing new, a full history
/// drops its oldest entry first.
pub open spec fn push_step<T>(entries: Seq<T>, capacity: usize, entry: T) -> Seq<T> {
    if capacity == 0 {
        entries
    } else if entries.len() < capacity {
        entries.push(entry)
    } else {
        entries.drop_first().push(entry)
    }
}

/// The entries retained after pushing `pushed`, in order, into an empty
/// history with limit `capacity`.
pub open spec fn after_pushes<T>(capacity: usize, pushed: Seq<T>) -> Seq<T>
    decreases pushed.len(),
{
    if pushed.len() == 0 {
        Seq::empty()
    } else {
        push_step(after_pushes(capacity, pushed.drop_last()), capacity, pushed.last())
    }
}

/// A history keeps exactly the latest `min(n, capacity)` of the `n`
/// entries pushed into it, oldest first; so it never holds more than its
/// capacity.
pub proof fn law_history_keeps_latest_pushes<T>(capacity: usize, pushed: Seq<T>)
    ensures
        after_pushes(capacity, pushed).len() == if pushed.len() < capacity {
            pushed.len() as int
        } else {
            capacity as int
        },
        after_pushes(capacity, pushed) == pushed.subrange(
            pushed.len() - after_pushes(capacity, pushed).len(),
            pushed.len() as int,
        ),
    decreases pushed.len(),
{
    if pushed.len() > 0 {
        let rest = pushed.drop_last();
        law_history_keeps_latest_pushes(capacity, rest);
        let h = after_pushes(capacity, rest);
        let n = pushed.len() as int;
        if capacity == 0 {
            assert(h.len() == 0);
            assert(pushed.subrange(n, n) =~= Seq::<T>::empty());
        } else if h.len() < capacity {
            assert(h.push(pushed.last()) =~= pushed.subrange(n - h.len() - 1, n));
        } else {
            assert(h.drop_first().push(pushed.last()) =~= pushed.subrange(n - h.len(), n));
        }
    }
}

/// After a push into a history with a positive capacity, the newest retained
/// entry is the one pushed, and the history stays within its capacity.
pub proof fn law_newest_entry_is_last_pushed<T>(entries: Seq<T>, capacity: usize, entry: T)
    requires
        entries.len() <= capacity,
        capacity > 0,
    ensures
        push_step(entries, capacity, entry).len() <= capacity,
        push_step(entries, capacity, entry).last() == entry,
{
}

/// The entries retained after replaying `steps` on `entries` under the
/// fixed limit `capacity`: `Some(entry)` is a push of `entry`, `None` a
/// clear. Neither operation changes the limit.
pub open spec fn after_steps<T>(entries: Seq<T>, capacity: usize, steps: Seq<Option<T>>) -> Seq<T>
    decreases steps.len(),
{
    if steps.len() == 0 {
        entries
    } else {
        let before = after_steps(entries, capacity, steps.drop_last());
        match steps.last() {
            Some(entry) => push_step(before, capacity, entry),
            None => Seq::empty(),
        }
    }
}

/// Any sequence of pushes and clears keeps a history within its capacity,
/// and with a zero capacity it never retains an entry.
pub proof fn law_steps_stay_within_capacity<T>(entries: Seq<T>, capacity: usize, steps: Seq<Option<T>>)
    requires
        entries.len() <= capacity,
    ensures
        after_steps(entries, capacity, steps).len() <= capacity,
        capacity == 0 ==> after_steps(entries, capacity, steps) == Seq::<T>::empty(),
    decreases steps.len(),
{
    if steps.len() > 0 {
        law_steps_stay_within_capacity(entries, capacity, steps.drop_last());
    } else if capacity == 0 {
        assert(entries =~= Seq::<T>::empty());
    }
}

impl<T> Default for BoundedHistory<T> {
    fn default() -> (history: Self)
        ensures
            history.inv(),
            history@ == Seq::<T>::empty(),
            history.spec_capacity() == 0,
    {
        Self::new(0)
    }
}

/// Calls `VecDeque::as_slices`: the two slices hold, in order, the contents
/// of the deque.
#[verifier::external_body]
fn deque_as_slices<T>(deque: &VecDeque<T>) -> (slices: (&[T], &[T]))
    ensures
        slices.0@ + slices.1@ == deque@,
{
    deque.as_slices()
}

} // verus!

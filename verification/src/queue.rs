//! A queue of objects with signed priorities, served from the head.
use crate::priority_queue::{self, PriorityQueue, QueueEntry};
use vstd::prelude::*;

verus! {

/// A queue of object identifiers with `i32` priorities; the head is served first.
pub struct Queue {
    inner: PriorityQueue,
}

impl View for Queue {
    type V = Seq<QueueEntry>;

    closed spec fn view(&self) -> Seq<QueueEntry> {
        self.inner@
    }
}

impl Queue {
    /// An empty queue.
    pub fn new() -> (q: Self)
        ensures
            q@ == Seq::<QueueEntry>::empty(),
    {
        Queue { inner: PriorityQueue::new() }
    }

    /// Queues an object after every object whose priority value is not greater
    /// than its own.
    pub fn insert_priority_order(&mut self, id: usize, priority: i32)
        requires
            !priority_queue::has_id(old(self)@, id),
        ensures
            final(self)@ == old(self)@.insert(
                priority_queue::priority_insert_index(old(self)@, priority as i64),
                QueueEntry { id, priority: priority as i64 },
            ),
    {
        self.inner.insert_priority_order(id, priority as i64);
    }

    /// Queues an object at the tail.
    pub fn push_back(&mut self, id: usize, priority: i32)
        requires
            !priority_queue::has_id(old(self)@, id),
        ensures
            final(self)@ == old(self)@.push(QueueEntry { id, priority: priority as i64 }),
    {
        self.inner.push_back(id, priority as i64);
    }

    /// The head entry, if any.
    pub fn front(&self) -> (r: Option<QueueEntry>)
        ensures
            r == (if self@.len() == 0 { None } else { Some(self@[0]) }),
    {
        self.inner.front()
    }

    /// The tail entry, if any.
    pub fn tail(&self) -> (r: Option<QueueEntry>)
        ensures
            r == (if self@.len() == 0 { None } else { Some(self@[self@.len() - 1]) }),
    {
        self.inner.tail()
    }

    /// Takes the head entry out of the queue.
    pub fn pop_front(&mut self) -> (r: Option<QueueEntry>)
        ensures
            r == (if old(self)@.len() == 0 { None } else { Some(old(self)@[0]) }),
            final(self)@ == (if old(self)@.len() == 0 { old(self)@ } else { old(self)@.drop_first() }),
    {
        self.inner.pop_front()
    }

    /// Takes the given object out of the queue, wherever it stands.
    pub fn remove(&mut self, id: usize)
        requires
            priority_queue::has_id(old(self)@, id),
        ensures
            final(self)@ == old(self)@.remove(priority_queue::position_of(old(self)@, id)),
    {
        self.inner.remove(id);
    }
}

} // verus!

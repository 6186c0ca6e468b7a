//! The bounded FIFO task queue and its admission policy.

use vstd::prelude::*;
use crate::task::Task;

verus! {

/// Outcome of a submission: the task either entered the queue or was
/// dropped because the queue was full. A discard is reported to the caller,
/// never raised as a fatal error.
#[derive(Clone, Copy, PartialEq, Eq, Structural, Debug)]
pub enum SubmitOutcome {
    /// The task was appended to the tail of the queue.
    Accepted,
    /// The queue was at capacity; the task was dropped without blocking.
    Discarded,
}

/// A capacity-limited FIFO sequence of tasks.
///
/// The invariant `items.len() <= capacity` holds at every observable
/// instant; insertion order equals removal order. In a concurrent setting
/// the surrounding program guards every call behind the queue's lock and
/// uses its wait/notify channel: a `true` from [`BoundedTaskQueue::try_push`]
/// is the signal to wake one blocked consumer, and a `None` from
/// [`BoundedTaskQueue::pop_front`] is the signal for a consumer to suspend
/// and re-check once woken (which tolerates spurious wakeups).
pub struct BoundedTaskQueue {
    items: Vec<Task>,
    capacity: usize,
}

impl BoundedTaskQueue {
    /// The queued tasks, oldest first.
    pub closed spec fn view(&self) -> Seq<Task> {
        self.items@
    }

    /// The fixed capacity the queue was created with.
    pub closed spec fn cap(&self) -> usize {
        self.capacity
    }

    /// Well-formedness: the capacity is positive and the length never
    /// exceeds it.
    pub open spec fn wf(&self) -> bool {
        1 <= self.cap() && self@.len() <= self.cap()
    }

    /// Creates an empty queue with the given positive capacity.
    pub fn new(capacity: usize) -> (q: BoundedTaskQueue)
        requires
            capacity >= 1,
        ensures
            q.wf(),
            q@ == Seq::<Task>::empty(),
            q.cap() == capacity,
    {
        BoundedTaskQueue { items: Vec::new(), capacity }
    }

    /// Admission policy: if the queue is full, reject without mutating
    /// state; otherwise append to the tail. Never blocks the caller.
    /// `Accepted` is returned exactly when the queue had room, and on
    /// acceptance the caller wakes one blocked consumer.
    pub fn try_push(&mut self, task: Task) -> (outcome: SubmitOutcome)
        requires
            old(self).wf(),
        ensures
            final(self).wf(),
            final(self).cap() == old(self).cap(),
            outcome == SubmitOutcome::Accepted <==> old(self)@.len() < old(self).cap(),
            outcome == SubmitOutcome::Accepted ==> final(self)@ == old(self)@.push(task),
            outcome == SubmitOutcome::Discarded ==> *final(self) == *old(self),
            final(self)@.len() <= final(self).cap(),
    {
        if self.items.len() >= self.capacity {
            SubmitOutcome::Discarded
        } else {
            self.items.push(task);
            SubmitOutcome::Accepted
        }
    }

    /// Removes and returns the head (oldest) task, or `None` if the queue
    /// is empty. A consumer that receives `None` suspends on the queue's
    /// wait/notify channel and re-checks after each wakeup, which guards
    /// against spurious wakeups and multi-consumer races.
    pub fn pop_front(&mut self) -> (head: Option<Task>)
        requires
            old(self).wf(),
        ensures
            final(self).wf(),
            final(self).cap() == old(self).cap(),
            head is Some <==> old(self)@.len() > 0,
            head is Some ==> head->0 == old(self)@[0]
                && final(self)@ == old(self)@.subrange(1, old(self)@.len() as int),
            head is None ==> *final(self) == *old(self),
    {
        if self.items.len() == 0 {
            None
        } else {
            Some(self.items.remove(0))
        }
    }

    /// Snapshot emptiness check. In a concurrent setting the result may be
    /// stale the instant after the lock is released; callers must tolerate
    /// that.
    pub fn is_empty(&self) -> (empty: bool)
        ensures
            empty <==> self@.len() == 0,
    {
        self.items.len() == 0
    }

    /// The number of queued tasks.
    pub fn len(&self) -> (n: usize)
        ensures
            n == self@.len(),
    {
        self.items.len()
    }

    /// The fixed capacity.
    pub fn capacity(&self) -> (c: usize)
        ensures
            c == self.cap(),
    {
        self.capacity
    }
}

} // verus!

//! The pool: it owns the bounded queue, the pause gate, and the fixed set
//! of workers, and exposes the submit / pause / resume / drain operations
//! together with the steps of each worker's state machine.
//!
//! Every decision of the synchronization core — admission, who may pick a
//! task up, what a worker does after finishing, when a drain is complete —
//! is a verified function of this state. The surrounding program supplies
//! threads and wait/notify channels: it serializes these calls behind the
//! queue's and the pause gate's locks and sleeps for a task's duration between a
//! pickup and the matching finish.

use vstd::prelude::*;
use crate::gate::PauseGate;
use crate::queue::BoundedTaskQueue;
use crate::queue::SubmitOutcome;
use crate::task::Task;
use crate::worker::WorkerState;

verus! {

/// An observable event of the core: task pickup, task completion,
/// pause-entry and pause-exit, each tagged with the worker's index. The
/// pool records these so that pause/resume and drain behaviour can be
/// observed from outside.
#[derive(Clone, Copy, PartialEq, Eq, Structural, Debug)]
pub enum PoolEvent {
    /// The worker removed the task from the head of the queue and began
    /// executing it.
    TaskStarted { worker: usize, task: Task },
    /// The worker finished executing the task.
    TaskCompleted { worker: usize, task: Task },
    /// The worker observed the raised pause flag between tasks and parked.
    PauseEntered { worker: usize },
    /// The parked worker observed the cleared pause flag and went back to
    /// waiting for work.
    PauseExited { worker: usize },
}

/// The task an event records as picked up, if it is a pickup event.
pub open spec fn started_task_of(e: PoolEvent) -> Option<Task> {
    match e {
        PoolEvent::TaskStarted { task, .. } => Some(task),
        _ => None,
    }
}

/// The task an event records as completed, if it is a completion event.
pub open spec fn completed_task_of(e: PoolEvent) -> Option<Task> {
    match e {
        PoolEvent::TaskCompleted { task, .. } => Some(task),
        _ => None,
    }
}

/// The tasks a log records as picked up, in log order.
pub open spec fn started_of(log: Seq<PoolEvent>) -> Seq<Task>
    decreases log.len(),
{
    if log.len() == 0 {
        Seq::empty()
    } else {
        match started_task_of(log.last()) {
            Some(t) => started_of(log.drop_last()).push(t),
            None => started_of(log.drop_last()),
        }
    }
}

/// The tasks a log records as completed, in log order.
pub open spec fn completed_of(log: Seq<PoolEvent>) -> Seq<Task>
    decreases log.len(),
{
    if log.len() == 0 {
        Seq::empty()
    } else {
        match completed_task_of(log.last()) {
            Some(t) => completed_of(log.drop_last()).push(t),
            None => completed_of(log.drop_last()),
        }
    }
}

/// How many times task `t` occurs in `ts`.
pub open spec fn occurrences(ts: Seq<Task>, t: Task) -> nat
    decreases ts.len(),
{
    if ts.len() == 0 {
        0
    } else {
        occurrences(ts.drop_last(), t) + (if ts.last() == t {
            1nat
        } else {
            0nat
        })
    }
}

/// How many of the workers are currently running task `t`.
pub open spec fn running_count(ws: Seq<WorkerState>, t: Task) -> nat
    decreases ws.len(),
{
    if ws.len() == 0 {
        0
    } else {
        running_count(ws.drop_last(), t) + (if ws.last() == WorkerState::Running(t) {
            1nat
        } else {
            0nat
        })
    }
}

/// Appending a task changes its own occurrence count by one and no other.
proof fn lemma_occurrences_push(ts: Seq<Task>, x: Task, t: Task)
    ensures
        occurrences(ts.push(x), t) == occurrences(ts, t) + (if x == t {
            1nat
        } else {
            0nat
        }),
{
    assert(ts.push(x).drop_last() =~= ts);
    assert(ts.push(x).last() == x);
}

/// Occurrence counts add up over concatenation.
proof fn lemma_occurrences_concat(a: Seq<Task>, b: Seq<Task>, t: Task)
    ensures
        occurrences(a + b, t) == occurrences(a, t) + occurrences(b, t),
    decreases b.len(),
{
    if b.len() == 0 {
        assert(a + b =~= a);
    } else {
        assert((a + b).drop_last() =~= a + b.drop_last());
        assert((a + b).last() == b.last());
        lemma_occurrences_concat(a, b.drop_last(), t);
    }
}

/// Adding an idle worker leaves every running count unchanged; adding a
/// running one raises its task's count by one.
proof fn lemma_running_count_push(ws: Seq<WorkerState>, x: WorkerState, t: Task)
    ensures
        running_count(ws.push(x), t) == running_count(ws, t) + (if x == WorkerState::Running(t) {
            1nat
        } else {
            0nat
        }),
{
    assert(ws.push(x).drop_last() =~= ws);
    assert(ws.push(x).last() == x);
}

/// Replacing one worker's state trades that worker's old contribution to a
/// task's running count for the new one.
proof fn lemma_running_count_update(ws: Seq<WorkerState>, w: int, x: WorkerState, t: Task)
    requires
        0 <= w < ws.len(),
    ensures
        running_count(ws.update(w, x), t) + (if ws[w] == WorkerState::Running(t) {
            1nat
        } else {
            0nat
        }) == running_count(ws, t) + (if x == WorkerState::Running(t) {
            1nat
        } else {
            0nat
        }),
    decreases ws.len(),
{
    if w == ws.len() - 1 {
        assert(ws.update(w, x).drop_last() =~= ws.drop_last());
        assert(ws.update(w, x).last() == x);
    } else {
        assert(ws.update(w, x).drop_last() =~= ws.drop_last().update(w, x));
        assert(ws.update(w, x).last() == ws.last());
        lemma_running_count_update(ws.drop_last(), w, x, t);
    }
}

/// Appending one event extends the started and completed projections by
/// exactly the task that event records, if any.
proof fn lemma_log_push(log: Seq<PoolEvent>, e: PoolEvent)
    ensures
        started_of(log.push(e)) == (match started_task_of(e) {
            Some(t) => started_of(log).push(t),
            None => started_of(log),
        }),
        completed_of(log.push(e)) == (match completed_task_of(e) {
            Some(t) => completed_of(log).push(t),
            None => completed_of(log),
        }),
{
    assert(log.push(e).drop_last() =~= log);
    assert(log.push(e).last() == e);
}

/// A fixed-size worker pool: one bounded FIFO queue, one pause gate, one
/// worker state per configured worker, a log of observable events, and the
/// sequence of all tasks accepted so far.
///
/// The well-formedness invariant ties them together: the queue never
/// exceeds its capacity, the accepted tasks are exactly the picked-up
/// tasks followed by the tasks still queued — which is what makes the FIFO
/// guarantee provable — and every pickup is accounted for by a completion
/// or a worker still running the task, so nothing executes twice.
pub struct Pool {
    queue: BoundedTaskQueue,
    gate: PauseGate,
    workers: Vec<WorkerState>,
    events: Vec<PoolEvent>,
    accepted: Vec<Task>,
}

impl Pool {
    /// The queued tasks, oldest first.
    pub closed spec fn queue_view(&self) -> Seq<Task> {
        self.queue@
    }

    /// The queue's fixed capacity.
    pub closed spec fn cap(&self) -> usize {
        self.queue.cap()
    }

    /// Whether the pause flag is raised.
    pub closed spec fn paused(&self) -> bool {
        self.gate.paused
    }

    /// The state of each worker, by index.
    pub closed spec fn workers_view(&self) -> Seq<WorkerState> {
        self.workers@
    }

    /// The observable events recorded so far, oldest first.
    pub closed spec fn log(&self) -> Seq<PoolEvent> {
        self.events@
    }

    /// Every task accepted into the queue so far, in acceptance order.
    pub closed spec fn accepted_view(&self) -> Seq<Task> {
        self.accepted@
    }

    /// Every task picked up by some worker so far, in pickup order.
    pub open spec fn started(&self) -> Seq<Task> {
        started_of(self.log())
    }

    /// Every task some worker finished executing so far, in completion
    /// order.
    pub open spec fn completed(&self) -> Seq<Task> {
        completed_of(self.log())
    }

    /// Well-formedness: the capacity is positive, the queue never exceeds
    /// it, the accepted tasks are exactly the picked-up tasks followed by
    /// the tasks still queued, and every pickup of a task is accounted for
    /// by either a completion or a worker still running it — so no task
    /// runs more often than it was picked up.
    pub open spec fn wf(&self) -> bool {
        &&& 1 <= self.cap()
        &&& self.queue_view().len() <= self.cap()
        &&& self.accepted_view() == started_of(self.log()) + self.queue_view()
        &&& forall|t: Task| #[trigger] occurrences(started_of(self.log()), t)
            == occurrences(completed_of(self.log()), t) + running_count(self.workers_view(), t)
    }

    /// Creates a pool with an empty queue of the given positive capacity,
    /// the pause gate open, and `n_workers` idle workers.
    pub fn new(capacity: usize, n_workers: usize) -> (p: Pool)
        requires
            capacity >= 1,
        ensures
            p.wf(),
            p.cap() == capacity,
            p.queue_view() == Seq::<Task>::empty(),
            !p.paused(),
            p.workers_view().len() == n_workers,
            forall|i: int| 0 <= i < n_workers ==> p.workers_view()[i] == WorkerState::WaitingForTask,
            p.log() == Seq::<PoolEvent>::empty(),
            p.accepted_view() == Seq::<Task>::empty(),
    {
        let mut workers: Vec<WorkerState> = Vec::new();
        let mut i: usize = 0;
        while i < n_workers
            invariant
                i <= n_workers,
                workers@.len() == i,
                forall|j: int| 0 <= j < i ==> workers@[j] == WorkerState::WaitingForTask,
                forall|t: Task| #[trigger] running_count(workers@, t) == 0,
            decreases n_workers - i,
        {
            let ghost pre_workers = workers@;
            workers.push(WorkerState::WaitingForTask);
            proof {
                assert forall|t: Task| #[trigger] running_count(workers@, t) == 0 by {
                    lemma_running_count_push(pre_workers, WorkerState::WaitingForTask, t);
                }
            }
            i = i + 1;
        }
        let p = Pool {
            queue: BoundedTaskQueue::new(capacity),
            gate: PauseGate::new(),
            workers,
            events: Vec::new(),
            accepted: Vec::new(),
        };
        proof {
            assert(p.accepted@ =~= started_of(p.events@) + p.queue@);
        }
        p
    }

    /// Submits a task: it is appended to the queue's tail, or discarded if
    /// the queue is at capacity — at-most-once, best-effort, never
    /// blocking. `Accepted` is returned exactly when the queue had room;
    /// on acceptance the surrounding program wakes one blocked consumer.
    pub fn submit(&mut self, task: Task) -> (outcome: SubmitOutcome)
        requires
            old(self).wf(),
        ensures
            final(self).wf(),
            final(self).cap() == old(self).cap(),
            final(self).paused() == old(self).paused(),
            final(self).workers_view() == old(self).workers_view(),
            final(self).log() == old(self).log(),
            outcome == SubmitOutcome::Accepted <==> old(self).queue_view().len() < old(self).cap(),
            outcome == SubmitOutcome::Accepted ==> final(self).queue_view()
                == old(self).queue_view().push(task),
            outcome == SubmitOutcome::Accepted ==> final(self).accepted_view()
                == old(self).accepted_view().push(task),
            outcome == SubmitOutcome::Discarded ==> final(self).queue_view()
                == old(self).queue_view(),
            outcome == SubmitOutcome::Discarded ==> final(self).accepted_view()
                == old(self).accepted_view(),
            final(self).queue_view().len() <= final(self).cap(),
    {
        let outcome = self.queue.try_push(task);
        match outcome {
            SubmitOutcome::Accepted => {
                self.accepted.push(task);
                proof {
                    assert(self.accepted@ =~= started_of(self.events@) + self.queue@);
                }
            },
            SubmitOutcome::Discarded => {},
        }
        outcome
    }

    /// Raises the pause flag; all current and future workers observe it
    /// uniformly, each between tasks. Idempotent: pausing an already
    /// paused pool changes nothing. Returns whether the flag changed,
    /// which is exactly when the surrounding program wakes all blocked
    /// workers.
    pub fn pause(&mut self) -> (changed: bool)
        requires
            old(self).wf(),
        ensures
            final(self).wf(),
            final(self).paused(),
            changed <==> !old(self).paused(),
            old(self).paused() ==> *final(self) == *old(self),
            final(self).cap() == old(self).cap(),
            final(self).queue_view() == old(self).queue_view(),
            final(self).workers_view() == old(self).workers_view(),
            final(self).log() == old(self).log(),
            final(self).accepted_view() == old(self).accepted_view(),
    {
        self.gate.pause()
    }

    /// Clears the pause flag; parked workers go back to waiting for work.
    /// Idempotent: resuming a pool that is not paused changes nothing.
    /// Returns whether the flag changed, which is exactly when the
    /// surrounding program wakes all blocked workers.
    pub fn resume(&mut self) -> (changed: bool)
        requires
            old(self).wf(),
        ensures
            final(self).wf(),
            !final(self).paused(),
            changed <==> old(self).paused(),
            !old(self).paused() ==> *final(self) == *old(self),
            final(self).cap() == old(self).cap(),
            final(self).queue_view() == old(self).queue_view(),
            final(self).workers_view() == old(self).workers_view(),
            final(self).log() == old(self).log(),
            final(self).accepted_view() == old(self).accepted_view(),
    {
        self.gate.resume()
    }

    /// One worker attempts to pick up a task. The pickup happens exactly
    /// when the worker is idle, the pause gate is open, and the queue is
    /// non-empty; then the worker removes the head task, starts running
    /// it, and the pickup is logged. While the pool is paused no task
    /// begins execution on any worker, and an idle worker that finds the
    /// queue empty suspends and retries after its next wakeup.
    pub fn worker_pickup(&mut self, w: usize) -> (picked: Option<Task>)
        requires
            old(self).wf(),
            w < old(self).workers_view().len(),
        ensures
            final(self).wf(),
            final(self).cap() == old(self).cap(),
            final(self).paused() == old(self).paused(),
            final(self).accepted_view() == old(self).accepted_view(),
            final(self).workers_view().len() == old(self).workers_view().len(),
            old(self).paused() ==> picked is None,
            picked is None ==> *final(self) == *old(self),
            picked is Some <==> (!old(self).paused()
                && old(self).workers_view()[w as int] == WorkerState::WaitingForTask
                && old(self).queue_view().len() > 0),
            picked matches Some(t) ==> t == old(self).queue_view()[0],
            picked is Some ==> final(self).queue_view()
                == old(self).queue_view().subrange(1, old(self).queue_view().len() as int),
            picked matches Some(t) ==> final(self).workers_view()
                == old(self).workers_view().update(w as int, WorkerState::Running(t)),
            picked matches Some(t) ==> final(self).log()
                == old(self).log().push((PoolEvent::TaskStarted { worker: w, task: t })),
            picked matches Some(t) ==> final(self).started() == old(self).started().push(t),
            final(self).completed() == old(self).completed(),
    {
        if self.gate.is_paused() {
            return None;
        }
        let idle = match self.workers[w] {
            WorkerState::WaitingForTask => true,
            _ => false,
        };
        if !idle {
            return None;
        }
        match self.queue.pop_front() {
            None => None,
            Some(task) => {
                let ghost pre_log = self.events@;
                let ghost pre_workers = self.workers@;
                self.workers[w] = WorkerState::Running(task);
                self.events.push(PoolEvent::TaskStarted { worker: w, task });
                proof {
                    lemma_log_push(pre_log, PoolEvent::TaskStarted { worker: w, task });
                    assert(self.accepted@ =~= started_of(self.events@) + self.queue@);
                    assert forall|t: Task| #[trigger] occurrences(started_of(self.events@), t)
                        == occurrences(completed_of(self.events@), t)
                            + running_count(self.workers@, t) by {
                        lemma_occurrences_push(started_of(pre_log), task, t);
                        lemma_running_count_update(
                            pre_workers,
                            w as int,
                            WorkerState::Running(task),
                            t,
                        );
                    }
                }
                Some(task)
            },
        }
    }

    /// One worker finishes the task it is running and then consults the
    /// pause gate, as pause is only observed between tasks: if the pool is
    /// paused the worker parks until resumed, otherwise it goes back to
    /// waiting for work. A running task always completes — even while the
    /// pool is paused — and the completion (and any pause-entry) is
    /// logged. A worker that is not running anything changes nothing.
    pub fn worker_finish(&mut self, w: usize) -> (finished: Option<Task>)
        requires
            old(self).wf(),
            w < old(self).workers_view().len(),
        ensures
            final(self).wf(),
            final(self).cap() == old(self).cap(),
            final(self).paused() == old(self).paused(),
            final(self).queue_view() == old(self).queue_view(),
            final(self).accepted_view() == old(self).accepted_view(),
            final(self).workers_view().len() == old(self).workers_view().len(),
            finished is Some <==> old(self).workers_view()[w as int] is Running,
            finished is None ==> *final(self) == *old(self),
            finished matches Some(t) ==> old(self).workers_view()[w as int]
                == WorkerState::Running(t),
            finished matches Some(t) ==> final(self).completed() == old(self).completed().push(t),
            final(self).started() == old(self).started(),
            finished is Some && old(self).paused() ==> final(self).workers_view()
                == old(self).workers_view().update(w as int, WorkerState::Paused),
            finished matches Some(t) ==> (old(self).paused() ==> final(self).log()
                == old(self).log().push((PoolEvent::TaskCompleted { worker: w, task: t })).push(
                (PoolEvent::PauseEntered { worker: w }))),
            finished is Some && !old(self).paused() ==> final(self).workers_view()
                == old(self).workers_view().update(w as int, WorkerState::WaitingForTask),
            finished matches Some(t) ==> (!old(self).paused() ==> final(self).log()
                == old(self).log().push((PoolEvent::TaskCompleted { worker: w, task: t }))),
    {
        match self.workers[w] {
            WorkerState::Running(task) => {
                let ghost pre_log = self.events@;
                let ghost pre_workers = self.workers@;
                self.events.push(PoolEvent::TaskCompleted { worker: w, task });
                proof {
                    lemma_log_push(pre_log, PoolEvent::TaskCompleted { worker: w, task });
                }
                if self.gate.is_paused() {
                    let ghost mid_log = self.events@;
                    self.workers[w] = WorkerState::Paused;
                    self.events.push(PoolEvent::PauseEntered { worker: w });
                    proof {
                        lemma_log_push(mid_log, PoolEvent::PauseEntered { worker: w });
                    }
                } else {
                    self.workers[w] = WorkerState::WaitingForTask;
                }
                proof {
                    let next = self.workers@[w as int];
                    assert(self.workers@ =~= pre_workers.update(w as int, next));
                    assert(self.accepted@ =~= started_of(self.events@) + self.queue@);
                    assert forall|t: Task| #[trigger] occurrences(started_of(self.events@), t)
                        == occurrences(completed_of(self.events@), t)
                            + running_count(self.workers@, t) by {
                        lemma_occurrences_push(completed_of(pre_log), task, t);
                        lemma_running_count_update(pre_workers, w as int, next, t);
                    }
                }
                Some(task)
            },
            _ => None,
        }
    }

    /// One parked worker re-checks the pause gate after a wakeup: if the pool
    /// has been resumed the worker exits the paused state and goes back to
    /// waiting for work, and the exit is logged; if the flag is still
    /// raised the wakeup was spurious and nothing changes.
    pub fn worker_unpause(&mut self, w: usize) -> (resumed: bool)
        requires
            old(self).wf(),
            w < old(self).workers_view().len(),
        ensures
            final(self).wf(),
            final(self).cap() == old(self).cap(),
            final(self).paused() == old(self).paused(),
            final(self).queue_view() == old(self).queue_view(),
            final(self).accepted_view() == old(self).accepted_view(),
            final(self).workers_view().len() == old(self).workers_view().len(),
            resumed <==> (old(self).workers_view()[w as int] is Paused && !old(self).paused()),
            !resumed ==> *final(self) == *old(self),
            resumed ==> final(self).workers_view()
                == old(self).workers_view().update(w as int, WorkerState::WaitingForTask),
            resumed ==> final(self).log()
                == old(self).log().push((PoolEvent::PauseExited { worker: w })),
            final(self).started() == old(self).started(),
            final(self).completed() == old(self).completed(),
    {
        let parked = match self.workers[w] {
            WorkerState::Paused => true,
            _ => false,
        };
        if parked && !self.gate.is_paused() {
            let ghost pre_log = self.events@;
            let ghost pre_workers = self.workers@;
            self.workers[w] = WorkerState::WaitingForTask;
            self.events.push(PoolEvent::PauseExited { worker: w });
            proof {
                lemma_log_push(pre_log, PoolEvent::PauseExited { worker: w });
                assert(self.accepted@ =~= started_of(self.events@) + self.queue@);
                assert forall|t: Task| #[trigger] occurrences(started_of(self.events@), t)
                    == occurrences(completed_of(self.events@), t)
                        + running_count(self.workers@, t) by {
                    lemma_running_count_update(
                        pre_workers,
                        w as int,
                        WorkerState::WaitingForTask,
                        t,
                    );
                }
            }
            true
        } else {
            false
        }
    }

    /// The drain decision: true exactly when the queue is empty. The
    /// surrounding program's shutdown blocks — repeatedly taking the
    /// queue's lock for this snapshot alone — until this returns true, so
    /// it returns if and only if the queue was empty at that instant. Note
    /// that an empty queue says nothing about in-flight executions: this
    /// is a drain signal, not a full graceful shutdown.
    pub fn shutdown_ready(&self) -> (drained: bool)
        ensures
            drained <==> self.queue_view().len() == 0,
    {
        self.queue.is_empty()
    }

    /// The number of queued tasks.
    pub fn queue_len(&self) -> (n: usize)
        ensures
            n == self.queue_view().len(),
    {
        self.queue.len()
    }

    /// The queue's fixed capacity.
    pub fn capacity(&self) -> (c: usize)
        ensures
            c == self.cap(),
    {
        self.queue.capacity()
    }

    /// Snapshot of the pause flag.
    pub fn is_paused(&self) -> (p: bool)
        ensures
            p == self.paused(),
    {
        self.gate.is_paused()
    }

    /// The fixed number of workers.
    pub fn worker_count(&self) -> (n: usize)
        ensures
            n == self.workers_view().len(),
    {
        self.workers.len()
    }

    /// The state of one worker.
    pub fn worker_state(&self, w: usize) -> (s: WorkerState)
        requires
            w < self.workers_view().len(),
        ensures
            s == self.workers_view()[w as int],
    {
        self.workers[w]
    }

    /// The observable events recorded so far, oldest first.
    pub fn events(&self) -> (log: &Vec<PoolEvent>)
        ensures
            log@ == self.log(),
    {
        &self.events
    }

    /// Every task accepted so far, in acceptance order.
    pub fn accepted_tasks(&self) -> (ts: &Vec<Task>)
        ensures
            ts@ == self.accepted_view(),
    {
        &self.accepted
    }
}

/// At no point does the queue's length exceed the configured capacity:
/// the bound is part of the pool's invariant, which every operation
/// preserves.
pub proof fn lemma_queue_never_exceeds_capacity(p: &Pool)
    requires
        p.wf(),
    ensures
        p.queue_view().len() <= p.cap(),
{
}

/// Tasks are picked up in exactly the order they were accepted: at every
/// instant the picked-up tasks are a prefix of the accepted tasks, and the
/// queue holds precisely the accepted tasks not yet picked up, in order —
/// strict FIFO, however many workers drain concurrently.
pub proof fn lemma_fifo_order(p: &Pool)
    requires
        p.wf(),
    ensures
        p.started().len() <= p.accepted_view().len(),
        p.started() == p.accepted_view().take(p.started().len() as int),
        p.queue_view() == p.accepted_view().skip(p.started().len() as int),
{
    assert(p.started() =~= p.accepted_view().take(p.started().len() as int));
    assert(p.queue_view() =~= p.accepted_view().skip(p.started().len() as int));
}

/// Each accepted task is consumed at most once: at every instant its
/// completions plus the workers still running it exactly account for its
/// pickups, and it was picked up no more often than it was accepted.
pub proof fn lemma_tasks_execute_at_most_once(p: &Pool, t: Task)
    requires
        p.wf(),
    ensures
        occurrences(completed_of(p.log()), t) + running_count(p.workers_view(), t)
            == occurrences(started_of(p.log()), t),
        occurrences(started_of(p.log()), t) <= occurrences(p.accepted_view(), t),
{
    lemma_occurrences_concat(started_of(p.log()), p.queue_view(), t);
}

} // verus!

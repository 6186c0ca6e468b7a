//! Per-worker state: the three-state machine a worker moves through.

use vstd::prelude::*;
use crate::task::Task;

verus! {

/// The state machine of one worker. A worker loops forever through:
/// waiting for a task, running it to completion, and — only between tasks —
/// parking at the pause gate until resumed. There is no terminal state:
/// workers are created once at pool construction and never stopped.
#[derive(Clone, Copy, PartialEq, Eq, Structural, Debug)]
pub enum WorkerState {
    /// Idle, blocked until the queue hands out a task.
    WaitingForTask,
    /// Executing the carried task synchronously; never interrupted, even by
    /// a pause.
    Running(Task),
    /// Parked at the pause gate between tasks, blocked until resumed.
    Paused,
}

} // verus!

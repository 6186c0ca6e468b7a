//! Tasks: immutable units of work with an identifier and a simulated duration.

use vstd::prelude::*;

verus! {

/// Smallest simulated duration a randomly drawn task can have, in seconds.
pub const MIN_RANDOM_WAIT_S: u64 = 5;

/// Number of distinct simulated durations a randomly drawn task can have.
pub const RANDOM_WAIT_SPAN: u64 = 5;

/// An immutable unit of work: an opaque identifier and a non-negative
/// simulated execution time in seconds. Created once, consumed exactly once
/// by a worker, then discarded.
#[derive(Clone, Copy, PartialEq, Eq, Structural, Debug)]
pub struct Task {
    /// Opaque small integer identifying the task for logging and testing.
    pub id: u8,
    /// Simulated execution time, in whole seconds.
    pub wait_time_s: u64,
}

impl Task {
    /// Creates a task. Any id and any duration are valid; there is no
    /// failure mode.
    pub fn new(id: u8, wait_time_s: u64) -> (t: Task)
        ensures
            t.id == id,
            t.wait_time_s == wait_time_s,
    {
        Task { id, wait_time_s }
    }

    /// Maps an arbitrary draw to a simulated duration in the span
    /// `MIN_RANDOM_WAIT_S ..= MIN_RANDOM_WAIT_S + RANDOM_WAIT_SPAN - 1`.
    pub fn duration_from_seed(seed: u64) -> (d: u64)
        ensures
            d == seed % RANDOM_WAIT_SPAN + MIN_RANDOM_WAIT_S,
            MIN_RANDOM_WAIT_S <= d < MIN_RANDOM_WAIT_S + RANDOM_WAIT_SPAN,
    {
        (seed % RANDOM_WAIT_SPAN) + MIN_RANDOM_WAIT_S
    }

    /// Draws a task with a random id and a random duration in the span
    /// `MIN_RANDOM_WAIT_S ..= MIN_RANDOM_WAIT_S + RANDOM_WAIT_SPAN - 1`.
    /// Nothing beyond that range is promised: the draw is random.
    pub fn random() -> (t: Task)
        ensures
            MIN_RANDOM_WAIT_S <= t.wait_time_s < MIN_RANDOM_WAIT_S + RANDOM_WAIT_SPAN,
    {
        let seed: u64 = rand::random();
        let id: u8 = rand::random();
        Task { id, wait_time_s: Task::duration_from_seed(seed) }
    }
}

/// Relies on rand::random: draws a value of the standard distribution.
/// Nothing is promised of the result: it is random.
pub assume_specification<T>[ rand::random::<T> ]() -> (r: T)
    where
        rand::distributions::Standard: rand::distributions::Distribution<T>,
;

} // verus!

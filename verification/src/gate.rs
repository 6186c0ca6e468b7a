//! The pause gate: a shared flag whose transitions suspend and resume all
//! workers in lockstep.

use vstd::prelude::*;

verus! {

/// A shared pause flag. The value observed under lock is authoritative; the
/// flag is flipped only by the owning pool in response to `pause` and
/// `resume` calls. Workers consult it only between tasks, so pause is
/// cooperative: a task already running when the flag is raised always
/// completes.
///
/// In a concurrent setting the surrounding program guards every call behind
/// the pause gate's lock and uses its wait/notify channel: a `true` from
/// [`PauseGate::pause`] or [`PauseGate::resume`] is the signal to wake all
/// blocked workers, and a worker blocked while paused re-checks
/// [`PauseGate::is_paused`] after each wakeup, which guards against spurious
/// wakeups.
#[derive(Clone, Copy, PartialEq, Eq, Structural, Debug)]
pub struct PauseGate {
    /// Whether the pool is currently paused.
    pub paused: bool,
}

/// The pause-gate state after a `pause` call: paused, whatever it was before.
pub open spec fn gate_after_pause(g: PauseGate) -> PauseGate {
    PauseGate { paused: true }
}

/// The pause-gate state after a `resume` call: not paused, whatever it was before.
pub open spec fn gate_after_resume(g: PauseGate) -> PauseGate {
    PauseGate { paused: false }
}

impl PauseGate {
    /// Creates a gate in the running (not paused) state.
    pub fn new() -> (g: PauseGate)
        ensures
            !g.paused,
    {
        PauseGate { paused: false }
    }

    /// Raises the pause flag. Returns whether the flag changed, which is
    /// exactly when all blocked workers must be woken; calling `pause` while
    /// already paused changes nothing and wakes nobody.
    pub fn pause(&mut self) -> (changed: bool)
        ensures
            *final(self) == gate_after_pause(*old(self)),
            changed <==> !old(self).paused,
            old(self).paused ==> *final(self) == *old(self),
    {
        if !self.paused {
            self.paused = true;
            true
        } else {
            false
        }
    }

    /// Clears the pause flag. Returns whether the flag changed, which is
    /// exactly when all blocked workers must be woken; calling `resume`
    /// while already running changes nothing and wakes nobody.
    pub fn resume(&mut self) -> (changed: bool)
        ensures
            *final(self) == gate_after_resume(*old(self)),
            changed <==> old(self).paused,
            !old(self).paused ==> *final(self) == *old(self),
    {
        if self.paused {
            self.paused = false;
            true
        } else {
            false
        }
    }

    /// Snapshot of the flag. A worker blocked while paused re-checks this
    /// after every wakeup before going back to work.
    pub fn is_paused(&self) -> (p: bool)
        ensures
            p == self.paused,
    {
        self.paused
    }
}

/// Pausing twice leaves the pause gate exactly as pausing once does: `pause` is
/// idempotent.
pub proof fn lemma_pause_idempotent(g: PauseGate)
    ensures
        gate_after_pause(gate_after_pause(g)) == gate_after_pause(g),
{
}

/// Resuming twice leaves the pause gate exactly as resuming once does: `resume`
/// is idempotent.
pub proof fn lemma_resume_idempotent(g: PauseGate)
    ensures
        gate_after_resume(gate_after_resume(g)) == gate_after_resume(g),
{
}

} // verus!

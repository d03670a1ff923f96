//! The single-flight start-command supervisor.
//!
//! At most one child of the start command may exist across all concurrent
//! connections. The surrounding runtime holds this state behind one lock
//! and reports two outside facts into it: whether the tracked child has
//! exited, and whether an attempted spawn succeeded. The decision logic —
//! when a new child is owed and what each caller is told — lives here and
//! is exact.
use vstd::prelude::*;

verus! {

/// Whether a start-command child is currently tracked.
#[derive(Debug, Clone, Copy, PartialEq, Eq, Structural)]
pub enum SupervisorState {
    Idle,
    Running,
}

/// The lock-protected state of the supervisor: created once at startup and
/// shared by every connection.
#[derive(Debug, Clone, Copy, PartialEq, Eq, Structural)]
pub struct Supervisor {
    pub state: SupervisorState,
}

/// Whether a spawn is owed: only when no tracked child is still running.
pub open spec fn should_spawn_spec(sup: Supervisor, child_finished: bool) -> bool {
    !(sup.state is Running && !child_finished)
}

impl Supervisor {
    pub fn new() -> (r: Supervisor)
        ensures
            r.state is Idle,
    {
        Supervisor { state: SupervisorState::Idle }
    }

    /// The test made under the lock: `child_finished` reports whether the
    /// tracked child (if any) has exited. `false` means a child is still
    /// running and the caller must not spawn another.
    pub fn should_spawn(&self, child_finished: bool) -> (r: bool)
        ensures
            r == should_spawn_spec(*self, child_finished),
    {
        match self.state {
            SupervisorState::Running => child_finished,
            SupervisorState::Idle => true,
        }
    }

    /// Records the outcome of a spawn attempt, still under the lock: a
    /// successful spawn leaves a running child tracked; a failed one
    /// leaves the supervisor idle, so the next request may try again.
    pub fn record_spawn(&mut self, spawn_ok: bool)
        ensures
            final(self).state is Running <==> spawn_ok,
    {
        if spawn_ok {
            self.state = SupervisorState::Running;
        } else {
            self.state = SupervisorState::Idle;
        }
    }
}

/// Single-flight: after one caller has spawned (the supervisor tracks a
/// running child), every request serialized after it while the child has
/// not exited is told not to spawn.
pub proof fn lemma_single_flight(sup: Supervisor, child_finished: bool)
    requires
        sup.state is Running,
        !child_finished,
    ensures
        !should_spawn_spec(sup, child_finished),
{
}

/// Restart after exit: once the tracked child has exited, the next request
/// is told to spawn again, whatever the supervisor went through before.
pub proof fn lemma_restart_after_exit(sup: Supervisor)
    ensures
        should_spawn_spec(sup, true),
{
}

} // verus!

//! The supervisor state machine: the bootstrap path that takes the system
//! from reset, through runtime initialization, into the single task, and —
//! once that task terminates — into the idle-forever state.
//!
//! The surrounding firmware performs the actual runtime setup, invokes the
//! entry task, and parks the processor; this module holds the states and
//! the only transitions that exist between them.

use vstd::prelude::*;

use crate::StatusType;

verus! {

/// The supervisor's execution phase.
#[derive(Clone, Copy, Debug, PartialEq, Eq, Structural)]
pub enum OsState {
    /// Power-on state, before any runtime setup.
    Reset,
    /// One-time runtime setup is underway.
    Initializing,
    /// The entry task is running.
    Running,
    /// The task has terminated; the system parks forever.
    Idle,
}

/// Process bootstrap state. The only transitions are
/// `Reset -> Initializing -> Running -> Idle`.
pub struct Supervisor {
    /// Current phase.
    pub state: OsState,
}

impl Supervisor {
    /// A freshly powered-on supervisor.
    pub fn new() -> (s: Supervisor)
        ensures
            s.state == OsState::Reset,
    {
        Supervisor { state: OsState::Reset }
    }

    /// Records that the one-time runtime setup has been performed; the first
    /// step of `start_os`.
    pub fn initialize(&mut self)
        requires
            old(self).state == OsState::Reset,
        ensures
            final(self).state == OsState::Initializing,
    {
        self.state = OsState::Initializing;
    }

    /// Hands control to the entry task. The invocation itself is a direct
    /// synchronous call made by the surrounding firmware; this transition
    /// records that the task is now running and reports success.
    #[allow(non_snake_case)]
    pub fn ActivateTask(&mut self) -> (r: StatusType)
        requires
            old(self).state == OsState::Initializing,
        ensures
            final(self).state == OsState::Running,
            r == StatusType::EOk,
    {
        self.state = OsState::Running;
        StatusType::EOk
    }

    /// Records that control has returned from the task. Nothing is
    /// reclaimed: no per-task state exists. The system then parks.
    #[allow(non_snake_case)]
    pub fn TerminateTask(&mut self)
        requires
            old(self).state == OsState::Running,
        ensures
            final(self).state == OsState::Idle,
    {
        self.state = OsState::Idle;
    }
}

} // verus!

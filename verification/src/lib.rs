//! A minimal OSEK/AUTOSAR-style real-time kernel core: a fixed table of
//! software alarms driven by a periodic tick, an arm/query/cancel API, and
//! the supervisor state machine that brings the system from reset to its
//! steady state.
//!
//! Hardware concerns (timer peripheral programming, interrupt masking, heap
//! bootstrap, callback linkage) live outside this crate; this crate holds the
//! state, the rules, and their proofs.

use vstd::prelude::*;

pub mod alarms;
pub mod supervisor;

verus! {

/// Status code returned by every fallible kernel service.
#[derive(Clone, Copy, Debug, PartialEq, Eq, Structural)]
pub enum StatusType {
    /// No error.
    EOk,
    /// The alarm identifier is outside the configured range.
    EOsId,
    /// The service needs an armed alarm but the slot is idle.
    EOsNoFunc,
    /// A tick or cycle argument violates the counter's declared range.
    EOsValue,
    /// Arming was requested on an alarm that is already armed.
    EOsState,
}

} // verus!

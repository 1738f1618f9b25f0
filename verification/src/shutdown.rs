//! Cooperative shutdown.
//!
//! An interrupt sets a flag; the polling loop reads it between two rounds and
//! never during one. The flag is an atomic boolean shared with the interrupt
//! handler. What the loop has seen of it goes from `Running` to `StopRequested`.

use vstd::prelude::*;
use std::sync::Arc;
use std::sync::atomic::AtomicBool;
use std::sync::atomic::Ordering;

verus! {

/// What the polling loop knows of the operator's wish to stop.
#[derive(Clone, Copy, Debug, PartialEq, Eq, Structural)]
pub enum ShutdownState {
    Running,
    StopRequested,
}

impl ShutdownState {
    /// The state after the flag was read as `flag_set`. A stop, once seen,
    /// stays.
    pub open spec fn observed(self, flag_set: bool) -> ShutdownState {
        if flag_set {
            ShutdownState::StopRequested
        } else {
            self
        }
    }

    /// Takes in a reading of the flag.
    pub fn observe(self, flag_set: bool) -> (next: ShutdownState)
        ensures
            next == self.observed(flag_set),
    {
        if flag_set {
            ShutdownState::StopRequested
        } else {
            self
        }
    }

    /// Whether a stop has been seen.
    pub fn stop_requested(self) -> (requested: bool)
        ensures
            requested == (self == ShutdownState::StopRequested),
    {
        match self {
            ShutdownState::Running => false,
            ShutdownState::StopRequested => true,
        }
    }
}

/// `StopRequested` is final: no reading of the flag leads away from it, and
/// `Running` is left only by a reading that finds the flag set.
pub proof fn lemma_stop_is_final(state: ShutdownState, flag_set: bool)
    ensures
        ShutdownState::StopRequested.observed(flag_set) == ShutdownState::StopRequested,
        state.observed(false) == state,
        state.observed(true) == ShutdownState::StopRequested,
        state.observed(flag_set).observed(flag_set) == state.observed(flag_set),
{
}

/// Why the interrupt handler could not be installed.
#[derive(Clone, Copy, Debug, PartialEq, Eq, Structural)]
pub enum HandlerError {
    /// The system does not know the signal.
    NoSuchSignal,
    /// This process has installed a handler before.
    MultipleHandlers,
    /// The system refused for another reason.
    System,
}

/// The flag that an interrupt sets and the polling loop reads.
pub struct ShutdownFlag {
    flag: Arc<AtomicBool>,
}

/// `Arc::clone` on the flag's atomic: the clone points to the allocation that
/// `flag` points to, so it is the same atomic. Nothing is claimed of what it holds.
#[verifier::external_body]
fn share_atomic(flag: &Arc<AtomicBool>) -> (shared: Arc<AtomicBool>)
    ensures
        shared == *flag,
{
    Arc::clone(flag)
}

/// `ctrlc::set_handler` with a handler that sets `flag` on every interrupt. The
/// three errors of `ctrlc` are told apart; nothing is claimed of the result.
#[verifier::external_body]
fn set_interrupt_handler(flag: ShutdownFlag) -> (result: Result<(), HandlerError>) {
    match ctrlc::set_handler(move || flag.request_stop()) {
        Ok(()) => Ok(()),
        Err(ctrlc::Error::NoSuchSignal(_)) => Err(HandlerError::NoSuchSignal),
        Err(ctrlc::Error::MultipleHandlers) => Err(HandlerError::MultipleHandlers),
        Err(ctrlc::Error::System(_)) => Err(HandlerError::System),
    }
}

impl ShutdownFlag {
    /// A flag that is not set.
    pub fn new() -> (flag: ShutdownFlag) {
        ShutdownFlag { flag: Arc::new(AtomicBool::new(false)) }
    }

    /// Another handle to the same flag: what one sets, the other reads.
    pub fn share(&self) -> (shared: ShutdownFlag)
        ensures
            shared == *self,
    {
        ShutdownFlag { flag: share_atomic(&self.flag) }
    }

    /// Reads the flag. The result is whatever the atomic holds at that moment:
    /// an interrupt, or `request_stop` on any handle to this flag, may have set
    /// it at any time before, and nothing resets it. No clause can speak of it;
    /// what follows from a reading is stated by `ShutdownState::observe`.
    pub fn is_set(&self) -> (set: bool) {
        self.flag.load(Ordering::SeqCst)
    }

    /// Reads the flag once and moves `state` on by what was read. Whatever
    /// the reading, a stop seen before stays seen, and a stop is reported only
    /// if it was seen before or the flag is set now.
    pub fn poll(&self, state: ShutdownState) -> (next: ShutdownState)
        ensures
            next == state || next == ShutdownState::StopRequested,
            state == ShutdownState::StopRequested ==> next == ShutdownState::StopRequested,
    {
        let set = self.is_set();
        state.observe(set)
    }

    /// Installs the process's interrupt handler, which sets this flag on
    /// every interrupt. A process can do this once.
    pub fn install(&self) -> (result: Result<(), HandlerError>) {
        set_interrupt_handler(self.share())
    }

    /// Sets the flag. Safe to call from the interrupt handler while the loop
    /// reads the flag.
    pub fn request_stop(&self) {
        self.flag.store(true, Ordering::SeqCst);
    }
}

} // verus!

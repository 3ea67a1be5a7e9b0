//! The clock's lifecycle, as decisions from phase and event to the next
//! phase and the action the host must perform. The host spawns and stops
//! the driver, waits for its readiness message (at most
//! `HANDSHAKE_TIMEOUT_MILLIS`), and reports what happened as events.

use crate::session::SetupFault;
use vstd::prelude::*;

verus! {

#[derive(Clone, Copy, Debug, PartialEq, Eq, Structural)]
pub enum ClockPhase {
    /// The counter exists; no driver yet.
    Created,
    /// The driver was spawned and has not yet signalled readiness.
    Started,
    /// The driver signalled readiness; probes may read the clock.
    Ready,
    /// Probes are reading the clock.
    Running,
    /// The driver was stopped after the probes finished.
    Stopped,
    /// The session failed; the driver, if any, was stopped.
    Failed(SetupFault),
}

#[derive(Clone, Copy, Debug, PartialEq, Eq, Structural)]
pub enum ClockEvent {
    /// The session asks for a clock.
    Start,
    /// The host lacks the shared memory or atomics the clock needs.
    Unsupported,
    /// The driver's explicit readiness message arrived.
    DriverReady,
    /// No readiness message arrived in time.
    HandshakeTimedOut,
    /// The first probe is about to read the clock.
    ProbesStarted,
    /// The last probe produced its result, or one faulted.
    ProbesEnded,
}

#[derive(Clone, Copy, Debug, PartialEq, Eq, Structural)]
pub enum ClockAction {
    SpawnDriver,
    RunProbes,
    StopDriver,
    /// Report the setup fault; there is no driver to stop.
    ReportFault(SetupFault),
    /// The event does not apply in this phase and changes nothing.
    Ignore,
}

/// The transition function.
pub open spec fn transition(phase: ClockPhase, event: ClockEvent) -> (ClockPhase, ClockAction) {
    match (phase, event) {
        (ClockPhase::Created, ClockEvent::Start) => (ClockPhase::Started, ClockAction::SpawnDriver),
        (ClockPhase::Created, ClockEvent::Unsupported) => (
            ClockPhase::Failed(SetupFault::SharedMemoryUnsupported),
            ClockAction::ReportFault(SetupFault::SharedMemoryUnsupported),
        ),
        (ClockPhase::Started, ClockEvent::DriverReady) => (ClockPhase::Ready, ClockAction::RunProbes),
        (ClockPhase::Started, ClockEvent::HandshakeTimedOut) => (
            ClockPhase::Failed(SetupFault::HandshakeTimeout),
            ClockAction::StopDriver,
        ),
        (ClockPhase::Ready, ClockEvent::ProbesStarted) => (ClockPhase::Running, ClockAction::Ignore),
        (ClockPhase::Ready, ClockEvent::ProbesEnded) => (ClockPhase::Stopped, ClockAction::StopDriver),
        (ClockPhase::Running, ClockEvent::ProbesEnded) => (
            ClockPhase::Stopped,
            ClockAction::StopDriver,
        ),
        _ => (phase, ClockAction::Ignore),
    }
}

/// Probes may read the clock only once the driver is known to be running.
pub open spec fn may_read(phase: ClockPhase) -> bool {
    phase == ClockPhase::Ready || phase == ClockPhase::Running
}

pub open spec fn is_terminal(phase: ClockPhase) -> bool {
    phase == ClockPhase::Stopped || phase is Failed
}

impl ClockPhase {
    /// The next phase, and what the host must do, when `event` arrives.
    pub fn step(self, event: ClockEvent) -> (r: (ClockPhase, ClockAction))
        ensures
            r == transition(self, event),
    {
        match (self, event) {
            (ClockPhase::Created, ClockEvent::Start) => (ClockPhase::Started, ClockAction::SpawnDriver),
            (ClockPhase::Created, ClockEvent::Unsupported) => (
                ClockPhase::Failed(SetupFault::SharedMemoryUnsupported),
                ClockAction::ReportFault(SetupFault::SharedMemoryUnsupported),
            ),
            (ClockPhase::Started, ClockEvent::DriverReady) => (
                ClockPhase::Ready,
                ClockAction::RunProbes,
            ),
            (ClockPhase::Started, ClockEvent::HandshakeTimedOut) => (
                ClockPhase::Failed(SetupFault::HandshakeTimeout),
                ClockAction::StopDriver,
            ),
            (ClockPhase::Ready, ClockEvent::ProbesStarted) => (
                ClockPhase::Running,
                ClockAction::Ignore,
            ),
            (ClockPhase::Ready, ClockEvent::ProbesEnded) => (
                ClockPhase::Stopped,
                ClockAction::StopDriver,
            ),
            (ClockPhase::Running, ClockEvent::ProbesEnded) => (
                ClockPhase::Stopped,
                ClockAction::StopDriver,
            ),
            _ => (self, ClockAction::Ignore),
        }
    }

    /// Whether probes may read the clock in this phase.
    pub fn may_read_clock(&self) -> (b: bool)
        ensures
            b == may_read(*self),
    {
        match self {
            ClockPhase::Ready | ClockPhase::Running => true,
            _ => false,
        }
    }
}

/// The only way into a phase in which probes may read the clock is the
/// driver's readiness message, received while waiting for it.
pub proof fn lemma_reads_follow_handshake(phase: ClockPhase, event: ClockEvent)
    requires
        !may_read(phase),
        may_read(transition(phase, event).0),
    ensures
        phase == ClockPhase::Started,
        event == ClockEvent::DriverReady,
{
}

/// Stopped and failed sessions stay so, whatever arrives later (a late
/// readiness message after a timeout included), and ask for nothing.
pub proof fn lemma_terminal_phases_absorb(phase: ClockPhase, event: ClockEvent)
    requires
        is_terminal(phase),
    ensures
        transition(phase, event) == (phase, ClockAction::Ignore),
{
}

/// Leaving a phase in which the driver runs, into a terminal one, always
/// stops the driver.
pub proof fn lemma_driver_stopped_on_exit(phase: ClockPhase, event: ClockEvent)
    requires
        phase == ClockPhase::Started || may_read(phase),
        is_terminal(transition(phase, event).0),
    ensures
        transition(phase, event).1 == ClockAction::StopDriver,
{
}

} // verus!

//! The polling scheduler: a state machine that decides, from the outcome of
//! each fetch–decode–persist cycle, what to do next and how long to wait.
//!
//! The loop itself (sleeping, issuing requests) is the caller's job; this
//! module only makes the decisions, so they can be verified and tested
//! without a network or a clock.

use vstd::prelude::*;

verus! {

/// Classification of one fetch–decode–persist cycle.
#[derive(Clone, Copy, Debug, PartialEq, Eq, Structural)]
pub enum PollOutcome {
    /// The response was fetched, decoded and handed to the log writer.
    Success,
    /// The request itself failed (refused, timed out, bad status).
    FetchFailure,
    /// The response arrived but was not a well-formed measurement document.
    ParseFailure,
}

/// Seconds to wait after a successful cycle: the meter's natural reporting
/// cadence, so the collector adds no unnecessary load.
pub const SUCCESS_DELAY_SECS: u64 = 300;

/// Seconds to wait after a failed cycle: short, so the loop recovers quickly
/// from transient faults without busy-waiting.
pub const RETRY_DELAY_SECS: u64 = 5;

/// The inter-iteration delay that an outcome selects.
pub open spec fn spec_delay(o: PollOutcome) -> u64 {
    match o {
        PollOutcome::Success => SUCCESS_DELAY_SECS,
        PollOutcome::FetchFailure => RETRY_DELAY_SECS,
        PollOutcome::ParseFailure => RETRY_DELAY_SECS,
    }
}

/// Selects the delay before the next iteration: the success cadence after a
/// successful cycle, the short retry interval after any failure.
pub fn delay_for(o: PollOutcome) -> (d: u64)
    ensures
        d == spec_delay(o),
{
    match o {
        PollOutcome::Success => SUCCESS_DELAY_SECS,
        PollOutcome::FetchFailure => RETRY_DELAY_SECS,
        PollOutcome::ParseFailure => RETRY_DELAY_SECS,
    }
}

/// The scheduler's states: one initialization state and two stable ones,
/// plus the terminal state reached only on discovery failure.
#[derive(Clone, Copy, Debug, PartialEq, Eq, Structural)]
pub enum SchedulerState {
    /// Startup: the device address is not known yet.
    Locating,
    /// Between iterations, suspended for the selected delay.
    Idle,
    /// One fetch–decode–persist cycle is in flight.
    Running,
    /// Discovery failed; the process is to exit.
    Terminated,
}

/// What the scheduler is told happened.
#[derive(Clone, Copy, Debug, PartialEq, Eq, Structural)]
pub enum SchedulerEvent {
    /// An address was supplied externally, so discovery is skipped.
    AddressSupplied,
    /// Discovery resolved an address.
    AddressLocated,
    /// Discovery was exhausted without resolving an address.
    LocateFailed,
    /// The inter-iteration delay has elapsed.
    DelayElapsed,
    /// The in-flight cycle finished with the given outcome.
    CycleFinished(PollOutcome),
}

/// What the scheduler asks its caller to do next.
#[derive(Clone, Copy, Debug, PartialEq, Eq, Structural)]
pub enum SchedulerAction {
    /// Keep the externally supplied address; discovery is skipped.
    UseSuppliedAddress,
    /// Record the address that discovery resolved.
    UseLocatedAddress,
    /// Report the fatal discovery failure and exit the process.
    ReportFatalAndExit,
    /// Invoke the telemetry client for one cycle.
    InvokeFetch,
    /// The record was persisted; sleep for the given number of seconds.
    PersistedSleep(u64),
    /// The cycle failed and was reported; sleep for the given number of seconds.
    ReportedSleep(u64),
    /// The event does not apply in the current state; nothing changes.
    Ignore,
}

/// The transition table: next state and action for a state and an event.
///
/// Events that do not apply in a state leave it unchanged. Only discovery
/// failure terminates; every cycle failure returns to `Idle` with the short
/// retry delay, indefinitely.
pub open spec fn spec_step(s: SchedulerState, e: SchedulerEvent) -> (SchedulerState, SchedulerAction) {
    match (s, e) {
        (SchedulerState::Locating, SchedulerEvent::AddressSupplied) => (
            SchedulerState::Idle,
            SchedulerAction::UseSuppliedAddress,
        ),
        (SchedulerState::Locating, SchedulerEvent::AddressLocated) => (
            SchedulerState::Idle,
            SchedulerAction::UseLocatedAddress,
        ),
        (SchedulerState::Locating, SchedulerEvent::LocateFailed) => (
            SchedulerState::Terminated,
            SchedulerAction::ReportFatalAndExit,
        ),
        (SchedulerState::Idle, SchedulerEvent::DelayElapsed) => (
            SchedulerState::Running,
            SchedulerAction::InvokeFetch,
        ),
        (SchedulerState::Running, SchedulerEvent::CycleFinished(o)) => (
            SchedulerState::Idle,
            match o {
                PollOutcome::Success => SchedulerAction::PersistedSleep(SUCCESS_DELAY_SECS),
                PollOutcome::FetchFailure => SchedulerAction::ReportedSleep(RETRY_DELAY_SECS),
                PollOutcome::ParseFailure => SchedulerAction::ReportedSleep(RETRY_DELAY_SECS),
            },
        ),
        _ => (s, SchedulerAction::Ignore),
    }
}

/// Advances the scheduler by one event, following the transition table.
pub fn scheduler_step(s: SchedulerState, e: SchedulerEvent) -> (r: (SchedulerState, SchedulerAction))
    ensures
        r == spec_step(s, e),
{
    match (s, e) {
        (SchedulerState::Locating, SchedulerEvent::AddressSupplied) => (
            SchedulerState::Idle,
            SchedulerAction::UseSuppliedAddress,
        ),
        (SchedulerState::Locating, SchedulerEvent::AddressLocated) => (
            SchedulerState::Idle,
            SchedulerAction::UseLocatedAddress,
        ),
        (SchedulerState::Locating, SchedulerEvent::LocateFailed) => (
            SchedulerState::Terminated,
            SchedulerAction::ReportFatalAndExit,
        ),
        (SchedulerState::Idle, SchedulerEvent::DelayElapsed) => (
            SchedulerState::Running,
            SchedulerAction::InvokeFetch,
        ),
        (SchedulerState::Running, SchedulerEvent::CycleFinished(o)) => (
            SchedulerState::Idle,
            match o {
                PollOutcome::Success => SchedulerAction::PersistedSleep(SUCCESS_DELAY_SECS),
                PollOutcome::FetchFailure => SchedulerAction::ReportedSleep(RETRY_DELAY_SECS),
                PollOutcome::ParseFailure => SchedulerAction::ReportedSleep(RETRY_DELAY_SECS),
            },
        ),
        _ => (s, SchedulerAction::Ignore),
    }
}

} // verus!

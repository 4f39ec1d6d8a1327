use meterlog::scheduler::delay_for;
use meterlog::scheduler::scheduler_step;
use meterlog::scheduler::PollOutcome;
use meterlog::scheduler::SchedulerAction;
use meterlog::scheduler::SchedulerEvent;
use meterlog::scheduler::SchedulerState;

#[test]
fn success_selects_the_reporting_cadence() {
    assert_eq!(delay_for(PollOutcome::Success), 300);
}

#[test]
fn failures_select_the_short_retry_delay() {
    assert_eq!(delay_for(PollOutcome::FetchFailure), 5);
    assert_eq!(delay_for(PollOutcome::ParseFailure), 5);
}

#[test]
fn supplied_address_skips_discovery() {
    assert_eq!(
        scheduler_step(SchedulerState::Locating, SchedulerEvent::AddressSupplied),
        (SchedulerState::Idle, SchedulerAction::UseSuppliedAddress)
    );
}

#[test]
fn located_address_is_recorded() {
    assert_eq!(
        scheduler_step(SchedulerState::Locating, SchedulerEvent::AddressLocated),
        (SchedulerState::Idle, SchedulerAction::UseLocatedAddress)
    );
}

#[test]
fn discovery_failure_terminates() {
    assert_eq!(
        scheduler_step(SchedulerState::Locating, SchedulerEvent::LocateFailed),
        (SchedulerState::Terminated, SchedulerAction::ReportFatalAndExit)
    );
}

#[test]
fn elapsed_delay_starts_a_cycle() {
    assert_eq!(
        scheduler_step(SchedulerState::Idle, SchedulerEvent::DelayElapsed),
        (SchedulerState::Running, SchedulerAction::InvokeFetch)
    );
}

#[test]
fn successful_cycle_persists_and_sleeps_long() {
    assert_eq!(
        scheduler_step(
            SchedulerState::Running,
            SchedulerEvent::CycleFinished(PollOutcome::Success)
        ),
        (SchedulerState::Idle, SchedulerAction::PersistedSleep(300))
    );
}

#[test]
fn failed_cycles_report_and_sleep_short() {
    assert_eq!(
        scheduler_step(
            SchedulerState::Running,
            SchedulerEvent::CycleFinished(PollOutcome::FetchFailure)
        ),
        (SchedulerState::Idle, SchedulerAction::ReportedSleep(5))
    );
    assert_eq!(
        scheduler_step(
            SchedulerState::Running,
            SchedulerEvent::CycleFinished(PollOutcome::ParseFailure)
        ),
        (SchedulerState::Idle, SchedulerAction::ReportedSleep(5))
    );
}

#[test]
fn events_out_of_place_change_nothing() {
    assert_eq!(
        scheduler_step(
            SchedulerState::Idle,
            SchedulerEvent::CycleFinished(PollOutcome::Success)
        ),
        (SchedulerState::Idle, SchedulerAction::Ignore)
    );
    assert_eq!(
        scheduler_step(SchedulerState::Terminated, SchedulerEvent::DelayElapsed),
        (SchedulerState::Terminated, SchedulerAction::Ignore)
    );
    assert_eq!(
        scheduler_step(SchedulerState::Running, SchedulerEvent::AddressSupplied),
        (SchedulerState::Running, SchedulerAction::Ignore)
    );
}

use rust_log_collector::scheduler::{
    scheduler_step, SchedulerAction, SchedulerEvent, SchedulerState,
};

#[test]
fn cancellation_between_ticks_stops_without_a_new_cycle() {
    // the signal arrives while the loop is idle between ticks
    let (state, action) = scheduler_step(SchedulerState::Idle, SchedulerEvent::CancelSignal);
    assert_eq!(state, SchedulerState::Stopped);
    assert_eq!(action, SchedulerAction::Exit);

    // a later tick starts nothing: the loop has exited for good
    let (state, action) = scheduler_step(state, SchedulerEvent::Tick);
    assert_eq!(state, SchedulerState::Stopped);
    assert_eq!(action, SchedulerAction::Exit);
}

#[test]
fn tick_starts_a_cycle_only_when_idle() {
    let (state, action) = scheduler_step(SchedulerState::Idle, SchedulerEvent::Tick);
    assert_eq!(state, SchedulerState::Running);
    assert_eq!(action, SchedulerAction::StartCycle);

    // ticks are not queued while a cycle is draining
    let (state, action) = scheduler_step(state, SchedulerEvent::Tick);
    assert_eq!(state, SchedulerState::Running);
    assert_eq!(action, SchedulerAction::Continue);
}

#[test]
fn finished_cycle_returns_to_idle() {
    let (state, action) = scheduler_step(SchedulerState::Running, SchedulerEvent::CycleFinished);
    assert_eq!(state, SchedulerState::Idle);
    assert_eq!(action, SchedulerAction::Continue);
}

#[test]
fn cancellation_during_a_cycle_still_stops() {
    let (state, action) = scheduler_step(SchedulerState::Running, SchedulerEvent::CancelSignal);
    assert_eq!(state, SchedulerState::Stopped);
    assert_eq!(action, SchedulerAction::Exit);
}

use vstd::prelude::*;

verus! {

/// The lifecycle of the scheduling loop: idle between cycles, running
/// while one drains, stopped for good after cancellation.
#[derive(Clone, Copy, Debug, PartialEq, Eq, Structural)]
pub enum SchedulerState {
    Idle,
    Running,
    Stopped,
}

/// What the control loop can observe while it waits.
#[derive(Clone, Copy, Debug, PartialEq, Eq, Structural)]
pub enum SchedulerEvent {
    Tick,
    CycleFinished,
    CancelSignal,
}

/// What the control loop must do next.
#[derive(Clone, Copy, Debug, PartialEq, Eq, Structural)]
pub enum SchedulerAction {
    StartCycle,
    Continue,
    Exit,
}

/// The scheduler's transition function: a tick starts a cycle only from
/// idle; a tick during a running cycle is dropped, not queued; a finished
/// cycle returns the loop to idle; a cancellation signal stops the loop at
/// once, and stopping is final.
pub open spec fn spec_scheduler_step(state: SchedulerState, event: SchedulerEvent) -> (
    SchedulerState,
    SchedulerAction,
) {
    match (state, event) {
        (SchedulerState::Stopped, _) => (SchedulerState::Stopped, SchedulerAction::Exit),
        (_, SchedulerEvent::CancelSignal) => (SchedulerState::Stopped, SchedulerAction::Exit),
        (SchedulerState::Idle, SchedulerEvent::Tick) => (
            SchedulerState::Running,
            SchedulerAction::StartCycle,
        ),
        (SchedulerState::Running, SchedulerEvent::Tick) => (
            SchedulerState::Running,
            SchedulerAction::Continue,
        ),
        (SchedulerState::Running, SchedulerEvent::CycleFinished) => (
            SchedulerState::Idle,
            SchedulerAction::Continue,
        ),
        (SchedulerState::Idle, SchedulerEvent::CycleFinished) => (
            SchedulerState::Idle,
            SchedulerAction::Continue,
        ),
    }
}

/// Advances the scheduler by one observed event.
pub fn scheduler_step(state: SchedulerState, event: SchedulerEvent) -> (r: (
    SchedulerState,
    SchedulerAction,
))
    ensures
        r == spec_scheduler_step(state, event),
{
    match (state, event) {
        (SchedulerState::Stopped, _) => (SchedulerState::Stopped, SchedulerAction::Exit),
        (_, SchedulerEvent::CancelSignal) => (SchedulerState::Stopped, SchedulerAction::Exit),
        (SchedulerState::Idle, SchedulerEvent::Tick) => (
            SchedulerState::Running,
            SchedulerAction::StartCycle,
        ),
        (SchedulerState::Running, SchedulerEvent::Tick) => (
            SchedulerState::Running,
            SchedulerAction::Continue,
        ),
        (SchedulerState::Running, SchedulerEvent::CycleFinished) => (
            SchedulerState::Idle,
            SchedulerAction::Continue,
        ),
        (SchedulerState::Idle, SchedulerEvent::CycleFinished) => (
            SchedulerState::Idle,
            SchedulerAction::Continue,
        ),
    }
}

/// After a cancellation signal no new cycle ever starts: the signal itself
/// moves the loop to `Stopped` without starting one, and from `Stopped`
/// every further event exits without starting one.
pub proof fn lemma_cancel_is_final(state: SchedulerState, event: SchedulerEvent)
    ensures
        spec_scheduler_step(state, SchedulerEvent::CancelSignal).0 == SchedulerState::Stopped,
        spec_scheduler_step(state, SchedulerEvent::CancelSignal).1 != SchedulerAction::StartCycle,
        spec_scheduler_step(SchedulerState::Stopped, event).0 == SchedulerState::Stopped,
        spec_scheduler_step(SchedulerState::Stopped, event).1 != SchedulerAction::StartCycle,
{
}

} // verus!

//! When a workspace's `jj` status is read again after its files change: a
//! change schedules a refresh a short while later, further changes push it
//! back, and one timer per workspace waits until the latest deadline has
//! passed.

use vstd::prelude::*;

verus! {

/// How long a refresh waits after the latest change, in milliseconds.
pub const STATUS_REFRESH_DEBOUNCE_MS: u64 = 180;

/// A workspace's pending refresh: when it is due, and whether a timer is
/// waiting for it.
#[derive(Clone, Copy, Debug, PartialEq, Eq, Structural)]
pub struct RefreshState {
    pub due_at_ms: Option<u64>,
    pub timer_active: bool,
}

/// A change in the workspace, or the timer waking, at `now_ms`.
#[derive(Clone, Copy, Debug, PartialEq, Eq, Structural)]
pub enum RefreshEvent {
    Changed { now_ms: u64 },
    TimerFired { now_ms: u64 },
}

/// What the caller does next.
#[derive(Clone, Copy, Debug, PartialEq, Eq, Structural)]
pub enum RefreshAction {
    /// Start the workspace's timer; it fires after this many milliseconds.
    StartTimer(u64),
    /// Let the timer fire again after this many milliseconds.
    Wait(u64),
    /// Read the workspace's status now; the timer is done.
    Refresh,
    /// Nothing: a timer is already waiting.
    Nothing,
}

/// The next state and action after `event`.
pub open spec fn refresh_step_of(state: RefreshState, event: RefreshEvent) -> (RefreshState, RefreshAction) {
    match event {
        RefreshEvent::Changed { now_ms } => {
            let due = (now_ms + STATUS_REFRESH_DEBOUNCE_MS) as u64;
            if state.timer_active {
                (RefreshState { due_at_ms: Some(due), timer_active: true }, RefreshAction::Nothing)
            } else {
                (
                    RefreshState { due_at_ms: Some(due), timer_active: true },
                    RefreshAction::StartTimer(STATUS_REFRESH_DEBOUNCE_MS),
                )
            }
        },
        RefreshEvent::TimerFired { now_ms } => match state.due_at_ms {
            Some(due) => if due > now_ms {
                (state, RefreshAction::Wait((due - now_ms) as u64))
            } else {
                (RefreshState { due_at_ms: None, timer_active: false }, RefreshAction::Refresh)
            },
            None => (RefreshState { due_at_ms: None, timer_active: false }, RefreshAction::Refresh),
        },
    }
}

/// No refresh is pending yet.
pub fn refresh_idle() -> (r: RefreshState)
    ensures
        r == (RefreshState { due_at_ms: None, timer_active: false }),
{
    RefreshState { due_at_ms: None, timer_active: false }
}

/// One step: a change pushes the deadline back (starting the timer if none
/// waits); the timer waits on until the deadline has passed, then the
/// status is read.
pub fn status_refresh_step(state: RefreshState, event: RefreshEvent) -> (r: (RefreshState, RefreshAction))
    requires
        event matches RefreshEvent::Changed { now_ms } ==> now_ms + STATUS_REFRESH_DEBOUNCE_MS <= u64::MAX,
    ensures
        r == refresh_step_of(state, event),
{
    match event {
        RefreshEvent::Changed { now_ms } => {
            let due = now_ms + STATUS_REFRESH_DEBOUNCE_MS;
            if state.timer_active {
                (RefreshState { due_at_ms: Some(due), timer_active: true }, RefreshAction::Nothing)
            } else {
                (
                    RefreshState { due_at_ms: Some(due), timer_active: true },
                    RefreshAction::StartTimer(STATUS_REFRESH_DEBOUNCE_MS),
                )
            }
        },
        RefreshEvent::TimerFired { now_ms } => match state.due_at_ms {
            Some(due) => if due > now_ms {
                (state, RefreshAction::Wait(due - now_ms))
            } else {
                (RefreshState { due_at_ms: None, timer_active: false }, RefreshAction::Refresh)
            },
            None => (RefreshState { due_at_ms: None, timer_active: false }, RefreshAction::Refresh),
        },
    }
}

/// A refresh never comes before the latest change is a full debounce
/// interval old: once a change at `changed_at` has pushed the deadline, the
/// timer firing earlier than the interval after it only waits.
pub proof fn lemma_refresh_waits_for_the_latest_change(state: RefreshState, changed_at: u64, fired_at: u64)
    requires
        changed_at + STATUS_REFRESH_DEBOUNCE_MS <= u64::MAX,
        fired_at < changed_at + STATUS_REFRESH_DEBOUNCE_MS,
    ensures
        refresh_step_of(refresh_step_of(state, RefreshEvent::Changed { now_ms: changed_at }).0, RefreshEvent::TimerFired {
            now_ms: fired_at,
        }).1 == RefreshAction::Wait((changed_at + STATUS_REFRESH_DEBOUNCE_MS - fired_at) as u64),
{
}

} // verus!

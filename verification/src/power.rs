//! The power task's decisions: when to put the panel to sleep and when to
//! enter deep sleep.
use vstd::prelude::*;

verus! {

/// Seconds of the RTC wake timer while in deep sleep.
pub const RTC_WAKE_SECS: u64 = 600;

/// What the power task hears.
#[derive(Clone, Copy, Debug, PartialEq, Eq, Structural)]
pub enum PowerEvent {
    /// The user did something.
    Activity,
    /// A frame finished refreshing.
    DisplaySettled,
    /// The panel finished going to sleep.
    DisplayAsleep,
    /// Sleep now, at the user's request.
    SleepNow,
}

/// Where the power task stands.
#[derive(Clone, Copy, Debug, PartialEq, Eq, Structural)]
pub enum PowerState {
    /// Nothing pending.
    Running,
    /// The panel was asked to sleep on the way to deep sleep.
    AwaitingPanel,
}

/// What the power task does next.
#[derive(Clone, Copy, Debug, PartialEq, Eq, Structural)]
pub enum PowerAction {
    Nothing,
    /// Ask the display task to put the panel to sleep.
    SleepDisplay,
    /// Enter deep sleep with the RTC timer as the wake source.
    DeepSleep,
}

/// Milliseconds without activity after which a settled frame puts the
/// reader to sleep.
pub const IDLE_TIMEOUT_MS: u64 = 5000;

/// Whether the reader has been idle long enough to sleep: `idle_ms`
/// milliseconds since the last activity reach the idle window.
pub fn idle_window_expired(idle_ms: u64) -> (r: bool)
    ensures
        r == (idle_ms >= IDLE_TIMEOUT_MS),
{
    idle_ms >= IDLE_TIMEOUT_MS
}

/// The power task's course. Running: a settled frame after an expired idle
/// window asks the panel to sleep and waits for it; `SleepNow` asks the
/// panel to sleep and goes on. Waiting for the panel: once it is asleep the
/// chip enters deep sleep; activity calls it off; other events are ignored.
pub open spec fn power_step_spec(state: PowerState, event: PowerEvent, idle_expired: bool) -> (
    PowerState,
    PowerAction,
) {
    match state {
        PowerState::Running => match event {
            PowerEvent::DisplaySettled => if idle_expired {
                (PowerState::AwaitingPanel, PowerAction::SleepDisplay)
            } else {
                (PowerState::Running, PowerAction::Nothing)
            },
            PowerEvent::SleepNow => (PowerState::Running, PowerAction::SleepDisplay),
            _ => (PowerState::Running, PowerAction::Nothing),
        },
        PowerState::AwaitingPanel => match event {
            PowerEvent::DisplayAsleep => (PowerState::Running, PowerAction::DeepSleep),
            PowerEvent::Activity => (PowerState::Running, PowerAction::Nothing),
            _ => (PowerState::AwaitingPanel, PowerAction::Nothing),
        },
    }
}

pub fn power_step(state: PowerState, event: PowerEvent, idle_expired: bool) -> (r: (
    PowerState,
    PowerAction,
))
    ensures
        r == power_step_spec(state, event, idle_expired),
{
    match state {
        PowerState::Running => match event {
            PowerEvent::DisplaySettled => {
                if idle_expired {
                    (PowerState::AwaitingPanel, PowerAction::SleepDisplay)
                } else {
                    (PowerState::Running, PowerAction::Nothing)
                }
            },
            PowerEvent::SleepNow => (PowerState::Running, PowerAction::SleepDisplay),
            _ => (PowerState::Running, PowerAction::Nothing),
        },
        PowerState::AwaitingPanel => match event {
            PowerEvent::DisplayAsleep => (PowerState::Running, PowerAction::DeepSleep),
            PowerEvent::Activity => (PowerState::Running, PowerAction::Nothing),
            _ => (PowerState::AwaitingPanel, PowerAction::Nothing),
        },
    }
}

/// Deep sleep only ever follows a panel that was asked to sleep and
/// reported asleep; activity always calls a pending sleep off; a settled
/// frame asks the panel to sleep exactly when the reader has been idle for
/// the idle window, and the panel's report then sends the chip to deep sleep.
pub proof fn deep_sleep_only_after_panel_sleep(state: PowerState, event: PowerEvent, idle_ms: u64)
    ensures
        power_step_spec(state, event, idle_ms >= IDLE_TIMEOUT_MS).1 == PowerAction::DeepSleep
            ==> state == PowerState::AwaitingPanel && event == PowerEvent::DisplayAsleep,
        event == PowerEvent::Activity ==> power_step_spec(state, event, idle_ms >= IDLE_TIMEOUT_MS)
            == (PowerState::Running, PowerAction::Nothing),
        state == PowerState::Running && event == PowerEvent::DisplaySettled ==> power_step_spec(
            state,
            event,
            idle_ms >= IDLE_TIMEOUT_MS,
        ) == if idle_ms >= IDLE_TIMEOUT_MS {
            (PowerState::AwaitingPanel, PowerAction::SleepDisplay)
        } else {
            (PowerState::Running, PowerAction::Nothing)
        },
        idle_ms >= IDLE_TIMEOUT_MS ==> power_step_spec(
            power_step_spec(PowerState::Running, PowerEvent::DisplaySettled, true).0,
            PowerEvent::DisplayAsleep,
            idle_ms >= IDLE_TIMEOUT_MS,
        ).1 == PowerAction::DeepSleep,
{
}

/// The state the power task is in after the given events, one step each.
pub open spec fn state_after(state: PowerState, events: Seq<PowerEvent>, idle_expired: bool) -> PowerState
    decreases events.len(),
{
    if events.len() == 0 {
        state
    } else {
        power_step_spec(state_after(state, events.drop_last(), idle_expired), events.last(), idle_expired).0
    }
}

/// While the task waits for the panel, only activity calls the sleep off:
/// every other event but the panel's report leaves it waiting and doing
/// nothing, so after the panel was asked to sleep, any run of such events
/// followed by the panel's report sends the chip to deep sleep. A request
/// to sleep now asks the panel to sleep without waiting for it, and a
/// panel report nobody waits for does nothing.
pub proof fn only_activity_calls_sleep_off(events: Seq<PowerEvent>, idle_expired: bool)
    requires
        forall|k: int|
            0 <= k < events.len() ==> #[trigger] events[k] != PowerEvent::Activity && events[k]
                != PowerEvent::DisplayAsleep,
    ensures
        forall|e: PowerEvent|
            e != PowerEvent::Activity && e != PowerEvent::DisplayAsleep ==> #[trigger] power_step_spec(
                PowerState::AwaitingPanel,
                e,
                idle_expired,
            ) == (PowerState::AwaitingPanel, PowerAction::Nothing),
        power_step_spec(PowerState::Running, PowerEvent::SleepNow, idle_expired) == (
            PowerState::Running,
            PowerAction::SleepDisplay,
        ),
        power_step_spec(PowerState::Running, PowerEvent::DisplayAsleep, idle_expired) == (
            PowerState::Running,
            PowerAction::Nothing,
        ),
        state_after(PowerState::AwaitingPanel, events, idle_expired) == PowerState::AwaitingPanel,
        power_step_spec(
            state_after(PowerState::AwaitingPanel, events, idle_expired),
            PowerEvent::DisplayAsleep,
            idle_expired,
        ).1 == PowerAction::DeepSleep,
    decreases events.len(),
{
    if events.len() > 0 {
        let rest = events.drop_last();
        assert forall|k: int| 0 <= k < rest.len() implies #[trigger] rest[k]
            != PowerEvent::Activity && rest[k] != PowerEvent::DisplayAsleep by {
            assert(rest[k] == events[k]);
        }
        only_activity_calls_sleep_off(rest, idle_expired);
        assert(events.last() == events[events.len() - 1]);
    }
}

} // verus!

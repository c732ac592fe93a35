//! What goes on while a load test runs: how long it has to go, and what each of
//! its connections does next.
use vstd::prelude::*;

use crate::limiter::{self, Limiter, LimiterAction, LimiterEvent, LimiterView};

verus! {

/// What the monitor of a test's end does next.
pub enum MonitorAction {
    /// Stop the test.
    Stop,
    /// Wait this many seconds, or until a registration arrives.
    Sleep(u64),
}

/// What the monitor does at `now` about a test that ends at `deadline`: it stops
/// the test once the end has come, and until then waits out what is left, which
/// is a second or more.
pub open spec fn monitor_action(deadline: i64, now: i64) -> MonitorAction {
    if now >= deadline {
        MonitorAction::Stop
    } else {
        MonitorAction::Sleep((deadline - now) as u64)
    }
}

/// What the monitor does at `now` about a test that ends at `deadline`.
pub fn monitor_turn(deadline: i64, now: i64) -> (r: MonitorAction)
    ensures
        r == monitor_action(deadline, now),
        r matches MonitorAction::Sleep(seconds) ==> seconds >= 1 && now + seconds == deadline,
{
    if now >= deadline {
        MonitorAction::Stop
    } else {
        let left: i128 = deadline as i128 - now as i128;
        MonitorAction::Sleep(left as u64)
    }
}

/// What a connection of a load test does next.
pub enum ConnectionAction {
    /// Send a request, record its outcome, and tell the limiter that it has ended.
    Send,
    /// Wait this many milliseconds, or for the stop signal, and take another turn.
    Sleep(u64),
    /// Wait until a request has ended, the rate has changed or the stop signal
    /// comes, and take another turn.
    Hold,
    /// Send no more.
    Finish,
}

/// What the limiter of a test keeps and what one of its connections does at
/// `now`: nothing more once the test is to stop, else what the limiter allows.
pub open spec fn connection_step(
    limiter: LimiterView,
    stop: bool,
    now: u64,
) -> (LimiterView, ConnectionAction) {
    if stop {
        (limiter, ConnectionAction::Finish)
    } else {
        let (after, action) = limiter::limiter_step(limiter, LimiterEvent::Asked, now);
        (
            after,
            match action {
                LimiterAction::Start => ConnectionAction::Send,
                LimiterAction::Wait(millis) => ConnectionAction::Sleep(millis),
                _ => ConnectionAction::Hold,
            },
        )
    }
}

/// What a connection does next, where `stop` says whether the test is to stop.
pub fn connection_turn(limiter: &mut Limiter, stop: bool, now: u64) -> (r: ConnectionAction)
    ensures
        (final(limiter)@, r) == connection_step(old(limiter)@, stop, now),
{
    if stop {
        return ConnectionAction::Finish;
    }
    match limiter.turn(LimiterEvent::Asked, now) {
        LimiterAction::Start => ConnectionAction::Send,
        LimiterAction::Wait(millis) => ConnectionAction::Sleep(millis),
        LimiterAction::Hold => ConnectionAction::Hold,
        LimiterAction::Noted => ConnectionAction::Hold,
    }
}

/// The status under which a request is recorded: that of its response, or zero
/// where none came.
pub fn recorded_status(response: Option<u16>) -> (r: u16)
    ensures
        r == match response {
            Some(status) => status,
            None => 0,
        },
{
    match response {
        Some(status) => status,
        None => 0,
    }
}

} // verus!

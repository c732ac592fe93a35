//! What holds of a limiter over a run of events.
use vstd::prelude::*;

use crate::limiter::{self, Limiter, LimiterAction, LimiterEvent, LimiterView};
use crate::load_test::{self, ConnectionAction, MonitorAction};

verus! {

/// What a limiter keeps after a run of events, each with its time.
pub open spec fn after_run(limiter: LimiterView, events: Seq<(LimiterEvent, u64)>) -> LimiterView
    decreases events.len(),
{
    if events.len() == 0 {
        limiter
    } else {
        limiter::limiter_step(
            after_run(limiter, events.drop_last()),
            events.last().0,
            events.last().1,
        ).0
    }
}

/// How many requests a limiter lets through in a run of events.
pub open spec fn starts(limiter: LimiterView, events: Seq<(LimiterEvent, u64)>) -> nat
    decreases events.len(),
{
    if events.len() == 0 {
        0
    } else {
        let before = after_run(limiter, events.drop_last());
        starts(limiter, events.drop_last()) + if limiter::limiter_step(
            before,
            events.last().0,
            events.last().1,
        ).1 is Start {
            1nat
        } else {
            0nat
        }
    }
}

/// How many requests end in a run of events.
pub open spec fn ends(events: Seq<(LimiterEvent, u64)>) -> nat
    decreases events.len(),
{
    if events.len() == 0 {
        0
    } else {
        ends(events.drop_last()) + if events.last().0 is Ended {
            1nat
        } else {
            0nat
        }
    }
}

/// Whether the rate is never set above `top`.
pub open spec fn rates_at_most(events: Seq<(LimiterEvent, u64)>, top: nat) -> bool {
    forall|i: int|
        0 <= i < events.len() ==> ((#[trigger] events[i]).0 matches LimiterEvent::Rate(rate)
            ==> rate <= top)
}

/// Whether the rate is never set.
pub open spec fn rate_stays(events: Seq<(LimiterEvent, u64)>) -> bool {
    forall|i: int| 0 <= i < events.len() ==> !((#[trigger] events[i]).0 is Rate)
}

/// Whether no two of the events are more than `millis` milliseconds apart.
pub open spec fn within(events: Seq<(LimiterEvent, u64)>, millis: nat) -> bool {
    forall|i: int, j: int|
        0 <= i < events.len() && 0 <= j < events.len() ==> (#[trigger] events[i]).1 <= (
        #[trigger] events[j]).1 + millis
}

/// Every event keeps a limiter sound.
pub proof fn events_keep_sound(limiter: LimiterView, events: Seq<(LimiterEvent, u64)>)
    requires
        limiter::sound(limiter),
    ensures
        limiter::sound(after_run(limiter, events)),
        after_run(limiter, events).connections == limiter.connections,
    decreases events.len(),
{
    if events.len() > 0 {
        events_keep_sound(limiter, events.drop_last());
    }
}

/// A rate that is never set stays what it is.
proof fn lemma_rate_stays(limiter: LimiterView, events: Seq<(LimiterEvent, u64)>)
    requires
        rate_stays(events),
    ensures
        after_run(limiter, events).rate == limiter.rate,
    decreases events.len(),
{
    if events.len() > 0 {
        assert(rate_stays(events.drop_last())) by {
            assert forall|i: int| 0 <= i < events.drop_last().len() implies !((
            #[trigger] events.drop_last()[i]).0 is Rate) by {
                assert(!(events[i].0 is Rate));
            }
        }
        lemma_rate_stays(limiter, events.drop_last());
        assert(!(events[events.len() - 1].0 is Rate));
    }
}

spec fn later(a: nat, b: nat) -> nat {
    if a > b {
        a
    } else {
        b
    }
}

/// What was let through is paid for by a full bucket, and by what came in since
/// the first event.
proof fn lemma_paid_for(
    limiter: LimiterView,
    events: Seq<(LimiterEvent, u64)>,
    top: nat,
    first: nat,
    last: nat,
)
    requires
        limiter::sound(limiter),
        limiter.rate <= top,
        rates_at_most(events, top),
        forall|i: int| 0 <= i < events.len() ==> first <= (#[trigger] events[i]).1 <= last,
    ensures
        ({
            let after = after_run(limiter, events);
            let begin = later(limiter.at, first);
            let n = starts(limiter, events);
            &&& limiter::sound(after)
            &&& after.rate <= top
            &&& limiter.at <= after.at <= later(limiter.at, last)
            &&& n > 0 ==> after.at >= begin
            &&& 1000 * n + after.tokens <= 1000 * top + top * (later(after.at, begin) - begin)
        }),
    decreases events.len(),
{
    let begin = later(limiter.at, first);
    if events.len() == 0 {
        assert(1000 * limiter.rate <= 1000 * top);
        assert(top * 0 == 0);
    } else {
        let rest = events.drop_last();
        assert(forall|i: int| 0 <= i < rest.len() ==> rest[i] == events[i]);
        assert(rates_at_most(rest, top)) by {
            assert forall|i: int| 0 <= i < rest.len() implies ((
            #[trigger] rest[i]).0 matches LimiterEvent::Rate(rate) ==> rate <= top) by {
                assert(rest[i] == events[i]);
            }
        }
        assert forall|i: int| 0 <= i < rest.len() implies first <= (#[trigger] rest[i]).1
            <= last by {
            assert(rest[i] == events[i]);
        }
        lemma_paid_for(limiter, rest, top, first, last);
        let before = after_run(limiter, rest);
        let event = events.last().0;
        let now = events.last().1;
        assert(events[events.len() - 1] == events.last());
        assert(first <= now <= last);
        let filled = limiter::refilled(before, now as nat);
        let n = starts(limiter, rest);
        assert(filled.tokens <= 1000 * top);
        assert(before.rate * ((filled.at - before.at) as nat) <= top * (filled.at - before.at))
            by (nonlinear_arith)
            requires
                before.rate <= top,
                filled.at >= before.at,
        ;
        assert(filled.at >= begin);
        assert(top * (filled.at - begin) >= 0) by (nonlinear_arith)
            requires
                filled.at >= begin,
        ;
        assert(1000 * n + filled.tokens <= 1000 * top + top * (filled.at - begin)) by {
            if n > 0 {
                assert(top * (before.at - begin) + top * (filled.at - before.at) == top * (filled.at
                    - begin)) by (nonlinear_arith);
            }
        }
        if event is Rate {
            assert(events[events.len() - 1].0 is Rate);
        }
    }
}

/// In every span of so many milliseconds, a limiter whose rate is never above
/// `top` lets through at most what a full bucket and the span bring at that rate.
pub proof fn starts_are_bounded_by_the_top_rate(
    limiter: LimiterView,
    events: Seq<(LimiterEvent, u64)>,
    top: nat,
    millis: nat,
)
    requires
        limiter::sound(limiter),
        limiter.rate <= top,
        rates_at_most(events, top),
        within(events, millis),
    ensures
        1000 * starts(limiter, events) <= top * (millis + 1000),
{
    if events.len() == 0 {
        assert(top * (millis + 1000) >= 0) by (nonlinear_arith);
    } else {
        let first = lemma_earliest(events);
        let last = first + millis;
        assert forall|i: int| 0 <= i < events.len() implies first <= (#[trigger] events[i]).1
            <= last by {
            let k = choose|k: int| 0 <= k < events.len() && (#[trigger] events[k]).1 == first;
            assert(events[i].1 <= events[k].1 + millis);
        }
        lemma_paid_for(limiter, events, top, first, last);
        let after = after_run(limiter, events);
        let begin = later(limiter.at, first);
        let n = starts(limiter, events);
        assert(later(after.at, begin) - begin <= millis);
        assert(1000 * n <= top * (millis + 1000)) by (nonlinear_arith)
            requires
                1000 * n + after.tokens <= 1000 * top + top * (later(after.at, begin) - begin),
                0 <= later(after.at, begin) - begin <= millis,
        ;
    }
}

/// The time of the earliest event.
proof fn lemma_earliest(events: Seq<(LimiterEvent, u64)>) -> (first: nat)
    requires
        events.len() > 0,
    ensures
        exists|k: int| 0 <= k < events.len() && (#[trigger] events[k]).1 == first,
        forall|i: int| 0 <= i < events.len() ==> first <= (#[trigger] events[i]).1,
    decreases events.len(),
{
    let rest = events.drop_last();
    let time = events.last().1 as nat;
    assert(events[events.len() - 1].1 == time);
    if rest.len() == 0 {
        time
    } else {
        let first = lemma_earliest(rest);
        let k = choose|k: int| 0 <= k < rest.len() && (#[trigger] rest[k]).1 == first;
        assert(events[k] == rest[k]);
        assert forall|i: int| 0 <= i < rest.len() implies first <= (#[trigger] events[i]).1 by {
            assert(rest[i] == events[i]);
        }
        if time < first {
            time
        } else {
            first
        }
    }
}

/// The rate is kept: in every span of so many seconds, at most the requests of
/// one second more than that are let through.
pub proof fn the_rate_is_kept(
    limiter: LimiterView,
    events: Seq<(LimiterEvent, u64)>,
    seconds: nat,
)
    requires
        limiter::sound(limiter),
        rate_stays(events),
        within(events, 1000 * seconds),
    ensures
        starts(limiter, events) <= limiter.rate * (seconds + 1),
{
    assert(rates_at_most(events, limiter.rate));
    starts_are_bounded_by_the_top_rate(limiter, events, limiter.rate, 1000 * seconds);
    let n = starts(limiter, events);
    let rate = limiter.rate;
    assert(n <= rate * (seconds + 1)) by (nonlinear_arith)
        requires
            1000 * n <= rate * (1000 * seconds + 1000),
    ;
}

/// The lesser of the connections and the rate: how many requests may be under
/// way.
pub open spec fn room(limiter: LimiterView) -> nat {
    if limiter.connections < limiter.rate {
        limiter.connections
    } else {
        limiter.rate
    }
}

/// No more requests are under way than there are connections, or than the rate
/// says: of those that were let through in a run of events, less those that
/// ended in it.
pub proof fn requests_under_way_are_bounded(
    limiter: LimiterView,
    events: Seq<(LimiterEvent, u64)>,
)
    requires
        limiter::sound(limiter),
        limiter.under_way <= room(limiter),
        rate_stays(events),
    ensures
        after_run(limiter, events).under_way <= room(limiter),
        limiter.under_way + starts(limiter, events) - ends(events) <= room(limiter),
{
    lemma_under_way(limiter, events);
}

proof fn lemma_under_way(limiter: LimiterView, events: Seq<(LimiterEvent, u64)>)
    requires
        limiter::sound(limiter),
        limiter.under_way <= room(limiter),
        rate_stays(events),
    ensures
        ({
            let after = after_run(limiter, events);
            &&& after.under_way <= room(limiter)
            &&& limiter.under_way + starts(limiter, events) - ends(events) <= after.under_way
        }),
    decreases events.len(),
{
    if events.len() > 0 {
        let rest = events.drop_last();
        assert(rate_stays(rest)) by {
            assert forall|i: int| 0 <= i < rest.len() implies !((
            #[trigger] rest[i]).0 is Rate) by {
                assert(rest[i] == events[i]);
            }
        }
        lemma_under_way(limiter, rest);
        lemma_rate_stays(limiter, rest);
        events_keep_sound(limiter, rest);
        assert(!(events[events.len() - 1].0 is Rate));
    }
}

/// A new rate takes the place of the old one at once, whether it is higher or
/// lower, and however often it is set: no request is let through while as many
/// are under way as it allows, those under way go on, and the bucket holds no
/// more than one second of the new rate brings.
pub proof fn a_new_rate_replaces_the_old(limiter: LimiterView, rate: usize, now: u64, later: u64)
    requires
        limiter::sound(limiter),
    ensures
        ({
            let after = limiter::limiter_step(limiter, LimiterEvent::Rate(rate), now).0;
            let again = limiter::limiter_step(after, LimiterEvent::Rate(rate), later).0;
            &&& after.rate == rate
            &&& after.under_way == limiter.under_way
            &&& after.tokens <= 1000 * rate
            &&& again == limiter::refilled(after, later as nat)
            &&& after.under_way >= rate ==> limiter::limiter_step(
                after,
                LimiterEvent::Asked,
                later,
            ).1 is Hold
        }),
{
}

/// A wait is as long as it must be: until it is over the answer is to wait, and
/// then the request may start.
pub proof fn waits_are_exact(limiter: LimiterView, now: u64, later: u64)
    requires
        limiter::sound(limiter),
        limiter.at <= now <= later,
        limiter::limiter_step(limiter, LimiterEvent::Asked, now).1 is Wait,
    ensures
        ({
            let (after, action) = limiter::limiter_step(limiter, LimiterEvent::Asked, now);
            let answer = limiter::limiter_step(after, LimiterEvent::Asked, later).1;
            &&& 1 <= action->0 <= 1000
            &&& later < now + action->0 ==> answer is Wait
            &&& later >= now + action->0 ==> answer is Start
        }),
{
    let filled = limiter::refilled(limiter, now as nat);
    let wait = limiter::missing_time(filled);
    let rate = filled.rate as int;
    let missing = 1000 - filled.tokens;
    let elapsed = (later - now) as int;
    assert(rate > 0);
    assert(rate * (wait - 1) < missing <= rate * wait && 1 <= wait <= 1000) by (nonlinear_arith)
        requires
            rate > 0,
            1 <= missing <= 1000,
            wait == (missing + rate - 1) / rate,
    ;
    if elapsed < wait {
        assert(rate * elapsed <= rate * (wait - 1)) by (nonlinear_arith)
            requires
                rate > 0,
                elapsed <= wait - 1,
        ;
    } else {
        assert(rate * elapsed >= rate * wait) by (nonlinear_arith)
            requires
                rate > 0,
                elapsed >= wait,
        ;
        assert(1000 * rate >= 1000);
    }
}

/// A new limiter has the connections and the rate that it is given, nothing under
/// way, and the tokens of one second, in thousandths.
pub proof fn new_limiters_are_full(connections: u64, rate: usize, now: u64, r: Limiter)
    requires
        call_ensures(Limiter::new, (connections, rate, now), r),
    ensures
        r@.connections == connections,
        r@.rate == rate,
        r@.tokens == 1000 * rate,
        r@.at == now,
        r@.under_way == 0,
{
}

/// An ask is answered by the numbers. The bucket gains the rate in thousandths for
/// every millisecond since it was last filled, and holds no more than a thousand
/// times the rate. Where as many requests are under way as there are connections,
/// or as the rate, the answer is to hold; otherwise the request starts if there is
/// a whole token, which it takes, and waits if there is not, for the least time in
/// which there is. Nothing else changes.
pub proof fn asks_are_answered_by_the_numbers(limiter: &mut Limiter, now: u64, r: LimiterAction)
    requires
        call_ensures(Limiter::turn, (limiter, LimiterEvent::Asked, now), r),
    ensures
        ({
            let before = old(limiter)@;
            let after = final(limiter)@;
            let elapsed: int = if now > before.at {
                now - before.at
            } else {
                0
            };
            let gained = before.tokens + before.rate * elapsed;
            let tokens: int = if gained > 1000 * before.rate {
                1000 * before.rate as int
            } else {
                gained
            };
            &&& r is Hold <==> before.under_way >= before.connections || before.under_way
                >= before.rate
            &&& r is Start <==> before.under_way < before.connections && before.under_way
                < before.rate && tokens >= 1000
            &&& r is Wait <==> before.under_way < before.connections && before.under_way
                < before.rate && tokens < 1000
            &&& r is Wait ==> tokens + before.rate * r->0 >= 1000 && tokens + before.rate * (r->0
                - 1) < 1000
            &&& after.connections == before.connections
            &&& after.rate == before.rate
            &&& after.at == before.at + elapsed
            &&& r is Start ==> after.under_way == before.under_way + 1 && after.tokens == tokens
                - 1000
            &&& !(r is Start) ==> after.under_way == before.under_way && after.tokens == tokens
        }),
{
    let before = old(limiter)@;
    let filled = limiter::refilled(before, now as nat);
    assert(limiter::sound(before));
    if r is Wait {
        let wait = limiter::missing_time(filled);
        let rate = filled.rate as int;
        let missing = 1000 - filled.tokens;
        assert(rate * (wait - 1) < missing <= rate * wait && 1 <= wait <= 1000) by (nonlinear_arith)
            requires
                rate > 0,
                1 <= missing <= 1000,
                wait == (missing + rate - 1) / rate,
        ;
    }
}

/// A request that ends makes room for one, and changes nothing else.
pub proof fn ends_make_room(limiter: &mut Limiter, now: u64, r: LimiterAction)
    requires
        call_ensures(Limiter::turn, (limiter, LimiterEvent::Ended, now), r),
    ensures
        ({
            let before = old(limiter)@;
            let after = final(limiter)@;
            &&& r is Noted
            &&& before.under_way > 0 ==> after.under_way == before.under_way - 1
            &&& before.under_way == 0 ==> after.under_way == 0
            &&& after.connections == before.connections
            &&& after.rate == before.rate
            &&& after.tokens == before.tokens
            &&& after.at == before.at
        }),
{
}

/// A new rate is the rate from now on. The bucket keeps what it holds, as far as
/// one second of the new rate would fill it, and nothing else changes.
pub proof fn new_rates_are_taken(limiter: &mut Limiter, rate: usize, now: u64, r: LimiterAction)
    requires
        call_ensures(Limiter::turn, (limiter, LimiterEvent::Rate(rate), now), r),
    ensures
        ({
            let before = old(limiter)@;
            let after = final(limiter)@;
            let elapsed: int = if now > before.at {
                now - before.at
            } else {
                0
            };
            let gained = before.tokens + before.rate * elapsed;
            let tokens: int = if gained > 1000 * before.rate {
                1000 * before.rate as int
            } else {
                gained
            };
            &&& r is Noted
            &&& after.rate == rate
            &&& after.connections == before.connections
            &&& after.under_way == before.under_way
            &&& after.at == before.at + elapsed
            &&& after.tokens == if tokens > 1000 * rate {
                1000 * rate as int
            } else {
                tokens
            }
        }),
{
}

/// So many asks at one time.
pub open spec fn asks(n: nat, now: u64) -> Seq<(LimiterEvent, u64)> {
    Seq::new(n, |i: int| (LimiterEvent::Asked, now))
}

/// Every connection can have a request under way, as far as the rate allows: of
/// so many asks of a new limiter at one time, as many are let through as there are
/// connections, or as the rate, whichever is less.
pub proof fn every_connection_can_send(
    connections: u64,
    rate: usize,
    now: u64,
    limiter: Limiter,
    n: nat,
)
    requires
        call_ensures(Limiter::new, (connections, rate, now), limiter),
    ensures
        ({
            let least = if connections < rate {
                connections as nat
            } else {
                rate as nat
            };
            starts(limiter@, asks(n, now)) == if n < least {
                n
            } else {
                least
            }
        }),
{
    lemma_asks(limiter@, n, now);
}

proof fn lemma_asks(limiter: LimiterView, n: nat, now: u64)
    requires
        limiter.under_way == 0,
        limiter.at == now,
        limiter.tokens == 1000 * limiter.rate,
    ensures
        ({
            let least = if limiter.connections < limiter.rate {
                limiter.connections
            } else {
                limiter.rate
            };
            let started = if n < least {
                n
            } else {
                least
            };
            let after = after_run(limiter, asks(n, now));
            &&& starts(limiter, asks(n, now)) == started
            &&& after.under_way == started
            &&& after.tokens == 1000 * (limiter.rate - started)
            &&& after.at == now
            &&& after.connections == limiter.connections
            &&& after.rate == limiter.rate
        }),
    decreases n,
{
    let events = asks(n, now);
    if n > 0 {
        let rest = (n - 1) as nat;
        assert(events.drop_last() =~= asks(rest, now));
        lemma_asks(limiter, rest, now);
        let before = after_run(limiter, asks(rest, now));
        assert(before.rate * 0 == 0);
        assert(limiter::refilled(before, now as nat) == before);
    }
}

/// What a connection does next: once the test is to stop it finishes, and leaves
/// the limiter as it is. Otherwise it sends if fewer requests are under way than
/// there are connections and than the rate, and there is a whole token; sleeps if
/// there is none; and holds if as many are under way as may be.
pub proof fn connections_do_as_the_numbers_say(
    limiter: &mut Limiter,
    stop: bool,
    now: u64,
    r: ConnectionAction,
)
    requires
        limiter::sound(old(limiter)@),
        call_ensures(load_test::connection_turn, (limiter, stop, now), r),
    ensures
        ({
            let before = old(limiter)@;
            let after = final(limiter)@;
            let elapsed: int = if now > before.at {
                now - before.at
            } else {
                0
            };
            let gained = before.tokens + before.rate * elapsed;
            let room = before.under_way < before.connections && before.under_way < before.rate;
            let token = gained >= 1000 && 1000 * before.rate >= 1000;
            &&& r is Finish <==> stop
            &&& stop ==> after == before
            &&& r is Send <==> !stop && room && token
            &&& r is Sleep <==> !stop && room && !token
            &&& r is Hold <==> !stop && !room
            &&& r is Send ==> after.under_way == before.under_way + 1
            &&& !(r is Send) ==> after.under_way == before.under_way
            &&& r is Sleep ==> gained + before.rate * r->Sleep_0 >= 1000 && gained + before.rate * (
            r->Sleep_0 - 1) < 1000
        }),
{
    let before = old(limiter)@;
    let filled = limiter::refilled(before, now as nat);
    if r is Sleep {
        let wait = limiter::missing_time(filled);
        let rate = filled.rate as int;
        let missing = 1000 - filled.tokens;
        assert(rate * (wait - 1) < missing <= rate * wait && 1 <= wait <= 1000) by (nonlinear_arith)
            requires
                rate > 0,
                1 <= missing <= 1000,
                wait == (missing + rate - 1) / rate,
        ;
    }
}

/// A test that ends at `deadline` is stopped once that time has come, and not a
/// second before: until then the monitor sleeps for exactly what is left.
pub proof fn monitors_wait_for_the_end(deadline: i64, now: i64, r: MonitorAction)
    requires
        call_ensures(load_test::monitor_turn, (deadline, now), r),
    ensures
        r is Stop <==> now >= deadline,
        r is Sleep ==> r->0 == deadline - now,
{
}

/// A request is recorded under the status of its response, whatever it is, and
/// under zero if none came.
pub proof fn statuses_are_recorded(response: Option<u16>, r: u16)
    requires
        call_ensures(load_test::recorded_status, (response,), r),
    ensures
        response is Some ==> response == Some(r),
        response is None ==> r == 0,
{
}

} // verus!

//! How fast a load test sends: a token bucket for the requests that start, and a
//! bound on the requests that are under way.
use vstd::prelude::*;

verus! {

/// One token, in the thousandths that the bucket is counted in. Each second
/// brings as many tokens as the rate, so each millisecond brings as many
/// thousandths.
pub const TOKEN: u64 = 1000;

/// What a limiter is told.
pub enum LimiterEvent {
    /// A connection asks to send a request.
    Asked,
    /// A request that was let through has ended.
    Ended,
    /// The rate is this many requests per second from now on.
    Rate(usize),
}

/// What a limiter answers.
pub enum LimiterAction {
    /// The request may start now.
    Start,
    /// No token is left: ask again after this many milliseconds.
    Wait(u64),
    /// As many requests are under way as may be: ask again when one has ended or
    /// the rate has changed.
    Hold,
    /// There is nothing to do.
    Noted,
}

/// What a limiter keeps.
#[verifier::ext_equal]
pub struct LimiterView {
    /// How many connections there are.
    pub connections: nat,
    /// How many requests may start per second, and be under way at once.
    pub rate: nat,
    /// What the bucket holds, in thousandths of a token.
    pub tokens: nat,
    /// The time up to which the bucket has been filled, in milliseconds.
    pub at: nat,
    /// How many requests are under way.
    pub under_way: nat,
}

/// What holds of every limiter: the bucket holds no more than the tokens of one
/// second, and a connection has no more than one request under way.
pub open spec fn sound(limiter: LimiterView) -> bool {
    &&& limiter.tokens <= TOKEN * limiter.rate
    &&& limiter.under_way <= limiter.connections
}

/// The limiter after the bucket has been filled up to `now`. A clock that goes
/// back fills nothing.
pub open spec fn refilled(limiter: LimiterView, now: nat) -> LimiterView {
    let at = if now > limiter.at {
        now
    } else {
        limiter.at
    };
    let grown = limiter.tokens + limiter.rate * ((at - limiter.at) as nat);
    let full = TOKEN as nat * limiter.rate;
    LimiterView {
        tokens: if grown < full {
            grown
        } else {
            full
        },
        at,
        ..limiter
    }
}

/// Whether the connections and the rate allow one more request under way.
pub open spec fn has_room(limiter: LimiterView) -> bool {
    limiter.under_way < limiter.connections && limiter.under_way < limiter.rate
}

/// In how many milliseconds a bucket that holds less than a token holds one.
pub open spec fn missing_time(limiter: LimiterView) -> nat {
    ((TOKEN - limiter.tokens + limiter.rate - 1) / limiter.rate as int) as nat
}

/// What a limiter keeps and answers after `event` at `now`.
pub open spec fn limiter_step(
    limiter: LimiterView,
    event: LimiterEvent,
    now: u64,
) -> (LimiterView, LimiterAction) {
    let filled = refilled(limiter, now as nat);
    match event {
        LimiterEvent::Asked => if !has_room(filled) {
            (filled, LimiterAction::Hold)
        } else if filled.tokens < TOKEN {
            (filled, LimiterAction::Wait(missing_time(filled) as u64))
        } else {
            (
                LimiterView {
                    tokens: (filled.tokens - TOKEN) as nat,
                    under_way: filled.under_way + 1,
                    ..filled
                },
                LimiterAction::Start,
            )
        },
        LimiterEvent::Ended => (
            LimiterView {
                under_way: if limiter.under_way > 0 {
                    (limiter.under_way - 1) as nat
                } else {
                    0
                },
                ..limiter
            },
            LimiterAction::Noted,
        ),
        LimiterEvent::Rate(rate) => (
            LimiterView {
                rate: rate as nat,
                tokens: if filled.tokens < TOKEN as nat * rate as nat {
                    filled.tokens
                } else {
                    TOKEN as nat * rate as nat
                },
                ..filled
            },
            LimiterAction::Noted,
        ),
    }
}

/// What a limiter with a full bucket keeps.
pub open spec fn full_limiter(connections: u64, rate: usize, now: u64) -> LimiterView {
    LimiterView {
        connections: connections as nat,
        rate: rate as nat,
        tokens: TOKEN as nat * rate as nat,
        at: now as nat,
        under_way: 0,
    }
}

/// Limits the requests of a load test.
pub struct Limiter {
    connections: u64,
    rate: usize,
    tokens: u128,
    at: u64,
    under_way: u64,
}

impl View for Limiter {
    type V = LimiterView;

    closed spec fn view(&self) -> LimiterView {
        LimiterView {
            connections: self.connections as nat,
            rate: self.rate as nat,
            tokens: self.tokens as nat,
            at: self.at as nat,
            under_way: self.under_way as nat,
        }
    }
}

/// What a bucket holds at most: the tokens of one second.
fn full_bucket(rate: usize) -> (r: u128)
    ensures
        r == TOKEN * rate,
        r < 0x4000_0000_0000_0000_0000,
{
    rate as u128 * 1000
}

impl Limiter {
    #[verifier::type_invariant]
    spec fn is_sound(&self) -> bool {
        sound(self@)
    }

    /// A limiter for so many connections and requests per second, with a full
    /// bucket. Times are in milliseconds, counted from anywhere.
    pub fn new(connections: u64, rate: usize, now: u64) -> (r: Limiter)
        ensures
            r@ == full_limiter(connections, rate, now),
            sound(r@),
    {
        Limiter { connections, rate, tokens: full_bucket(rate), at: now, under_way: 0 }
    }

    /// What the bucket holds once it has been filled up to `at`.
    fn filled_tokens(&self, at: u64) -> (r: u128)
        requires
            self.at <= at,
        ensures
            r == refilled(self@, at as nat).tokens,
            r <= TOKEN * self.rate,
    {
        proof {
            use_type_invariant(self);
        }
        let full: u128 = full_bucket(self.rate);
        let elapsed: u64 = at - self.at;
        let ghost rate = self.rate as nat;
        if elapsed >= TOKEN {
            proof {
                assert(rate * elapsed as nat >= TOKEN as nat * rate) by (nonlinear_arith)
                    requires
                        elapsed >= TOKEN,
                ;
            }
            return full;
        }
        proof {
            assert(rate * elapsed as nat <= TOKEN as nat * rate) by (nonlinear_arith)
                requires
                    elapsed < TOKEN,
            ;
        }
        let grown: u128 = self.tokens + self.rate as u128 * elapsed as u128;
        if grown < full {
            grown
        } else {
            full
        }
    }

    /// Takes in an event at `now`, and answers it.
    pub fn turn(&mut self, event: LimiterEvent, now: u64) -> (r: LimiterAction)
        ensures
            sound(old(self)@),
            sound(final(self)@),
            (final(self)@, r) == limiter_step(old(self)@, event, now),
    {
        proof {
            use_type_invariant(&*self);
        }
        let connections = self.connections;
        let rate = self.rate;
        let under_way = self.under_way;
        let at: u64 = if now > self.at {
            now
        } else {
            self.at
        };
        let tokens = self.filled_tokens(at);
        match event {
            LimiterEvent::Asked => {
                if under_way >= connections || under_way as u128 >= rate as u128 {
                    *self = Limiter { connections, rate, tokens, at, under_way };
                    return LimiterAction::Hold;
                }
                if tokens < TOKEN as u128 {
                    *self = Limiter { connections, rate, tokens, at, under_way };
                    let missing: u128 = TOKEN as u128 - tokens + (rate as u128 - 1);
                    let wait: u128 = missing / rate as u128;
                    proof {
                        assert(wait <= 1000) by (nonlinear_arith)
                            requires
                                wait == missing / rate as u128,
                                missing <= 1000 + rate - 1,
                                rate > 0,
                        ;
                    }
                    return LimiterAction::Wait(wait as u64);
                }
                *self = Limiter {
                    connections,
                    rate,
                    tokens: tokens - TOKEN as u128,
                    at,
                    under_way: under_way + 1,
                };
                LimiterAction::Start
            },
            LimiterEvent::Ended => {
                if under_way > 0 {
                    self.under_way = under_way - 1;
                }
                LimiterAction::Noted
            },
            LimiterEvent::Rate(new_rate) => {
                let full: u128 = full_bucket(new_rate);
                let kept: u128 = if tokens < full {
                    tokens
                } else {
                    full
                };
                *self = Limiter { connections, rate: new_rate, tokens: kept, at, under_way };
                LimiterAction::Noted
            },
        }
    }
}

} // verus!

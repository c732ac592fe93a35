use rwrk::limiter::{Limiter, LimiterAction, LimiterEvent, TOKEN};

fn ask(limiter: &mut Limiter, now: u64) -> LimiterAction {
    limiter.turn(LimiterEvent::Asked, now)
}

fn starts(limiter: &mut Limiter, now: u64) -> bool {
    matches!(ask(limiter, now), LimiterAction::Start)
}

fn end(limiter: &mut Limiter) {
    assert!(matches!(limiter.turn(LimiterEvent::Ended, 0), LimiterAction::Noted));
}

/// Asks every millisecond, with requests that end at once.
fn starts_between(limiter: &mut Limiter, from: u64, to: u64) -> u64 {
    let mut count = 0;
    for now in from..to {
        while starts(limiter, now) {
            count += 1;
            end(limiter);
        }
    }
    count
}

#[test]
fn the_bucket_starts_full_and_fills_at_the_rate() {
    let mut limiter = Limiter::new(1000, 10, 500);
    assert_eq!(TOKEN, 1000);
    assert_eq!(starts_between(&mut limiter, 500, 501), 10);
    assert_eq!(starts_between(&mut limiter, 501, 600), 0);
    assert_eq!(starts_between(&mut limiter, 600, 601), 1);
    assert_eq!(starts_between(&mut limiter, 601, 1501), 9);
    assert_eq!(starts_between(&mut limiter, 9000, 9001), 10);
}

#[test]
fn no_span_starts_more_than_its_share() {
    for rate in [1, 3, 7, 100] {
        let mut limiter = Limiter::new(u64::MAX, rate, 0);
        let mut times = Vec::new();
        for now in 0..5000 {
            while starts(&mut limiter, now) {
                times.push(now);
                end(&mut limiter);
            }
        }
        for (i, first) in times.iter().enumerate() {
            let in_span = times[i..].iter().filter(|t| **t <= first + 1000).count();
            assert!(in_span <= 2 * rate, "{} in a second at {}", in_span, rate);
        }
        assert!(times.len() >= 5 * rate);
    }
}

#[test]
fn requests_under_way_are_limited() {
    let mut limiter = Limiter::new(3, 10, 0);
    for _ in 0..3 {
        assert!(starts(&mut limiter, 0));
    }
    assert!(matches!(ask(&mut limiter, 0), LimiterAction::Hold));
    end(&mut limiter);
    assert!(starts(&mut limiter, 0));

    let mut limiter = Limiter::new(10, 3, 0);
    for _ in 0..3 {
        assert!(starts(&mut limiter, 0));
    }
    assert!(matches!(ask(&mut limiter, 60000), LimiterAction::Hold));
    end(&mut limiter);
    assert!(starts(&mut limiter, 60000));
}

#[test]
fn waits_are_as_long_as_they_must_be() {
    let mut limiter = Limiter::new(10, 4, 0);
    assert_eq!(starts_between(&mut limiter, 0, 1), 4);
    assert!(matches!(ask(&mut limiter, 0), LimiterAction::Wait(250)));
    assert!(matches!(ask(&mut limiter, 249), LimiterAction::Wait(1)));
    assert!(starts(&mut limiter, 250));
}

#[test]
fn a_new_rate_replaces_the_old_one() {
    // Ten under way, then twenty allowed: ten more may start, however often the
    // rate is set.
    let mut limiter = Limiter::new(100, 10, 0);
    for _ in 0..10 {
        assert!(starts(&mut limiter, 0));
    }
    for _ in 0..2 {
        assert!(matches!(limiter.turn(LimiterEvent::Rate(20), 0), LimiterAction::Noted));
    }
    for _ in 0..10 {
        assert!(starts(&mut limiter, 2000));
    }
    assert!(matches!(ask(&mut limiter, 2000), LimiterAction::Hold));

    // Eight under way, then three allowed: none may start until six have ended.
    let mut limiter = Limiter::new(100, 10, 0);
    for _ in 0..8 {
        assert!(starts(&mut limiter, 0));
    }
    limiter.turn(LimiterEvent::Rate(3), 0);
    for _ in 0..5 {
        assert!(matches!(ask(&mut limiter, 5000), LimiterAction::Hold));
        end(&mut limiter);
    }
    assert!(matches!(ask(&mut limiter, 5000), LimiterAction::Hold));
    end(&mut limiter);
    assert!(starts(&mut limiter, 5000));

    // The tokens of the old rate are not kept.
    let mut limiter = Limiter::new(100, 50, 0);
    limiter.turn(LimiterEvent::Rate(2), 0);
    assert_eq!(starts_between(&mut limiter, 0, 1), 2);
}

#[test]
fn a_rate_of_zero_starts_nothing() {
    let mut limiter = Limiter::new(5, 0, 0);
    assert!(matches!(ask(&mut limiter, 100000), LimiterAction::Hold));
    limiter.turn(LimiterEvent::Rate(1), 100000);
    assert!(matches!(ask(&mut limiter, 100000), LimiterAction::Wait(1000)));
    assert!(starts(&mut limiter, 101000));
}

#[test]
fn the_greatest_numbers_do_no_harm() {
    let mut limiter = Limiter::new(u64::MAX, usize::MAX, 0);
    assert!(starts(&mut limiter, u64::MAX));
    assert!(starts(&mut limiter, 0));
    end(&mut limiter);
    end(&mut limiter);
    end(&mut limiter);
    assert!(starts(&mut limiter, u64::MAX));
}

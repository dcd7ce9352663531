//! The circuit breaker of the audit module.

use convergio_ceo::ceo_audit::{clock, CircuitBreaker};

#[test]
fn circuit_starts_closed() {
    let mut cb = CircuitBreaker::new();
    assert!(!cb.is_open());
}

#[test]
fn circuit_opens_on_high_error_rate() {
    let mut cb = CircuitBreaker::new();
    // 20 calls, 2 errors = 10% > 5% threshold
    for _ in 0..18 {
        cb.record(true);
    }
    for _ in 0..2 {
        cb.record(false);
    }
    cb.evaluate();
    assert!(cb.is_open());
}

#[test]
fn circuit_stays_closed_on_low_error_rate() {
    let mut cb = CircuitBreaker::new();
    for _ in 0..20 {
        cb.record(true);
    }
    cb.evaluate();
    assert!(!cb.is_open());
}

#[test]
fn circuit_closes_after_successful_probe() {
    let mut cb = CircuitBreaker::new();
    for _ in 0..18 {
        cb.record(true);
    }
    for _ in 0..2 {
        cb.record(false);
    }
    cb.evaluate();
    assert!(cb.is_open());
    cb.close();
    assert!(!cb.is_open());
}

#[test]
fn one_error_in_twenty_is_not_too_many() {
    let mut cb = CircuitBreaker::new();
    for _ in 0..19 {
        cb.record(true);
    }
    cb.record(false);
    assert!(!cb.is_open());
    // 2 of 21 is more than 5%
    cb.record(false);
    assert!(cb.is_open());
}

#[test]
fn threshold_is_that_of_the_quotient() {
    for total in 20u32..100 {
        for errors in 0..=total {
            let mut cb = CircuitBreaker::new();
            for k in 0..total {
                cb.record_at(k >= errors, 0);
            }
            assert_eq!(cb.counts_at(0), (u64::from(total), u64::from(errors)));
            let rate = f64::from(errors) / f64::from(total);
            assert_eq!(cb.is_open_at(0), rate > 0.05);
        }
    }
}

#[test]
fn nothing_is_judged_below_twenty_calls() {
    let mut cb = CircuitBreaker::new();
    for _ in 0..19 {
        cb.record(false);
        assert!(!cb.is_open());
    }
    cb.record(false);
    assert!(cb.is_open());
}

#[test]
fn counting_starts_over_after_a_hundred_calls() {
    let mut cb = CircuitBreaker::new();
    for _ in 0..95 {
        cb.record(true);
    }
    for _ in 0..4 {
        cb.record(false);
    }
    assert!(!cb.is_open());
    // The hundredth call fills the window; the ones after it count from zero.
    cb.record(false);
    assert!(!cb.is_open());
    for _ in 0..19 {
        cb.record(false);
    }
    assert!(!cb.is_open());
    cb.record(true);
    assert!(cb.is_open());
}

const SECOND: u128 = 1_000_000_000;

fn open_since(now: u128) -> CircuitBreaker {
    let mut cb = CircuitBreaker::new();
    for _ in 0..20 {
        cb.record_at(false, now);
    }
    cb
}

#[test]
fn an_open_circuit_lets_one_probe_through_after_five_minutes() {
    let mut fresh = CircuitBreaker::new();
    assert!(!fresh.is_open_at(0));
    assert!(!fresh.is_open_at(u128::MAX));

    let mut cb = open_since(7 * SECOND);
    assert!(cb.has_opened());
    assert!(cb.is_open_at(0));
    assert!(cb.is_open_at(7 * SECOND));
    assert!(cb.is_open_at(307 * SECOND - 1));
    // The probe.
    assert!(!cb.is_open_at(307 * SECOND));
    // No other call until the circuit is closed.
    assert!(cb.is_open_at(307 * SECOND));
    assert!(cb.is_open_at(10_000 * SECOND));
    assert!(cb.is_open_at(u128::MAX));
    cb.close();
    assert!(!cb.is_open_at(10_000 * SECOND));
    assert!(!cb.is_open_at(10_000 * SECOND));
    assert!(!cb.has_opened());
}

#[test]
fn a_probe_closes_the_circuit_or_opens_it_anew() {
    let mut cb = open_since(0);
    assert!(!cb.is_open_at(300 * SECOND));
    cb.settle_at(true, 301 * SECOND);
    assert!(!cb.has_opened());
    assert_eq!(cb.counts_at(301 * SECOND), (0, 0));

    let mut cb = open_since(0);
    assert!(!cb.is_open_at(300 * SECOND));
    cb.settle_at(false, 301 * SECOND);
    assert!(cb.has_opened());
    assert_eq!(cb.counts_at(301 * SECOND), (21, 21));
    // The failed probe opened the circuit anew, for another five minutes.
    assert!(cb.is_open_at(601 * SECOND - 1));
    assert!(!cb.is_open_at(601 * SECOND));
    assert!(cb.is_open_at(601 * SECOND));

    // A success that is no probe is recorded.
    let mut cb = open_since(0);
    cb.settle(true);
    assert!(cb.has_opened());
    assert_eq!(cb.counts(), (21, 20));
}

#[test]
fn an_open_circuit_is_closed_by_a_low_error_rate() {
    // 20 failures, then 79 successes: still far above 5%.
    let mut cb = open_since(0);
    for _ in 0..79 {
        cb.record_at(true, 0);
        assert!(cb.is_open_at(0));
    }
    // The counting starts over; after twenty good calls the circuit closes.
    cb.record_at(true, 0);
    for _ in 0..19 {
        cb.record_at(true, 0);
        assert!(cb.is_open_at(0));
    }
    cb.record_at(true, 0);
    assert!(!cb.is_open_at(0));
    assert!(!cb.has_opened());
    cb.close();
    assert!(!cb.is_open_at(0));

    // Old failures leave the window, and the next evaluation closes.
    let mut cb = open_since(0);
    for _ in 0..20 {
        cb.record_at(true, 500 * SECOND);
    }
    assert!(cb.has_opened());
    cb.evaluate_at(600 * SECOND);
    assert!(cb.has_opened());
    cb.evaluate_at(600 * SECOND + 1);
    assert!(!cb.has_opened());
}

#[test]
fn only_the_last_ten_minutes_count() {
    let mut cb = CircuitBreaker::new();
    cb.record_at(false, 0);
    cb.record_at(false, 0);
    for _ in 0..18 {
        cb.record_at(true, 601 * SECOND);
    }
    assert_eq!(cb.counts_at(601 * SECOND), (18, 0));
    cb.evaluate_at(601 * SECOND);
    assert!(!cb.is_open_at(601 * SECOND));

    let mut cb = CircuitBreaker::new();
    cb.record_at(false, 0);
    cb.record_at(false, 0);
    for _ in 0..18 {
        cb.record_at(true, 600 * SECOND);
    }
    assert_eq!(cb.counts_at(600 * SECOND), (20, 2));
    assert!(cb.is_open_at(600 * SECOND));
}

#[test]
fn closing_a_closed_circuit_keeps_its_counts() {
    let mut cb = CircuitBreaker::new();
    for _ in 0..19 {
        cb.record(false);
    }
    cb.close();
    cb.record(false);
    assert!(cb.is_open());
    cb.close();
    for _ in 0..19 {
        cb.record(false);
    }
    assert!(!cb.is_open());
}

#[test]
fn the_clock_counts_nanoseconds() {
    assert_eq!(clock((0, 0)), 0);
    assert_eq!(clock((0, 999_999_999)), 999_999_999);
    assert_eq!(clock((1, 0)), SECOND);
    assert_eq!(clock((300, 5)), 300 * SECOND + 5);
    assert_eq!(
        clock((u64::MAX, u32::MAX)),
        u128::from(u64::MAX) * SECOND + u128::from(u32::MAX)
    );
    let passed = std::time::Duration::new(12, 34);
    assert_eq!(clock((passed.as_secs(), passed.subsec_nanos())), passed.as_nanos());
}

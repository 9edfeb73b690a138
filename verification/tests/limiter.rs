use email_relay::limiter::RateLimit;

#[test]
fn ten_admitted_eleventh_rejected() {
    let mut rl = RateLimit::new();
    for k in 0..10u64 {
        assert!(rl.is_allowed_at("1.2.3.4", 1_000 + k * 1_000));
    }
    assert!(!rl.is_allowed_at("1.2.3.4", 10_500));
}

#[test]
fn request_after_oldest_ages_out_is_admitted() {
    let mut rl = RateLimit::new();
    for k in 0..10u64 {
        assert!(rl.is_allowed_at("1.2.3.4", 1_000 + k));
    }
    // At 60_999 the oldest entry (1_000) is still within the window.
    assert!(!rl.is_allowed_at("1.2.3.4", 60_999));
    // At 61_000 the oldest entry has aged out, so the request is admitted.
    assert!(rl.is_allowed_at("1.2.3.4", 61_000));
}

#[test]
fn identities_are_isolated() {
    let mut rl = RateLimit::new();
    for k in 0..10u64 {
        assert!(rl.is_allowed_at("10.0.0.1", 1_000 + k));
    }
    assert!(!rl.is_allowed_at("10.0.0.1", 2_000));
    // A different identity is unaffected by the saturated one.
    assert!(rl.is_allowed_at("10.0.0.2", 2_000));
    // And checking the other identity did not reset the first.
    assert!(!rl.is_allowed_at("10.0.0.1", 2_000));
}

#[test]
fn timestamps_in_the_future_are_not_stale() {
    let mut rl = RateLimit::new();
    // Record ten requests, then let the clock move backward: the recorded
    // timestamps now lie in the future, their age counts as zero, and none
    // is pruned, so the identity stays over quota.
    for k in 0..10u64 {
        assert!(rl.is_allowed_at("backwards", 100_000 + k));
    }
    assert!(!rl.is_allowed_at("backwards", 5));
}

#[test]
fn fresh_identity_starts_empty() {
    let mut rl = RateLimit::new();
    assert!(rl.is_allowed_at("first-contact", 0));
}

#[test]
fn wall_clock_checks_respect_quota() {
    let mut rl = RateLimit::new();
    for _ in 0..10 {
        assert!(rl.is_allowed("wall-clock"));
    }
    assert!(!rl.is_allowed("wall-clock"));
}

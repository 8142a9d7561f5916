use bytehub::rate_limit::RateLimiter;

#[test]
fn test_rate_limiter_allows_within_limit() {
    let mut limiter = RateLimiter::new(60, 5);

    for _ in 0..5 {
        assert!(limiter.check("guild1").is_ok());
    }
}

#[test]
fn test_rate_limiter_blocks_over_limit() {
    let mut limiter = RateLimiter::new(60, 2);

    assert!(limiter.check("guild1").is_ok());
    assert!(limiter.check("guild1").is_ok());
    assert!(limiter.check("guild1").is_err());
}

#[test]
fn test_rate_limiter_separate_guilds() {
    let mut limiter = RateLimiter::new(60, 1);

    assert!(limiter.check("guild1").is_ok());
    assert!(limiter.check("guild2").is_ok());
    assert!(limiter.check("guild1").is_err());
    assert!(limiter.check("guild2").is_err());
}

#[test]
fn test_rate_limiter_fixed_window_exact() {
    // With max_requests = 3 in one window, exactly the first 3 checks at one
    // instant are admitted; the 4th is refused with a positive wait.
    let mut limiter = RateLimiter::new(60, 3);
    assert!(limiter.check_at("tenant", 1000).is_ok());
    assert!(limiter.check_at("tenant", 1000).is_ok());
    assert!(limiter.check_at("tenant", 1000).is_ok());
    let refused = limiter.check_at("tenant", 1000);
    assert_eq!(refused, Err(60));
    // A different tenant at the same instant is admitted independently.
    assert!(limiter.check_at("other", 1000).is_ok());
}

#[test]
fn test_rate_limiter_window_expiry_resets() {
    let mut limiter = RateLimiter::new(60, 1);
    assert!(limiter.check_at("tenant", 1000).is_ok());
    assert_eq!(limiter.check_at("tenant", 1030), Err(30));
    // Past the window the count resets and the call is admitted again.
    assert!(limiter.check_at("tenant", 1061).is_ok());
}

#[test]
fn test_rate_limiter_wait_is_at_least_one_second() {
    let mut limiter = RateLimiter::new(60, 1);
    assert!(limiter.check_at("tenant", 1000).is_ok());
    // At the very edge of the window the reported wait clamps to 1.
    assert_eq!(limiter.check_at("tenant", 1060), Err(1));
}

#[test]
fn test_rate_limiter_cleanup_drops_expired() {
    let mut limiter = RateLimiter::new(60, 1);
    assert!(limiter.check_at("tenant", 1000).is_ok());
    limiter.cleanup_at(2000);
    // The expired entry is gone, so a fresh window opens.
    assert!(limiter.check_at("tenant", 2000).is_ok());
}

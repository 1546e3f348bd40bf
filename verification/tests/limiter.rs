//! Token-bucket rate limiter and request-id behavior.

use gateway::middleware::{cors_allows_any_origin, ensure_request_id, RateLimiter};
use gateway::config::CorsConfig;

#[test]
fn test_rate_limiter_allows_burst() {
    let mut limiter = RateLimiter::new(10, 5);
    // Should allow up to 5 (burst) requests immediately.
    for _ in 0..5 {
        assert!(limiter.try_acquire_at("test", 0));
    }
    // The 6th should be denied.
    assert!(!limiter.try_acquire_at("test", 0));
}

#[test]
fn test_rate_limiter_separate_keys() {
    let mut limiter = RateLimiter::new(1, 1);
    assert!(limiter.try_acquire_at("a", 0));
    assert!(limiter.try_acquire_at("b", 0));
    // Same key again — denied.
    assert!(!limiter.try_acquire_at("a", 0));
}

#[test]
fn test_rate_limiter_refills_over_time() {
    let mut limiter = RateLimiter::new(1, 1);
    assert!(limiter.try_acquire_at("k", 0));
    // Half a second at one token per second: half a token, still denied.
    assert!(!limiter.try_acquire_at("k", 500));
    // Another half second refills the remaining half token.
    assert!(limiter.try_acquire_at("k", 1000));
}

#[test]
fn test_rate_limiter_refill_caps_at_burst() {
    let mut limiter = RateLimiter::new(10, 2);
    // A long quiet period must not accumulate more than the burst.
    assert!(limiter.try_acquire_at("k", 0));
    assert!(limiter.try_acquire_at("k", 1_000_000));
    assert!(limiter.try_acquire_at("k", 1_000_000));
    assert!(!limiter.try_acquire_at("k", 1_000_000));
}

#[test]
fn test_rate_limiter_zero_burst_denies() {
    let mut limiter = RateLimiter::new(10, 0);
    assert!(!limiter.try_acquire_at("k", 0));
}

#[test]
fn test_rate_limiter_clock_going_backwards_is_harmless() {
    let mut limiter = RateLimiter::new(1, 2);
    assert!(limiter.try_acquire_at("k", 1000));
    // An earlier timestamp adds nothing, and still spends a token.
    assert!(limiter.try_acquire_at("k", 0));
    assert!(!limiter.try_acquire_at("k", 0));
}

#[test]
fn test_ensure_request_id_echoes_existing() {
    let id = ensure_request_id(Some("req-123".to_string()));
    assert_eq!(id, "req-123");
}

#[test]
fn test_ensure_request_id_generates_fresh() {
    let id = ensure_request_id(None);
    assert_eq!(id.chars().count(), 36);
    let again = ensure_request_id(None);
    assert_ne!(id, again);
}

#[test]
fn test_cors_wildcard_detection() {
    let config = CorsConfig::default();
    assert!(cors_allows_any_origin(&config));

    let specific = CorsConfig {
        allowed_origins: vec![
            "https://example.com".to_string(),
            "https://app.example.com".to_string(),
        ],
        ..CorsConfig::default()
    };
    assert!(!cors_allows_any_origin(&specific));
}

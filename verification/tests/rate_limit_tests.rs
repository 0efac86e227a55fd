//! Tests of the rate limiter's configuration, retry policy, backoff
//! computation, and header parsing.

use reqwest::StatusCode;
use tradergrader::{EsiRateLimiter, RateLimitConfig, RetryDecision};

#[test]
fn test_rate_limiter_creation() {
    let config = RateLimitConfig::default();
    let limiter = EsiRateLimiter::new(config).expect("Should create rate limiter");
    assert_eq!(limiter.config().requests_per_second, 100);
}

#[test]
fn test_rate_limiter_zero_rate_rejected() {
    let config = RateLimitConfig {
        requests_per_second: 0,
        ..RateLimitConfig::default()
    };
    let result = EsiRateLimiter::new(config);
    assert!(result.is_err());
    let message = result.err().unwrap().message();
    assert!(message.contains("Rate limit must be greater than 0"));
}

#[test]
fn test_should_retry() {
    let config = RateLimitConfig::default();
    let limiter = EsiRateLimiter::new(config).expect("Should create rate limiter");

    // Should retry on rate limit
    assert!(limiter.should_retry(StatusCode::TOO_MANY_REQUESTS.as_u16(), 0));
    assert!(limiter.should_retry(StatusCode::SERVICE_UNAVAILABLE.as_u16(), 1));

    // Should not retry on success
    assert!(!limiter.should_retry(StatusCode::OK.as_u16(), 0));
    assert!(!limiter.should_retry(StatusCode::NOT_FOUND.as_u16(), 0));

    // Should not retry after max attempts
    assert!(!limiter.should_retry(StatusCode::TOO_MANY_REQUESTS.as_u16(), 5));
}

#[test]
fn test_backoff_delay_calculation() {
    let config = RateLimitConfig {
        base_delay_ms: 100,
        max_delay_seconds: 5,
        ..RateLimitConfig::default()
    };
    let limiter = EsiRateLimiter::new(config).expect("Should create rate limiter");

    // Test exponential backoff
    assert_eq!(limiter.calculate_backoff_delay(0), 100);
    assert_eq!(limiter.calculate_backoff_delay(1), 200);
    assert_eq!(limiter.calculate_backoff_delay(2), 400);

    // Test max delay cap
    let long_delay = limiter.calculate_backoff_delay(10);
    assert!(long_delay <= 5000);
}

#[test]
fn test_rate_limit_header_parsing() {
    let config = RateLimitConfig::default();
    let limiter = EsiRateLimiter::new(config).expect("Should create rate limiter");

    let mut headers = reqwest::header::HeaderMap::new();
    headers.insert("x-esi-error-limit-remain", "45".parse().unwrap());
    headers.insert("x-esi-error-limit-reset", "60".parse().unwrap());
    headers.insert("retry-after", "30".parse().unwrap());

    let header = |name: &str| headers.get(name).and_then(|v| v.to_str().ok());
    let info = limiter.parse_rate_limit_headers(
        header("x-esi-error-limit-remain"),
        header("x-esi-error-limit-reset"),
        header("retry-after"),
    );

    assert_eq!(info.remaining, Some(45));
    assert_eq!(info.reset_time, Some(60));
    assert_eq!(info.retry_after, Some(30));
}

#[test]
fn test_rate_limit_header_parsing_unreadable() {
    let limiter = EsiRateLimiter::new(RateLimitConfig::default()).expect("Should create");

    let info = limiter.parse_rate_limit_headers(Some("soon"), Some("-3"), None);
    assert_eq!(info.remaining, None);
    assert_eq!(info.reset_time, None);
    assert_eq!(info.retry_after, None);

    // A quota count beyond its field's range is unreadable, not an error.
    let info = limiter.parse_rate_limit_headers(Some("5000000000"), Some("5000000000"), None);
    assert_eq!(info.remaining, None);
    assert_eq!(info.reset_time, Some(5000000000));
}

#[test]
fn test_conservative_config() {
    let config = RateLimitConfig::conservative();
    assert_eq!(config.requests_per_second, 50);
    assert_eq!(config.max_retries, 5);
}

#[test]
fn test_testing_config() {
    let config = RateLimitConfig::testing();
    assert_eq!(config.requests_per_second, 1000);
    assert_eq!(config.max_retries, 1);
}

#[test]
fn test_backoff_delay_overflow_protection() {
    let config = RateLimitConfig {
        base_delay_ms: 1000,
        max_delay_seconds: 5,
        ..RateLimitConfig::default()
    };
    let limiter = EsiRateLimiter::new(config).expect("Should create rate limiter");

    // Test with very high attempt count that would overflow without
    // saturating arithmetic
    let large_attempt = 100;
    let delay = limiter.calculate_backoff_delay(large_attempt);

    // Should not panic and should be capped at max_delay
    assert!(delay <= 5000);
    assert!(delay >= 1000); // At least base delay
}

#[test]
fn test_backoff_non_decreasing() {
    let limiter = EsiRateLimiter::new(RateLimitConfig::default()).expect("Should create");
    let mut previous = 0u64;
    for attempt in 0..200 {
        let delay = limiter.calculate_backoff_delay(attempt);
        assert!(delay >= previous);
        assert!(delay <= 30000); // never exceeds the 30 s cap
        previous = delay;
    }
}

#[test]
fn test_retry_decision() {
    let limiter = EsiRateLimiter::new(RateLimitConfig::default()).expect("Should create");

    // Success is handed back at once.
    assert_eq!(limiter.retry_decision(200, 0, None), RetryDecision::ReturnResponse);
    // A terminal failure is handed back too.
    assert_eq!(limiter.retry_decision(404, 0, None), RetryDecision::ReturnResponse);
    // Attempts exhausted: handed back.
    assert_eq!(limiter.retry_decision(429, 3, None), RetryDecision::ReturnResponse);
    // The server's requested delay wins over the computed backoff.
    assert_eq!(
        limiter.retry_decision(429, 0, Some(30)),
        RetryDecision::RetryAfterMs(30000)
    );
    // Without a requested delay, the backoff for the attempt is used.
    assert_eq!(
        limiter.retry_decision(429, 1, None),
        RetryDecision::RetryAfterMs(200)
    );
}

use boxmux::rate_limiter::{StreamingRateLimiter, TokenBucket};
use std::time::{Duration, Instant};

#[test]
fn test_token_bucket_basic() {
    let mut bucket = TokenBucket::new(10, 5);

    assert!(bucket.try_consume(5));
    assert!(bucket.try_consume(5));
    assert!(!bucket.try_consume(1));
}

#[test]
fn test_streaming_rate_limiter() {
    let mut limiter = StreamingRateLimiter::new(5, 10);

    assert!(limiter.queue_output("line1".to_string()));
    assert!(limiter.queue_output("line2".to_string()));

    assert!(limiter.get_next_output().is_some());

    assert_eq!(limiter.queue_size(), 1);
}

#[test]
fn test_rate_limiter_queue_overflow() {
    let mut limiter = StreamingRateLimiter::new(1, 2);

    assert!(limiter.queue_output("line1".to_string()));
    assert!(limiter.queue_output("line2".to_string()));

    assert!(limiter.queue_output("line3".to_string()));
    assert_eq!(limiter.queue_size(), 2);

    let output = limiter.get_next_output().unwrap();
    assert_eq!(output, "line2");
}

#[test]
fn test_consume_or_wait() {
    let mut bucket = TokenBucket::new(5, 10);

    assert!(bucket.consume_or_wait(3).is_none());

    let wait_time = bucket.consume_or_wait(5);
    assert!(wait_time.is_some());
    assert!(wait_time.unwrap() > Duration::from_millis(200));
}

#[test]
fn test_consume_or_wait_after_exact_wait() {
    let mut bucket = TokenBucket::new(5, 10);
    let now = Instant::now();
    assert_eq!(bucket.consume_or_wait_after(now, 0, 3), None);
    // 2 tokens left, 5 wanted: 3 missing at 10 per second is 0.3 s.
    assert_eq!(bucket.consume_or_wait_after(now, 0, 5), Some(300_000_000));
}

#[test]
fn test_refill_at_counts_elapsed_time() {
    let mut bucket = TokenBucket::new(5, 10);
    let now = Instant::now();
    assert!(bucket.try_consume_after(now, 0, 5));
    assert!(!bucket.try_consume_after(now, 0, 1));
    // 0.6 s at 10 tokens per second earns 6 tokens, capped at 5.
    assert!(bucket.try_consume_after(now, 600_000_000, 5));
    assert!(!bucket.try_consume_after(now, 99_999_999, 1));
    assert!(bucket.try_consume_after(now, 100_000_000, 1));
}

#[test]
fn test_queue_full_and_zero_capacity() {
    let mut limiter = StreamingRateLimiter::new(1, 0);
    assert!(limiter.is_queue_full());
    assert!(limiter.queue_output("a".to_string()));
    assert_eq!(limiter.queue_size(), 1);
    assert!(limiter.queue_output("b".to_string()));
    assert_eq!(limiter.queue_size(), 1);
}

use std::time::Duration;

use bbm::error::{BbmError, HttpFailure};
use bbm::retry::{RetryPolicy, DEFAULT_MAX_ATTEMPTS};

fn http(timeout: bool, connect: bool, status: Option<u16>) -> BbmError {
    BbmError::Http(HttpFailure { timeout, connect, status, message: String::from("request failed") })
}

#[test]
fn retryable_errors() {
    // Io errors are retryable
    let io_err = BbmError::Io(String::from("connection reset"));
    assert!(RetryPolicy::is_retryable(&io_err));

    // Api errors are not retryable
    let api_err = BbmError::Api("bad request".into());
    assert!(!RetryPolicy::is_retryable(&api_err));

    // TestFailed errors are not retryable
    let test_err = BbmError::TestFailed("test failed".into());
    assert!(!RetryPolicy::is_retryable(&test_err));

    // Json errors are not retryable
    let json_err = BbmError::Json(String::from("expected value at line 1 column 1"));
    assert!(!RetryPolicy::is_retryable(&json_err));

    // A builder/URL error is not retryable (no timeout/connect/5xx)
    let http_err = http(false, false, None);
    assert!(!RetryPolicy::is_retryable(&http_err));
}

#[test]
fn backoff_durations() {
    // attempt 0: 200ms * 2^(0-1) but saturating_sub gives 0, so 2^0 = 1 => 200ms
    let p0 = RetryPolicy { max_attempts: 3, current_attempt: 0 };
    assert_eq!(Duration::from_millis(p0.backoff_duration()), Duration::from_millis(200));

    // attempt 1: 200ms * 2^0 = 200ms
    let p1 = RetryPolicy { max_attempts: 3, current_attempt: 1 };
    assert_eq!(Duration::from_millis(p1.backoff_duration()), Duration::from_millis(200));

    // attempt 2: 200ms * 2^1 = 400ms
    let p2 = RetryPolicy { max_attempts: 3, current_attempt: 2 };
    assert_eq!(Duration::from_millis(p2.backoff_duration()), Duration::from_millis(400));

    // attempt 3: 200ms * 2^2 = 800ms
    let p3 = RetryPolicy { max_attempts: 3, current_attempt: 3 };
    assert_eq!(Duration::from_millis(p3.backoff_duration()), Duration::from_millis(800));
}

#[test]
fn timeouts_connect_failures_and_server_errors_are_retried() {
    assert!(RetryPolicy::is_retryable(&http(true, false, None)));
    assert!(RetryPolicy::is_retryable(&http(false, true, None)));
    assert!(RetryPolicy::is_retryable(&http(false, false, Some(500))));
    assert!(RetryPolicy::is_retryable(&http(false, false, Some(503))));
    assert!(RetryPolicy::is_retryable(&http(false, false, Some(599))));
    assert!(!RetryPolicy::is_retryable(&http(false, false, Some(404))));
    assert!(!RetryPolicy::is_retryable(&http(false, false, Some(600))));
}

#[test]
fn default_policy_allows_three_retries() {
    let p = RetryPolicy::default();
    assert_eq!(p.max_attempts, DEFAULT_MAX_ATTEMPTS);
    assert_eq!(p.max_attempts, 3);
    assert_eq!(p.current_attempt, 0);
    let q = RetryPolicy::new(5);
    assert_eq!((q.max_attempts, q.current_attempt), (5, 0));
}

#[test]
fn retry_budget_is_spent_then_stops() {
    // The law: at most `max_attempts` retries, with growing backoff.
    let mut p = RetryPolicy::new(3);
    let failed: Result<(), BbmError> = Err(http(false, false, Some(503)));
    assert_eq!(p.retry(&failed), Some(200));
    assert_eq!(p.retry(&failed), Some(400));
    assert_eq!(p.retry(&failed), Some(800));
    assert_eq!(p.retry(&failed), None);
    assert_eq!(p.current_attempt, 3);
}

#[test]
fn success_and_final_errors_are_not_retried() {
    let mut p = RetryPolicy::new(3);
    let ok: Result<u8, BbmError> = Ok(1);
    assert_eq!(p.retry(&ok), None);
    let not_found: Result<u8, BbmError> = Err(BbmError::Api(String::from("404")));
    assert_eq!(p.retry(&not_found), None);
    assert_eq!(p.current_attempt, 0);
}

#[test]
fn backoff_saturates_for_huge_attempts() {
    let p = RetryPolicy { max_attempts: 3, current_attempt: 100 };
    assert_eq!(p.backoff_duration(), u64::MAX);
    let q = RetryPolicy { max_attempts: 3, current_attempt: 10 };
    assert_eq!(q.backoff_duration(), 200 * 512);
}

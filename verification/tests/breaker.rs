use std::time::{Duration, Instant};
use ziee_mcp::breaker::{
    breaker_backoff, should_attempt_connect, BreakerState, ConnectionBreaker,
    BREAKER_BASE_COOLDOWN_SECS, BREAKER_MAX_COOLDOWN_SECS,
};

const BREAKER_BASE_COOLDOWN: Duration = Duration::from_secs(BREAKER_BASE_COOLDOWN_SECS);
const BREAKER_MAX_COOLDOWN: Duration = Duration::from_secs(BREAKER_MAX_COOLDOWN_SECS);

/// A breaker entry whose last failure was `since` ago, with `consecutive`
/// consecutive failures recorded.
fn state(consecutive: u32, since: Duration) -> BreakerState {
    BreakerState {
        last_failure: Instant::now().checked_sub(since).unwrap_or_else(Instant::now),
        consecutive,
        last_error: "connect refused".to_string(),
    }
}

#[test]
fn no_state_always_attempts() {
    assert!(should_attempt_connect(None, Instant::now()));
}

#[test]
fn cooldown_active_suppresses_redial() {
    let s = state(1, Duration::from_millis(0));
    assert!(
        !should_attempt_connect(Some(&s), Instant::now()),
        "a server inside its cooldown window must not be re-dialed"
    );
}

#[test]
fn window_elapsed_allows_retry() {
    let s = state(1, Duration::from_secs(2));
    assert!(should_attempt_connect(Some(&s), Instant::now()));
}

#[test]
fn success_clears_then_attempts() {
    let failing = state(5, Duration::from_millis(0));
    assert!(
        !should_attempt_connect(Some(&failing), Instant::now()),
        "a long failing streak stays suppressed inside its (longer) cooldown"
    );
    assert!(
        should_attempt_connect(None, Instant::now()),
        "a cleared breaker (success) must attempt on the next call"
    );
}

#[test]
fn backoff_is_exponential() {
    assert_eq!(breaker_backoff(1), BREAKER_BASE_COOLDOWN);
    assert_eq!(breaker_backoff(2), BREAKER_BASE_COOLDOWN * 2);
    assert_eq!(breaker_backoff(3), BREAKER_BASE_COOLDOWN * 4);
    assert_eq!(breaker_backoff(4), BREAKER_BASE_COOLDOWN * 8);
}

#[test]
fn backoff_saturates_at_cap() {
    assert_eq!(breaker_backoff(1_000_000), BREAKER_MAX_COOLDOWN);
    for c in [10u32, 20, 31, 32, 63, 64, 100, u32::MAX] {
        assert!(breaker_backoff(c) <= BREAKER_MAX_COOLDOWN, "backoff({c}) exceeded the cap");
    }
}

#[test]
fn backoff_zero_is_base() {
    assert_eq!(breaker_backoff(0), BREAKER_BASE_COOLDOWN);
}

#[test]
fn backoff_reaches_cap_at_ten_failures() {
    assert_eq!(breaker_backoff(9), Duration::from_secs(256));
    assert_eq!(breaker_backoff(10), BREAKER_MAX_COOLDOWN);
}

#[test]
fn breaker_records_checks_and_clears() {
    let mut b = ConnectionBreaker::new();
    let now = Instant::now();
    assert!(b.check(7, now).is_ok());
    b.record_failure(7, "refused".to_string(), now);
    b.record_failure(7, "timed out".to_string(), now);
    let s = b.get(7).expect("failing server has state");
    assert_eq!(s.consecutive, 2);
    assert_eq!(s.last_error, "timed out");
    let err = b.check(7, now).unwrap_err();
    assert_eq!(err.status, 503);
    assert_eq!(err.code, "MCP_SERVER_UNREACHABLE");
    assert_eq!(
        err.message,
        "MCP server is unreachable and in a connection cooldown after 2 consecutive failure(s); last error: timed out"
    );
    // Another server is unaffected.
    assert!(b.check(8, now).is_ok());
    // Past the 2 s window of two failures a retry is allowed.
    assert!(b.check(7, now + Duration::from_secs(3)).is_ok());
    b.clear(7);
    assert!(b.get(7).is_none());
    assert!(b.check(7, now).is_ok());
}

//! The retry policy.

use acowork_runtime::error::{CoreError, ProviderError, RuntimeError};
use acowork_runtime::retry::{
    decide_retry_action, RetryAction, LONG_RETRY_WAIT_MS, MAX_ITERATION_RETRIES, MAX_LONG_RETRIES,
    MAX_PERSISTENT_BACKOFF_MS,
};

fn network_err() -> RuntimeError {
    RuntimeError::Core(CoreError::Provider(ProviderError::network(
        "error sending request for url (ark.cn-beijing.volces.com)".to_string(),
    )))
}

fn io_err() -> RuntimeError {
    RuntimeError::Core(CoreError::Io("tcp timeout".to_string()))
}

fn auth_err() -> RuntimeError {
    RuntimeError::Core(CoreError::Provider(ProviderError::auth("unauthorized".into())))
}

fn rate_limit_err() -> RuntimeError {
    RuntimeError::Core(CoreError::Provider(ProviderError::rate_limit("too many requests".into())))
}

fn quota_err() -> RuntimeError {
    RuntimeError::Core(CoreError::Provider(ProviderError::unknown("insufficient_quota".into())))
}

// ── Fast retry tier ──────────────────────────────────────────────

#[test]
fn first_network_error_uses_fast_retry_at_1s() {
    let action = decide_retry_action(&network_err(), 0, 0, 0);
    assert_eq!(
        action,
        RetryAction::FastRetry {
            backoff_ms: 1_000,
            attempt: 1,
            max_attempts: MAX_ITERATION_RETRIES,
        }
    );
}

#[test]
fn second_network_error_fast_retry_backs_off_to_2s() {
    let action = decide_retry_action(&network_err(), 1, 0, 0);
    assert_eq!(
        action,
        RetryAction::FastRetry {
            backoff_ms: 2_000,
            attempt: 2,
            max_attempts: MAX_ITERATION_RETRIES,
        }
    );
}

#[test]
fn third_network_error_fast_retry_backs_off_to_4s() {
    let action = decide_retry_action(&network_err(), 2, 0, 0);
    assert_eq!(
        action,
        RetryAction::FastRetry {
            backoff_ms: 4_000,
            attempt: 3,
            max_attempts: MAX_ITERATION_RETRIES,
        }
    );
}

#[test]
fn io_error_uses_fast_retry() {
    let action = decide_retry_action(&io_err(), 0, 0, 0);
    assert!(matches!(
        action,
        RetryAction::FastRetry { backoff_ms: 1_000, .. }
    ));
}

#[test]
fn rate_limit_error_is_retryable_at_fast_tier() {
    // 429 keeps its policy (may be budget exhaustion OR server-side
    // throttling: let the retry tier handle both).
    let action = decide_retry_action(&rate_limit_err(), 0, 0, 0);
    assert!(matches!(action, RetryAction::FastRetry { .. }));
}

// ── Long retry tier ──────────────────────────────────────────────

#[test]
fn network_error_after_fast_budget_promotes_to_long_retry() {
    let action = decide_retry_action(&network_err(), MAX_ITERATION_RETRIES, 0, 0);
    assert_eq!(
        action,
        RetryAction::LongRetry {
            wait_ms: LONG_RETRY_WAIT_MS,
            attempt: 1,
            max_attempts: MAX_LONG_RETRIES,
        }
    );
}

#[test]
fn network_error_increments_long_attempt_counter() {
    let action = decide_retry_action(&network_err(), MAX_ITERATION_RETRIES, 1, 0);
    assert_eq!(
        action,
        RetryAction::LongRetry {
            wait_ms: LONG_RETRY_WAIT_MS,
            attempt: 2,
            max_attempts: MAX_LONG_RETRIES,
        }
    );
}

#[test]
fn third_long_retry_attempt_keeps_5_minute_wait() {
    let action = decide_retry_action(&network_err(), MAX_ITERATION_RETRIES, 2, 0);
    assert_eq!(
        action,
        RetryAction::LongRetry {
            wait_ms: LONG_RETRY_WAIT_MS,
            attempt: 3,
            max_attempts: MAX_LONG_RETRIES,
        }
    );
}

// ── Persistent recovery tier ─────────────────────────────────────

#[test]
fn network_error_after_long_budget_enters_persistent_at_5m() {
    let action = decide_retry_action(
        &network_err(),
        MAX_ITERATION_RETRIES,
        MAX_LONG_RETRIES,
        0,
    );
    assert_eq!(
        action,
        RetryAction::Persistent {
            wait_ms: 5 * 60 * 1000,
            attempt: 1,
        }
    );
}

#[test]
fn second_persistent_attempt_doubles_to_10m() {
    let action = decide_retry_action(
        &network_err(),
        MAX_ITERATION_RETRIES,
        MAX_LONG_RETRIES,
        1,
    );
    assert_eq!(
        action,
        RetryAction::Persistent {
            wait_ms: 10 * 60 * 1000,
            attempt: 2,
        }
    );
}

#[test]
fn third_persistent_attempt_doubles_to_20m() {
    let action = decide_retry_action(
        &network_err(),
        MAX_ITERATION_RETRIES,
        MAX_LONG_RETRIES,
        2,
    );
    assert_eq!(
        action,
        RetryAction::Persistent {
            wait_ms: 20 * 60 * 1000,
            attempt: 3,
        }
    );
}

#[test]
fn fourth_persistent_attempt_caps_at_30m() {
    let action = decide_retry_action(
        &network_err(),
        MAX_ITERATION_RETRIES,
        MAX_LONG_RETRIES,
        3,
    );
    assert_eq!(
        action,
        RetryAction::Persistent {
            wait_ms: 30 * 60 * 1000,
            attempt: 4,
        }
    );
}

#[test]
fn persistent_backoff_caps_at_30m_for_high_attempt_counts() {
    // persistent_count = 10, 50, 100: must stay at 30m cap.
    for n in [10u32, 50, 100] {
        let action = decide_retry_action(
            &network_err(),
            MAX_ITERATION_RETRIES,
            MAX_LONG_RETRIES,
            n,
        );
        assert_eq!(
            action,
            RetryAction::Persistent {
                wait_ms: MAX_PERSISTENT_BACKOFF_MS,
                attempt: n + 1,
            },
            "persistent_count={n} must cap at 30m"
        );
    }
}

#[test]
fn io_error_also_enters_persistent_recovery() {
    let action = decide_retry_action(&io_err(), MAX_ITERATION_RETRIES, MAX_LONG_RETRIES, 0);
    let expected_wait = 5 * 60 * 1000;
    assert!(matches!(
        action,
        RetryAction::Persistent { wait_ms, .. } if wait_ms == expected_wait
    ));
}

// ── GiveUp tier ──────────────────────────────────────────────────

#[test]
fn auth_error_is_non_retryable_gives_up_immediately() {
    let action = decide_retry_action(&auth_err(), 0, 0, 0);
    assert_eq!(action, RetryAction::GiveUp);
}

#[test]
fn quota_error_is_non_retryable_even_if_provider_says_retryable() {
    // quota errors must never be retried, even when the underlying
    // ProviderError marks itself retryable.
    let action = decide_retry_action(&quota_err(), 0, 0, 0);
    assert_eq!(action, RetryAction::GiveUp);
}

#[test]
fn tool_error_is_non_retryable() {
    let action = decide_retry_action(&RuntimeError::Tool("boom".into()), 0, 0, 0);
    assert_eq!(action, RetryAction::GiveUp);
}

#[test]
fn loop_detected_error_is_non_retryable() {
    let action = decide_retry_action(
        &RuntimeError::LoopDetected("loop".into()),
        0,
        0,
        0,
    );
    assert_eq!(action, RetryAction::GiveUp);
}

// ── Counter monotonicity invariants ───────────────────────────────
// The caller is expected to pass monotonically increasing counters.
// These tests pin down which tier each counter prefix selects so a
// future refactor that "optimizes" the order doesn't accidentally
// demote a transient error to GiveUp.

#[test]
fn network_error_at_fast_zero_long_zero_persistent_zero_is_fast() {
    assert!(matches!(
        decide_retry_action(&network_err(), 0, 0, 0),
        RetryAction::FastRetry { .. }
    ));
}

#[test]
fn network_error_at_fast_max_long_zero_persistent_zero_is_long() {
    assert!(matches!(
        decide_retry_action(&network_err(), MAX_ITERATION_RETRIES, 0, 0),
        RetryAction::LongRetry { .. }
    ));
}

#[test]
fn network_error_at_fast_max_long_max_persistent_zero_is_persistent() {
    assert!(matches!(
        decide_retry_action(&network_err(), MAX_ITERATION_RETRIES, MAX_LONG_RETRIES, 0),
        RetryAction::Persistent { .. }
    ));
}

#[test]
fn no_attempt_falls_back_to_an_earlier_tier() {
    let tier = |action: RetryAction| -> u8 {
        match action {
            RetryAction::FastRetry { .. } => 0,
            RetryAction::LongRetry { .. } => 1,
            RetryAction::Persistent { .. } => 2,
            RetryAction::GiveUp => 3,
        }
    };
    let mut last = 0u8;
    for fast in 0..=MAX_ITERATION_RETRIES {
        let now = tier(decide_retry_action(&network_err(), fast, 0, 0));
        assert!(last <= now);
        last = now;
    }
    for long in 0..=MAX_LONG_RETRIES {
        let now = tier(decide_retry_action(&network_err(), MAX_ITERATION_RETRIES, long, 0));
        assert!(last <= now);
        last = now;
    }
    assert_eq!(last, 2);
}

//! Retry policy for LLM calls.
//!
//! The loop owns the side effects (sleeping, changing the session status,
//! showing a pause); this module only answers "given an error and the current
//! retry counters, what should the loop do?".
//!
//! There are three tiers:
//!
//! 1. **Fast retry** (3 attempts, 1s → 2s → 4s, capped at 10s) for transient
//!    blips.
//! 2. **Long retry** (3 attempts, 5 minutes each) for outages that take longer
//!    than a few seconds.
//! 3. **Persistent recovery** (unbounded attempts, 5m → 10m → 20m → 30m cap)
//!    once the bounded budgets are spent and the failure is still transient.
//!
//! Errors that do not heal by themselves skip all tiers and give up.

use vstd::prelude::*;

use crate::error::RuntimeError;

verus! {

/// Maximum fast retries per LLM call.
pub const MAX_ITERATION_RETRIES: u32 = 3;

/// Maximum long retries per LLM call.
pub const MAX_LONG_RETRIES: u32 = 3;

/// Each long-retry pause duration.
pub const LONG_RETRY_WAIT_MS: u64 = 300_000;

/// Backoff ceiling for the persistent recovery tier (30 minutes).
pub const MAX_PERSISTENT_BACKOFF_MS: u64 = 1_800_000;

/// What the agent loop should do when an iteration produces an error.
#[derive(Debug, PartialEq, Eq, Clone, Copy, Structural)]
pub enum RetryAction {
    /// Retry inline with a short delay.
    FastRetry { backoff_ms: u64, attempt: u32, max_attempts: u32 },
    /// Pause, and retry when the timer expires or the user asks for it.
    LongRetry { wait_ms: u64, attempt: u32, max_attempts: u32 },
    /// Keep the session paused and retry until the failure heals, the user
    /// stops, or another error comes up.
    Persistent { wait_ms: u64, attempt: u32 },
    /// The error is not retryable: return it and end the loop.
    GiveUp,
}

pub open spec fn min_spec(a: int, b: int) -> int {
    if a <= b {
        a
    } else {
        b
    }
}

/// Two to the power `n`.
pub open spec fn doublings(n: nat) -> int
    decreases n,
{
    if n == 0 {
        1
    } else {
        2 * doublings((n - 1) as nat)
    }
}

/// Delay before fast retry number `n`: doubled each time, 10 s at most.
pub open spec fn fast_backoff(n: nat) -> int {
    min_spec(1000 * doublings(n), 10_000)
}

/// Delay before persistent attempt number `n`: doubled each time, 30 min at
/// most.
pub open spec fn persistent_backoff(n: nat) -> int {
    min_spec(300_000 * doublings(n), 1_800_000)
}

/// The policy: the first tier whose budget is not spent.
pub open spec fn retry_action(retryable: bool, fast: nat, long: nat, persistent: nat) -> RetryAction {
    if !retryable {
        RetryAction::GiveUp
    } else if fast < MAX_ITERATION_RETRIES {
        RetryAction::FastRetry {
            backoff_ms: fast_backoff(fast) as u64,
            attempt: (fast + 1) as u32,
            max_attempts: MAX_ITERATION_RETRIES,
        }
    } else if long < MAX_LONG_RETRIES {
        RetryAction::LongRetry {
            wait_ms: LONG_RETRY_WAIT_MS,
            attempt: (long + 1) as u32,
            max_attempts: MAX_LONG_RETRIES,
        }
    } else {
        RetryAction::Persistent {
            wait_ms: persistent_backoff(persistent) as u64,
            attempt: (persistent + 1) as u32,
        }
    }
}

/// Decide what the agent loop should do when an iteration produces an error.
/// Counters track how many retries have been used for the current LLM call;
/// they reset on the next successful iteration.
pub fn decide_retry_action(
    error: &RuntimeError,
    fast_count: u32,
    long_count: u32,
    persistent_count: u32,
) -> (action: RetryAction)
    requires
        error.spec_is_retryable() && fast_count >= MAX_ITERATION_RETRIES && long_count
            >= MAX_LONG_RETRIES ==> persistent_count < u32::MAX,
    ensures
        action == retry_action(
            error.spec_is_retryable(),
            fast_count as nat,
            long_count as nat,
            persistent_count as nat,
        ),
{
    if !error.is_retryable() {
        return RetryAction::GiveUp;
    }
    if fast_count < MAX_ITERATION_RETRIES {
        let backoff_ms: u64 = match fast_count {
            0 => 1_000,
            1 => 2_000,
            _ => 4_000,
        };
        proof {
            reveal_with_fuel(doublings, 4);
        }
        return RetryAction::FastRetry {
            backoff_ms,
            attempt: fast_count + 1,
            max_attempts: MAX_ITERATION_RETRIES,
        };
    }
    if long_count < MAX_LONG_RETRIES {
        return RetryAction::LongRetry {
            wait_ms: LONG_RETRY_WAIT_MS,
            attempt: long_count + 1,
            max_attempts: MAX_LONG_RETRIES,
        };
    }
    let wait_ms: u64 = match persistent_count {
        0 => 300_000,
        1 => 600_000,
        2 => 1_200_000,
        _ => MAX_PERSISTENT_BACKOFF_MS,
    };
    proof {
        reveal_with_fuel(doublings, 4);
        if persistent_count >= 3 {
            lemma_doublings_monotone(3, persistent_count as nat);
        }
    }
    RetryAction::Persistent { wait_ms, attempt: persistent_count + 1 }
}

proof fn lemma_doublings_monotone(m: nat, n: nat)
    requires
        m <= n,
    ensures
        1 <= doublings(m) <= doublings(n),
    decreases n,
{
    if m < n {
        lemma_doublings_monotone(m, (n - 1) as nat);
    } else if n > 0 {
        lemma_doublings_monotone((m - 1) as nat, (n - 1) as nat);
    }
}

// ── Laws ────────────────────────────────────────────────────────────────

/// The delay that an action asks for.
pub open spec fn delay_of(action: RetryAction) -> int {
    match action {
        RetryAction::FastRetry { backoff_ms, .. } => backoff_ms as int,
        RetryAction::LongRetry { wait_ms, .. } => wait_ms as int,
        RetryAction::Persistent { wait_ms, .. } => wait_ms as int,
        RetryAction::GiveUp => 0,
    }
}

/// The loop gives up on an error exactly when it is not retryable, however
/// many attempts have been spent.
pub proof fn gives_up_only_on_lasting_errors(
    retryable: bool,
    fast: nat,
    long: nat,
    persistent: nat,
)
    ensures
        retry_action(retryable, fast, long, persistent) is GiveUp <==> !retryable,
{
}

/// Every delay is bounded: 10 s for a fast retry, 30 min for any other.
pub proof fn delays_are_bounded(fast: nat, long: nat, persistent: nat)
    ensures
        ({
            let action = retry_action(true, fast, long, persistent);
            &&& 1000 <= delay_of(action) <= MAX_PERSISTENT_BACKOFF_MS
            &&& action is FastRetry ==> delay_of(action) <= 10_000
        }),
{
    lemma_doublings_monotone(0, fast);
    lemma_doublings_monotone(0, persistent);
}

/// Which tier an action belongs to, in the order in which they are tried.
pub open spec fn tier_of(action: RetryAction) -> nat {
    match action {
        RetryAction::FastRetry { .. } => 0,
        RetryAction::LongRetry { .. } => 1,
        RetryAction::Persistent { .. } => 2,
        RetryAction::GiveUp => 3,
    }
}

/// As the counters of one call grow, the loop never falls back to an earlier
/// tier.
pub proof fn tiers_never_fall_back(
    fast: nat,
    long: nat,
    persistent: nat,
    fast2: nat,
    long2: nat,
    persistent2: nat,
)
    requires
        fast <= fast2,
        long <= long2,
        persistent <= persistent2,
    ensures
        tier_of(retry_action(true, fast, long, persistent)) <= tier_of(
            retry_action(true, fast2, long2, persistent2),
        ),
{
}

/// As the counters of one call grow, the delay never shrinks: neither within
/// a tier nor from one tier to the next.
pub proof fn delays_never_shrink(
    fast: nat,
    long: nat,
    persistent: nat,
    fast2: nat,
    long2: nat,
    persistent2: nat,
)
    requires
        fast <= fast2,
        long <= long2,
        persistent <= persistent2,
    ensures
        delay_of(retry_action(true, fast, long, persistent)) <= delay_of(
            retry_action(true, fast2, long2, persistent2),
        ),
{
    lemma_doublings_monotone(fast, fast2);
    lemma_doublings_monotone(persistent, persistent2);
    lemma_doublings_monotone(0, persistent2);
    lemma_doublings_monotone(0, fast);
    lemma_doublings_monotone(0, persistent);
}

/// A failure that may pass is tried again three times soon, at distances that
/// double from one second, then three times every five minutes, then without
/// end, at distances that double from five minutes to half an hour.
pub proof fn retries_slow_down(fast: nat, long: nat, persistent: nat)
    ensures
        retry_action(true, 0, long, persistent) == (RetryAction::FastRetry {
            backoff_ms: 1000,
            attempt: 1,
            max_attempts: 3,
        }),
        retry_action(true, 1, long, persistent) == (RetryAction::FastRetry {
            backoff_ms: 2000,
            attempt: 2,
            max_attempts: 3,
        }),
        retry_action(true, 2, long, persistent) == (RetryAction::FastRetry {
            backoff_ms: 4000,
            attempt: 3,
            max_attempts: 3,
        }),
        fast >= 3 && long < 3 ==> retry_action(true, fast, long, persistent) == (
        RetryAction::LongRetry { wait_ms: 300_000, attempt: (long + 1) as u32, max_attempts: 3 }),
        fast >= 3 && long >= 3 ==> {
            &&& retry_action(true, fast, long, 0) == (RetryAction::Persistent {
                wait_ms: 300_000,
                attempt: 1,
            })
            &&& retry_action(true, fast, long, 1) == (RetryAction::Persistent {
                wait_ms: 600_000,
                attempt: 2,
            })
            &&& retry_action(true, fast, long, 2) == (RetryAction::Persistent {
                wait_ms: 1_200_000,
                attempt: 3,
            })
            &&& persistent >= 3 ==> retry_action(true, fast, long, persistent) == (
            RetryAction::Persistent { wait_ms: 1_800_000, attempt: (persistent + 1) as u32 })
        },
{
    reveal_with_fuel(doublings, 4);
    if persistent >= 3 {
        lemma_doublings_from_three(persistent);
    }
}

proof fn lemma_doublings_from_three(n: nat)
    requires
        n >= 3,
    ensures
        doublings(n) >= 8,
    decreases n,
{
    reveal_with_fuel(doublings, 4);
    if n > 3 {
        lemma_doublings_from_three((n - 1) as nat);
    }
}

} // verus!

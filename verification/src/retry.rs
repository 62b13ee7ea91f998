//! Retrying transient API failures with exponential backoff.
use vstd::prelude::*;

use crate::error::{is_server_error_status, BbmError, HttpFailure};

verus! {

/// Default maximum number of retry attempts.
pub const DEFAULT_MAX_ATTEMPTS: u32 = 3;

/// The first backoff, in milliseconds.
pub const BASE_BACKOFF_MILLIS: u64 = 200;

/// How many retries a request may still take, and how many it has taken.
#[derive(Debug, Clone, Copy, PartialEq, Eq)]
pub struct RetryPolicy {
    pub max_attempts: u32,
    pub current_attempt: u32,
}

/// `2^e`.
pub open spec fn exp2(e: nat) -> nat
    decreases e,
{
    if e == 0 {
        1
    } else {
        2 * exp2((e - 1) as nat)
    }
}

/// The backoff before retry number `attempt`, in milliseconds:
/// `200 * 2^(attempt - 1)` (attempt `0` counts as `1`), held at `u64::MAX`
/// once it no longer fits.
pub open spec fn spec_backoff_millis(attempt: u32) -> nat {
    let e: nat = if attempt == 0 { 0 } else { (attempt - 1) as nat };
    let ms = 200 * exp2(e);
    if ms > u64::MAX { u64::MAX as nat } else { ms }
}

/// Whether a failure is worth retrying: a timeout, a failed connect, a 5xx
/// status, or an I/O error. API, JSON and measurement errors are final.
pub open spec fn spec_is_retryable(err: BbmError) -> bool {
    match err {
        BbmError::Http(f) => spec_http_retryable(f),
        BbmError::Io(_) => true,
        _ => false,
    }
}

/// Whether a failed HTTP exchange is worth retrying: it timed out, the
/// connection failed, or the server answered with a 5xx status.
pub open spec fn spec_http_retryable(f: HttpFailure) -> bool {
    f.timeout || f.connect || (f.status matches Some(s) && is_server_error_status(s))
}

/// One decision of the policy after an attempt that failed retryably or not:
/// the policy afterwards and the backoff before the next attempt, if any.
pub open spec fn retry_step(p: RetryPolicy, retryable: bool) -> (RetryPolicy, Option<nat>) {
    if !retryable || p.current_attempt >= p.max_attempts {
        (p, None)
    } else {
        let next = RetryPolicy { current_attempt: (p.current_attempt + 1) as u32, ..p };
        (next, Some(spec_backoff_millis(next.current_attempt)))
    }
}

proof fn lemma_exp2_grows(e: nat)
    ensures
        exp2(e) >= 1,
        exp2(e + 1) == 2 * exp2(e),
    decreases e,
{
    if e > 0 {
        lemma_exp2_grows((e - 1) as nat);
    }
}

impl Default for RetryPolicy {
    /// The policy with the default number of retries.
    fn default() -> (p: Self)
        ensures
            p.max_attempts == DEFAULT_MAX_ATTEMPTS,
            p.current_attempt == 0,
    {
        Self::new(DEFAULT_MAX_ATTEMPTS)
    }
}

impl RetryPolicy {
    /// A policy allowing `max_attempts` retries, none taken yet.
    pub fn new(max_attempts: u32) -> (p: Self)
        ensures
            p.max_attempts == max_attempts,
            p.current_attempt == 0,
    {
        RetryPolicy { max_attempts, current_attempt: 0 }
    }


    /// The backoff for the current attempt, in milliseconds:
    /// `200 * 2^(current_attempt - 1)`, with attempt `0` treated as `1`.
    pub fn backoff_duration(&self) -> (ms: u64)
        ensures
            ms == spec_backoff_millis(self.current_attempt),
    {
        let e: u32 = if self.current_attempt == 0 { 0 } else { self.current_attempt - 1 };
        let mut ms: u64 = BASE_BACKOFF_MILLIS;
        let mut i: u32 = 0;
        while i < e
            invariant
                i <= e,
                e == (if self.current_attempt == 0 { 0 } else { self.current_attempt - 1 }),
                ms == (if 200 * exp2(i as nat) > u64::MAX { u64::MAX as nat } else { 200
                    * exp2(i as nat) }),
            decreases e - i,
        {
            proof {
                lemma_exp2_grows(i as nat);
            }
            if ms > u64::MAX / 2 {
                // Held at the maximum from here on.
                assert(200 * exp2(e as nat) > u64::MAX) by {
                    lemma_exp2_monotone(i as nat + 1, e as nat);
                }
                return u64::MAX;
            }
            ms = ms * 2;
            i = i + 1;
        }
        ms
    }

    /// Whether `err` is worth another attempt.
    pub fn is_retryable(err: &BbmError) -> (r: bool)
        ensures
            r == spec_is_retryable(*err),
    {
        match err {
            BbmError::Http(f) => {
                if f.timeout || f.connect {
                    return true;
                }
                match f.status {
                    Some(s) => 500 <= s && s <= 599,
                    None => false,
                }
            },
            BbmError::Io(_) => true,
            BbmError::Api(_) | BbmError::Json(_) | BbmError::TestFailed(_) => false,
        }
    }

    /// Decides after an attempt: `None` to stop (success, a final error, or
    /// no retries left), or the backoff in milliseconds before the next
    /// attempt, counting that attempt.
    pub fn retry<T>(&mut self, result: &Result<T, BbmError>) -> (r: Option<u64>)
        ensures
            ({
                let retryable = match result {
                    Ok(_) => false,
                    Err(e) => spec_is_retryable(*e),
                };
                let (next, backoff) = retry_step(*old(self), retryable);
                &&& *final(self) == next
                &&& match r {
                    Some(ms) => backoff == Some(ms as nat),
                    None => backoff is None,
                }
            }),
    {
        let retryable = match result {
            Ok(_) => false,
            Err(e) => Self::is_retryable(e),
        };
        if !retryable {
            return None;
        }
        if self.current_attempt >= self.max_attempts {
            return None;
        }
        self.current_attempt = self.current_attempt + 1;
        Some(self.backoff_duration())
    }
}

proof fn lemma_exp2_monotone(i: nat, j: nat)
    requires
        i <= j,
    ensures
        exp2(i) <= exp2(j),
    decreases j - i,
{
    if i < j {
        lemma_exp2_monotone(i, (j - 1) as nat);
        lemma_exp2_grows((j - 1) as nat);
    }
}


/// `k` consecutive retryable failures fed to the policy: the policy
/// afterwards and how many of them were granted a retry.
pub open spec fn retry_run(p: RetryPolicy, k: nat) -> (RetryPolicy, nat)
    decreases k,
{
    if k == 0 {
        (p, 0)
    } else {
        let (q, b) = retry_step(p, true);
        let (r, g) = retry_run(q, (k - 1) as nat);
        (r, g + if b is Some { 1nat } else { 0nat })
    }
}

/// A request that keeps failing retryably is retried exactly as many times
/// as the policy has retries left, and never more: with the default policy,
/// one attempt plus three retries.
pub proof fn law_retry_budget(p: RetryPolicy, k: nat)
    requires
        p.current_attempt <= p.max_attempts,
    ensures
        ({
            let left = (p.max_attempts - p.current_attempt) as nat;
            let granted = if k < left { k } else { left };
            &&& retry_run(p, k).1 == granted
            &&& retry_run(p, k).0.current_attempt == p.current_attempt + granted
            &&& retry_run(p, k).0.max_attempts == p.max_attempts
        }),
    decreases k,
{
    if k > 0 {
        let (q, b) = retry_step(p, true);
        law_retry_budget(q, (k - 1) as nat);
    }
}

/// The backoff is at least 200 ms and never shrinks as attempts go up.
pub proof fn law_backoff_monotone(a: u32, b: u32)
    requires
        a <= b,
    ensures
        200 <= spec_backoff_millis(a) <= spec_backoff_millis(b),
{
    let ea: nat = if a == 0 { 0 } else { (a - 1) as nat };
    let eb: nat = if b == 0 { 0 } else { (b - 1) as nat };
    lemma_exp2_monotone(ea, eb);
    lemma_exp2_monotone(0, ea);
}

} // verus!

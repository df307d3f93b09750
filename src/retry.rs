//! The backend client's retry policy: which failures are retried, how
//! long to wait before the next attempt, and when to give up.

use vstd::prelude::*;

use rand::Rng;

use crate::error::{error_text, CoreError};
use crate::text::{chars_of, contains, has_infix, lower_of, lowercase};

verus! {

/// Attempts made for one request, the first included.
pub const MAX_ATTEMPTS: u32 = 3;
/// First backoff step, in milliseconds.
pub const BASE_DELAY_MS: u64 = 200;
/// Largest backoff step before jitter, in milliseconds.
pub const MAX_DELAY_MS: u64 = 2000;

/// HTTP statuses worth another attempt: too many requests, request
/// timeout, and every server error.
pub open spec fn retryable_status(status: u16) -> bool {
    status == 429 || status == 408 || (500 <= status && status <= 599)
}

pub fn should_retry(status: u16) -> (r: bool)
    ensures
        r == retryable_status(status),
{
    status == 429 || (500 <= status && status <= 599) || status == 408
}

pub open spec fn pow2(n: nat) -> nat
    decreases n,
{
    if n == 0 {
        1
    } else {
        2 * pow2((n - 1) as nat)
    }
}

/// The backoff before jitter: the base doubled once per earlier attempt,
/// capped.
pub open spec fn backoff_step(attempt: nat, base_ms: nat, max_ms: nat) -> nat {
    if base_ms * pow2(attempt) < max_ms {
        base_ms * pow2(attempt)
    } else {
        max_ms
    }
}

pub open spec fn saturating(n: int) -> u64 {
    if n > u64::MAX {
        u64::MAX
    } else {
        n as u64
    }
}

proof fn lemma_pow2_positive(n: nat)
    ensures
        pow2(n) >= 1,
    decreases n,
{
    if n > 0 {
        lemma_pow2_positive((n - 1) as nat);
    }
}

/// The backoff step plus the given jitter, saturating.
pub fn backoff_delay_with(attempt: u32, base_ms: u64, max_ms: u64, jitter_ms: u64) -> (r: u64)
    ensures
        r == saturating(
            backoff_step(attempt as nat, base_ms as nat, max_ms as nat) + jitter_ms,
        ),
{
    let mut step: u128 = base_ms as u128;
    let mut i: u32 = 0;
    proof {
        assert(pow2(0) == 1);
        lemma_pow2_positive(attempt as nat);
        assert(base_ms * pow2(attempt as nat) >= base_ms) by (nonlinear_arith)
            requires pow2(attempt as nat) >= 1;
    }
    while i < attempt && step < max_ms as u128
        invariant
            i <= attempt,
            step == base_ms * pow2(i as nat),
            i < attempt && step >= max_ms ==> backoff_step(
                attempt as nat,
                base_ms as nat,
                max_ms as nat,
            ) == max_ms,
        decreases attempt - i,
    {
        let ghost p = pow2(i as nat);
        step = step * 2;
        i += 1;
        proof {
            assert(pow2(i as nat) == 2 * p);
            assert(base_ms * (2 * p) == 2 * (base_ms * p)) by (nonlinear_arith);
            if i < attempt && step >= max_ms {
                lemma_pow2_mono(i as nat, attempt as nat);
                assert(base_ms * pow2(i as nat) <= base_ms * pow2(attempt as nat)) by (nonlinear_arith)
                    requires
                        pow2(i as nat) <= pow2(attempt as nat),
                ;
            }
        }
    }
    let capped: u64 = if step < max_ms as u128 {
        step as u64
    } else {
        max_ms
    };
    proof {
        if i < attempt {
            lemma_pow2_mono(i as nat, attempt as nat);
            assert(base_ms * pow2(i as nat) <= base_ms * pow2(attempt as nat)) by (nonlinear_arith)
                requires
                    pow2(i as nat) <= pow2(attempt as nat),
            ;
        }
    }
    capped.saturating_add(jitter_ms)
}

proof fn lemma_pow2_mono(a: nat, b: nat)
    requires
        a <= b,
    ensures
        pow2(a) <= pow2(b),
    decreases b - a,
{
    if a < b {
        lemma_pow2_mono(a, (b - 1) as nat);
        lemma_pow2_positive((b - 1) as nat);
    }
}

/// Relies on `rand::Rng::gen_range` over the inclusive range `0..=max`
/// with the thread-local generator: the value lies in that range.
#[verifier::external_body]
fn random_up_to(max: u64) -> (r: u64)
    ensures
        r <= max,
{
    rand::thread_rng().gen_range(0..=max)
}

/// How long to wait before the attempt after `attempt` (counted from
/// zero): the backoff step plus a random jitter of at most `base_ms`.
pub fn backoff_delay(attempt: u32, base_ms: u64, max_ms: u64) -> (r: u64)
    ensures
        saturating(backoff_step(attempt as nat, base_ms as nat, max_ms as nat) as int) <= r
            <= saturating(backoff_step(attempt as nat, base_ms as nat, max_ms as nat) + base_ms),
{
    let jitter = random_up_to(base_ms);
    backoff_delay_with(attempt, base_ms, max_ms, jitter)
}

/// How one attempt went.
#[derive(Debug, Clone, Copy, PartialEq, Eq, Structural)]
pub enum AttemptOutcome {
    /// A success status came back.
    Success,
    /// Another HTTP status came back.
    Status(u16),
    /// The request could not be sent.
    SendFailed,
}

/// What the client does after an attempt.
#[derive(Debug, Clone, Copy, PartialEq, Eq, Structural)]
pub enum RetryDecision {
    /// Take the response.
    Accept,
    /// Wait this many milliseconds, then try again.
    RetryAfter(u64),
    /// Report the failure.
    GiveUp,
}

pub open spec fn worth_retrying(outcome: AttemptOutcome) -> bool {
    match outcome {
        AttemptOutcome::Success => false,
        AttemptOutcome::Status(s) => retryable_status(s),
        AttemptOutcome::SendFailed => true,
    }
}

/// Decides what follows attempt number `attempt` (counted from zero):
/// success is taken, a retryable failure is tried again after the backoff
/// while attempts remain, anything else ends the request.
pub fn after_attempt(attempt: u32, outcome: AttemptOutcome) -> (r: RetryDecision)
    ensures
        outcome == AttemptOutcome::Success ==> r == RetryDecision::Accept,
        outcome != AttemptOutcome::Success && (!worth_retrying(outcome) || attempt + 1
            >= MAX_ATTEMPTS) ==> r == RetryDecision::GiveUp,
        worth_retrying(outcome) && attempt + 1 < MAX_ATTEMPTS ==> (r matches RetryDecision::RetryAfter(
            d,
        ) && backoff_step(attempt as nat, BASE_DELAY_MS as nat, MAX_DELAY_MS as nat) <= d
            <= backoff_step(attempt as nat, BASE_DELAY_MS as nat, MAX_DELAY_MS as nat)
            + BASE_DELAY_MS),
{
    let retry = match outcome {
        AttemptOutcome::Success => {
            return RetryDecision::Accept;
        },
        AttemptOutcome::Status(s) => should_retry(s),
        AttemptOutcome::SendFailed => true,
    };
    if retry && attempt < MAX_ATTEMPTS - 1 {
        RetryDecision::RetryAfter(backoff_delay(attempt, BASE_DELAY_MS, MAX_DELAY_MS))
    } else {
        RetryDecision::GiveUp
    }
}

/// Whether an error reports that the backend refused `param` as an
/// unsupported parameter; letter case is ignored.
pub open spec fn names_unsupported_param(message: Seq<char>, param: Seq<char>) -> bool {
    let m = lower_of(message);
    (has_infix(m, "unsupported_parameter"@) || has_infix(m, "unsupported parameter"@))
        && has_infix(m, lower_of(param))
}

pub fn is_unsupported_param(err: &CoreError, param: &str) -> (r: bool)
    ensures
        r == names_unsupported_param(error_text(*err), param@),
{
    let message = chars_of(lowercase(err.message().as_str()).as_str());
    let p = chars_of(lowercase(param).as_str());
    (contains(&message, &chars_of("unsupported_parameter")) || contains(
        &message,
        &chars_of("unsupported parameter"),
    )) && contains(&message, &p)
}

} // verus!

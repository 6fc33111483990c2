//! Request execution policy: which failures are retried, how long to back
//! off, and how a non-success response maps onto [`SdkError`].
//!
//! Retries only ever happen for a request marked idempotent; a plain write
//! gets exactly one attempt. Only the retryable class (connection errors,
//! timeouts, 502/503/504) becomes an error here, and only once retries are
//! exhausted; every other status is handed back to the caller, which knows
//! what a given endpoint's statuses mean.

use vstd::prelude::*;
use crate::error::SdkError;
use crate::text::{decimal, owned, push_str, starts_with};

verus! {

/// Retry and timeout tuning for every call this SDK makes. Durations are
/// in milliseconds.
#[derive(Debug, Clone, Copy, PartialEq, Eq, Structural)]
pub struct RetryConfig {
    /// Additional attempts an idempotent request gets after its first, on
    /// a retryable failure. `0` disables retries.
    pub max_retries: u32,
    /// The backoff base: attempt `n`'s ceiling is `base * 2^(n-1)`, capped
    /// at 30 s; the actual wait is uniform between zero and that ceiling.
    pub base_delay_ms: u64,
    /// Timeout applied to every individual attempt.
    pub request_timeout_ms: u64,
}

impl Default for RetryConfig {
    fn default() -> (r: RetryConfig)
        ensures
            r == (RetryConfig { max_retries: 3, base_delay_ms: 200, request_timeout_ms: 10_000 }),
    {
        RetryConfig { max_retries: 3, base_delay_ms: 200, request_timeout_ms: 10_000 }
    }
}

/// The longest backoff ceiling, in milliseconds.
pub const MAX_BACKOFF_MS: u64 = 30_000;

/// `2^k`.
pub open spec fn pow2(k: nat) -> nat
    decreases k,
{
    if k == 0 { 1 } else { 2 * pow2((k - 1) as nat) }
}

/// The backoff ceiling before retry number `attempt`: `base * 2^(attempt-1)`
/// (the exponent saturating at 0 below and 16 above), capped at 30 s.
pub open spec fn backoff_ceiling(base_ms: u64, attempt: u32) -> int {
    let k: nat = if attempt == 0 { 0 } else if attempt - 1 > 16 { 16 } else { (attempt - 1) as nat };
    let raw = base_ms * pow2(k);
    if raw < MAX_BACKOFF_MS { raw } else { MAX_BACKOFF_MS as int }
}

/// Whether a status is the retryable 502/503/504 class.
pub open spec fn retryable_status(status: u16) -> bool {
    status == 502 || status == 503 || status == 504
}

/// Whether a status is the retryable 502/503/504 class.
pub fn is_retryable_status(status: u16) -> (r: bool)
    ensures
        r == retryable_status(status),
{
    status == 502 || status == 503 || status == 504
}

/// The backoff ceiling, in milliseconds, before retry number `attempt`.
pub fn backoff_ceiling_ms(retry: &RetryConfig, attempt: u32) -> (r: u64)
    ensures
        r == backoff_ceiling(retry.base_delay_ms, attempt),
{
    let k: u32 = if attempt == 0 { 0 } else if attempt - 1 > 16 { 16 } else { attempt - 1 };
    let mut factor: u64 = 1;
    let mut i: u32 = 0;
    while i < k
        invariant
            i <= k <= 16,
            factor == pow2(i as nat),
            factor <= 65536,
        decreases k - i,
    {
        proof {
            lemma_pow2_bound(i as nat);
        }
        factor = factor * 2;
        i = i + 1;
        proof {
            lemma_pow2_bound(i as nat);
        }
    }
    if retry.base_delay_ms >= MAX_BACKOFF_MS {
        proof {
            lemma_pow2_bound(k as nat);
            assert(retry.base_delay_ms * pow2(k as nat) >= retry.base_delay_ms) by (nonlinear_arith)
                requires
                    pow2(k as nat) >= 1,
            {}
        }
        MAX_BACKOFF_MS
    } else {
        assert(retry.base_delay_ms * factor <= 30_000 * 65536) by (nonlinear_arith)
            requires
                retry.base_delay_ms < 30_000,
                factor <= 65536,
        {}
        let raw = retry.base_delay_ms * factor;
        if raw < MAX_BACKOFF_MS {
            raw
        } else {
            MAX_BACKOFF_MS
        }
    }
}

/// `2^k` is at least one, and at most `65536` for `k <= 16`.
proof fn lemma_pow2_bound(k: nat)
    ensures
        pow2(k) >= 1,
        k <= 16 ==> pow2(k) <= 65536,
{
    lemma_pow2_monotone(0, k);
    if k <= 16 {
        lemma_pow2_monotone(k, 16);
        reveal_with_fuel(pow2, 17);
        assert(pow2(16) == 65536);
    }
}

/// `2^j <= 2^k` for `j <= k`.
proof fn lemma_pow2_monotone(j: nat, k: nat)
    requires
        j <= k,
    ensures
        pow2(j) <= pow2(k),
    decreases k,
{
    if j < k {
        lemma_pow2_monotone(j, (k - 1) as nat);
    }
}

/// A uniformly random whole number in `0..=ceiling` (`rand`'s
/// `Rng::random_range` on the thread-local generator). Only the range is
/// promised: the value is chance.
#[verifier::external_body]
fn random_up_to(ceiling: u64) -> (r: u64)
    ensures
        r <= ceiling,
{
    rand::Rng::random_range(&mut rand::rng(), 0..=ceiling)
}

/// The wait, in milliseconds, before retry number `attempt`: chosen
/// uniformly between zero and the backoff ceiling ("full jitter", so that
/// retrying clients do not wake in lockstep).
pub fn backoff_delay_ms(retry: &RetryConfig, attempt: u32) -> (r: u64)
    ensures
        r <= backoff_ceiling(retry.base_delay_ms, attempt),
{
    let ceiling = backoff_ceiling_ms(retry, attempt);
    if ceiling == 0 {
        0
    } else {
        random_up_to(ceiling)
    }
}

/// What one attempt of a request produced.
#[derive(Debug, Clone, Copy, PartialEq, Eq, Structural)]
pub enum AttemptResult {
    /// A response arrived with this status.
    Status(u16),
    /// No response: `connectivity` is set for a timeout or a connection
    /// error, clear for any other transport failure.
    TransportFailure { connectivity: bool },
}

/// What to do after an attempt.
#[derive(Debug, Clone, Copy, PartialEq, Eq, Structural)]
pub enum SendStep {
    /// Hand the response to the caller, whatever its status.
    Deliver,
    /// Back off, then make attempt number `attempt` (counting retries from one).
    Retry { attempt: u32 },
    /// Give up: the server is unavailable after `retried` retries.
    Unavailable { retried: u32 },
    /// Give up: the transport failed in a way that is not connectivity.
    Protocol,
}

/// The decision after an attempt of a request: `attempt` retries have
/// already been made. Only an idempotent request is ever retried, at most
/// `max_retries` times, and only on the retryable class.
pub open spec fn send_decision(idempotent: bool, max_retries: u32, attempt: u32, result: AttemptResult) -> SendStep {
    let budget = if idempotent { max_retries } else { 0 };
    match result {
        AttemptResult::Status(s) => if retryable_status(s) {
            if attempt < budget { SendStep::Retry { attempt: (attempt + 1) as u32 } }
            else { SendStep::Unavailable { retried: attempt } }
        } else {
            SendStep::Deliver
        },
        AttemptResult::TransportFailure { connectivity } => if connectivity {
            if attempt < budget { SendStep::Retry { attempt: (attempt + 1) as u32 } }
            else { SendStep::Unavailable { retried: attempt } }
        } else {
            SendStep::Protocol
        },
    }
}

/// Decides what follows an attempt of a request.
pub fn send_step(idempotent: bool, max_retries: u32, attempt: u32, result: AttemptResult) -> (r: SendStep)
    ensures
        r == send_decision(idempotent, max_retries, attempt, result),
{
    let budget = if idempotent { max_retries } else { 0 };
    let retry_class = match result {
        AttemptResult::Status(s) => is_retryable_status(s),
        AttemptResult::TransportFailure { connectivity } => connectivity,
    };
    match result {
        AttemptResult::TransportFailure { connectivity: false } => SendStep::Protocol,
        _ => if !retry_class {
            SendStep::Deliver
        } else if attempt < budget {
            SendStep::Retry { attempt: attempt + 1 }
        } else {
            SendStep::Unavailable { retried: attempt }
        },
    }
}

/// What to do after one run of a whole write exchange.
#[derive(Debug, Clone, PartialEq, Eq)]
pub enum WriteStep {
    /// Back off, then redo the whole exchange as attempt `attempt`.
    Retry { attempt: u32 },
    /// Stop with this error.
    Fail(SdkError),
}

/// The decision after a run of a whole write exchange failed with `err`:
/// only `Unavailable` is retried, up to `max_retries` times, and the error
/// finally returned carries how many retries were made.
pub open spec fn write_decision(max_retries: u32, attempt: u32, err: SdkError) -> WriteStep {
    match err {
        SdkError::Unavailable { retried, detail } => if attempt < max_retries {
            WriteStep::Retry { attempt: (attempt + 1) as u32 }
        } else {
            WriteStep::Fail(SdkError::Unavailable { retried: attempt, detail })
        },
        other => WriteStep::Fail(other),
    }
}

/// Decides what follows a failed run of a whole write exchange.
pub fn retry_write_step(max_retries: u32, attempt: u32, err: SdkError) -> (r: WriteStep)
    ensures
        r == write_decision(max_retries, attempt, err),
{
    match err {
        SdkError::Unavailable { retried, detail } => if attempt < max_retries {
            WriteStep::Retry { attempt: attempt + 1 }
        } else {
            WriteStep::Fail(SdkError::Unavailable { retried: attempt, detail })
        },
        other => WriteStep::Fail(other),
    }
}

/// The `{ "error": ..., "code": ... }` body of a failed response.
#[derive(Debug, Clone, PartialEq, Eq)]
pub struct ErrorBody {
    /// Human-readable message.
    pub error: String,
    /// The server's stable error code, when it sent one.
    pub code: Option<String>,
}

/// The status line `reqwest` prints for a status (`404 Not Found`).
pub uninterp spec fn http_status_line(status: u16) -> Seq<char>;

/// The status line of `status`, as `reqwest::StatusCode` displays it: the
/// number and its canonical reason phrase. The reason-phrase table is
/// `http`'s own and is only named here.
#[verifier::external_body]
pub(crate) fn status_line(status: u16) -> (r: String)
    requires
        100 <= status <= 999,
    ensures
        r@ == http_status_line(status),
{
    match reqwest::StatusCode::from_u16(status) {
        Ok(code) => code.to_string(),
        Err(_) => String::new(),
    }
}

/// The message a failed response carries: its `code`, else its `error`
/// text, else the bare status line when the body was unreadable.
pub open spec fn error_message_text(status: u16, body: Option<ErrorBody>) -> Seq<char> {
    match body {
        Some(b) => match b.code {
            Some(c) => c@,
            None => b.error@,
        },
        None => http_status_line(status),
    }
}

/// The message a failed response carries.
pub fn error_message(status: u16, body: &Option<ErrorBody>) -> (r: String)
    requires
        100 <= status <= 999,
    ensures
        r@ == error_message_text(status, *body),
{
    match body {
        Some(b) => match &b.code {
            Some(c) => owned(c.as_str()),
            None => owned(b.error.as_str()),
        },
        None => status_line(status),
    }
}

/// The default non-success mapping: the bucket is chosen by status, the
/// text inside it is the server's stable code whenever the body has one.
pub open spec fn mapped_error(status: u16, message: Seq<char>, err: SdkError) -> bool {
    if status == 401 {
        err == SdkError::Unauthorized
    } else if status == 403 {
        err matches SdkError::CapabilityNotGranted(m) && m@ == message
    } else if status == 404 {
        err matches SdkError::NotFound(m) && m@ == message
    } else if status == 409 {
        err matches SdkError::Conflict(m) && m@ == message
    } else if status == 400 || status == 422 {
        err matches SdkError::Rejected { reason } && reason@ == message
    } else if status == 429 || (500 <= status <= 599) {
        err matches SdkError::Unavailable { retried, detail } && retried == 0 && detail@ == message
    } else {
        err matches SdkError::Protocol(m) && m@ == http_status_line(status) + ": "@ + message
    }
}

/// Maps a non-success response onto [`SdkError`].
pub fn map_error_response(status: u16, body: &Option<ErrorBody>) -> (r: SdkError)
    requires
        100 <= status <= 999,
    ensures
        mapped_error(status, error_message_text(status, *body), r),
{
    let message = error_message(status, body);
    if status == 401 {
        SdkError::Unauthorized
    } else if status == 403 {
        SdkError::CapabilityNotGranted(message)
    } else if status == 404 {
        SdkError::NotFound(message)
    } else if status == 409 {
        SdkError::Conflict(message)
    } else if status == 400 || status == 422 {
        SdkError::Rejected { reason: message }
    } else if status == 429 || (500 <= status && status <= 599) {
        SdkError::Unavailable { retried: 0, detail: message }
    } else {
        let mut text = status_line(status);
        push_str(&mut text, ": ");
        push_str(&mut text, message.as_str());
        SdkError::Protocol(text)
    }
}

/// The websocket endpoint for `path` on the same server: `https://`
/// becomes `wss://`, `http://` becomes `ws://`, anything else is used as
/// it is.
pub open spec fn websocket_url_text(server_url: Seq<char>, path: Seq<char>) -> Seq<char> {
    if server_url.len() >= 8 && server_url.subrange(0, 8) == "https://"@ {
        "wss://"@ + server_url.subrange(8, server_url.len() as int) + path
    } else if server_url.len() >= 7 && server_url.subrange(0, 7) == "http://"@ {
        "ws://"@ + server_url.subrange(7, server_url.len() as int) + path
    } else {
        server_url + path
    }
}

/// The websocket endpoint for `path` on the same server.
pub fn websocket_url(server_url: &str, path: &str) -> (r: String)
    ensures
        r@ == websocket_url_text(server_url@, path@),
{
    proof {
        reveal_strlit("https://");
        reveal_strlit("http://");
    }
    let n = server_url.unicode_len();
    if starts_with(server_url, "https://") {
        let mut s = owned("wss://");
        push_str(&mut s, server_url.substring_char(8, n));
        push_str(&mut s, path);
        s
    } else if starts_with(server_url, "http://") {
        let mut s = owned("ws://");
        push_str(&mut s, server_url.substring_char(7, n));
        push_str(&mut s, path);
        s
    } else {
        let mut s = owned(server_url);
        push_str(&mut s, path);
        s
    }
}

/// A write without an idempotency key is never retried: whatever the
/// attempt ends in, the next step is never another attempt.
pub proof fn lemma_plain_writes_are_never_retried(max_retries: u32, attempt: u32, result: AttemptResult)
    ensures
        !(send_decision(false, max_retries, attempt, result) is Retry),
{
}

/// Retries are bounded: a retry is only ever the next attempt, and only
/// while fewer than `max_retries` retries were made, so a request makes at
/// most `max_retries + 1` attempts; giving up reports exactly the retries
/// made.
pub proof fn lemma_retries_are_bounded(idempotent: bool, max_retries: u32, attempt: u32, result: AttemptResult)
    ensures
        send_decision(idempotent, max_retries, attempt, result) matches SendStep::Retry { attempt: next }
            ==> attempt < max_retries && next == attempt + 1,
        send_decision(idempotent, max_retries, attempt, result) matches SendStep::Unavailable { retried }
            ==> retried == attempt,
{
}

/// Only the retryable class is ever retried or turned into an error: any
/// other status is handed to the caller as it is.
pub proof fn lemma_other_statuses_are_delivered(idempotent: bool, max_retries: u32, attempt: u32, status: u16)
    requires
        !retryable_status(status),
    ensures
        send_decision(idempotent, max_retries, attempt, AttemptResult::Status(status)) == SendStep::Deliver,
{
}

/// A whole write is retried only while the server is unavailable and
/// retries remain; every other error is returned unchanged.
pub proof fn lemma_only_unavailability_is_retried(max_retries: u32, attempt: u32, err: SdkError)
    ensures
        write_decision(max_retries, attempt, err) is Retry ==> (err is Unavailable && attempt < max_retries),
        !(err is Unavailable) ==> write_decision(max_retries, attempt, err) == WriteStep::Fail(err),
{
}

/// The backoff ceiling never exceeds 30 s and never shrinks from one retry
/// to the next.
pub proof fn lemma_backoff_ceiling_grows_to_the_cap(base_ms: u64, a: u32, b: u32)
    requires
        a <= b,
    ensures
        backoff_ceiling(base_ms, a) <= MAX_BACKOFF_MS,
        backoff_ceiling(base_ms, a) <= backoff_ceiling(base_ms, b),
{
    let ka: nat = if a == 0 { 0 } else if a - 1 > 16 { 16 } else { (a - 1) as nat };
    let kb: nat = if b == 0 { 0 } else if b - 1 > 16 { 16 } else { (b - 1) as nat };
    lemma_pow2_monotone(ka, kb);
    assert(base_ms * pow2(ka) <= base_ms * pow2(kb)) by (nonlinear_arith)
        requires
            pow2(ka) <= pow2(kb),
    {}
}

} // verus!

//! Rate-limiter decision logic: which responses are retried, how long the
//! exponential backoff waits, and what the upstream's rate-limit headers
//! say.
//!
//! The token-bucket wait itself suspends the calling task and lives with
//! the surrounding async code; every decision it acts on is made here.

use crate::error::TraderGraderError;
use crate::text::{parse_u64_str, spec_parse_u64};
use vstd::prelude::*;

verus! {

/// Rate limiter configuration: the steady outbound rate and the retry
/// policy. Immutable once constructed.
#[derive(Debug, Clone)]
pub struct RateLimitConfig {
    /// Outbound requests per second.
    pub requests_per_second: u32,
    /// Greatest number of retries for a transient failure.
    pub max_retries: u32,
    /// Base delay of the exponential backoff, in milliseconds.
    pub base_delay_ms: u64,
    /// Greatest delay between retries, in seconds.
    pub max_delay_seconds: u64,
}

impl Default for RateLimitConfig {
    /// The documented default: a hundred requests per second, three
    /// retries, a tenth of a second of base backoff, capped at thirty
    /// seconds.
    fn default() -> (r: RateLimitConfig)
        ensures
            r.requests_per_second == 100,
            r.max_retries == 3,
            r.base_delay_ms == 100,
            r.max_delay_seconds == 30,
    {
        RateLimitConfig {
            requests_per_second: 100,
            max_retries: 3,
            base_delay_ms: 100,
            max_delay_seconds: 30,
        }
    }
}

impl RateLimitConfig {
    /// A conservative configuration: half the default rate, more retries,
    /// longer waits.
    pub fn conservative() -> (r: RateLimitConfig)
        ensures
            r.requests_per_second == 50,
            r.max_retries == 5,
            r.base_delay_ms == 200,
            r.max_delay_seconds == 60,
    {
        RateLimitConfig {
            requests_per_second: 50,
            max_retries: 5,
            base_delay_ms: 200,
            max_delay_seconds: 60,
        }
    }

    /// A configuration for tests: a rate high enough never to wait, one
    /// retry, short delays.
    pub fn testing() -> (r: RateLimitConfig)
        ensures
            r.requests_per_second == 1000,
            r.max_retries == 1,
            r.base_delay_ms == 10,
            r.max_delay_seconds == 1,
    {
        RateLimitConfig {
            requests_per_second: 1000,
            max_retries: 1,
            base_delay_ms: 10,
            max_delay_seconds: 1,
        }
    }
}

/// Two to the given power.
pub open spec fn spec_pow2(a: nat) -> nat
    decreases a,
{
    if a == 0 {
        1
    } else {
        2 * spec_pow2((a - 1) as nat)
    }
}

/// Powers of two grow with the exponent.
pub proof fn lemma_pow2_mono(a: nat, b: nat)
    requires
        a <= b,
    ensures
        spec_pow2(a) <= spec_pow2(b),
    decreases b,
{
    if a < b {
        lemma_pow2_mono(a, (b - 1) as nat);
    }
}

/// A product held inside the counter's range, as the saturating
/// multiplication computes it.
pub open spec fn spec_sat_mul(a: u64, b: u64) -> u64 {
    if a * b > u64::MAX {
        u64::MAX
    } else {
        (a * b) as u64
    }
}

/// Two to the given power, held inside the counter's range.
pub open spec fn spec_pow2_sat(a: nat) -> u64 {
    if spec_pow2(a) > u64::MAX {
        u64::MAX
    } else {
        spec_pow2(a) as u64
    }
}

/// The smaller of two delays.
pub open spec fn spec_min_u64(a: u64, b: u64) -> u64 {
    if a < b {
        a
    } else {
        b
    }
}

/// The backoff delay in milliseconds before a retry: the base delay
/// doubled once per attempt, never above the configured cap, with every
/// step saturating instead of overflowing.
pub open spec fn spec_backoff_ms(config: RateLimitConfig, attempt: u32) -> u64 {
    spec_min_u64(
        spec_sat_mul(config.base_delay_ms, spec_pow2_sat(attempt as nat)),
        spec_sat_mul(config.max_delay_seconds, 1000),
    )
}

/// Whether a response status is transient: worth retrying when attempts
/// are left.
pub open spec fn spec_transient_status(status: u16) -> bool {
    status == 429 || status == 502 || status == 503 || status == 504
}

/// Multiply, stopping at the counter's greatest value.
fn sat_mul(a: u64, b: u64) -> (r: u64)
    ensures
        r == spec_sat_mul(a, b),
{
    match a.checked_mul(b) {
        Some(v) => v,
        None => u64::MAX,
    }
}

/// Two to the given power, stopping at the counter's greatest value.
fn pow2_sat(attempt: u32) -> (r: u64)
    ensures
        r == spec_pow2_sat(attempt as nat),
{
    let mut p: u64 = 1;
    let mut i: u32 = 0;
    while i < attempt
        invariant
            i <= attempt,
            p == spec_pow2(i as nat),
            spec_pow2(i as nat) <= u64::MAX,
        decreases attempt - i,
    {
        match p.checked_mul(2) {
            Some(doubled) => {
                proof {
                    assert(spec_pow2(i as nat + 1) == 2 * spec_pow2(i as nat));
                }
                p = doubled;
            },
            None => {
                proof {
                    assert(spec_pow2(i as nat + 1) == 2 * spec_pow2(i as nat));
                    lemma_pow2_mono(i as nat + 1, attempt as nat);
                }
                return u64::MAX;
            },
        }
        i += 1;
    }
    p
}

/// What the retry loop does after one response: hand it back, or wait
/// and try again.
#[derive(Debug, Clone, Copy, PartialEq, Eq, Structural)]
pub enum RetryDecision {
    /// Hand the response to the caller: it succeeded, or no retry is due.
    ReturnResponse,
    /// Wait this many milliseconds, then retry.
    RetryAfterMs(u64),
}

/// Rate-limit information parsed from a response's headers; any field the
/// response does not carry, or carries unreadably, is absent.
#[derive(Debug, Clone)]
pub struct EsiRateLimitInfo {
    /// Requests remaining in the current window.
    pub remaining: Option<u32>,
    /// Seconds until the window resets.
    pub reset_time: Option<u64>,
    /// Seconds the server asks to wait before retrying.
    pub retry_after: Option<u64>,
}

impl Default for EsiRateLimitInfo {
    /// No header seen yet: every field absent.
    fn default() -> (r: EsiRateLimitInfo)
        ensures
            r.remaining is None,
            r.reset_time is None,
            r.retry_after is None,
    {
        EsiRateLimitInfo { remaining: None, reset_time: None, retry_after: None }
    }
}

/// The number an optional header value denotes, under the integer
/// grammar, if it fits below the given bound.
pub open spec fn spec_parse_header_num(h: Option<Seq<char>>, bound: u64) -> Option<u64> {
    match h {
        Some(s) => match spec_parse_u64(s) {
            Some(v) => if v <= bound {
                Some(v)
            } else {
                None
            },
            None => None,
        },
        None => None,
    }
}

/// The view of an optional string, for stating contracts over optional
/// header values.
pub open spec fn spec_opt_view(h: Option<&str>) -> Option<Seq<char>> {
    match h {
        Some(s) => Some(s@),
        None => None,
    }
}

/// The rate limiter's decision logic. The token bucket that paces the
/// requests runs with the surrounding async code; this type owns the
/// configuration and makes every retry and backoff decision.
#[derive(Debug, Clone)]
pub struct EsiRateLimiter {
    config: RateLimitConfig,
}

impl EsiRateLimiter {
    /// The limiter's configuration, as spec values.
    pub closed spec fn spec_config(self) -> RateLimitConfig {
        self.config
    }

    /// A limiter under the given configuration. A rate of zero requests
    /// per second is rejected: it could never admit a request.
    pub fn new(config: RateLimitConfig) -> (r: Result<EsiRateLimiter, TraderGraderError>)
        ensures
            config.requests_per_second > 0 <==> r is Ok,
            r matches Ok(l) ==> l.spec_config() == config,
            r matches Err(e) ==> e is InternalError,
    {
        if config.requests_per_second == 0 {
            return Err(
                TraderGraderError::InternalError(
                    String::from_str("Rate limit must be greater than 0"),
                ),
            );
        }
        Ok(EsiRateLimiter { config })
    }

    /// A limiter under the default configuration.
    pub fn default() -> (r: Result<EsiRateLimiter, TraderGraderError>)
        ensures
            r matches Ok(l) && l.spec_config() == (RateLimitConfig {
                requests_per_second: 100,
                max_retries: 3,
                base_delay_ms: 100,
                max_delay_seconds: 30,
            }),
    {
        Self::new(RateLimitConfig::default())
    }

    /// The configuration the limiter was built with.
    pub fn config(&self) -> (r: &RateLimitConfig)
        ensures
            *r == self.spec_config(),
    {
        &self.config
    }

    /// Whether a response is retried: true exactly when attempts are left
    /// and the status is transient (too many requests, or a gateway
    /// failure). Every other status, success and client errors included,
    /// is terminal.
    pub fn should_retry(&self, status: u16, attempt: u32) -> (r: bool)
        ensures
            r == (attempt < self.spec_config().max_retries && spec_transient_status(status)),
    {
        if attempt >= self.config.max_retries {
            return false;
        }
        status == 429 || status == 502 || status == 503 || status == 504
    }

    /// The backoff delay in milliseconds before the given attempt's
    /// retry: base delay doubled once per attempt, capped, saturating.
    pub fn calculate_backoff_delay(&self, attempt: u32) -> (r: u64)
        ensures
            r == spec_backoff_ms(self.spec_config(), attempt),
    {
        let doubled = sat_mul(self.config.base_delay_ms, pow2_sat(attempt));
        let cap = sat_mul(self.config.max_delay_seconds, 1000);
        if doubled < cap {
            doubled
        } else {
            cap
        }
    }

    /// Best-effort parse of the rate-limit headers: quota remaining,
    /// window reset, and the server's requested retry delay. An absent or
    /// unreadable field is absent in the result, never an error.
    pub fn parse_rate_limit_headers(
        &self,
        remain: Option<&str>,
        reset: Option<&str>,
        retry_after: Option<&str>,
    ) -> (r: EsiRateLimitInfo)
        ensures
            r.remaining == match spec_parse_header_num(spec_opt_view(remain), u32::MAX as u64) {
                Some(v) => Some(v as u32),
                None => None::<u32>,
            },
            r.reset_time == spec_parse_header_num(spec_opt_view(reset), u64::MAX),
            r.retry_after == spec_parse_header_num(spec_opt_view(retry_after), u64::MAX),
    {
        let remaining: Option<u32> = match remain {
            Some(s) => match parse_u64_str(s) {
                Some(v) => if v <= u32::MAX as u64 {
                    Some(v as u32)
                } else {
                    None
                },
                None => None,
            },
            None => None,
        };
        let reset_time: Option<u64> = match reset {
            Some(s) => parse_u64_str(s),
            None => None,
        };
        let retry_after_secs: Option<u64> = match retry_after {
            Some(s) => parse_u64_str(s),
            None => None,
        };
        EsiRateLimitInfo { remaining, reset_time, retry_after: retry_after_secs }
    }

    /// One step of the retry loop, after a response with the given status
    /// arrived on the given attempt: hand the response back on success or
    /// when no retry is due; otherwise wait the server's requested delay,
    /// or the computed backoff when the server named none, and retry.
    pub fn retry_decision(&self, status: u16, attempt: u32, retry_after_secs: Option<u64>) -> (r:
        RetryDecision)
        ensures
            (200 <= status < 300) ==> r is ReturnResponse,
            !(200 <= status < 300) && !(attempt < self.spec_config().max_retries
                && spec_transient_status(status)) ==> r is ReturnResponse,
            !(200 <= status < 300) && (attempt < self.spec_config().max_retries
                && spec_transient_status(status)) ==> r == RetryDecision::RetryAfterMs(
                match retry_after_secs {
                    Some(secs) => spec_sat_mul(secs, 1000),
                    None => spec_backoff_ms(self.spec_config(), attempt),
                },
            ),
    {
        if 200 <= status && status < 300 {
            return RetryDecision::ReturnResponse;
        }
        if !self.should_retry(status, attempt) {
            return RetryDecision::ReturnResponse;
        }
        let delay_ms = match retry_after_secs {
            Some(secs) => sat_mul(secs, 1000),
            None => self.calculate_backoff_delay(attempt),
        };
        RetryDecision::RetryAfterMs(delay_ms)
    }
}

/// The backoff never exceeds the configured cap, whatever the attempt
/// number.
pub proof fn lemma_backoff_capped(config: RateLimitConfig, attempt: u32)
    ensures
        spec_backoff_ms(config, attempt) <= spec_sat_mul(config.max_delay_seconds, 1000),
{
}

/// The backoff never decreases from one attempt to a later one.
pub proof fn lemma_backoff_monotonic(config: RateLimitConfig, a1: u32, a2: u32)
    requires
        a1 <= a2,
    ensures
        spec_backoff_ms(config, a1) <= spec_backoff_ms(config, a2),
{
    lemma_pow2_mono(a1 as nat, a2 as nat);
    let p1 = spec_pow2_sat(a1 as nat);
    let p2 = spec_pow2_sat(a2 as nat);
    assert(p1 <= p2);
    assert(config.base_delay_ms * p1 <= config.base_delay_ms * p2) by (nonlinear_arith)
        requires
            p1 <= p2,
    ;
}

} // verus!

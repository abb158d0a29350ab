//! The HTTP request executor: classification of responses and the bounded
//! retry-with-backoff decision logic for rate-limit signals.
//!
//! The executor is a state machine over the retry budget of one logical
//! operation.  The unverified shell performs the actual send and sleep; it
//! feeds each response (status, optional retry-after hint, body text) to
//! [`HttpExecutor::on_response`] and obeys the step that comes back.  Only
//! rate-limit responses are ever retried; every other failure is terminal on
//! first occurrence.

use vstd::prelude::*;

use crate::error::Error;

verus! {

/// The retry budget and backoff schedule of one logical operation.
///
/// `max_attempts` bounds the number of network attempts, `base_backoff_secs`
/// seeds the exponential backoff used when the server gives no wait hint, and
/// `max_wait_secs` caps every single wait: a server-indicated wait above the
/// cap is not honoured, the operation fails as rate limited instead.
#[derive(Debug, Clone, Copy, PartialEq, Eq, Structural)]
pub struct RetryPolicy {
    pub max_attempts: u32,
    pub base_backoff_secs: u64,
    pub max_wait_secs: u64,
}

/// The backoff before retrying after `n` prior rate-limit signals: the base
/// wait doubled `n` times, never above `cap`.
pub open spec fn spec_backoff(base: u64, cap: u64, n: nat) -> int
    decreases n,
{
    if n == 0 {
        if base <= cap {
            base as int
        } else {
            cap as int
        }
    } else {
        let prev = spec_backoff(base, cap, (n - 1) as nat);
        if 2 * prev <= cap {
            2 * prev
        } else {
            cap as int
        }
    }
}

/// The backoff never exceeds the cap and never goes negative.
pub proof fn lemma_backoff_bounds(base: u64, cap: u64, n: nat)
    ensures
        0 <= spec_backoff(base, cap, n) <= cap,
    decreases n,
{
    if n > 0 {
        lemma_backoff_bounds(base, cap, (n - 1) as nat);
    }
}

impl RetryPolicy {
    /// A small default budget: three attempts, one-second base backoff,
    /// one-minute cap on any single wait.
    pub fn new() -> (r: RetryPolicy)
        ensures
            r.max_attempts == 3,
            r.base_backoff_secs == 1,
            r.max_wait_secs == 60,
    {
        RetryPolicy { max_attempts: 3, base_backoff_secs: 1, max_wait_secs: 60 }
    }

    /// The wait before the retry that follows `n` prior rate-limit signals.
    pub fn backoff_secs(&self, n: u32) -> (r: u64)
        ensures
            r == spec_backoff(self.base_backoff_secs, self.max_wait_secs, n as nat),
    {
        let base = self.base_backoff_secs;
        let cap = self.max_wait_secs;
        let mut w: u64 = if base <= cap {
            base
        } else {
            cap
        };
        let mut k: u32 = 0;
        while k < n
            invariant
                k <= n,
                0 <= w <= cap,
                w == spec_backoff(base, cap, k as nat),
            decreases n - k,
        {
            w = if w <= cap / 2 {
                2 * w
            } else {
                cap
            };
            k = k + 1;
        }
        w
    }
}

impl Default for RetryPolicy {
    /// Same budget as [`RetryPolicy::new`].
    fn default() -> (r: RetryPolicy)
        ensures
            r == (RetryPolicy { max_attempts: 3, base_backoff_secs: 1, max_wait_secs: 60 }),
    {
        RetryPolicy::new()
    }
}

/// What the shell must do after feeding one response to the executor.
#[derive(Debug)]
pub enum HttpStep {
    /// The operation succeeded; the value is the raw response body, to be
    /// decoded by the typed layer.
    Success(String),
    /// Sleep for the given number of seconds, then send the request again.
    Retry(u64),
    /// The operation failed; no further attempt is allowed.
    Fail(Error),
}

/// What the remote service returned for the string field `key` of a JSON
/// object parsed from `body`, if `body` is such an object and the field is a
/// string; the result depends on the two arguments alone.
pub uninterp spec fn json_string_field_of(body: Seq<char>, key: Seq<char>) -> Option<Seq<char>>;

/// Relies on `serde_json::from_str`, `serde_json::Value::get` and
/// `serde_json::Value::as_str`: parses `body` as JSON and extracts the string
/// under `key` from the top-level object, if there is one; parsing and lookup
/// are deterministic in the two arguments.
#[verifier::external_body]
fn json_string_field(body: &str, key: &str) -> (r: Option<String>)
    ensures
        r is Some <==> json_string_field_of(body@, key@) is Some,
        r matches Some(s) ==> json_string_field_of(body@, key@) == Some(s@),
{
    match serde_json::from_str::<serde_json::Value>(body) {
        Ok(v) => match v.get(key) {
            Some(m) => m.as_str().map(|s| s.to_string()),
            None => None,
        },
        Err(_) => None,
    }
}

/// The wait a 429 response asks for: the server-indicated duration where one
/// is present, else the policy's backoff for the attempt just finished.
pub open spec fn spec_rate_limit_wait(policy: RetryPolicy, prior_attempts: nat, retry_after: Option<
    u64,
>) -> int {
    match retry_after {
        Some(d) => d as int,
        None => spec_backoff(policy.base_backoff_secs, policy.max_wait_secs, prior_attempts),
    }
}

/// The retry state of one logical HTTP operation.  Created per call and
/// discarded when the operation finishes; never shared across operations.
#[derive(Debug, Clone, Copy)]
pub struct HttpExecutor {
    pub policy: RetryPolicy,
    /// Network attempts completed so far.
    pub attempts: u32,
}

impl HttpExecutor {
    /// A fresh executor: no attempt made yet.
    pub fn new(policy: RetryPolicy) -> (r: HttpExecutor)
        ensures
            r.policy == policy,
            r.attempts == 0,
    {
        HttpExecutor { policy, attempts: 0 }
    }

    /// Network attempts completed so far.
    pub fn attempts(&self) -> (r: u32)
        ensures
            r == self.attempts,
    {
        self.attempts
    }

    /// Classifies one HTTP response and decides the next step.
    ///
    /// Laws carried by the contract, each over every executor state and
    /// response:
    /// - a rate-limit response with a retry-after hint is only ever retried
    ///   with a wait at least that hint (here: exactly it), so no next
    ///   attempt follows a shorter sleep; a hint above the policy's wait cap
    ///   is not honoured with a shorter wait but fails as rate limited;
    /// - status 401 and 403 fail as `AuthenticationFailure` whatever the
    ///   remaining budget: authentication failures are never retried;
    /// - only status 429, and only within the attempt budget, is ever
    ///   answered with `Retry`; every other non-success status is terminal on
    ///   first occurrence, and the rate-limited error is built structurally,
    ///   never through the bare-string fallback.
    pub fn on_response(&mut self, status: u16, retry_after: Option<u64>, body: &str) -> (step:
        HttpStep)
        requires
            old(self).attempts < old(self).policy.max_attempts,
        ensures
            final(self).policy == old(self).policy,
            final(self).attempts == old(self).attempts + 1,
            200 <= status < 300 ==> (step matches HttpStep::Success(b) && b@ == body@),
            status == 401 || status == 403 ==> step == HttpStep::Fail(
                Error::AuthenticationFailure,
            ),
            status == 429 ==> {
                let wait = spec_rate_limit_wait(
                    old(self).policy,
                    old(self).attempts as nat,
                    retry_after,
                );
                if old(self).attempts + 1 < old(self).policy.max_attempts && wait <= old(
                    self,
                ).policy.max_wait_secs {
                    step == HttpStep::Retry(wait as u64)
                } else {
                    step == HttpStep::Fail(Error::RateLimited(429, retry_after))
                }
            },
            status == 429 ==> (retry_after matches Some(d) ==> (step matches HttpStep::Retry(w)
                ==> w >= d)),
            step matches HttpStep::Retry(_) ==> status == 429 && old(self).attempts + 1 < old(
                self,
            ).policy.max_attempts,
            !(200 <= status < 300) && status != 401 && status != 403 && status != 429 ==> (match (
            json_string_field_of(body@, "message"@)) {
                Some(m) => step matches HttpStep::Fail(e) && (e matches Error::HttpStatusWithMessage(
                    s,
                    msg,
                ) && s == status && msg@ == m),
                None => step == HttpStep::Fail(Error::HttpStatus(status)),
            }),
    {
        let prior = self.attempts;
        self.attempts = self.attempts + 1;
        if 200 <= status && status < 300 {
            HttpStep::Success(body.to_owned())
        } else if status == 401 || status == 403 {
            HttpStep::Fail(Error::AuthenticationFailure)
        } else if status == 429 {
            let wait: u64 = match retry_after {
                Some(d) => d,
                None => self.policy.backoff_secs(prior),
            };
            proof {
                lemma_backoff_bounds(
                    self.policy.base_backoff_secs,
                    self.policy.max_wait_secs,
                    prior as nat,
                );
            }
            if self.attempts < self.policy.max_attempts && wait <= self.policy.max_wait_secs {
                HttpStep::Retry(wait)
            } else {
                HttpStep::Fail(Error::RateLimited(429, retry_after))
            }
        } else {
            match json_string_field(body, "message") {
                Some(m) => HttpStep::Fail(Error::HttpStatusWithMessage(status, m)),
                None => HttpStep::Fail(Error::HttpStatus(status)),
            }
        }
    }
}

/// Whether every character of `s` is a decimal digit.
pub open spec fn is_digit_seq(s: Seq<char>) -> bool {
    forall|i: int| 0 <= i < s.len() ==> '0' <= #[trigger] s[i] <= '9'
}

/// The value of one decimal digit.
pub open spec fn digit_val(c: char) -> int {
    c as int - '0' as int
}

/// The value of a decimal numeral, most significant digit first.
pub open spec fn decimal_value(s: Seq<char>) -> int
    decreases s.len(),
{
    if s.len() == 0 {
        0
    } else {
        decimal_value(s.take(s.len() - 1)) * 10 + digit_val(s[s.len() - 1])
    }
}

/// A numeral of digits has a non-negative value.
proof fn lemma_decimal_nonneg(s: Seq<char>)
    requires
        is_digit_seq(s),
    ensures
        decimal_value(s) >= 0,
    decreases s.len(),
{
    if s.len() > 0 {
        assert(is_digit_seq(s.take(s.len() - 1)));
        lemma_decimal_nonneg(s.take(s.len() - 1));
    }
}

/// Extending a numeral of digits never lowers its value.
proof fn lemma_decimal_extend(s: Seq<char>, i: int)
    requires
        0 <= i <= s.len(),
        is_digit_seq(s),
    ensures
        decimal_value(s.take(i)) <= decimal_value(s),
    decreases s.len() - i,
{
    if i < s.len() {
        lemma_decimal_extend(s, i + 1);
        assert(s.take(i + 1).take(i) =~= s.take(i));
        assert(s.take(i + 1)[i] == s[i]);
        assert(is_digit_seq(s.take(i)));
        lemma_decimal_nonneg(s.take(i));
        assert(decimal_value(s.take(i + 1)) == decimal_value(s.take(i)) * 10 + digit_val(s[i]));
    } else {
        assert(s.take(i) =~= s);
    }
}

/// Parses the wait a retry-after header indicates: a non-empty string of
/// decimal digits whose value fits the result type, and nothing else.
pub fn parse_retry_after(s: &str) -> (r: Option<u64>)
    ensures
        match r {
            Some(v) => s@.len() > 0 && is_digit_seq(s@) && v == decimal_value(s@),
            None => !(s@.len() > 0 && is_digit_seq(s@) && decimal_value(s@) <= u64::MAX),
        },
{
    let n = s.unicode_len();
    if n == 0 {
        return None;
    }
    let mut v: u64 = 0;
    let mut i: usize = 0;
    while i < n
        invariant
            0 <= i <= n,
            n == s@.len(),
            is_digit_seq(s@.take(i as int)),
            v == decimal_value(s@.take(i as int)),
        decreases n - i,
    {
        let c = s.get_char(i);
        if c < '0' || c > '9' {
            proof {
                assert(!('0' <= s@[i as int] <= '9'));
            }
            return None;
        }
        let d: u64 = (c as u32 as u64) - 48;
        proof {
            assert(s@.take(i + 1 as int).take(i as int) =~= s@.take(i as int));
            assert(s@.take(i + 1 as int)[i as int] == s@[i as int]);
            assert(digit_val(s@[i as int]) == d);
            assert(decimal_value(s@.take(i + 1 as int)) == decimal_value(s@.take(i as int)) * 10
                + d);
        }
        if v > (u64::MAX - d) / 10 {
            proof {
                assert(decimal_value(s@.take(i + 1 as int)) > u64::MAX);
                if is_digit_seq(s@) {
                    lemma_decimal_extend(s@, i + 1 as int);
                }
            }
            return None;
        }
        v = v * 10 + d;
        i = i + 1;
    }
    proof {
        assert(s@.take(n as int) =~= s@);
    }
    Some(v)
}

} // verus!

//! The rate-limited API client core: the budget policy, the limiter
//! state, and the pure decision logic that the transport layer drives.
//!
//! Time is carried as whole seconds on the caller's clock; the caller
//! passes the current reading into each decision, so that every
//! decision is a function of plain values.

use vstd::prelude::*;
use crate::parse::{dec_str, parse_policy, parse_u64, policy_max_field, policy_window_field,
    spec_parse_u64, u64_to_decimal};

verus! {

/// The shape of the server's rate-limit window: how many requests are
/// allowed per window, and how long the window lasts, in seconds.
pub struct RateLimitPolicy {
    pub max_requests: u64,
    pub time_window: u64,
}

impl RateLimitPolicy {
    /// The local fallback budget used until the server advertises its own.
    pub fn default() -> (r: Self)
        ensures
            r.max_requests == 50,
            r.time_window == 30,
    {
        RateLimitPolicy { max_requests: 50, time_window: 30 }
    }
}

/// Relies on the type `reqwest::Error`, the transport's failure value;
/// it is carried through unread.
#[verifier::external_type_specification]
#[verifier::external_body]
pub struct ExReqwestError(reqwest::Error);

/// Every way a request can end short of a usable body. No transport
/// failure leaks past this type.
#[derive(Debug)]
pub enum ApiError {
    /// The budget is exhausted; wait at least this many seconds.
    RateLimit(u64),
    /// The transport failed for a reason other than a timeout.
    RequestError(reqwest::Error),
    TimedOut,
    NotFound,
    ServerError,
}

impl ApiError {
    /// The display text of this error. For a transport failure the
    /// underlying cause's own text follows the fixed prefix.
    pub fn describe(&self) -> (r: String)
        ensures
            self matches ApiError::RateLimit(w) ==> r@ == "Rate limited, resets in "@ + dec_str(
                w as nat) + " seconds"@,
            self is RequestError ==> (exists|cause: Seq<char>|
                r@ == "Request error "@ + cause),
            self is TimedOut ==> r@ == "Request timed out"@,
            self is NotFound ==> r@ == "Requested entity does not exist"@,
            self is ServerError ==> r@ == "API server error"@,
    {
        match self {
            ApiError::RateLimit(w) => {
                let mut out = String::from_str("Rate limited, resets in ");
                let secs = u64_to_decimal(*w);
                out.append(secs.as_str());
                out.append(" seconds");
                out
            },
            ApiError::RequestError(cause) => {
                let mut out = String::from_str("Request error ");
                let text = cause.to_string();
                out.append(text.as_str());
                proof {
                    assert(out@ == "Request error "@ + text@);
                }
                out
            },
            ApiError::TimedOut => String::from_str("Request timed out"),
            ApiError::NotFound => String::from_str("Requested entity does not exist"),
            ApiError::ServerError => String::from_str("API server error"),
        }
    }
}

/// The rate-limit related header values of one response, each present
/// exactly where the response carried that header as text.
pub struct HeaderValues {
    pub policy: Option<String>,
    pub limit: Option<String>,
    pub remaining: Option<String>,
    pub reset: Option<String>,
    pub retry_after: Option<String>,
}

/// The limiter's mutable counters together with the active policy.
/// `rollover`, when present, is the instant (in seconds on the
/// caller's clock) after which the budget is considered refreshed.
pub struct RateLimit {
    pub policy: RateLimitPolicy,
    pub limit: u64,
    pub remaining: u64,
    pub reset: u64,
    pub rollover: Option<u64>,
}

/// The numeric reading of an optional header value, where it parses.
pub open spec fn spec_opt_parse(h: Option<String>) -> Option<u64> {
    match h {
        Some(s) => spec_parse_u64(s@),
        None => None,
    }
}

/// The policy after one response: each field is overridden only where
/// the `ratelimit-policy` header matches `<digits>;w=<digits>` and the
/// field's digits fit in a `u64`.
pub open spec fn spec_policy_after(pol: RateLimitPolicy, h: Option<String>) -> RateLimitPolicy {
    match h {
        Some(p) => RateLimitPolicy {
            max_requests: match policy_max_field(p@) {
                Some(v) => v,
                None => pol.max_requests,
            },
            time_window: match policy_window_field(p@) {
                Some(v) => v,
                None => pol.time_window,
            },
        },
        None => pol,
    }
}

/// The limiter state after absorbing one response's headers at time
/// `now`: each counter is overridden only where its header parses, and
/// a parsed `ratelimit-reset` also re-arms the rollover instant.
pub open spec fn spec_updated(s: RateLimit, h: HeaderValues, now: u64) -> RateLimit {
    RateLimit {
        policy: spec_policy_after(s.policy, h.policy),
        limit: match spec_opt_parse(h.limit) {
            Some(v) => v,
            None => s.limit,
        },
        remaining: match spec_opt_parse(h.remaining) {
            Some(v) => v,
            None => s.remaining,
        },
        reset: match spec_opt_parse(h.reset) {
            Some(v) => v,
            None => s.reset,
        },
        rollover: match spec_opt_parse(h.reset) {
            Some(v) => if now + v <= u64::MAX {
                Some((now + v) as u64)
            } else {
                None
            },
            None => s.rollover,
        },
    }
}

/// The limiter state after the pre-flight check at time `now`: once
/// the clock has passed the rollover instant, the budget refreshes to
/// the policy's shape and the rollover is cleared.
pub open spec fn spec_rolled(s: RateLimit, now: u64) -> RateLimit {
    match s.rollover {
        Some(r) => if now > r {
            RateLimit {
                policy: s.policy,
                limit: s.limit,
                remaining: s.policy.max_requests,
                reset: s.policy.time_window,
                rollover: None,
            }
        } else {
            s
        },
        None => s,
    }
}

/// How long a throttled caller should wait at time `now`: until the
/// rollover instant where one is armed, else one full window.
pub open spec fn spec_wait(s: RateLimit, now: u64) -> u64 {
    match s.rollover {
        Some(r) => (r - now) as u64,
        None => s.policy.time_window,
    }
}

/// The wait a `429` response dictates: the numeric `retry-after`
/// header where it parses, else one full window.
pub open spec fn spec_retry_wait(h: HeaderValues, window: u64) -> u64 {
    match spec_opt_parse(h.retry_after) {
        Some(v) => v,
        None => window,
    }
}

impl RateLimit {
    /// The state of a freshly constructed client: the default policy,
    /// a full budget, and no rollover pending.
    pub fn new() -> (r: Self)
        ensures
            r.policy.max_requests == 50,
            r.policy.time_window == 30,
            r.limit == 50,
            r.remaining == 50,
            r.reset == 30,
            r.rollover is None,
    {
        RateLimit {
            policy: RateLimitPolicy::default(),
            limit: 50,
            remaining: 50,
            reset: 30,
            rollover: None,
        }
    }

    /// The pre-flight budget check. Refreshes the budget where the
    /// clock has passed the rollover instant, then fails exactly where
    /// fewer than 5 requests remain — a safety margin short of the
    /// server's own limit. Success has no side effect beyond the
    /// refresh: only server-reported counters consume budget.
    pub fn check_rate_limit(&mut self, now: u64) -> (r: Result<(), ApiError>)
        ensures
            *final(self) == spec_rolled(*old(self), now),
            r is Err <==> final(self).remaining < 5,
            r matches Err(e) ==> (e matches ApiError::RateLimit(w) && w == spec_wait(*final(self), now)),
    {
        if let Some(rollover) = self.rollover {
            if now > rollover {
                self.rollover = None;
                self.remaining = self.policy.max_requests;
                self.reset = self.policy.time_window;
            }
        }

        if self.remaining < 5 {
            let wait = match self.rollover {
                Some(rollover) => rollover - now,
                None => self.policy.time_window,
            };
            return Err(ApiError::RateLimit(wait));
        }

        Ok(())
    }

    /// Absorbs one response's rate-limit headers at time `now`. Each
    /// header is read independently and tolerantly: a missing or
    /// unparsable value leaves its field untouched.
    pub fn update_rate_limit(&mut self, headers: &HeaderValues, now: u64)
        ensures
            *final(self) == spec_updated(*old(self), *headers, now),
    {
        if let Some(p) = &headers.policy {
            if let Some((max_requests, time_window)) = parse_policy(p.as_str()) {
                if let Some(v) = max_requests {
                    self.policy.max_requests = v;
                }
                if let Some(v) = time_window {
                    self.policy.time_window = v;
                }
            }
        }

        if let Some(s) = &headers.limit {
            if let Some(v) = parse_u64(s.as_str()) {
                self.limit = v;
            }
        }

        if let Some(s) = &headers.remaining {
            if let Some(v) = parse_u64(s.as_str()) {
                self.remaining = v;
            }
        }

        if let Some(s) = &headers.reset {
            if let Some(v) = parse_u64(s.as_str()) {
                self.reset = v;
                self.rollover = now.checked_add(v);
            }
        }
    }

    /// Classifies one response after the transport succeeded: absorbs
    /// the headers first, unconditionally, then maps the status code.
    /// `429` is always a throttle, with `retry-after` taking
    /// precedence over the freshly updated window for this call's
    /// wait; `404` is always an absence, whatever the budget says;
    /// `5xx` is an upstream fault. `Ok` means the body is worth
    /// reading.
    pub fn process_response(&mut self, status: u16, headers: &HeaderValues, now: u64) -> (r:
        Result<(), ApiError>)
        ensures
            *final(self) == spec_updated(*old(self), *headers, now),
            status == 429 ==> (r matches Err(e) && e matches ApiError::RateLimit(w) && w
                == spec_retry_wait(*headers, final(self).policy.time_window)),
            status == 404 ==> (r matches Err(e) && e is NotFound),
            500 <= status <= 599 ==> (r matches Err(e) && e is ServerError),
            status != 429 && status != 404 && !(500 <= status <= 599) ==> r is Ok,
    {
        self.update_rate_limit(headers, now);

        if status == 429 {
            let wait = match &headers.retry_after {
                Some(s) => match parse_u64(s.as_str()) {
                    Some(v) => v,
                    None => self.policy.time_window,
                },
                None => self.policy.time_window,
            };
            return Err(ApiError::RateLimit(wait));
        }

        if status == 404 {
            return Err(ApiError::NotFound);
        }

        if status >= 500 && status <= 599 {
            return Err(ApiError::ServerError);
        }

        Ok(())
    }
}

/// Law: in a state with fewer than 5 requests remaining and no
/// rollover armed, the pre-flight check leaves the state as it is and
/// the reported wait is one full policy window, whatever the clock
/// reads.
pub proof fn lemma_low_budget_waits_full_window(s: RateLimit, now: u64)
    requires
        s.remaining < 5,
        s.rollover is None,
    ensures
        spec_rolled(s, now) == s,
        spec_wait(spec_rolled(s, now), now) == s.policy.time_window,
{
}

/// Law: once the clock has passed the rollover instant, the
/// pre-flight check refreshes `remaining` to the policy's maximum and
/// `reset` to the policy's window, clears the rollover, and touches
/// nothing else.
pub proof fn lemma_rollover_refreshes_budget(s: RateLimit, now: u64, r: u64)
    requires
        s.rollover == Some(r),
        now > r,
    ensures
        spec_rolled(s, now).remaining == s.policy.max_requests,
        spec_rolled(s, now).reset == s.policy.time_window,
        spec_rolled(s, now).rollover is None,
        spec_rolled(s, now).policy == s.policy,
        spec_rolled(s, now).limit == s.limit,
{
}

/// Maps a failed transport attempt to the error a caller sees: a
/// timeout becomes `TimedOut`, any other cause is surfaced unchanged.
pub fn transport_failure(timed_out: bool, cause: reqwest::Error) -> (r: ApiError)
    ensures
        timed_out ==> r is TimedOut,
        !timed_out ==> (r matches ApiError::RequestError(c) && c == cause),
{
    if timed_out {
        ApiError::TimedOut
    } else {
        ApiError::RequestError(cause)
    }
}

} // verus!

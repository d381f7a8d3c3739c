//! Shared rate-limit state for the webhook sink.
//!
//! One value of [`RateLimitState`] is created at startup and shared (under
//! outside mutual exclusion) by every concurrent webhook invocation. The
//! state starts unlimited and is overwritten field by field from the
//! rate-limit headers of each server response; a malformed header value is
//! treated as absent rather than panicking the reporting path.

use vstd::prelude::*;
use crate::textnum::{parse_i64_text, parse_u64_text, spec_parse_i64, spec_parse_u64};

verus! {

/// The most recently observed rate-limit quota for the webhook sink.
/// Times are absolute epoch seconds; durations are seconds.
#[derive(Clone, Copy, Debug)]
pub struct RateLimitState {
    pub limit: i64,
    pub remaining: i64,
    pub reset_at: Option<u64>,
    pub reset_after: Option<u64>,
}

/// One set of parsed rate-limit response headers: a field is `Some` only
/// when the corresponding header was present and well formed.
#[derive(Clone, Copy, Debug)]
pub struct RateLimitUpdate {
    pub limit: Option<i64>,
    pub remaining: Option<i64>,
    pub reset_at: Option<u64>,
    pub reset_after: Option<u64>,
}

/// The state before any server response: unlimited quota, no reset time.
pub open spec fn spec_unlimited() -> RateLimitState {
    RateLimitState { limit: i64::MAX, remaining: i64::MAX, reset_at: None, reset_after: None }
}

/// The state after applying one set of response headers: fields present
/// in the update overwrite, absent fields are left unchanged.
pub open spec fn spec_apply_update(st: RateLimitState, u: RateLimitUpdate) -> RateLimitState {
    RateLimitState {
        limit: if u.limit is Some {
            u.limit->0
        } else {
            st.limit
        },
        remaining: if u.remaining is Some {
            u.remaining->0
        } else {
            st.remaining
        },
        reset_at: if u.reset_at is Some {
            u.reset_at
        } else {
            st.reset_at
        },
        reset_after: if u.reset_after is Some {
            u.reset_after
        } else {
            st.reset_after
        },
    }
}

/// The wait decision: when the quota is exhausted and the current time
/// is still before the reset time, the duration to sleep (the advertised
/// reset-after delay, or zero when the server gave none); otherwise no
/// wait.
pub open spec fn spec_should_wait(st: RateLimitState, now: u64) -> Option<u64> {
    if st.remaining == 0 && st.reset_at is Some && now < st.reset_at->0 {
        Some(
            if st.reset_after is Some {
                st.reset_after->0
            } else {
                0
            },
        )
    } else {
        None
    }
}

impl Default for RateLimitState {
    /// The initial, unlimited state used until the first server response.
    fn default() -> (r: Self)
        ensures
            r == spec_unlimited(),
    {
        RateLimitState { limit: i64::MAX, remaining: i64::MAX, reset_at: None, reset_after: None }
    }
}

impl RateLimitState {
    /// Decides, as a snapshot under the caller's lock, whether the next
    /// send must first sleep, and for how long. The sleep itself happens
    /// outside the lock.
    pub fn should_wait(&self, now: u64) -> (r: Option<u64>)
        ensures
            r == spec_should_wait(*self, now),
    {
        let exhausted = self.remaining == 0;
        match self.reset_at {
            Some(reset_at) if exhausted && now < reset_at => match self.reset_after {
                Some(d) => Some(d),
                None => Some(0),
            },
            _ => None,
        }
    }

    /// Overwrites the fields present in one set of parsed response
    /// headers; absent fields keep their previous value (partial updates
    /// are expected and normal).
    pub fn apply_update(&mut self, u: &RateLimitUpdate)
        ensures
            *final(self) == spec_apply_update(*old(self), *u),
    {
        if let Some(l) = u.limit {
            self.limit = l;
        }
        if let Some(r) = u.remaining {
            self.remaining = r;
        }
        if let Some(t) = u.reset_at {
            self.reset_at = Some(t);
        }
        if let Some(d) = u.reset_after {
            self.reset_after = Some(d);
        }
    }
}

/// What one optional signed header value contributes to an update:
/// nothing when absent or malformed, its parsed value otherwise.
pub open spec fn spec_header_i64(h: Option<Seq<char>>) -> Option<i64> {
    if h is Some {
        spec_parse_i64(h->0)
    } else {
        None
    }
}

/// What one optional unsigned header value contributes to an update:
/// nothing when absent or malformed, its parsed value otherwise.
pub open spec fn spec_header_u64(h: Option<Seq<char>>) -> Option<u64> {
    if h is Some {
        spec_parse_u64(h->0)
    } else {
        None
    }
}

/// The view of an optional header value: the character sequence when
/// the header is present.
pub open spec fn spec_header_view(h: Option<&str>) -> Option<Seq<char>> {
    match h {
        Some(s) => Some(s@),
        None => None,
    }
}

/// Turns the four raw rate-limit header values of one response into an
/// update. A header that is absent, or whose value does not parse as a
/// decimal integer of the right signedness and width, contributes
/// nothing (the field stays absent).
pub fn update_of_headers(
    limit: Option<&str>,
    remaining: Option<&str>,
    reset_at: Option<&str>,
    reset_after: Option<&str>,
) -> (u: RateLimitUpdate)
    ensures
        u.limit == spec_header_i64(spec_header_view(limit)),
        u.remaining == spec_header_i64(spec_header_view(remaining)),
        u.reset_at == spec_header_u64(spec_header_view(reset_at)),
        u.reset_after == spec_header_u64(spec_header_view(reset_after)),
{
    RateLimitUpdate {
        limit: match limit {
            Some(s) => parse_i64_text(s),
            None => None,
        },
        remaining: match remaining {
            Some(s) => parse_i64_text(s),
            None => None,
        },
        reset_at: match reset_at {
            Some(s) => parse_u64_text(s),
            None => None,
        },
        reset_after: match reset_after {
            Some(s) => parse_u64_text(s),
            None => None,
        },
    }
}

/// After an update whose headers say the quota is exhausted
/// (`remaining` zero) with a reset time still in the future, the next
/// wait decision does ask for a wait.
pub proof fn lemma_wait_after_exhausted(st: RateLimitState, u: RateLimitUpdate, now: u64)
    requires
        u.remaining == Some(0i64),
        u.reset_at is Some,
        now < u.reset_at->0,
    ensures
        spec_should_wait(spec_apply_update(st, u), now) is Some,
{
}

/// After an update whose headers say quota remains (`remaining`
/// positive), the next wait decision asks for no wait.
pub proof fn lemma_no_wait_when_quota_left(st: RateLimitState, u: RateLimitUpdate, now: u64)
    requires
        u.remaining is Some,
        u.remaining->0 > 0,
    ensures
        spec_should_wait(spec_apply_update(st, u), now) is None,
{
}

} // verus!

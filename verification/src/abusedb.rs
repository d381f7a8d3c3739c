//! The abuse-database sink: what one report request holds, and how the
//! response is classified.
//!
//! The sink sends a single POST per report and never retries: a 429 is
//! a terminal failure for the call. Every call is funneled through the
//! report cache; a transport failure is the one outcome that is not
//! cached, so a later duplicate gets a fresh attempt.

use vstd::prelude::*;
use crate::addr::{spec_ip_text, IpAddress};
use crate::comment::{abuse_comment, join_comma, spec_abuse_comment, spec_join_comma};
use crate::settings::AbuseDbConfig;

verus! {

/// The fields of one abuse-database report request body: the address,
/// the comma-joined category codes, and the composed comment.
pub struct AbuseReport {
    pub ip_text: String,
    pub categories: String,
    pub comment: String,
}

/// Builds the body fields of one report request for a remote address
/// under an abuse-database configuration.
pub fn abuse_request(ip: &IpAddress, cfg: &AbuseDbConfig) -> (r: AbuseReport)
    ensures
        r.ip_text@ == spec_ip_text(*ip),
        r.categories@ == spec_join_comma(cfg.categories.deep_view()),
        r.comment@ == spec_abuse_comment(spec_ip_text(*ip), cfg.comment@),
{
    AbuseReport {
        ip_text: ip.text(),
        categories: join_comma(&cfg.categories),
        comment: abuse_comment(ip, &cfg.comment),
    }
}

/// How the abuse database answered one report: accepted, rate limited,
/// rejected with some other status, or not answered at all.
#[derive(Clone, Copy, PartialEq, Eq, Structural, Debug)]
pub enum AbuseOutcome {
    Reported,
    RateLimited,
    Rejected,
    TransportFailure,
}

/// The classification of one response: no response is a transport
/// failure, a 429 is rate limited, a 200 is accepted, anything else is
/// rejected.
pub open spec fn spec_abuse_outcome(status: Option<u16>) -> AbuseOutcome {
    match status {
        None => AbuseOutcome::TransportFailure,
        Some(code) => if code == 429 {
            AbuseOutcome::RateLimited
        } else if code == 200 {
            AbuseOutcome::Reported
        } else {
            AbuseOutcome::Rejected
        },
    }
}

/// Classifies one response of the abuse database, given as its status
/// code or nothing when the request itself failed.
pub fn abuse_outcome(status: Option<u16>) -> (r: AbuseOutcome)
    ensures
        r == spec_abuse_outcome(status),
{
    match status {
        None => AbuseOutcome::TransportFailure,
        Some(code) => if code == 429 {
            AbuseOutcome::RateLimited
        } else if code == 200 {
            AbuseOutcome::Reported
        } else {
            AbuseOutcome::Rejected
        },
    }
}

impl AbuseOutcome {
    /// The boolean report result: true exactly when the database
    /// accepted the report.
    pub fn reported(&self) -> (r: bool)
        ensures
            r == (*self is Reported),
    {
        match *self {
            AbuseOutcome::Reported => true,
            _ => false,
        }
    }

    /// Whether the outcome goes into the report cache: every outcome
    /// but a transport failure is cached, so only an unanswered request
    /// is retried for a duplicate address within the window.
    pub fn cacheable(&self) -> (r: bool)
        ensures
            r == !(*self is TransportFailure),
    {
        match *self {
            AbuseOutcome::TransportFailure => false,
            _ => true,
        }
    }
}

} // verus!

//! The webhook sink's retry state machine.
//!
//! The sink sends one HTTP POST per iteration: it first consults the
//! shared rate-limit state and sleeps when told to, then sends, then
//! classifies the response. A 429 updates the rate-limit state and
//! retries; a success updates the state and finishes; a transport
//! failure or any other status finishes as a failure without touching
//! the state. The network call itself happens outside the library; the
//! library decides, from each response, what to do next.

use vstd::prelude::*;
use crate::addr::{spec_ip_text, IpAddress};
use crate::comment::{spec_webhook_content, webhook_content};
use crate::ratelimit::{spec_apply_update, spec_should_wait, RateLimitState, RateLimitUpdate};
use crate::settings::WebhookConfig;

verus! {

/// The fields of one webhook message body: the configured username and
/// the composed content.
pub struct WebhookRequest {
    pub username: String,
    pub content: String,
}

/// Builds the body fields of one webhook message for a remote address
/// observed at the given epoch second.
pub fn webhook_request(ip: &IpAddress, cfg: &WebhookConfig, epoch: u64) -> (r: WebhookRequest)
    ensures
        r.username@ == cfg.username@,
        r.content@ == spec_webhook_content(spec_ip_text(*ip), cfg.comment@, epoch),
{
    WebhookRequest {
        username: cfg.username.clone(),
        content: webhook_content(ip, &cfg.comment, epoch),
    }
}

/// What one send attempt came back with: a transport failure (no
/// response at all), or a status code with the parsed rate-limit
/// headers of the response.
#[derive(Clone, Copy, Debug)]
pub enum WebhookResponse {
    TransportFailure,
    Status { code: u16, headers: RateLimitUpdate },
}

/// What the loop does after a response: send again, or stop with an
/// outcome.
#[derive(Clone, Copy, PartialEq, Eq, Structural, Debug)]
pub enum WebhookStep {
    Retry,
    Done { success: bool },
}

/// An HTTP status code in the success range.
pub open spec fn spec_status_success(code: u16) -> bool {
    200 <= code && code < 300
}

/// The transition of the retry loop on one response: the rate-limit
/// state after it, and whether to retry or stop. Only a 429 and a
/// success carry their headers into the state; a transport failure or
/// any other status stops without an update.
pub open spec fn spec_webhook_step(st: RateLimitState, resp: WebhookResponse) -> (
    RateLimitState,
    WebhookStep,
) {
    match resp {
        WebhookResponse::TransportFailure => (st, WebhookStep::Done { success: false }),
        WebhookResponse::Status { code, headers } => {
            if code == 429 {
                (spec_apply_update(st, headers), WebhookStep::Retry)
            } else if spec_status_success(code) {
                (spec_apply_update(st, headers), WebhookStep::Done { success: true })
            } else {
                (st, WebhookStep::Done { success: false })
            }
        },
    }
}

/// Classifies one response and applies its rate-limit headers to the
/// shared state exactly when the transition says so.
pub fn webhook_on_response(st: &mut RateLimitState, resp: &WebhookResponse) -> (r: WebhookStep)
    ensures
        (*final(st), r) == spec_webhook_step(*old(st), *resp),
{
    match resp {
        WebhookResponse::TransportFailure => WebhookStep::Done { success: false },
        WebhookResponse::Status { code, headers } => {
            if *code == 429 {
                st.apply_update(headers);
                WebhookStep::Retry
            } else if 200 <= *code && *code < 300 {
                st.apply_update(headers);
                WebhookStep::Done { success: true }
            } else {
                WebhookStep::Done { success: false }
            }
        },
    }
}

/// The summary of one full run of the retry loop against a sequence of
/// responses: how many sends it made, in how many iterations it first
/// slept, and the outcome (`None` when the responses ran out while the
/// loop still wanted to retry).
#[derive(Clone, Copy, PartialEq, Eq, Structural, Debug)]
pub struct WebhookRun {
    pub sends: usize,
    pub waits: usize,
    pub outcome: Option<bool>,
}

/// What the retry loop does on a given sequence of responses, one per
/// send: the rate-limit state it leaves behind, the number of sends,
/// the number of iterations that began with a wait, and the outcome.
pub open spec fn spec_webhook_run(st: RateLimitState, rs: Seq<WebhookResponse>, now: u64) -> (
    RateLimitState,
    nat,
    nat,
    Option<bool>,
)
    decreases rs.len(),
{
    if rs.len() == 0 {
        (st, 0nat, 0nat, None::<bool>)
    } else {
        let w: nat = if spec_should_wait(st, now) is Some {
            1nat
        } else {
            0nat
        };
        let stepped = spec_webhook_step(st, rs[0]);
        match stepped.1 {
            WebhookStep::Done { success } => (stepped.0, 1nat, w, Some(success)),
            WebhookStep::Retry => {
                let rest = spec_webhook_run(stepped.0, rs.drop_first(), now);
                (rest.0, (1 + rest.1) as nat, (w + rest.2) as nat, rest.3)
            },
        }
    }
}

fn webhook_run_from(
    st: &mut RateLimitState,
    responses: &Vec<WebhookResponse>,
    idx: usize,
    now: u64,
) -> (r: WebhookRun)
    requires
        idx <= responses@.len(),
    ensures
        ({
            let run = spec_webhook_run(*old(st), responses@.skip(idx as int), now);
            &&& *final(st) == run.0
            &&& r.sends as nat == run.1
            &&& r.waits as nat == run.2
            &&& r.outcome == run.3
        }),
        r.sends <= responses@.len() - idx,
        r.waits <= r.sends,
    decreases responses@.len() - idx,
{
    let ghost rem = responses@.skip(idx as int);
    if idx == responses.len() {
        return WebhookRun { sends: 0, waits: 0, outcome: None };
    }
    proof {
        assert(rem.len() == responses@.len() - idx);
        assert(rem[0] == responses@[idx as int]);
    }
    let waited: usize = if st.should_wait(now).is_some() {
        1
    } else {
        0
    };
    let step = webhook_on_response(st, &responses[idx]);
    match step {
        WebhookStep::Done { success } => WebhookRun { sends: 1, waits: waited, outcome: Some(
            success,
        ) },
        WebhookStep::Retry => {
            let rest = webhook_run_from(st, responses, idx + 1, now);
            proof {
                assert(rem.drop_first() =~= responses@.skip(idx + 1));
            }
            WebhookRun {
                sends: 1 + rest.sends,
                waits: waited + rest.waits,
                outcome: rest.outcome,
            }
        },
    }
}

/// Runs the retry loop against a scripted sequence of responses, one
/// consumed per send, starting from the given rate-limit state and a
/// fixed current time. Outside the library the loop is driven one real
/// response at a time with [`webhook_on_response`]; this function is
/// that same loop, verified for every response sequence.
pub fn webhook_run(st: &mut RateLimitState, responses: &Vec<WebhookResponse>, now: u64) -> (r:
    WebhookRun)
    ensures
        ({
            let run = spec_webhook_run(*old(st), responses@, now);
            &&& *final(st) == run.0
            &&& r.sends as nat == run.1
            &&& r.waits as nat == run.2
            &&& r.outcome == run.3
        }),
        r.sends <= responses@.len(),
        r.waits <= r.sends,
{
    proof {
        assert(responses@.skip(0) =~= responses@);
    }
    webhook_run_from(st, responses, 0, now)
}

} // verus!

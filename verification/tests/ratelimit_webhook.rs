use simple_ssh_pot::ratelimit::{update_of_headers, RateLimitState, RateLimitUpdate};
use simple_ssh_pot::webhook::{webhook_on_response, webhook_run, WebhookResponse, WebhookStep};

fn no_headers() -> RateLimitUpdate {
    update_of_headers(None, None, None, None)
}

fn exhausted_headers(reset_at: u64, reset_after: u64) -> RateLimitUpdate {
    RateLimitUpdate {
        limit: Some(5),
        remaining: Some(0),
        reset_at: Some(reset_at),
        reset_after: Some(reset_after),
    }
}

#[test]
fn default_state_is_unlimited() {
    let st = RateLimitState::default();
    assert_eq!(st.limit, i64::MAX);
    assert_eq!(st.remaining, i64::MAX);
    assert!(st.reset_at.is_none());
    assert!(st.reset_after.is_none());
    assert_eq!(st.should_wait(0), None);
}

#[test]
fn should_wait_after_exhausting_update() {
    let mut st = RateLimitState::default();
    st.apply_update(&exhausted_headers(1000, 3));
    assert_eq!(st.should_wait(999), Some(3));
    // at or past the reset time no wait is asked for
    assert_eq!(st.should_wait(1000), None);
    assert_eq!(st.should_wait(2000), None);
}

#[test]
fn no_wait_when_quota_remains() {
    let mut st = RateLimitState::default();
    st.apply_update(&exhausted_headers(1000, 3));
    st.apply_update(&RateLimitUpdate {
        limit: None,
        remaining: Some(2),
        reset_at: None,
        reset_after: None,
    });
    assert_eq!(st.should_wait(999), None);
}

#[test]
fn partial_update_keeps_absent_fields() {
    let mut st = RateLimitState::default();
    st.apply_update(&exhausted_headers(1000, 3));
    st.apply_update(&no_headers());
    assert_eq!(st.limit, 5);
    assert_eq!(st.remaining, 0);
    assert_eq!(st.reset_at, Some(1000));
    assert_eq!(st.reset_after, Some(3));
}

#[test]
fn malformed_header_values_count_as_absent() {
    let u = update_of_headers(Some("abc"), Some("-"), Some("1x"), Some("-4"));
    assert!(u.limit.is_none());
    assert!(u.remaining.is_none());
    assert!(u.reset_at.is_none());
    assert!(u.reset_after.is_none());
    let v = update_of_headers(Some("10"), Some("-1"), Some("1000"), Some("7"));
    assert_eq!(v.limit, Some(10));
    assert_eq!(v.remaining, Some(-1));
    assert_eq!(v.reset_at, Some(1000));
    assert_eq!(v.reset_after, Some(7));
}

#[test]
fn rate_limited_responses_then_success() {
    // responses [429, 429, 200]: three sends, two wait phases, success
    let mut st = RateLimitState::default();
    let now: u64 = 100;
    let responses = vec![
        WebhookResponse::Status { code: 429, headers: exhausted_headers(5000, 2) },
        WebhookResponse::Status { code: 429, headers: exhausted_headers(5000, 2) },
        WebhookResponse::Status { code: 200, headers: no_headers() },
    ];
    let run = webhook_run(&mut st, &responses, now);
    assert_eq!(run.sends, 3);
    assert_eq!(run.waits, 2);
    assert_eq!(run.outcome, Some(true));
}

#[test]
fn transport_failure_stops_without_update() {
    let mut st = RateLimitState::default();
    let responses = vec![WebhookResponse::TransportFailure];
    let run = webhook_run(&mut st, &responses, 0);
    assert_eq!(run.sends, 1);
    assert_eq!(run.waits, 0);
    assert_eq!(run.outcome, Some(false));
    assert_eq!(st.remaining, i64::MAX);
}

#[test]
fn rejected_status_stops_without_update() {
    let mut st = RateLimitState::default();
    let responses = vec![
        WebhookResponse::Status { code: 404, headers: exhausted_headers(5000, 2) },
    ];
    let run = webhook_run(&mut st, &responses, 0);
    assert_eq!(run.sends, 1);
    assert_eq!(run.outcome, Some(false));
    // a non-429, non-success response does not touch the state
    assert_eq!(st.remaining, i64::MAX);
    assert!(st.reset_at.is_none());
}

#[test]
fn success_applies_response_headers() {
    let mut st = RateLimitState::default();
    let step = webhook_on_response(
        &mut st,
        &WebhookResponse::Status {
            code: 204,
            headers: RateLimitUpdate {
                limit: Some(5),
                remaining: Some(4),
                reset_at: Some(900),
                reset_after: Some(60),
            },
        },
    );
    assert_eq!(step, WebhookStep::Done { success: true });
    assert_eq!(st.limit, 5);
    assert_eq!(st.remaining, 4);
    assert_eq!(st.reset_at, Some(900));
    assert_eq!(st.reset_after, Some(60));
}

#[test]
fn no_wait_when_reset_already_passed() {
    let mut st = RateLimitState::default();
    let responses = vec![
        WebhookResponse::Status { code: 429, headers: exhausted_headers(50, 2) },
        WebhookResponse::Status { code: 200, headers: no_headers() },
    ];
    // the advertised reset time lies before the current time, so the
    // retry sends again without sleeping
    let run = webhook_run(&mut st, &responses, 100);
    assert_eq!(run.sends, 2);
    assert_eq!(run.waits, 0);
    assert_eq!(run.outcome, Some(true));
}

#[test]
fn responses_can_run_out_while_rate_limited() {
    let mut st = RateLimitState::default();
    let responses = vec![
        WebhookResponse::Status { code: 429, headers: exhausted_headers(5000, 2) },
        WebhookResponse::Status { code: 429, headers: exhausted_headers(5000, 2) },
    ];
    let run = webhook_run(&mut st, &responses, 100);
    assert_eq!(run.sends, 2);
    assert_eq!(run.outcome, None);
    // the state keeps the last update for the next attempt
    assert_eq!(st.remaining, 0);
    assert_eq!(st.reset_at, Some(5000));
}

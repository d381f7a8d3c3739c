use simple_ssh_pot::abusedb::{abuse_outcome, AbuseOutcome};
use simple_ssh_pot::addr::IpAddress;
use simple_ssh_pot::dispatch::dispatch_plan;
use simple_ssh_pot::settings::{AbuseDbConfig, CommentConfig, Configuration, WebhookConfig};

fn empty_template() -> CommentConfig {
    CommentConfig {
        hostname: String::new(),
        display_port: String::new(),
        message: String::new(),
    }
}

fn both_sinks_enabled() -> Configuration {
    Configuration {
        bind: IpAddress::V4 { a: 0, b: 0, c: 0, d: 0 },
        port: 8080,
        abuse_db: AbuseDbConfig {
            enabled: true,
            url: "https://example.test/report".to_string(),
            key: "k".to_string(),
            categories: vec!["14".to_string()],
            comment: empty_template(),
        },
        webhook: WebhookConfig {
            enabled: true,
            url: "https://example.test/hook".to_string(),
            username: "sentry".to_string(),
            comment: empty_template(),
        },
    }
}

#[test]
fn private_address_starts_no_task() {
    // observed connection from 10.0.0.5: no sink is invoked
    let config = both_sinks_enabled();
    let plan = dispatch_plan(&IpAddress::V4 { a: 10, b: 0, c: 0, d: 5 }, &config);
    assert!(!plan.abuse_db);
    assert!(!plan.webhook);
}

#[test]
fn loopback_address_starts_no_task() {
    let config = both_sinks_enabled();
    let plan = dispatch_plan(&IpAddress::V4 { a: 127, b: 0, c: 0, d: 1 }, &config);
    assert!(!plan.abuse_db);
    assert!(!plan.webhook);
}

#[test]
fn public_address_starts_one_task_per_enabled_sink() {
    // observed connection from 203.0.113.7 with both sinks enabled:
    // two independent reporting tasks
    let config = both_sinks_enabled();
    let plan = dispatch_plan(&IpAddress::V4 { a: 203, b: 0, c: 113, d: 7 }, &config);
    assert!(plan.abuse_db);
    assert!(plan.webhook);
}

#[test]
fn disabled_sink_gets_no_task() {
    let mut config = both_sinks_enabled();
    config.abuse_db.enabled = false;
    let plan = dispatch_plan(&IpAddress::V4 { a: 203, b: 0, c: 113, d: 7 }, &config);
    assert!(!plan.abuse_db);
    assert!(plan.webhook);
    config.webhook.enabled = false;
    let plan = dispatch_plan(&IpAddress::V4 { a: 203, b: 0, c: 113, d: 7 }, &config);
    assert!(!plan.abuse_db);
    assert!(!plan.webhook);
}

#[test]
fn abuse_response_classification() {
    assert_eq!(abuse_outcome(Some(200)), AbuseOutcome::Reported);
    assert_eq!(abuse_outcome(Some(429)), AbuseOutcome::RateLimited);
    assert_eq!(abuse_outcome(Some(403)), AbuseOutcome::Rejected);
    assert_eq!(abuse_outcome(Some(201)), AbuseOutcome::Rejected);
    assert_eq!(abuse_outcome(None), AbuseOutcome::TransportFailure);
}

#[test]
fn abuse_outcome_value_and_cacheability() {
    assert!(abuse_outcome(Some(200)).reported());
    assert!(abuse_outcome(Some(200)).cacheable());
    assert!(!abuse_outcome(Some(429)).reported());
    assert!(abuse_outcome(Some(429)).cacheable());
    assert!(!abuse_outcome(Some(500)).reported());
    assert!(abuse_outcome(Some(500)).cacheable());
    assert!(!abuse_outcome(None).reported());
    assert!(!abuse_outcome(None).cacheable());
}

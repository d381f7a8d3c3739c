use simple_ssh_pot::abusedb::abuse_request;
use simple_ssh_pot::addr::IpAddress;
use simple_ssh_pot::comment::{abuse_comment, join_comma, webhook_content};
use simple_ssh_pot::settings::{AbuseDbConfig, CommentConfig};
use simple_ssh_pot::webhook::webhook_request;
use simple_ssh_pot::settings::WebhookConfig;

fn ip_1_2_3_4() -> IpAddress {
    IpAddress::V4 { a: 1, b: 2, c: 3, d: 4 }
}

fn template(hostname: &str, display_port: &str, message: &str) -> CommentConfig {
    CommentConfig {
        hostname: hostname.to_string(),
        display_port: display_port.to_string(),
        message: message.to_string(),
    }
}

#[test]
fn abuse_comment_all_fields() {
    let cc = template("h", "22", "m");
    assert_eq!(
        abuse_comment(&ip_1_2_3_4(), &cc).as_str(),
        "Connection attemp from 1.2.3.4 to port 22 (h): m"
    );
}

#[test]
fn abuse_comment_empty_fields_fully_omitted() {
    assert_eq!(
        abuse_comment(&ip_1_2_3_4(), &template("", "", "")).as_str(),
        "Connection attemp from 1.2.3.4"
    );
    assert_eq!(
        abuse_comment(&ip_1_2_3_4(), &template("h", "", "")).as_str(),
        "Connection attemp from 1.2.3.4 (h)"
    );
    assert_eq!(
        abuse_comment(&ip_1_2_3_4(), &template("", "22", "")).as_str(),
        "Connection attemp from 1.2.3.4 to port 22"
    );
    assert_eq!(
        abuse_comment(&ip_1_2_3_4(), &template("", "", "m")).as_str(),
        "Connection attemp from 1.2.3.4: m"
    );
}

#[test]
fn webhook_content_embeds_timestamp_after_port() {
    let cc = template("h", "22", "m");
    assert_eq!(
        webhook_content(&ip_1_2_3_4(), &cc, 1700000000).as_str(),
        "Connection attemp from 1.2.3.4 to port 22 <t:1700000000:D><t:1700000000:T> (h): m"
    );
    assert_eq!(
        webhook_content(&ip_1_2_3_4(), &template("", "", ""), 0).as_str(),
        "Connection attemp from 1.2.3.4 <t:0:D><t:0:T>"
    );
}

#[test]
fn abuse_comment_with_v6_address() {
    let ip = IpAddress::V6 { s0: 0x2001, s1: 0x0db8, s2: 0, s3: 0, s4: 0, s5: 0, s6: 0, s7: 1 };
    assert_eq!(
        abuse_comment(&ip, &template("h", "", "")).as_str(),
        "Connection attemp from 2001:db8::1 (h)"
    );
}

#[test]
fn categories_join_with_commas() {
    let cats: Vec<String> = vec!["14".to_string(), "18".to_string(), "22".to_string()];
    assert_eq!(join_comma(&cats).as_str(), "14,18,22");
    let one: Vec<String> = vec!["14".to_string()];
    assert_eq!(join_comma(&one).as_str(), "14");
    let none: Vec<String> = Vec::new();
    assert_eq!(join_comma(&none).as_str(), "");
}

#[test]
fn abuse_request_fields() {
    let cfg = AbuseDbConfig {
        enabled: true,
        url: "https://example.test/report".to_string(),
        key: "k".to_string(),
        categories: vec!["14".to_string(), "18".to_string()],
        comment: template("h", "22", "m"),
    };
    let req = abuse_request(&ip_1_2_3_4(), &cfg);
    assert_eq!(req.ip_text.as_str(), "1.2.3.4");
    assert_eq!(req.categories.as_str(), "14,18");
    assert_eq!(
        req.comment.as_str(),
        "Connection attemp from 1.2.3.4 to port 22 (h): m"
    );
}

#[test]
fn webhook_request_fields() {
    let cfg = WebhookConfig {
        enabled: true,
        url: "https://example.test/hook".to_string(),
        username: "sentry".to_string(),
        comment: template("", "22", ""),
    };
    let req = webhook_request(&ip_1_2_3_4(), &cfg, 42);
    assert_eq!(req.username.as_str(), "sentry");
    assert_eq!(
        req.content.as_str(),
        "Connection attemp from 1.2.3.4 to port 22 <t:42:D><t:42:T>"
    );
}

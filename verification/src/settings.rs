//! Immutable sink and listener configuration, loaded once at startup.
//!
//! The abuse-database configuration doubles as part of the report-cache
//! key, so the types come with verified structural equality over their
//! views and with verified duplication (a clone whose contract says the
//! copy views equal).

use vstd::prelude::*;
use crate::addr::IpAddress;

verus! {

/// The free-text comment template of a sink: hostname, displayed
/// destination port, and trailing message. An empty field is omitted
/// from the composed comment, separators included.
#[derive(Clone, Debug)]
pub struct CommentConfig {
    pub hostname: String,
    pub display_port: String,
    pub message: String,
}

/// The ghost image of a comment template.
pub struct CommentConfigView {
    pub hostname: Seq<char>,
    pub display_port: Seq<char>,
    pub message: Seq<char>,
}

impl View for CommentConfig {
    type V = CommentConfigView;

    open spec fn view(&self) -> CommentConfigView {
        CommentConfigView {
            hostname: self.hostname@,
            display_port: self.display_port@,
            message: self.message@,
        }
    }
}

/// Configuration of the abuse-database sink.
#[derive(Clone, Debug)]
pub struct AbuseDbConfig {
    pub enabled: bool,
    pub url: String,
    pub key: String,
    pub categories: Vec<String>,
    pub comment: CommentConfig,
}

/// The ghost image of an abuse-database sink configuration.
pub struct AbuseDbConfigView {
    pub enabled: bool,
    pub url: Seq<char>,
    pub key: Seq<char>,
    pub categories: Seq<Seq<char>>,
    pub comment: CommentConfigView,
}

impl View for AbuseDbConfig {
    type V = AbuseDbConfigView;

    open spec fn view(&self) -> AbuseDbConfigView {
        AbuseDbConfigView {
            enabled: self.enabled,
            url: self.url@,
            key: self.key@,
            categories: self.categories.deep_view(),
            comment: self.comment@,
        }
    }
}

/// Configuration of the chat-webhook sink.
#[derive(Clone, Debug)]
pub struct WebhookConfig {
    pub enabled: bool,
    pub url: String,
    pub username: String,
    pub comment: CommentConfig,
}

/// The whole loaded configuration: listener address and the two sinks.
#[derive(Clone, Debug)]
pub struct Configuration {
    pub bind: IpAddress,
    pub port: u16,
    pub abuse_db: AbuseDbConfig,
    pub webhook: WebhookConfig,
}

fn vec_string_eq(a: &Vec<String>, b: &Vec<String>) -> (r: bool)
    ensures
        r == (a.deep_view() == b.deep_view()),
{
    if a.len() != b.len() {
        proof {
            assert(a.deep_view().len() != b.deep_view().len());
        }
        return false;
    }
    let n = a.len();
    let mut i: usize = 0;
    while i < n
        invariant
            n == a@.len() == b@.len(),
            0 <= i <= n,
            forall|j: int| 0 <= j < i ==> a.deep_view()[j] == b.deep_view()[j],
        decreases n - i,
    {
        if !(a[i] == b[i]) {
            proof {
                assert(a.deep_view()[i as int] != b.deep_view()[i as int]);
            }
            return false;
        }
        proof {
            assert(a.deep_view()[i as int] == b.deep_view()[i as int]);
        }
        i = i + 1;
    }
    proof {
        assert(a.deep_view() =~= b.deep_view());
    }
    true
}

fn vec_string_duplicate(a: &Vec<String>) -> (r: Vec<String>)
    ensures
        r.deep_view() == a.deep_view(),
{
    let mut r: Vec<String> = Vec::new();
    let n = a.len();
    let mut i: usize = 0;
    while i < n
        invariant
            n == a@.len(),
            0 <= i <= n,
            r@.len() == i,
            forall|j: int| 0 <= j < i ==> r.deep_view()[j] == a.deep_view()[j],
        decreases n - i,
    {
        r.push(a[i].clone());
        i = i + 1;
    }
    proof {
        assert(r.deep_view() =~= a.deep_view());
    }
    r
}

impl CommentConfig {
    /// Structural equality of two comment templates.
    pub fn same_as(&self, other: &CommentConfig) -> (r: bool)
        ensures
            r == (self@ == other@),
    {
        self.hostname == other.hostname && self.display_port == other.display_port && self.message
            == other.message
    }

    /// A copy with the same view.
    pub fn duplicate(&self) -> (r: CommentConfig)
        ensures
            r@ == self@,
    {
        CommentConfig {
            hostname: self.hostname.clone(),
            display_port: self.display_port.clone(),
            message: self.message.clone(),
        }
    }
}

impl AbuseDbConfig {
    /// Structural equality of two abuse-database configurations;
    /// identical configurations share one report-cache key.
    pub fn same_as(&self, other: &AbuseDbConfig) -> (r: bool)
        ensures
            r == (self@ == other@),
    {
        self.enabled == other.enabled && self.url == other.url && self.key == other.key
            && vec_string_eq(&self.categories, &other.categories) && self.comment.same_as(
            &other.comment,
        )
    }

    /// A copy with the same view.
    pub fn duplicate(&self) -> (r: AbuseDbConfig)
        ensures
            r@ == self@,
    {
        AbuseDbConfig {
            enabled: self.enabled,
            url: self.url.clone(),
            key: self.key.clone(),
            categories: vec_string_duplicate(&self.categories),
            comment: self.comment.duplicate(),
        }
    }
}

} // verus!

use simple_ssh_pot::addr::IpAddress;
use simple_ssh_pot::cache::{CacheDecision, ReportCache, ReportKey};
use simple_ssh_pot::settings::{AbuseDbConfig, CommentConfig};

fn sink_config() -> AbuseDbConfig {
    AbuseDbConfig {
        enabled: true,
        url: "https://example.test/report".to_string(),
        key: "k".to_string(),
        categories: vec!["14".to_string()],
        comment: CommentConfig {
            hostname: String::new(),
            display_port: String::new(),
            message: String::new(),
        },
    }
}

fn key_for(d: u8) -> ReportKey {
    ReportKey { ip: IpAddress::V4 { a: 203, b: 0, c: 113, d }, config: sink_config() }
}

#[test]
fn single_flight_collapses_concurrent_duplicates() {
    let mut cache = ReportCache::with_defaults();
    let k = key_for(7);
    // the first caller is told to send
    assert_eq!(cache.begin(&k, 0), CacheDecision::MustSend);
    // a concurrent duplicate is told a call is in flight, not to send
    assert_eq!(cache.begin(&k, 0), CacheDecision::InFlight);
    assert_eq!(cache.begin(&k, 10), CacheDecision::InFlight);
    // after the call completes, its outcome is shared from the cache
    cache.complete(&k, true, true, 10);
    assert_eq!(cache.begin(&k, 20), CacheDecision::Hit { value: true });
}

#[test]
fn distinct_keys_do_not_collapse() {
    let mut cache = ReportCache::with_defaults();
    assert_eq!(cache.begin(&key_for(1), 0), CacheDecision::MustSend);
    assert_eq!(cache.begin(&key_for(2), 0), CacheDecision::MustSend);
}

#[test]
fn cached_outcome_short_circuits_within_window() {
    let mut cache = ReportCache::new(50, 900);
    let k = key_for(7);
    assert_eq!(cache.begin(&k, 1000), CacheDecision::MustSend);
    cache.complete(&k, false, true, 1000);
    // a failed but cacheable outcome short-circuits duplicates too
    assert_eq!(cache.begin(&k, 1899), CacheDecision::Hit { value: false });
}

#[test]
fn expired_entries_are_misses() {
    let mut cache = ReportCache::new(50, 900);
    let k = key_for(7);
    assert_eq!(cache.begin(&k, 1000), CacheDecision::MustSend);
    cache.complete(&k, true, true, 1000);
    assert_eq!(cache.begin(&k, 1899), CacheDecision::Hit { value: true });
    // at the lifespan boundary the entry counts as absent again
    assert_eq!(cache.begin(&k, 1900), CacheDecision::MustSend);
}

#[test]
fn transport_failures_are_not_cached() {
    let mut cache = ReportCache::with_defaults();
    let k = key_for(7);
    assert_eq!(cache.begin(&k, 0), CacheDecision::MustSend);
    cache.complete(&k, false, false, 0);
    // a later duplicate gets a fresh attempt
    assert_eq!(cache.begin(&k, 1), CacheDecision::MustSend);
}

#[test]
fn over_capacity_evicts_least_recently_inserted() {
    let mut cache = ReportCache::new(3, 900);
    for d in 1..=3u8 {
        assert_eq!(cache.begin(&key_for(d), 0), CacheDecision::MustSend);
        cache.complete(&key_for(d), true, true, 0);
    }
    // a fourth distinct key evicts the oldest entry, key 1
    assert_eq!(cache.begin(&key_for(4), 1), CacheDecision::MustSend);
    cache.complete(&key_for(4), true, true, 1);
    assert_eq!(cache.begin(&key_for(1), 2), CacheDecision::MustSend);
    // keys 2, 3, 4 are still cached (key 1 is now in flight again)
    assert_eq!(cache.begin(&key_for(2), 2), CacheDecision::Hit { value: true });
    assert_eq!(cache.begin(&key_for(3), 2), CacheDecision::Hit { value: true });
    assert_eq!(cache.begin(&key_for(4), 2), CacheDecision::Hit { value: true });
}

#[test]
fn completing_replaces_stale_entry_for_same_key() {
    let mut cache = ReportCache::new(3, 900);
    let k = key_for(7);
    assert_eq!(cache.begin(&k, 0), CacheDecision::MustSend);
    cache.complete(&k, false, true, 0);
    // once expired, a new call runs and its outcome replaces the entry
    assert_eq!(cache.begin(&k, 1000), CacheDecision::MustSend);
    cache.complete(&k, true, true, 1000);
    assert_eq!(cache.begin(&k, 1001), CacheDecision::Hit { value: true });
}

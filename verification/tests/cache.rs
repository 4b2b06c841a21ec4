use eodhd_mcp::cache::{cache_disabled_flag, cache_key, entry_expired, CacheClass};
use std::time::Duration;

#[test]
fn ttl_classification_for_known_endpoints() {
    assert_eq!(CacheClass::for_endpoint("realtime"), CacheClass::Realtime);
    assert_eq!(CacheClass::for_endpoint("eod"), CacheClass::Eod);
    assert_eq!(CacheClass::for_endpoint("fundamentals"), CacheClass::Fundamentals);
    assert_eq!(CacheClass::for_endpoint("snapshot"), CacheClass::Snapshot);
    assert_eq!(CacheClass::for_endpoint("anything-else"), CacheClass::Snapshot);
}

#[test]
fn ttl_values_per_class() {
    assert_eq!(CacheClass::Realtime.ttl(), Duration::from_secs(60));
    assert_eq!(CacheClass::Eod.ttl(), Duration::from_secs(86_400));
    assert_eq!(CacheClass::Fundamentals.ttl(), Duration::from_secs(604_800));
    assert_eq!(CacheClass::Snapshot.ttl(), Duration::from_secs(3_600));
    assert_eq!(CacheClass::for_endpoint("intraday").ttl().as_secs(), 60);
    assert_eq!(CacheClass::for_endpoint("insider"), CacheClass::Fundamentals);
    assert_eq!(CacheClass::for_endpoint("bulk_eod"), CacheClass::Eod);
}

#[test]
fn expiry_is_strictly_after_ttl() {
    assert!(!entry_expired(100, 40, 60));
    assert!(entry_expired(101, 40, 60));
    assert!(!entry_expired(5, 5, 0));
    assert!(entry_expired(6, 5, 0));
}

#[test]
fn key_is_arg_order_independent() {
    let a = cache_key("fundamentals", &[("symbol", "AAPL.US"), ("filter", "General")]);
    let b = cache_key("fundamentals", &[("filter", "General"), ("symbol", "AAPL.US")]);
    assert_eq!(a, b);
}

#[test]
fn key_text_lists_sorted_arguments() {
    assert_eq!(cache_key("fundamentals", &[("symbol", "AAPL.US"), ("last_n", "8")]), "fundamentals:last_n=8&symbol=AAPL.US&");
    assert_eq!(cache_key("user", &[]), "user:");
}

#[test]
fn fundamentals_key_sorts_its_arguments() {
    assert_eq!(
        eodhd_mcp::cache::fundamentals_key("AAPL.US", 8),
        "fundamentals:last_n=8&symbol=AAPL.US&"
    );
}

#[test]
fn cache_switch_values() {
    assert!(cache_disabled_flag("1"));
    assert!(cache_disabled_flag("true"));
    assert!(cache_disabled_flag("TrUe"));
    assert!(!cache_disabled_flag("0"));
    assert!(!cache_disabled_flag("yes"));
    assert!(!cache_disabled_flag("truee"));
}

//! The lookup engine: freshness, fallback to the remote fetch, persistence,
//! and rejection before any store access.

use check_ip::cache::CacheStore;
use check_ip::engine::{
    begin_lookup, begin_lookup_now, commit_fetch, get_from_cache, non_routable_message,
    save_to_cache, FetchOutcome, LookupError, LookupPhase, RemoteResponse,
};
use check_ip::ip::is_non_routable;
use check_ip::record::IpRecord;
use check_ip::{is_fresh, TTL_SECONDS};

fn record(address: &str, country: &str, fetched_at: i64) -> IpRecord {
    IpRecord {
        address: address.to_string(),
        country: country.to_string(),
        region_name: "Region".to_string(),
        city: "City".to_string(),
        isp: "ISP".to_string(),
        org: "Org".to_string(),
        asn: "AS64500".to_string(),
        timezone: "UTC".to_string(),
        lat_bits: (1.25f64).to_bits(),
        lon_bits: (-2.5f64).to_bits(),
        fetched_at,
    }
}

fn success_response(query: &str, country: &str) -> RemoteResponse {
    RemoteResponse {
        status: "success".to_string(),
        message: None,
        query: query.to_string(),
        country: country.to_string(),
        region_name: "Region".to_string(),
        city: "City".to_string(),
        isp: "ISP".to_string(),
        org: "Org".to_string(),
        asn: "AS64500".to_string(),
        timezone: "UTC".to_string(),
        lat_bits: (37.4f64).to_bits(),
        lon_bits: (-122.0f64).to_bits(),
    }
}

fn assert_same_record(a: &IpRecord, b: &IpRecord) {
    assert_eq!(a.address, b.address);
    assert_eq!(a.country, b.country);
    assert_eq!(a.region_name, b.region_name);
    assert_eq!(a.city, b.city);
    assert_eq!(a.isp, b.isp);
    assert_eq!(a.org, b.org);
    assert_eq!(a.asn, b.asn);
    assert_eq!(a.timezone, b.timezone);
    assert_eq!(a.lat_bits, b.lat_bits);
    assert_eq!(a.lon_bits, b.lon_bits);
    assert_eq!(a.fetched_at, b.fetched_at);
}

#[test]
fn ttl_boundary() {
    assert_eq!(TTL_SECONDS, 86400);
    assert!(is_fresh(1000, 1000 + TTL_SECONDS));
    assert!(!is_fresh(1000, 1000 + TTL_SECONDS + 1));
    // extreme timestamps must not panic
    assert!(!is_fresh(i64::MIN, i64::MAX));
    assert!(is_fresh(i64::MAX, i64::MIN));
}

#[test]
fn fresh_record_is_returned_without_fetch() {
    let now: i64 = 2_000_000;
    let mut store = CacheStore::new();
    let stored = record("5.6.7.8", "Sweden", 0);
    save_to_cache(&mut store, stored, now - TTL_SECONDS);
    let expected = record("5.6.7.8", "Sweden", now - TTL_SECONDS);
    match begin_lookup(&store, "5.6.7.8", now) {
        LookupPhase::Hit(rec) => assert_same_record(&rec, &expected),
        _ => panic!("a record of exactly TTL age is still fresh"),
    }
}

#[test]
fn stale_record_is_treated_as_miss() {
    let now: i64 = 2_000_000;
    let mut store = CacheStore::new();
    save_to_cache(&mut store, record("5.6.7.8", "Sweden", 0), now - TTL_SECONDS - 1);
    match begin_lookup(&store, "5.6.7.8", now) {
        LookupPhase::NeedsFetch => {},
        _ => panic!("a record older than TTL must not be served"),
    }
}

#[test]
fn lookup_of_empty_store_needs_fetch() {
    let store = CacheStore::new();
    match begin_lookup(&store, "8.8.8.8", 100) {
        LookupPhase::NeedsFetch => {},
        _ => panic!("an empty store has nothing fresh"),
    }
}

#[test]
fn fetch_success_is_returned_and_persisted() {
    // stale record for the address; the resolver succeeds with new values
    let now: i64 = 5_000_000;
    let mut store = CacheStore::new();
    save_to_cache(&mut store, record("9.9.9.9", "Old Country", 0), now - 90_000);
    match begin_lookup(&store, "9.9.9.9", now) {
        LookupPhase::NeedsFetch => {},
        _ => panic!("the stale record must not be served"),
    }
    let outcome = FetchOutcome::Response(success_response("9.9.9.9", "New Country"));
    let fetched = commit_fetch(&mut store, outcome, now).expect("the response was a success");
    assert_eq!(fetched.address, "9.9.9.9");
    assert_eq!(fetched.country, "New Country");
    assert_eq!(fetched.fetched_at, now);
    // the store now holds the new record in full, under the same key
    assert_eq!(store.len(), 1);
    let held = get_from_cache(&store, "9.9.9.9", now).expect("the new record is fresh");
    assert_same_record(&held, &fetched);
}

#[test]
fn fetch_failure_leaves_store_unchanged() {
    // stored record for 1.1.1.1 is stale and the resolver fails
    let now: i64 = 10_000_000;
    let mut store = CacheStore::new();
    save_to_cache(&mut store, record("1.1.1.1", "Australia", 0), now - 90_000);
    match begin_lookup(&store, "1.1.1.1", now) {
        LookupPhase::NeedsFetch => {},
        _ => panic!("fetchedAt = now - 90000 is beyond the TTL"),
    }
    let r = commit_fetch(&mut store, FetchOutcome::Transport("connection refused".to_string()), now);
    match r {
        Err(LookupError::Network(m)) => assert_eq!(m, "connection refused"),
        _ => panic!("a transport failure surfaces as a network error"),
    }
    // the stored record is untouched
    assert_eq!(store.len(), 1);
    let held = get_from_cache(&store, "1.1.1.1", now - 90_000).expect("still stored");
    assert_same_record(&held, &record("1.1.1.1", "Australia", now - 90_000));
}

#[test]
fn upstream_failure_carries_the_message() {
    let now: i64 = 100;
    let mut store = CacheStore::new();
    let mut resp = success_response("127.0.0.1", "");
    resp.status = "fail".to_string();
    resp.message = Some("private range".to_string());
    match commit_fetch(&mut store, FetchOutcome::Response(resp), now) {
        Err(LookupError::Upstream(Some(m))) => assert_eq!(m, "private range"),
        _ => panic!("a non-success status surfaces as an upstream error"),
    }
    assert_eq!(store.len(), 0);
}

#[test]
fn miss_then_fetch_then_hit() {
    // empty store; 8.8.8.8 is fetched, stored with fetchedAt = now, and the
    // next lookup is served from the cache
    let now: i64 = 1_700_000_000;
    let mut store = CacheStore::new();
    assert!(!is_non_routable("8.8.8.8"));
    match begin_lookup(&store, "8.8.8.8", now) {
        LookupPhase::NeedsFetch => {},
        _ => panic!("empty store: a fetch is needed"),
    }
    let outcome = FetchOutcome::Response(success_response("8.8.8.8", "United States"));
    let fetched = commit_fetch(&mut store, outcome, now).expect("success");
    assert_eq!(fetched.address, "8.8.8.8");
    assert_eq!(fetched.fetched_at, now);
    match begin_lookup(&store, "8.8.8.8", now + 10) {
        LookupPhase::Hit(rec) => assert_same_record(&rec, &fetched),
        _ => panic!("the second call is served without a resolver call"),
    }
}

#[test]
fn consecutive_lookups_within_ttl_are_identical() {
    let now: i64 = 3_000_000;
    let mut store = CacheStore::new();
    save_to_cache(&mut store, record("4.4.4.4", "Japan", 0), now);
    let first = get_from_cache(&store, "4.4.4.4", now + 100).expect("fresh");
    let second = get_from_cache(&store, "4.4.4.4", now + 200).expect("fresh");
    assert_same_record(&first, &second);
}

#[test]
fn non_routable_address_is_rejected_before_any_store_access() {
    let store = CacheStore::new();
    match begin_lookup(&store, "192.168.1.1", 0) {
        LookupPhase::Rejected => {},
        _ => panic!("a private address never reaches cache or resolver"),
    }
    assert_eq!(
        non_routable_message("192.168.1.1"),
        "192.168.1.1 is non-routable or reserved"
    );
    assert_eq!(store.len(), 0);
}

#[test]
fn unparseable_address_is_rejected_fail_closed() {
    let store = CacheStore::new();
    match begin_lookup(&store, "not-an-ip", 0) {
        LookupPhase::Rejected => {},
        _ => panic!("unparseable text takes the rejection path"),
    }
    assert_eq!(
        non_routable_message("not-an-ip"),
        "not-an-ip is non-routable or reserved"
    );
}

#[test]
fn put_replaces_the_record_for_the_same_address() {
    let mut store = CacheStore::new();
    save_to_cache(&mut store, record("2.2.2.2", "First", 0), 100);
    save_to_cache(&mut store, record("2.2.2.2", "Second", 0), 200);
    save_to_cache(&mut store, record("3.3.3.3", "Other", 0), 300);
    assert_eq!(store.len(), 2);
    let held = get_from_cache(&store, "2.2.2.2", 250).expect("fresh");
    assert_eq!(held.country, "Second");
    assert_eq!(held.fetched_at, 200);
}

#[test]
fn save_stamps_the_write_time() {
    // the fetchedAt passed by the caller is not trusted
    let mut store = CacheStore::new();
    save_to_cache(&mut store, record("7.7.7.7", "Chile", 123_456_789), 42);
    let held = get_from_cache(&store, "7.7.7.7", 42).expect("fresh at the write time");
    assert_eq!(held.fetched_at, 42);
}

#[test]
fn begin_lookup_now_decides_like_begin_lookup() {
    let store = CacheStore::new();
    match begin_lookup_now(&store, "8.8.4.4") {
        (LookupPhase::NeedsFetch, _now) => {},
        _ => panic!("an empty store needs a fetch at any time"),
    }
    match begin_lookup_now(&store, "10.0.0.1") {
        (LookupPhase::Rejected, _now) => {},
        _ => panic!("a reserved address is rejected at any time"),
    }
}

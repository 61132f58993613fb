use std::time::Duration;

use carbide::negative_cache::{CacheKey, NegativeCache};

const RECORD_A: u16 = 1;
const RECORD_AAAA: u16 = 28;
const NXDOMAIN: u16 = 3;
const REFUSED: u16 = 5;

fn key(qname: &str) -> CacheKey {
    CacheKey { qname: qname.to_string(), qtype: RECORD_A }
}

#[test]
fn refuses_new_keys_once_full() {
    let mut cache = NegativeCache::new(Duration::from_secs(120), 2);
    assert!(cache.record(key("a.example.com."), NXDOMAIN));
    assert!(cache.record(key("b.example.com."), NXDOMAIN));

    assert!(!cache.record(key("c.example.com."), NXDOMAIN));
    assert_eq!(cache.len(), 2);
}

#[test]
fn refreshes_existing_key_when_full() {
    let mut cache = NegativeCache::new(Duration::from_secs(120), 2);
    cache.record(key("a.example.com."), NXDOMAIN);
    cache.record(key("b.example.com."), NXDOMAIN);

    assert!(cache.record(key("a.example.com."), NXDOMAIN));
    assert_eq!(cache.len(), 2);
}

#[test]
fn get_returns_none_for_expired_entry() {
    // A zero TTL means every entry is already expired when read back.
    let mut cache = NegativeCache::new(Duration::from_secs(0), 16);
    cache.record(key("gone.example.com."), NXDOMAIN);
    assert_eq!(cache.get(&key("gone.example.com.")), None);
}

#[test]
fn evict_expired_drops_only_expired_entries() {
    let mut cache = NegativeCache::new(Duration::from_secs(0), 16);
    cache.record(key("a.example.com."), NXDOMAIN);
    cache.record(key("b.example.com."), REFUSED);

    assert_eq!(cache.evict_expired(), 2);
    assert_eq!(cache.len(), 0);
}

#[test]
fn recorded_answer_is_served_until_it_expires() {
    let mut cache = NegativeCache::with_ttl_nanos(100, 4);
    assert!(cache.record_at(key("x.example.com."), REFUSED, 1_000));
    assert_eq!(cache.get_at(&key("x.example.com."), 1_000), Some(REFUSED));
    assert_eq!(cache.get_at(&key("x.example.com."), 1_099), Some(REFUSED));
    assert_eq!(cache.get_at(&key("x.example.com."), 1_100), None);
    // A different record type is a different key.
    let aaaa = CacheKey { qname: "x.example.com.".to_string(), qtype: RECORD_AAAA };
    assert_eq!(cache.get_at(&aaaa, 1_000), None);
}

#[test]
fn sweep_keeps_live_entries_and_counts_the_rest() {
    let mut cache = NegativeCache::with_ttl_nanos(100, 4);
    cache.record_at(key("old.example.com."), NXDOMAIN, 0);
    cache.record_at(key("new.example.com."), REFUSED, 500);
    assert_eq!(cache.evict_expired_at(550), 1);
    assert_eq!(cache.len(), 1);
    assert_eq!(cache.get_at(&key("new.example.com."), 550), Some(REFUSED));
    assert_eq!(cache.get_at(&key("old.example.com."), 550), None);
    // A second sweep at the same time removes nothing.
    assert_eq!(cache.evict_expired_at(550), 0);
}

#[test]
fn refreshing_a_key_updates_code_and_expiry() {
    let mut cache = NegativeCache::with_ttl_nanos(10, 1);
    cache.record_at(key("a.example.com."), NXDOMAIN, 0);
    assert!(cache.record_at(key("a.example.com."), REFUSED, 50));
    assert_eq!(cache.get_at(&key("a.example.com."), 55), Some(REFUSED));
    assert_eq!(cache.len(), 1);
}

#[test]
fn expiry_saturates_at_the_end_of_the_clock() {
    let mut cache = NegativeCache::with_ttl_nanos(u64::MAX, 1);
    cache.record_at(key("a.example.com."), NXDOMAIN, 10);
    assert_eq!(cache.get_at(&key("a.example.com."), u64::MAX - 1), Some(NXDOMAIN));
    assert_eq!(cache.get_at(&key("a.example.com."), u64::MAX), None);
}

#[test]
fn zero_capacity_cache_refuses_everything() {
    let mut cache = NegativeCache::new(Duration::from_secs(60), 0);
    assert_eq!(cache.max_entries(), 0);
    assert!(!cache.record(key("a.example.com."), NXDOMAIN));
    assert_eq!(cache.len(), 0);
}

#[test]
fn clock_readings_never_go_behind_the_latest_recorded_time() {
    // An answer recorded at a time far ahead of the real clock is still
    // live when read through the clock: readings are taken no earlier than
    // the latest time the cache acted at.
    let far = 3_600_000_000_000u64;
    let mut cache = NegativeCache::with_ttl_nanos(100, 4);
    cache.record_at(key("ahead.example.com."), NXDOMAIN, far);
    assert_eq!(cache.get(&key("ahead.example.com.")), Some(NXDOMAIN));
    // A sweep through the clock happens at that time too, so it keeps it.
    assert_eq!(cache.evict_expired(), 0);
    assert_eq!(cache.len(), 1);
}

#[test]
fn long_ttls_saturate_instead_of_wrapping() {
    let mut cache = NegativeCache::new(Duration::from_secs(u64::MAX), 4);
    cache.record(key("a.example.com."), NXDOMAIN);
    assert_eq!(cache.get(&key("a.example.com.")), Some(NXDOMAIN));
    assert_eq!(cache.evict_expired(), 0);
}

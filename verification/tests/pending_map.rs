//! The map of values that wait to be picked up.

use std::collections::HashMap;
use std::sync::{Arc, Mutex};
use std::time::Duration;
use swarm_p2p_core::pending_map::{
    purge_expired_entries, PendingEntry, PendingMap, DEFAULT_CLEANUP_INTERVAL_SECS,
};

const SECOND: u128 = 1_000_000_000;

#[test]
fn insert_and_take() {
    let mut map = PendingMap::new(Duration::from_secs(60));
    map.insert(1u64, "hello");
    map.insert(2, "world");

    assert_eq!(map.len(), 2);
    assert_eq!(map.take(&1), Some("hello"));
    assert_eq!(map.len(), 1);
    assert_eq!(map.take(&1), None);
}

#[test]
fn take_nonexistent_returns_none() {
    let mut map = PendingMap::<u64, String>::new(Duration::from_secs(60));
    assert_eq!(map.take(&999), None);
    assert!(map.is_empty());
}

#[test]
fn clone_shares_state() {
    let map = Arc::new(Mutex::new(PendingMap::new(Duration::from_secs(60))));
    let map2 = map.clone();

    map.lock().unwrap().insert(1u64, "value");
    assert_eq!(map2.lock().unwrap().take(&1), Some("value"));
    assert!(map.lock().unwrap().is_empty());
}

#[test]
fn ttl_expiry_cleans_up() {
    let mut map = PendingMap::new(Duration::from_secs(60));
    map.insert_at(1u64, "ephemeral", 0);
    assert_eq!(map.len(), 1);

    assert_eq!(map.purge_expired_at(61 * SECOND), 1);
    assert!(map.is_empty(), "expired entry should be cleaned up");
}

#[test]
fn non_expired_entries_survive_cleanup() {
    let mut map = PendingMap::new(Duration::from_secs(60));
    map.insert(1u64, "durable");

    assert_eq!(map.purge_expired(), 0);

    assert_eq!(map.len(), 1);
    assert_eq!(map.take(&1), Some("durable"));
}

#[test]
fn an_entry_expires_exactly_at_its_ttl() {
    let mut map = PendingMap::new(Duration::from_secs(60));
    map.insert_at(1u64, "value", 5);
    assert_eq!(map.purge_expired_at(60 * SECOND + 4), 0);
    assert_eq!(map.purge_expired_at(60 * SECOND + 5), 1);
    assert_eq!(map.take(&1), None);
}

#[test]
fn a_clock_behind_the_entry_expires_nothing() {
    let mut map = PendingMap::new(Duration::from_nanos(1));
    map.insert_at(1u64, "value", 100);
    assert_eq!(map.purge_expired_at(50), 0);
    assert_eq!(map.len(), 1);
}

#[test]
fn zero_ttl_expires_everything_at_once() {
    let mut map = PendingMap::new(Duration::ZERO);
    map.insert(1u64, "a");
    map.insert(2, "b");
    assert_eq!(map.purge_expired(), 2);
    assert!(map.is_empty());
}

#[test]
fn a_purge_keeps_the_fresh_and_drops_the_old() {
    let mut map = PendingMap::new(Duration::from_secs(10));
    map.insert_at(1u64, "old", 0);
    map.insert_at(2, "fresh", 8 * SECOND);
    assert_eq!(map.purge_expired_at(12 * SECOND), 1);
    assert_eq!(map.purge_expired_at(11 * SECOND), 0);
    assert_eq!(map.take(&1), None);
    assert_eq!(map.take(&2), Some("fresh"));
}

#[test]
fn a_second_insert_replaces_the_value_and_its_age() {
    let mut map = PendingMap::new(Duration::from_secs(10));
    map.insert_at(1u64, "first", 0);
    map.insert_at(1, "second", 9 * SECOND);
    assert_eq!(map.len(), 1);
    assert_eq!(map.purge_expired_at(15 * SECOND), 0);
    assert_eq!(map.take(&1), Some("second"));
}

#[test]
fn taking_one_key_leaves_the_others() {
    let mut map = PendingMap::new(Duration::from_secs(10));
    map.insert(1u64, "a");
    map.insert(2, "b");
    assert_eq!(map.take(&3), None);
    assert_eq!(map.take(&1), Some("a"));
    assert_eq!(map.take(&2), Some("b"));
}

#[test]
fn bare_entries_are_purged_by_age() {
    let mut entries = HashMap::new();
    entries.insert(
        1u64,
        PendingEntry {
            value: 'x',
            created_at: 10,
        },
    );
    entries.insert(
        2u64,
        PendingEntry {
            value: 'y',
            created_at: 20,
        },
    );
    assert_eq!(purge_expired_entries(&mut entries, 25, 10), 1);
    assert!(!entries.contains_key(&1));
    assert!(entries.contains_key(&2));
}

#[test]
fn background_purges_run_every_ten_seconds() {
    assert_eq!(DEFAULT_CLEANUP_INTERVAL_SECS, 10);
}

#[test]
fn len_grows_with_new_keys_only() {
    let mut map = PendingMap::new(Duration::from_secs(10));
    map.insert(1u64, "a");
    assert_eq!(map.len(), 1);
    map.insert(1, "b");
    assert_eq!(map.len(), 1);
    map.insert(2, "c");
    assert_eq!(map.len(), 2);
    assert_eq!(map.take(&9), None);
    assert_eq!(map.len(), 2);
    assert_eq!(map.take(&1), Some("b"));
    assert_eq!(map.take(&1), None);
    assert_eq!(map.len(), 1);
}

#[test]
fn the_clock_runs_on_from_the_making_of_the_map() {
    let mut map = PendingMap::new(Duration::from_secs(60));
    let first = map.now();
    map.insert(1u64, "a");
    assert_eq!(map.take(&1), Some("a"));
    assert_eq!(map.purge_expired(), 0);
    assert!(map.now() >= first);
    assert!(first < 60 * SECOND);
}

//! Tests of the sequential store: put/get/remove semantics, lazy TTL
//! expiration, and the entry-level expiry arithmetic.

use ttl_cache::store::{CacheEntry, Store};

fn s(text: &str) -> String {
    text.to_string()
}

#[test]
fn absent_key_is_none() {
    let store = Store::new();
    assert!(store.get("never", 0).is_none());
    assert!(store.get("never", u64::MAX).is_none());
}

#[test]
fn write_then_read_without_ttl() {
    let mut store = Store::new();
    store.put(s("k"), s("v"), None, 0);
    assert_eq!(*store.get("k", 0).unwrap(), "v");
    assert_eq!(*store.get("k", 123_456).unwrap(), "v");
    assert_eq!(*store.get("k", u64::MAX).unwrap(), "v");
}

#[test]
fn other_keys_are_untouched() {
    let mut store = Store::new();
    store.put(s("a"), s("1"), None, 0);
    store.put(s("b"), s("2"), None, 0);
    assert_eq!(*store.get("a", 5).unwrap(), "1");
    store.remove("b");
    assert_eq!(*store.get("a", 5).unwrap(), "1");
    assert!(store.get("c", 5).is_none());
}

#[test]
fn ttl_boundary_is_strict() {
    let mut store = Store::new();
    store.put(s("y"), s("world"), Some(10), 0);
    assert_eq!(*store.get("y", 0).unwrap(), "world");
    assert_eq!(*store.get("y", 9_999).unwrap(), "world");
    assert!(store.get("y", 10_000).is_none());
    assert!(store.get("y", 10_001).is_none());
}

#[test]
fn ttl_counts_from_the_write() {
    let mut store = Store::new();
    store.put(s("y"), s("world"), Some(2), 1_000);
    assert_eq!(*store.get("y", 2_999).unwrap(), "world");
    assert!(store.get("y", 3_000).is_none());
}

#[test]
fn remove_returns_stored_value_even_expired() {
    let mut store = Store::new();
    store.put(s("x"), s("hello"), Some(1), 0);
    // Expired for get...
    assert!(store.get("x", 1_000).is_none());
    // ...but remove still surfaces the stored value.
    assert_eq!(*store.remove("x").unwrap(), "hello");
    assert!(store.get("x", 0).is_none());
    assert!(store.remove("x").is_none());
}

#[test]
fn remove_missing_is_none() {
    let mut store = Store::new();
    assert!(store.remove("z").is_none());
}

#[test]
fn overwrite_replaces_value_and_ttl() {
    let mut store = Store::new();
    store.put(s("k"), s("v1"), Some(10), 0);
    store.put(s("k"), s("v2"), None, 5_000);
    // The old TTL has no residual effect: still readable long after.
    assert_eq!(*store.get("k", 1_000_000).unwrap(), "v2");
    store.put(s("k"), s("v3"), Some(1), 1_000_000);
    assert_eq!(*store.get("k", 1_000_500).unwrap(), "v3");
    assert!(store.get("k", 1_001_000).is_none());
}

#[test]
fn expired_entry_stays_until_overwritten() {
    let mut store = Store::new();
    store.put(s("k"), s("old"), Some(1), 0);
    assert!(store.get("k", 1_000).is_none());
    // Overwriting the expired slot revives the key.
    store.put(s("k"), s("new"), None, 2_000);
    assert_eq!(*store.get("k", 2_000).unwrap(), "new");
}

#[test]
fn huge_ttl_saturates_instead_of_overflowing() {
    let mut store = Store::new();
    store.put(s("k"), s("v"), Some(u64::MAX), 5);
    // The expiry saturates at u64::MAX, so the entry is live almost forever.
    assert_eq!(*store.get("k", u64::MAX - 1).unwrap(), "v");
    assert!(store.get("k", u64::MAX).is_none());
}

#[test]
fn entry_expiry_arithmetic() {
    let e = CacheEntry::new(s("v"), Some(10), 100);
    assert!(!e.is_expired(100));
    assert!(!e.is_expired(10_099));
    assert!(e.is_expired(10_100));
    assert_eq!(*e.value(), "v");

    let forever = CacheEntry::new(s("v"), None, 100);
    assert!(!forever.is_expired(u64::MAX));
}

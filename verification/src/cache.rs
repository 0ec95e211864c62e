//! The concurrent cache: one [`Store`] behind a verified reader-writer lock.
//!
//! Any number of readers may run `get` at once; a `put` or `remove` holds the
//! write side and so excludes every reader and every other writer for the
//! duration of its single map mutation. The lock is `vstd`'s verified
//! `RwLock`, so that discipline is checked, not assumed.

use std::sync::Arc;
use vstd::prelude::*;
use vstd::rwlock::RwLock;

use crate::clock::{current_monotime, MonotonicClock};
use crate::store::Store;

verus! {

/// A basic cache interface allowing put, get, and remove operations, so that
/// another backend can stand in for [`SimpleCache`] without touching the
/// protocol layer.
pub trait Cache: Send + Sync {
    /// Insert or unconditionally replace the value for `key`; with a TTL (in
    /// seconds) the entry expires once that long has elapsed, without one it
    /// lives until overwritten or removed. Always succeeds.
    fn put(&self, key: String, value: String, ttl: Option<u64>);

    /// The value for `key` if a live (non-expired) entry exists, else absent.
    fn get(&self, key: &str) -> Option<Arc<String>>;

    /// Delete the entry for `key` and hand back its value — expired or not —
    /// or absent if there was none.
    fn remove(&self, key: &str) -> Option<Arc<String>>;
}

/// The invariant the lock maintains on the shared store.
pub open spec fn store_pred() -> spec_fn(Store) -> bool {
    |s: Store| s.wf()
}

/// A cache whose mapping sits behind a reader-writer lock, with one clock for
/// all expiration arithmetic. Per-state semantics of the three operations are
/// specified exactly on [`Store`]; this type adds the locking and the clock.
pub struct SimpleCache {
    clock: MonotonicClock,
    lock: RwLock<Store, spec_fn(Store) -> bool>,
}

impl SimpleCache {
    #[verifier::type_invariant]
    spec fn lock_inv(&self) -> bool {
        self.lock.pred() == store_pred()
    }

    /// An empty cache whose clock starts now.
    pub fn new() -> SimpleCache {
        let clock = MonotonicClock::new();
        let store = Store::new();
        let lock = RwLock::new(store, Ghost(store_pred()));
        SimpleCache { clock, lock }
    }

    /// `Store::put` at the current clock reading, under the write lock.
    pub fn put(&self, key: String, value: String, ttl: Option<u64>) {
        proof {
            use_type_invariant(self);
        }
        let (mut store, handle) = self.lock.acquire_write();
        let now_ms = current_monotime(&self.clock);
        store.put(key, value, ttl, now_ms);
        handle.release_write(store);
    }

    /// `Store::get` at the current clock reading, under a read lock.
    pub fn get(&self, key: &str) -> Option<Arc<String>> {
        proof {
            use_type_invariant(self);
        }
        let handle = self.lock.acquire_read();
        let now_ms = current_monotime(&self.clock);
        let r = handle.borrow().get(key, now_ms);
        handle.release_read();
        r
    }

    /// `Store::remove`, under the write lock.
    pub fn remove(&self, key: &str) -> Option<Arc<String>> {
        proof {
            use_type_invariant(self);
        }
        let (mut store, handle) = self.lock.acquire_write();
        let r = store.remove(key);
        handle.release_write(store);
        r
    }
}

impl Cache for SimpleCache {
    fn put(&self, key: String, value: String, ttl: Option<u64>) {
        SimpleCache::put(self, key, value, ttl)
    }

    fn get(&self, key: &str) -> Option<Arc<String>> {
        SimpleCache::get(self, key)
    }

    fn remove(&self, key: &str) -> Option<Arc<String>> {
        SimpleCache::remove(self, key)
    }
}

/// Builds caches for the server; the one backend today is [`SimpleCache`].
pub struct CacheFactory;

impl CacheFactory {
    /// A fresh shared cache, ready to hand to any number of connections.
    pub fn new_cache() -> Arc<SimpleCache> {
        Arc::new(SimpleCache::new())
    }
}

} // verus!

//! The sequential heart of the cache: a map from string keys to entries with
//! optional expiration, modelled as a `Map<Seq<char>, EntryView>`.
//!
//! Expiration is lazy: an expired entry is treated as absent by `get`, but it
//! stays in the map until it is overwritten or explicitly removed.

use std::sync::Arc;
use vstd::prelude::*;

verus! {

/// Mathematical model of one cache entry: the stored characters and the
/// optional expiration instant, in monotonic milliseconds.
pub ghost struct EntryView {
    pub value: Seq<char>,
    pub expires_at: Option<u64>,
}

/// A cached value together with the monotonic instant at which it stops
/// being visible to `get`; `None` means the entry never expires.
///
/// The value sits behind an `Arc` so that concurrent readers share one
/// allocation instead of copying the payload.
pub struct CacheEntry {
    value: Arc<String>,
    expires_at: Option<u64>,
}

impl View for CacheEntry {
    type V = EntryView;

    closed spec fn view(&self) -> EntryView {
        EntryView { value: self.value@, expires_at: self.expires_at }
    }
}

/// Relies on `<Arc<String> as Clone>::clone`: the clone is a new handle on
/// the same shared string.
#[verifier::external_body]
fn clone_shared(v: &Arc<String>) -> (r: Arc<String>)
    ensures
        r == *v,
{
    Arc::clone(v)
}

/// The expiration instant written by a `put` at time `now_ms` with a TTL of
/// `ttl_seconds`: `now_ms + ttl_seconds * 1000`, saturating at `u64::MAX`.
pub open spec fn spec_expiry(now_ms: u64, ttl_seconds: u64) -> u64 {
    if now_ms + ttl_seconds * 1000 <= u64::MAX {
        (now_ms + ttl_seconds * 1000) as u64
    } else {
        u64::MAX
    }
}

/// The `expires_at` field an entry gets from a `put` with TTL `ttl` at time
/// `now_ms`.
pub open spec fn spec_expiry_opt(ttl: Option<u64>, now_ms: u64) -> Option<u64> {
    match ttl {
        Some(t) => Some(spec_expiry(now_ms, t)),
        None => None,
    }
}

/// An entry is expired once the clock has reached its expiration instant.
pub open spec fn entry_expired(e: EntryView, now_ms: u64) -> bool {
    match e.expires_at {
        Some(t) => now_ms >= t,
        None => false,
    }
}

/// What `get` returns against the model `m` at time `now_ms`: the stored
/// characters if a live entry exists for `k`, absent otherwise.
pub open spec fn spec_get(m: Map<Seq<char>, EntryView>, k: Seq<char>, now_ms: u64) -> Option<
    Seq<char>,
> {
    if m.contains_key(k) && !entry_expired(m[k], now_ms) {
        Some(m[k].value)
    } else {
        None
    }
}

impl CacheEntry {
    /// A fresh entry holding `value`; with a TTL it expires
    /// `ttl * 1000` milliseconds after `now_ms` (saturating), without one it
    /// never expires.
    pub fn new(value: String, ttl: Option<u64>, now_ms: u64) -> (r: CacheEntry)
        ensures
            r@ == (EntryView { value: value@, expires_at: spec_expiry_opt(ttl, now_ms) }),
    {
        let expires_at = match ttl {
            Some(t) => {
                let ms = match t.checked_mul(1000) {
                    Some(m) => m,
                    None => u64::MAX,
                };
                Some(now_ms.saturating_add(ms))
            },
            None => None,
        };
        CacheEntry { value: Arc::new(value), expires_at }
    }

    /// Whether the entry is expired at time `now_ms`.
    pub fn is_expired(&self, now_ms: u64) -> (r: bool)
        ensures
            r == entry_expired(self@, now_ms),
    {
        match self.expires_at {
            Some(t) => now_ms >= t,
            None => false,
        }
    }

    /// A shared handle on the stored value.
    pub fn value(&self) -> (r: Arc<String>)
        ensures
            r@ == self@.value,
    {
        clone_shared(&self.value)
    }
}

/// The association list underlying a [`Store`], read back-to-front so that a
/// later binding for a key shadows an earlier one.
pub open spec fn seq_to_map(s: Seq<(String, CacheEntry)>) -> Map<Seq<char>, EntryView>
    decreases s.len(),
{
    if s.len() == 0 {
        Map::empty()
    } else {
        seq_to_map(s.drop_last()).insert(s.last().0@, s.last().1@)
    }
}

/// No two entries of `s` bind the same key.
pub open spec fn keys_unique(s: Seq<(String, CacheEntry)>) -> bool {
    forall|i: int, j: int| 0 <= i < j < s.len() ==> s[i].0@ != s[j].0@
}

/// The sequential cache store: a mapping from key to entry, with lazy
/// TTL expiration. All methods take the clock reading as an argument, so
/// each contract pins the result exactly.
pub struct Store {
    entries: Vec<(String, CacheEntry)>,
}

proof fn lemma_map_contains(s: Seq<(String, CacheEntry)>, k: Seq<char>)
    ensures
        seq_to_map(s).contains_key(k) <==> exists|i: int| 0 <= i < s.len() && s[i].0@ == k,
    decreases s.len(),
{
    if s.len() > 0 {
        lemma_map_contains(s.drop_last(), k);
        if seq_to_map(s).contains_key(k) {
            if s.last().0@ != k {
                let i = choose|i: int| 0 <= i < s.drop_last().len() && s.drop_last()[i].0@ == k;
                assert(s[i].0@ == k);
            } else {
                assert(s[s.len() - 1].0@ == k);
            }
        }
        if exists|i: int| 0 <= i < s.len() && s[i].0@ == k {
            let i = choose|i: int| 0 <= i < s.len() && s[i].0@ == k;
            if i < s.len() - 1 {
                assert(s.drop_last()[i].0@ == k);
            }
        }
    }
}

proof fn lemma_map_index(s: Seq<(String, CacheEntry)>, i: int)
    requires
        keys_unique(s),
        0 <= i < s.len(),
    ensures
        seq_to_map(s).contains_key(s[i].0@),
        seq_to_map(s)[s[i].0@] == s[i].1@,
    decreases s.len(),
{
    if i == s.len() - 1 {
        lemma_map_contains(s, s[i].0@);
    } else {
        lemma_map_index(s.drop_last(), i);
        assert(s.drop_last()[i] == s[i]);
        assert(s.last().0@ != s[i].0@);
    }
}

proof fn lemma_map_remove_at(s: Seq<(String, CacheEntry)>, i: int)
    requires
        keys_unique(s),
        0 <= i < s.len(),
    ensures
        seq_to_map(s.remove(i)) =~= seq_to_map(s).remove(s[i].0@),
    decreases s.len(),
{
    let k = s[i].0@;
    if i == s.len() - 1 {
        assert(s.remove(i) =~= s.drop_last());
        lemma_map_contains(s.drop_last(), k);
        assert(!seq_to_map(s.drop_last()).contains_key(k));
        assert(seq_to_map(s).remove(k) =~= seq_to_map(s.drop_last()));
    } else {
        assert(s.remove(i).drop_last() =~= s.drop_last().remove(i));
        assert(s.remove(i).last() == s.last());
        lemma_map_remove_at(s.drop_last(), i);
        assert(seq_to_map(s.remove(i)) =~= seq_to_map(s.drop_last()).remove(k).insert(
            s.last().0@,
            s.last().1@,
        ));
        assert(s.last().0@ != k);
    }
}

impl Store {
    /// The mathematical contents of the store.
    pub closed spec fn view(&self) -> Map<Seq<char>, EntryView> {
        seq_to_map(self.entries@)
    }

    /// Internal well-formedness: each key is bound at most once.
    pub closed spec fn wf(&self) -> bool {
        keys_unique(self.entries@)
    }

    /// An empty store.
    pub fn new() -> (r: Store)
        ensures
            r.wf(),
            r@ == Map::<Seq<char>, EntryView>::empty(),
    {
        Store { entries: Vec::new() }
    }

    /// The index of the entry for `key`, if one exists.
    fn find_index(&self, key: &str) -> (r: Option<usize>)
        ensures
            match r {
                Some(i) => i < self.entries@.len() && self.entries@[i as int].0@ == key@,
                None => forall|i: int| 0 <= i < self.entries@.len() ==> self.entries@[i].0@ != key@,
            },
    {
        let owned = key.to_owned();
        let n = self.entries.len();
        let mut i: usize = 0;
        while i < n
            invariant
                n == self.entries@.len(),
                i <= n,
                owned@ == key@,
                forall|j: int| 0 <= j < i ==> self.entries@[j].0@ != key@,
            decreases n - i,
        {
            if self.entries[i].0 == owned {
                return Some(i);
            }
            i = i + 1;
        }
        None
    }

    /// Insert or unconditionally replace the entry for `key`. With a TTL the
    /// new entry expires `ttl * 1000` milliseconds after `now_ms`; any
    /// previous entry for `key` is discarded, whatever its state. Always
    /// succeeds.
    pub fn put(&mut self, key: String, value: String, ttl: Option<u64>, now_ms: u64)
        requires
            old(self).wf(),
        ensures
            final(self).wf(),
            final(self)@ == old(self)@.insert(
                key@,
                EntryView { value: value@, expires_at: spec_expiry_opt(ttl, now_ms) },
            ),
    {
        let entry = CacheEntry::new(value, ttl, now_ms);
        let ghost pre = self.entries@;
        match self.find_index(key.as_str()) {
            Some(i) => {
                self.entries.remove(i);
                proof {
                    lemma_map_remove_at(pre, i as int);
                    assert forall|a: int, b: int|
                        0 <= a < b < self.entries@.len() implies self.entries@[a].0@
                        != self.entries@[b].0@ by {
                        if b < i as int {
                            assert(self.entries@[a] == pre[a] && self.entries@[b] == pre[b]);
                        } else if a < i as int {
                            assert(self.entries@[a] == pre[a] && self.entries@[b] == pre[b + 1]);
                        } else {
                            assert(self.entries@[a] == pre[a + 1] && self.entries@[b] == pre[b
                                + 1]);
                        }
                    }
                    assert forall|j: int| 0 <= j < self.entries@.len() implies self.entries@[j].0@
                        != key@ by {
                        if j < i as int {
                            assert(self.entries@[j] == pre[j]);
                        } else {
                            assert(self.entries@[j] == pre[j + 1]);
                        }
                    }
                }
            },
            None => {},
        }
        let ghost mid = self.entries@;
        self.entries.push((key, entry));
        proof {
            assert(self.entries@.drop_last() =~= mid);
            assert(seq_to_map(self.entries@) =~= seq_to_map(mid).insert(key@, entry@));
            assert(seq_to_map(mid).insert(key@, entry@) =~= seq_to_map(pre).insert(key@, entry@));
            assert forall|a: int, b: int|
                0 <= a < b < self.entries@.len() implies self.entries@[a].0@
                != self.entries@[b].0@ by {
                if b == self.entries@.len() - 1 {
                    assert(self.entries@[a] == mid[a]);
                }
            }
        }
    }

    /// The value for `key` if a live (non-expired at `now_ms`) entry exists,
    /// absent otherwise. Never mutates the store: an expired entry is left
    /// in place.
    pub fn get(&self, key: &str, now_ms: u64) -> (r: Option<Arc<String>>)
        requires
            self.wf(),
        ensures
            match r {
                Some(v) => spec_get(self@, key@, now_ms) == Some(v@),
                None => spec_get(self@, key@, now_ms) is None,
            },
    {
        match self.find_index(key) {
            Some(i) => {
                proof {
                    lemma_map_index(self.entries@, i as int);
                }
                let entry = &self.entries[i].1;
                if entry.is_expired(now_ms) {
                    None
                } else {
                    Some(entry.value())
                }
            },
            None => {
                proof {
                    lemma_map_contains(self.entries@, key@);
                }
                None
            },
        }
    }

    /// Delete the entry for `key` and hand back its value, whether or not the
    /// entry has expired; absent if there was none. This is the one place a
    /// stale value can still surface: removal does not check expiration.
    pub fn remove(&mut self, key: &str) -> (r: Option<Arc<String>>)
        requires
            old(self).wf(),
        ensures
            final(self).wf(),
            final(self)@ == old(self)@.remove(key@),
            match r {
                Some(v) => old(self)@.contains_key(key@) && v@ == old(self)@[key@].value,
                None => !old(self)@.contains_key(key@),
            },
    {
        let ghost pre = self.entries@;
        match self.find_index(key) {
            Some(i) => {
                proof {
                    lemma_map_index(pre, i as int);
                    lemma_map_remove_at(pre, i as int);
                }
                let (_, entry) = self.entries.remove(i);
                proof {
                    assert forall|a: int, b: int|
                        0 <= a < b < self.entries@.len() implies self.entries@[a].0@
                        != self.entries@[b].0@ by {
                        if b < i as int {
                            assert(self.entries@[a] == pre[a] && self.entries@[b] == pre[b]);
                        } else if a < i as int {
                            assert(self.entries@[a] == pre[a] && self.entries@[b] == pre[b + 1]);
                        } else {
                            assert(self.entries@[a] == pre[a + 1] && self.entries@[b] == pre[b
                                + 1]);
                        }
                    }
                }
                Some(entry.value())
            },
            None => {
                proof {
                    lemma_map_contains(pre, key@);
                    assert(seq_to_map(pre) =~= seq_to_map(pre).remove(key@));
                }
                None
            },
        }
    }
}

} // verus!

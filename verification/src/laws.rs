//! Laws of the cache model: how `put`, `get` and `remove` relate across
//! calls, stated over the `Map` model that the [`crate::store::Store`]
//! contracts speak of.

use vstd::prelude::*;

use crate::store::{spec_expiry, spec_get, EntryView};

verus! {

/// A key that was never written is absent: against any model that does not
/// contain `k`, `get` returns absent at every instant.
pub proof fn lemma_absent(m: Map<Seq<char>, EntryView>, k: Seq<char>, now_ms: u64)
    requires
        !m.contains_key(k),
    ensures
        spec_get(m, k, now_ms) is None,
{
}

/// Write-then-read: after a `put` of `k` without a TTL, `get(k)` returns the
/// written value at every later instant, until `k` is overwritten or removed.
pub proof fn lemma_write_then_read(
    m: Map<Seq<char>, EntryView>,
    k: Seq<char>,
    v: Seq<char>,
    now_ms: u64,
)
    ensures
        spec_get(m.insert(k, EntryView { value: v, expires_at: None }), k, now_ms) == Some(v),
{
}

/// A `put` under one key leaves `get` under every other key unchanged; reads
/// keep their answer until their own key is touched.
pub proof fn lemma_put_frames_other_keys(
    m: Map<Seq<char>, EntryView>,
    k: Seq<char>,
    e: EntryView,
    other: Seq<char>,
    now_ms: u64,
)
    requires
        k != other,
    ensures
        spec_get(m.insert(k, e), other, now_ms) == spec_get(m, other, now_ms),
{
}

/// A `remove` under one key leaves `get` under every other key unchanged.
pub proof fn lemma_remove_frames_other_keys(
    m: Map<Seq<char>, EntryView>,
    k: Seq<char>,
    other: Seq<char>,
    now_ms: u64,
)
    requires
        k != other,
    ensures
        spec_get(m.remove(k), other, now_ms) == spec_get(m, other, now_ms),
{
}

/// TTL boundary: after a `put` of `k` with TTL `ttl` at instant `t0`,
/// `get(k)` returns the value while the elapsed time is strictly below
/// `ttl * 1000` milliseconds, and absent from then on. Stated for writes
/// whose expiration instant does not saturate `u64`.
pub proof fn lemma_ttl_boundary(
    m: Map<Seq<char>, EntryView>,
    k: Seq<char>,
    v: Seq<char>,
    ttl: u64,
    t0: u64,
    now_ms: u64,
)
    requires
        t0 + ttl * 1000 <= u64::MAX,
        t0 <= now_ms,
    ensures
        now_ms - t0 < ttl * 1000 ==> spec_get(
            m.insert(k, EntryView { value: v, expires_at: Some(spec_expiry(t0, ttl)) }),
            k,
            now_ms,
        ) == Some(v),
        now_ms - t0 >= ttl * 1000 ==> spec_get(
            m.insert(k, EntryView { value: v, expires_at: Some(spec_expiry(t0, ttl)) }),
            k,
            now_ms,
        ) is None,
{
}

/// Remove semantics, second half: once `k` is removed, `get(k)` is absent at
/// every instant and a second `remove(k)` finds nothing. (That the first
/// `remove` returns the stored value even when it has expired is stated
/// directly in the `ensures` of `Store::remove`.)
pub proof fn lemma_removed_is_absent(m: Map<Seq<char>, EntryView>, k: Seq<char>, now_ms: u64)
    ensures
        spec_get(m.remove(k), k, now_ms) is None,
        !m.remove(k).contains_key(k),
{
}

/// Overwrite: a second `put` under the same key replaces both the value and
/// the expiration of the first wholesale; the earlier write leaves no trace
/// in the model.
pub proof fn lemma_overwrite(
    m: Map<Seq<char>, EntryView>,
    k: Seq<char>,
    e1: EntryView,
    e2: EntryView,
)
    ensures
        m.insert(k, e1).insert(k, e2) == m.insert(k, e2),
{
    assert(m.insert(k, e1).insert(k, e2) =~= m.insert(k, e2));
}

} // verus!

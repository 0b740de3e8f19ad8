//! The order in which a cache gives up its entries.
//!
//! In smart mode every entry has a score, and entries leave in descending
//! order of score; among equal scores entries that are no key frames leave
//! first, then the one stored earlier. In simple mode entries leave oldest
//! first. Eviction stops as soon as the cache is small enough.

use crate::persistent_cache::has_key;
use crate::persistent_cache::keys_unique;
use crate::persistent_cache::lemma_total_size_bounds;
use crate::persistent_cache::lemma_total_size_nonneg;
use crate::persistent_cache::lemma_total_size_remove;
use crate::persistent_cache::sizes_exact;
use crate::persistent_cache::total_size;
use crate::persistent_cache::CacheEntry;
use crate::persistent_cache::EntryModel;
use crate::persistent_cache::EvictionWeights;
use vstd::prelude::*;

verus! {

/// Milliseconds from `then` to `now`, 0 where the clock went back.
pub open spec fn elapsed(now: u64, then: u64) -> int {
    if now >= then {
        now - then
    } else {
        0
    }
}

/// The eviction score of an entry at time `now`, in millionths of a point:
/// the weighted sum of the time since the last read, the age, the inverse
/// of the access frequency and the inverse of the compression ratio, less
/// the bonus of a key frame. The higher the score, the sooner the entry
/// leaves.
pub open spec fn eviction_score(e: EntryModel, w: EvictionWeights, now: u64) -> int {
    elapsed(now, e.last_accessed) * w.recency + elapsed(now, e.created_at) * w.age + (w.frequency
        * 1000) / (e.access_count + 1) + (w.compression * 1000000) / (if e.compression_ratio == 0 {
        1int
    } else {
        e.compression_ratio as int
    }) - (if e.is_key_frame {
        w.key_frame_bonus * 1000
    } else {
        0
    })
}

/// Whether entry `a`, at position `i`, leaves before entry `b`, at
/// position `j`.
pub open spec fn evicts_before(
    smart: bool,
    w: EvictionWeights,
    now: u64,
    a: EntryModel,
    i: int,
    b: EntryModel,
    j: int,
) -> bool {
    if smart {
        let sa = eviction_score(a, w, now);
        let sb = eviction_score(b, w, now);
        sa > sb || (sa == sb && ((!a.is_key_frame && b.is_key_frame) || (a.is_key_frame
            == b.is_key_frame && i < j)))
    } else {
        a.created_at < b.created_at || (a.created_at == b.created_at && i < j)
    }
}

/// The position of the entry that leaves first among the first `n`.
pub open spec fn victim_among(
    entries: Seq<EntryModel>,
    n: int,
    smart: bool,
    w: EvictionWeights,
    now: u64,
) -> int
    decreases n,
{
    if n <= 1 {
        0
    } else {
        let best = victim_among(entries, n - 1, smart, w, now);
        if evicts_before(smart, w, now, entries[n - 1], n - 1, entries[best], best) {
            n - 1
        } else {
            best
        }
    }
}

/// The position of the entry that leaves first.
pub open spec fn victim(entries: Seq<EntryModel>, smart: bool, w: EvictionWeights, now: u64) -> int {
    victim_among(entries, entries.len() as int, smart, w, now)
}

/// What is left of `entries` once entries have left, one by one in eviction
/// order, until the sum of the sizes is at most `limit` or nothing is left.
pub open spec fn evict_until(
    entries: Seq<EntryModel>,
    limit: int,
    smart: bool,
    w: EvictionWeights,
    now: u64,
) -> Seq<EntryModel>
    decreases entries.len(),
    via evict_until_decreases
{
    if entries.len() == 0 || total_size(entries) <= limit {
        entries
    } else {
        evict_until(entries.remove(victim(entries, smart, w, now)), limit, smart, w, now)
    }
}

#[via_fn]
proof fn evict_until_decreases(
    entries: Seq<EntryModel>,
    limit: int,
    smart: bool,
    w: EvictionWeights,
    now: u64,
) {
    if entries.len() > 0 {
        lemma_victim_first(entries, entries.len() as int, smart, w, now);
    }
}

/// The victim among the first `n` entries is one of them, and leaves before
/// each of the others.
pub proof fn lemma_victim_first(
    entries: Seq<EntryModel>,
    n: int,
    smart: bool,
    w: EvictionWeights,
    now: u64,
)
    requires
        1 <= n <= entries.len(),
    ensures
        0 <= victim_among(entries, n, smart, w, now) < n,
        forall|j: int|
            0 <= j < n && j != victim_among(entries, n, smart, w, now) ==> evicts_before(
                smart,
                w,
                now,
                entries[victim_among(entries, n, smart, w, now)],
                victim_among(entries, n, smart, w, now),
                #[trigger] entries[j],
                j,
            ),
    decreases n,
{
    if n > 1 {
        lemma_victim_first(entries, n - 1, smart, w, now);
    }
}

/// Removing an entry keeps keys unique and sizes exact, takes the entry's
/// key out and leaves every other key in.
pub proof fn lemma_remove_keeps(entries: Seq<EntryModel>, at: int)
    requires
        0 <= at < entries.len(),
        keys_unique(entries),
    ensures
        keys_unique(entries.remove(at)),
        sizes_exact(entries) ==> sizes_exact(entries.remove(at)),
        !has_key(entries.remove(at), entries[at].chunk_id),
        forall|key: Seq<char>|
            key != entries[at].chunk_id ==> (#[trigger] has_key(entries.remove(at), key)
                <==> has_key(entries, key)),
{
    let rest = entries.remove(at);
    assert forall|i: int| 0 <= i < rest.len() implies #[trigger] rest[i] == entries[if i < at {
        i
    } else {
        i + 1
    }] by {}
    assert forall|key: Seq<char>| key != entries[at].chunk_id implies (#[trigger] has_key(
        rest,
        key,
    ) <==> has_key(entries, key)) by {
        if has_key(entries, key) {
            let i = choose|i: int| 0 <= i < entries.len() && #[trigger] entries[i].chunk_id == key;
            let k = if i < at {
                i
            } else {
                i - 1
            };
            assert(rest[k].chunk_id == key);
        }
        if has_key(rest, key) {
            let k = choose|k: int| 0 <= k < rest.len() && #[trigger] rest[k].chunk_id == key;
            let i = if k < at {
                k
            } else {
                k + 1
            };
            assert(entries[i].chunk_id == key);
        }
    }
    if has_key(rest, entries[at].chunk_id) {
        let k = choose|k: int|
            0 <= k < rest.len() && #[trigger] rest[k].chunk_id == entries[at].chunk_id;
        let i = if k < at {
            k
        } else {
            k + 1
        };
        assert(entries[i].chunk_id == entries[at].chunk_id);
        assert(false);
    }
}

/// What eviction leaves is small enough or empty, holds only keys that were
/// there, and keeps keys unique and sizes exact.
pub proof fn lemma_evict_until(
    entries: Seq<EntryModel>,
    limit: int,
    smart: bool,
    w: EvictionWeights,
    now: u64,
)
    requires
        keys_unique(entries),
    ensures
        evict_until(entries, limit, smart, w, now).len() == 0 || total_size(
            evict_until(entries, limit, smart, w, now),
        ) <= limit,
        evict_until(entries, limit, smart, w, now).len() <= entries.len(),
        0 <= total_size(evict_until(entries, limit, smart, w, now)) <= total_size(entries),
        keys_unique(evict_until(entries, limit, smart, w, now)),
        sizes_exact(entries) ==> sizes_exact(evict_until(entries, limit, smart, w, now)),
        forall|key: Seq<char>| #[trigger]
            has_key(evict_until(entries, limit, smart, w, now), key) ==> has_key(entries, key),
        total_size(entries) <= limit ==> evict_until(entries, limit, smart, w, now) == entries,
    decreases entries.len(),
{
    lemma_total_size_nonneg(entries);
    if entries.len() == 0 || total_size(entries) <= limit {
    } else {
        let v = victim(entries, smart, w, now);
        lemma_victim_first(entries, entries.len() as int, smart, w, now);
        let rest = entries.remove(v);
        lemma_remove_keeps(entries, v);
        lemma_total_size_remove(entries, v);
        lemma_total_size_bounds(entries, v);
        lemma_evict_until(rest, limit, smart, w, now);
        let out = evict_until(entries, limit, smart, w, now);
        assert(out == evict_until(rest, limit, smart, w, now));
        assert forall|key: Seq<char>| #[trigger] has_key(out, key) implies has_key(
            entries,
            key,
        ) by {
            assert(has_key(rest, key));
            if key == entries[v].chunk_id {
                assert(false);
            }
        }
    }
}

/// Of two entries that differ in nothing but that one is a key frame, the key
/// frame scores lower by the bonus, and so leaves later.
pub proof fn lemma_key_frame_scores_lower(e: EntryModel, w: EvictionWeights, now: u64)
    ensures
        eviction_score(EntryModel { is_key_frame: true, ..e }, w, now) == eviction_score(
            EntryModel { is_key_frame: false, ..e },
            w,
            now,
        ) - w.key_frame_bonus * 1000,
        forall|i: int, j: int|
            i != j ==> #[trigger] evicts_before(
                true,
                w,
                now,
                EntryModel { is_key_frame: false, ..e },
                i,
                EntryModel { is_key_frame: true, ..e },
                j,
            ),
{
    assert(w.key_frame_bonus * 1000 >= 0);
}

/// Where smart eviction takes a key frame out, no entry that is not a key
/// frame and scores at least as high stays in: it has left before the key
/// frame did.
pub proof fn lemma_key_frames_leave_last(
    entries: Seq<EntryModel>,
    limit: int,
    w: EvictionWeights,
    now: u64,
    k: int,
    n: int,
)
    requires
        keys_unique(entries),
        0 <= k < entries.len(),
        0 <= n < entries.len(),
        entries[k].is_key_frame,
        !entries[n].is_key_frame,
        eviction_score(entries[n], w, now) >= eviction_score(entries[k], w, now),
        !has_key(evict_until(entries, limit, true, w, now), entries[k].chunk_id),
    ensures
        !has_key(evict_until(entries, limit, true, w, now), entries[n].chunk_id),
    decreases entries.len(),
{
    lemma_leaves_in_order(entries, limit, true, w, now, k, n);
}

/// Where eviction takes the entry at `k` out, every entry that leaves
/// before it is out too.
pub proof fn lemma_leaves_in_order(
    entries: Seq<EntryModel>,
    limit: int,
    smart: bool,
    w: EvictionWeights,
    now: u64,
    k: int,
    n: int,
)
    requires
        keys_unique(entries),
        0 <= k < entries.len(),
        0 <= n < entries.len(),
        k != n,
        evicts_before(smart, w, now, entries[n], n, entries[k], k),
        !has_key(evict_until(entries, limit, smart, w, now), entries[k].chunk_id),
    ensures
        !has_key(evict_until(entries, limit, smart, w, now), entries[n].chunk_id),
    decreases entries.len(),
{
    if entries.len() == 0 || total_size(entries) <= limit {
        assert(entries[k].chunk_id == entries[k].chunk_id);
        assert(has_key(entries, entries[k].chunk_id));
    } else {
        let v = victim(entries, smart, w, now);
        lemma_victim_first(entries, entries.len() as int, smart, w, now);
        let rest = entries.remove(v);
        lemma_remove_keeps(entries, v);
        lemma_evict_until(rest, limit, smart, w, now);
        if n == v {
        } else if k == v {
            assert(evicts_before(smart, w, now, entries[v], v, entries[n], n));
            assert(false);
        } else {
            let k2 = if k < v {
                k
            } else {
                k - 1
            };
            let n2 = if n < v {
                n
            } else {
                n - 1
            };
            assert(rest[k2] == entries[k]);
            assert(rest[n2] == entries[n]);
            lemma_leaves_in_order(rest, limit, smart, w, now, k2, n2);
        }
    }
}

/// The eviction score of an entry, as `eviction_score` defines it.
pub fn calculate_eviction_score(entry: &CacheEntry, w: &EvictionWeights, now: u64) -> (score: i128)
    ensures
        score == eviction_score(entry@, *w, now),
{
    let idle: u64 = if now >= entry.last_accessed {
        now - entry.last_accessed
    } else {
        0
    };
    let age: u64 = if now >= entry.created_at {
        now - entry.created_at
    } else {
        0
    };
    let ratio: u64 = if entry.compression_ratio == 0 {
        1
    } else {
        entry.compression_ratio
    };
    assert(idle * w.recency <= 0xFFFF_FFFF_FFFF_FFFF * 0xFFFF_FFFF) by (nonlinear_arith)
        requires
            0 <= idle <= 0xFFFF_FFFF_FFFF_FFFF,
            0 <= w.recency <= 0xFFFF_FFFF,
    ;
    assert(age * w.age <= 0xFFFF_FFFF_FFFF_FFFF * 0xFFFF_FFFF) by (nonlinear_arith)
        requires
            0 <= age <= 0xFFFF_FFFF_FFFF_FFFF,
            0 <= w.age <= 0xFFFF_FFFF,
    ;
    let recency_part: i128 = (idle as i128) * (w.recency as i128);
    let age_part: i128 = (age as i128) * (w.age as i128);
    let frequency_part: i128 = ((w.frequency as i128) * 1000) / ((entry.access_count as i128) + 1);
    let compression_part: i128 = ((w.compression as i128) * 1000000) / (ratio as i128);
    let bonus: i128 = if entry.is_key_frame {
        (w.key_frame_bonus as i128) * 1000
    } else {
        0
    };
    assert(0 <= frequency_part <= w.frequency * 1000) by (nonlinear_arith)
        requires
            frequency_part == (w.frequency * 1000) / (entry.access_count + 1),
            0 <= w.frequency,
            0 <= entry.access_count,
    ;
    assert(0 <= compression_part <= w.compression * 1000000) by (nonlinear_arith)
        requires
            compression_part == (w.compression * 1000000) / (ratio as int),
            0 <= w.compression,
            1 <= ratio,
    ;
    recency_part + age_part + frequency_part + compression_part - bonus
}

/// Whether the entry `a`, at position `i`, leaves before the entry `b`, at
/// position `j`.
pub fn leaves_before(
    smart: bool,
    w: &EvictionWeights,
    now: u64,
    a: &CacheEntry,
    i: usize,
    b: &CacheEntry,
    j: usize,
) -> (first: bool)
    ensures
        first == evicts_before(smart, *w, now, a@, i as int, b@, j as int),
{
    if smart {
        let sa = calculate_eviction_score(a, w, now);
        let sb = calculate_eviction_score(b, w, now);
        sa > sb || (sa == sb && ((!a.is_key_frame && b.is_key_frame) || (a.is_key_frame
            == b.is_key_frame && i < j)))
    } else {
        a.created_at < b.created_at || (a.created_at == b.created_at && i < j)
    }
}

/// The position of the entry that leaves first.
pub fn pick_victim(entries: &Vec<CacheEntry>, smart: bool, w: &EvictionWeights, now: u64) -> (at:
    usize)
    requires
        entries.len() > 0,
    ensures
        at < entries.len(),
        at == victim(crate::persistent_cache::models(entries@), smart, *w, now),
{
    let ghost m = crate::persistent_cache::models(entries@);
    let mut best: usize = 0;
    let mut k: usize = 1;
    while k < entries.len()
        invariant
            1 <= k <= entries.len(),
            best < k,
            m == crate::persistent_cache::models(entries@),
            best == victim_among(m, k as int, smart, *w, now),
        decreases entries.len() - k,
    {
        if leaves_before(smart, w, now, &entries[k], k, &entries[best], best) {
            best = k;
        }
        k = k + 1;
    }
    best
}

} // verus!

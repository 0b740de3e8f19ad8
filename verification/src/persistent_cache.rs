//! The durable chunk cache: a keyed store of encoded or decoded payloads
//! with expiry, integrity checking, size-bounded eviction, backup and
//! restore.
//!
//! The cache keeps its entries in the order in which they were stored. No key
//! occurs twice, every entry records the length of its payload, and the
//! cache's size is the sum of those lengths.

use crate::compression::compress_data;
use crate::compression::decompress_data;
use crate::compression::lemma_round_trip;
use crate::compression::spec_compress;
use crate::compression::spec_decompress;
use crate::digest::calculate_data_hash;
use crate::digest::sha256_hex;
use crate::utils::error::invalid_parameter;
use crate::utils::error::VideoEngineError;
use crate::utils::time::current_timestamp_ms;
use vstd::prelude::*;
use vstd::string::*;

verus! {

/// Bytes in one mebibyte, the unit of `max_size_mb`.
pub const BYTES_PER_MB: u64 = 1048576;

/// How much each factor weighs in an entry's eviction score, in thousandths
/// of a point per unit, and the bonus that protects key frames, in
/// thousandths of a point.
#[derive(Clone, Copy, Debug, PartialEq, Eq)]
pub struct EvictionWeights {
    /// Per second since the entry was last read.
    pub recency: u32,
    /// Per second since the entry was stored.
    pub age: u32,
    /// For the inverse of the access count plus one.
    pub frequency: u32,
    /// For the inverse of the compression ratio.
    pub compression: u32,
    /// Taken off the score of a key frame.
    pub key_frame_bonus: u32,
}

/// What a cache is configured with.
#[derive(Clone, Copy, Debug, PartialEq, Eq)]
pub struct PersistentCacheConfig {
    /// Maximum cache size in MB.
    pub max_size_mb: u64,
    /// Maximum number of chunks.
    pub max_chunks: usize,
    /// The share of the maximum size, in percent, above which a store makes
    /// room first and down to which a cleanup evicts.
    pub cleanup_threshold: u32,
    /// Chunk expiration time in seconds.
    pub chunk_expiration: u64,
    /// Store payloads run-length encoded.
    pub enable_compression: bool,
    /// Evict by score rather than by age.
    pub enable_smart_eviction: bool,
    /// Check each payload against its digest when it is read.
    pub enable_integrity_check: bool,
    /// Allow backups to be taken.
    pub enable_backup: bool,
    /// The weights of the eviction score.
    pub weights: EvictionWeights,
}

/// Running counters of a cache. Counters stop at the largest value of their
/// type. Ratios are in thousandths.
#[derive(Clone, Copy, Debug, PartialEq, Eq)]
pub struct PersistentCacheStats {
    pub cache_hits: u64,
    pub cache_misses: u64,
    pub total_chunks_stored: u64,
    pub total_chunks_evicted: u64,
    pub total_bytes_stored: u64,
    pub total_bytes_evicted: u64,
    /// Hits per thousand reads.
    pub cache_hit_ratio: u64,
    /// Bytes held per thousand bytes of the maximum size.
    pub cache_utilization: u64,
    /// Mean of the stored entries' compression ratios, in thousandths.
    pub avg_compression_ratio: u64,
    pub integrity_failures: u64,
    pub backup_operations: u64,
    pub restore_operations: u64,
}

/// One cached payload with what the cache knows of it.
#[derive(Debug)]
pub struct CacheEntry {
    pub chunk_id: String,
    pub video_url: String,
    /// The payload as stored: encoded where compression is on.
    pub payload: Vec<u8>,
    /// Length of the stored payload in bytes.
    pub file_size: u64,
    /// Length of the payload as it was handed in, in bytes: what the entry
    /// counts for in the cache's size.
    pub data_size: u64,
    pub created_at: u64,
    pub last_accessed: u64,
    pub access_count: u32,
    pub is_key_frame: bool,
    pub sequence_number: u32,
    /// Payload length per thousand stored bytes.
    pub compression_ratio: u64,
    /// Digest of the stored payload.
    pub file_hash: String,
    /// The entry is expired once the clock is past this.
    pub expires_at: u64,
}

/// A cache entry as a mathematical value.
pub struct EntryModel {
    pub chunk_id: Seq<char>,
    pub video_url: Seq<char>,
    pub payload: Seq<u8>,
    pub file_size: u64,
    pub data_size: u64,
    pub created_at: u64,
    pub last_accessed: u64,
    pub access_count: u32,
    pub is_key_frame: bool,
    pub sequence_number: u32,
    pub compression_ratio: u64,
    pub file_hash: Seq<char>,
    pub expires_at: u64,
}

impl View for CacheEntry {
    type V = EntryModel;

    open spec fn view(&self) -> EntryModel {
        EntryModel {
            chunk_id: self.chunk_id@,
            video_url: self.video_url@,
            payload: self.payload@,
            file_size: self.file_size,
            data_size: self.data_size,
            created_at: self.created_at,
            last_accessed: self.last_accessed,
            access_count: self.access_count,
            is_key_frame: self.is_key_frame,
            sequence_number: self.sequence_number,
            compression_ratio: self.compression_ratio,
            file_hash: self.file_hash@,
            expires_at: self.expires_at,
        }
    }
}

/// The models of a sequence of entries, in order.
pub open spec fn models(entries: Seq<CacheEntry>) -> Seq<EntryModel> {
    Seq::new(entries.len(), |i: int| entries[i]@)
}

/// `x + 1`, stopping at the largest `u64`.
pub open spec fn bump64(x: u64) -> u64 {
    if x < u64::MAX {
        (x + 1) as u64
    } else {
        x
    }
}

/// `x + 1`, stopping at the largest `u32`.
pub open spec fn bump32(x: u32) -> u32 {
    if x < u32::MAX {
        (x + 1) as u32
    } else {
        x
    }
}

/// `a + b`, stopping at the largest `u64`.
pub open spec fn add64(a: u64, b: int) -> u64 {
    if a + b <= u64::MAX {
        (a + b) as u64
    } else {
        u64::MAX
    }
}

/// `v`, stopping at the largest `u64`.
pub open spec fn clamp64(v: int) -> u64 {
    if v <= u64::MAX {
        v as u64
    } else {
        u64::MAX
    }
}

/// `part` per thousand of `whole`; 0 where `whole` is 0.
pub open spec fn per_mille(part: int, whole: int) -> u64 {
    if whole <= 0 {
        0
    } else {
        clamp64(part * 1000 / whole)
    }
}

/// The sum of the stored payloads' lengths.
pub open spec fn stored_bytes(entries: Seq<EntryModel>) -> int
    decreases entries.len(),
{
    if entries.len() == 0 {
        0
    } else {
        stored_bytes(entries.drop_last()) + entries.last().file_size
    }
}

/// The size of the entries: the sum of the lengths of the payloads as they
/// were handed in.
pub open spec fn total_size(entries: Seq<EntryModel>) -> int
    decreases entries.len(),
{
    if entries.len() == 0 {
        0
    } else {
        total_size(entries.drop_last()) + entries.last().data_size
    }
}

/// Whether some entry has the key.
pub open spec fn has_key(entries: Seq<EntryModel>, key: Seq<char>) -> bool {
    exists|i: int| 0 <= i < entries.len() && #[trigger] entries[i].chunk_id == key
}

/// The position of an entry with the key, where there is one.
pub open spec fn key_index(entries: Seq<EntryModel>, key: Seq<char>) -> int {
    choose|i: int| 0 <= i < entries.len() && #[trigger] entries[i].chunk_id == key
}

/// No key occurs twice.
pub open spec fn keys_unique(entries: Seq<EntryModel>) -> bool {
    forall|i: int, j: int|
        0 <= i < j < entries.len() ==> #[trigger] entries[i].chunk_id
            != #[trigger] entries[j].chunk_id
}

/// Every entry records the length of its payload.
pub open spec fn sizes_exact(entries: Seq<EntryModel>) -> bool {
    forall|i: int|
        0 <= i < entries.len() ==> (#[trigger] entries[i]).file_size == entries[i].payload.len()
}

/// The size down to which a cleanup evicts: `threshold` percent of `max`,
/// and no more than a `usize` holds.
pub open spec fn target_size(max: int, threshold: u32) -> int {
    if max * threshold / 100 <= usize::MAX {
        max * threshold / 100
    } else {
        usize::MAX as int
    }
}

/// The size that the entries already held may keep when `size` more bytes
/// are to fit under `target`.
pub open spec fn room_for(target: int, size: int) -> int {
    if target >= size {
        target - size
    } else {
        0
    }
}

/// When an entry stored at `now` expires.
pub open spec fn expiry_of(now: u64, ttl_seconds: u64) -> u64 {
    clamp64(now + ttl_seconds * 1000)
}

/// The compression ratio recorded for a payload of `raw` bytes stored
/// in `stored` bytes, in thousandths. 1000 where nothing is stored.
pub open spec fn ratio_of(raw: int, stored: int) -> u64 {
    if stored <= 0 {
        1000
    } else {
        clamp64(raw * 1000 / stored)
    }
}

/// The mean compression ratio after the `count`-th entry, with `ratio`, has
/// joined a mean of `mean`.
pub open spec fn running_mean(mean: u64, count: u64, ratio: u64) -> u64 {
    if count == 0 {
        mean
    } else {
        clamp64((mean * (count - 1) + ratio) / (count as int))
    }
}

/// The entry after a read or a repeated store at `now`.
pub open spec fn refreshed(e: EntryModel, now: u64) -> EntryModel {
    EntryModel { last_accessed: now, access_count: bump32(e.access_count), ..e }
}

/// Whether the entry is past its expiry at `now`.
pub open spec fn entry_expired(e: EntryModel, now: u64) -> bool {
    now > e.expires_at
}

/// Whether the stored payload can be handed out: it has the digest that was
/// recorded, where integrity is checked, and it decodes, where payloads are
/// stored encoded.
pub open spec fn entry_intact(e: EntryModel, config: PersistentCacheConfig) -> bool {
    &&& config.enable_integrity_check ==> sha256_hex(e.payload) == e.file_hash
    &&& config.enable_compression ==> spec_decompress(e.payload) is Some
}

/// The bytes that a read of the entry hands out.
pub open spec fn entry_data(e: EntryModel, config: PersistentCacheConfig) -> Seq<u8> {
    if config.enable_compression {
        spec_decompress(e.payload)->0
    } else {
        e.payload
    }
}

/// The payload as the cache stores it.
pub open spec fn stored_payload(data: Seq<u8>, config: PersistentCacheConfig) -> Seq<u8> {
    if config.enable_compression {
        spec_compress(data)
    } else {
        data
    }
}

/// The entry that a store at `now` makes.
pub open spec fn new_entry(
    chunk_id: Seq<char>,
    video_url: Seq<char>,
    data: Seq<u8>,
    is_key_frame: bool,
    sequence_number: u32,
    now: u64,
    config: PersistentCacheConfig,
) -> EntryModel {
    let payload = stored_payload(data, config);
    EntryModel {
        chunk_id,
        video_url,
        payload,
        file_size: payload.len() as u64,
        data_size: data.len() as u64,
        created_at: now,
        last_accessed: now,
        access_count: 1,
        is_key_frame,
        sequence_number,
        compression_ratio: if config.enable_compression {
            ratio_of(data.len() as int, payload.len() as int)
        } else {
            1000
        },
        file_hash: sha256_hex(payload),
        expires_at: expiry_of(now, config.chunk_expiration),
    }
}

/// The bytes of an optional buffer.
pub open spec fn bytes_of(r: Option<Vec<u8>>) -> Option<Seq<u8>> {
    match r {
        Some(v) => Some(v@),
        None => None,
    }
}

/// Whether an entry can be committed: it records the length of its stored
/// payload, and its size fits in a `usize`.
pub open spec fn entry_fits(e: EntryModel) -> bool {
    &&& e.file_size == e.payload.len()
    &&& e.data_size <= usize::MAX
}

/// Whether a loaded entry can join the entries held: its key is new, it
/// records the length of its payload, and the sum of the sizes still fits in
/// a `usize`.
pub open spec fn admissible(held: Seq<EntryModel>, e: EntryModel) -> bool {
    &&& !has_key(held, e.chunk_id)
    &&& e.file_size == e.payload.len()
    &&& total_size(held) + e.data_size <= usize::MAX
}

/// The entries held after the loaded ones were offered in order: each joins
/// where it is admissible and is passed over where it is not.
pub open spec fn replayed(held: Seq<EntryModel>, loaded: Seq<EntryModel>) -> Seq<EntryModel>
    decreases loaded.len(),
{
    if loaded.len() == 0 {
        held
    } else {
        replayed(
            if admissible(held, loaded[0]) {
                held.push(loaded[0])
            } else {
                held
            },
            loaded.skip(1),
        )
    }
}

/// Where a chunk with sequence number `seq_no` goes into `order`, a list of
/// positions in `entries` sorted by sequence number: behind the last
/// position, from `from` on, whose entry has a sequence number of at most
/// `seq_no`.
pub open spec fn insert_point(entries: Seq<EntryModel>, order: Seq<int>, seq_no: u32, from: int) -> int
    decreases order.len() - from,
{
    if 0 <= from < order.len() && entries[order[from]].sequence_number <= seq_no {
        insert_point(entries, order, seq_no, from + 1)
    } else {
        from
    }
}

/// The positions of the entries of one video among the first `n` entries,
/// sorted by sequence number; entries with the same number stand in the
/// order in which they were stored.
pub open spec fn chunk_order(entries: Seq<EntryModel>, video_url: Seq<char>, n: int) -> Seq<int>
    decreases n,
{
    if n <= 0 {
        Seq::empty()
    } else {
        let before = chunk_order(entries, video_url, n - 1);
        if entries[n - 1].video_url == video_url {
            before.insert(
                insert_point(entries, before, entries[n - 1].sequence_number, 0),
                n - 1,
            )
        } else {
            before
        }
    }
}

/// The keys of the entries of one video, in playback order.
pub open spec fn video_chunk_ids(entries: Seq<EntryModel>, video_url: Seq<char>) -> Seq<Seq<char>> {
    let order = chunk_order(entries, video_url, entries.len() as int);
    Seq::new(order.len(), |i: int| entries[order[i]].chunk_id)
}

/// Whether `order` lists positions of `entries` in playback order: by
/// sequence number, and by position among equal numbers.
pub open spec fn in_playback_order(entries: Seq<EntryModel>, order: Seq<int>) -> bool {
    forall|a: int, b: int|
        0 <= a < b < order.len() ==> {
            let x = entries[#[trigger] order[a]];
            let y = entries[#[trigger] order[b]];
            x.sequence_number < y.sequence_number || (x.sequence_number == y.sequence_number
                && order[a] < order[b])
        }
}

impl EvictionWeights {
    /// The weights that the engine ships with: 0.3 per second unread, 0.2
    /// per second of age, 0.3 for rare access, 0.2 for poor compression, and
    /// 10 points off for a key frame.
    pub fn new() -> (w: EvictionWeights)
        ensures
            w == (EvictionWeights {
                recency: 300,
                age: 200,
                frequency: 300,
                compression: 200,
                key_frame_bonus: 10000,
            }),
    {
        EvictionWeights {
            recency: 300,
            age: 200,
            frequency: 300,
            compression: 200,
            key_frame_bonus: 10000,
        }
    }
}

impl PersistentCacheConfig {
    /// The configuration that the engine ships with.
    pub open spec fn spec_default() -> PersistentCacheConfig {
        PersistentCacheConfig {
            max_size_mb: 500,
            max_chunks: 1000,
            cleanup_threshold: 80,
            chunk_expiration: 86400,
            enable_compression: true,
            enable_smart_eviction: true,
            enable_integrity_check: true,
            enable_backup: true,
            weights: EvictionWeights {
                recency: 300,
                age: 200,
                frequency: 300,
                compression: 200,
                key_frame_bonus: 10000,
            },
        }
    }
}

impl Default for PersistentCacheConfig {
    fn default() -> (config: PersistentCacheConfig)
        ensures
            config == PersistentCacheConfig::spec_default(),
    {
        PersistentCacheConfig {
            max_size_mb: 500,
            max_chunks: 1000,
            cleanup_threshold: 80,
            chunk_expiration: 86400,
            enable_compression: true,
            enable_smart_eviction: true,
            enable_integrity_check: true,
            enable_backup: true,
            weights: EvictionWeights::new(),
        }
    }
}

impl PersistentCacheStats {
    /// All counters at zero.
    pub open spec fn zero() -> PersistentCacheStats {
        PersistentCacheStats {
            cache_hits: 0,
            cache_misses: 0,
            total_chunks_stored: 0,
            total_chunks_evicted: 0,
            total_bytes_stored: 0,
            total_bytes_evicted: 0,
            cache_hit_ratio: 0,
            cache_utilization: 0,
            avg_compression_ratio: 0,
            integrity_failures: 0,
            backup_operations: 0,
            restore_operations: 0,
        }
    }

    /// The counters after `count` more removals, of `bytes` bytes in all.
    pub open spec fn after_evictions(self, count: int, bytes: int) -> PersistentCacheStats {
        PersistentCacheStats {
            total_chunks_evicted: add64(self.total_chunks_evicted, count),
            total_bytes_evicted: add64(self.total_bytes_evicted, bytes),
            ..self
        }
    }

    /// The counters after one more payload failed its integrity check.
    pub open spec fn after_integrity_failure(self) -> PersistentCacheStats {
        PersistentCacheStats { integrity_failures: bump64(self.integrity_failures), ..self }
    }

    /// The counters after one more read that found nothing.
    pub open spec fn after_miss(self) -> PersistentCacheStats {
        PersistentCacheStats {
            cache_misses: bump64(self.cache_misses),
            cache_hit_ratio: per_mille(
                self.cache_hits as int,
                self.cache_hits + bump64(self.cache_misses),
            ),
            ..self
        }
    }

    /// The counters after one more read that returned a payload.
    pub open spec fn after_hit(self) -> PersistentCacheStats {
        PersistentCacheStats {
            cache_hits: bump64(self.cache_hits),
            cache_hit_ratio: per_mille(
                bump64(self.cache_hits) as int,
                bump64(self.cache_hits) + self.cache_misses,
            ),
            ..self
        }
    }

    /// The counters after a payload of `size` bytes with compression ratio
    /// `ratio` was stored.
    pub open spec fn after_store(self, size: u64, ratio: u64) -> PersistentCacheStats {
        PersistentCacheStats {
            total_chunks_stored: bump64(self.total_chunks_stored),
            total_bytes_stored: add64(self.total_bytes_stored, size as int),
            avg_compression_ratio: running_mean(
                self.avg_compression_ratio,
                bump64(self.total_chunks_stored),
                ratio,
            ),
            ..self
        }
    }
}

/// A keyed store of payloads, bounded in size.
pub struct PersistentCacheManager {
    entries: Vec<CacheEntry>,
    config: PersistentCacheConfig,
    max_cache_size: usize,
    current_cache_size: usize,
    stats: PersistentCacheStats,
    last_cleanup: u64,
}

impl PersistentCacheManager {
    /// The entries, in the order in which they were stored.
    pub closed spec fn entries(&self) -> Seq<EntryModel> {
        models(self.entries@)
    }

    /// The configuration that the cache was made with.
    pub closed spec fn config(&self) -> PersistentCacheConfig {
        self.config
    }

    /// The maximum size in bytes.
    pub closed spec fn max_size(&self) -> int {
        self.max_cache_size as int
    }

    /// The bytes that count against the budget: the sum of the payloads'
    /// lengths as they were handed in.
    pub closed spec fn current_size(&self) -> int {
        self.current_cache_size as int
    }

    /// The running counters.
    pub closed spec fn counters(&self) -> PersistentCacheStats {
        self.stats
    }

    /// When smart eviction last ran, or when the cache was made.
    pub closed spec fn last_cleanup(&self) -> u64 {
        self.last_cleanup
    }

    /// The size down to which a cleanup evicts.
    pub open spec fn target(&self) -> int {
        target_size(self.max_size(), self.config().cleanup_threshold)
    }

    /// The invariant of a cache: keys are unique, sizes are exact, the
    /// current size is their sum, and the maximum is the configured one.
    pub open spec fn wf(&self) -> bool {
        &&& keys_unique(self.entries())
        &&& sizes_exact(self.entries())
        &&& self.current_size() == total_size(self.entries())
        &&& self.max_size() == self.config().max_size_mb * BYTES_PER_MB
    }

    /// Whether settings and maximum are those of `pre`.
    pub open spec fn same_settings(&self, pre: &PersistentCacheManager) -> bool {
        &&& self.config() == pre.config()
        &&& self.max_size() == pre.max_size()
    }

    /// An empty cache with the given configuration, as made at `now`. It is
    /// refused where the maximum size in bytes does not fit in a `usize`.
    pub fn with_config_at(config: PersistentCacheConfig, now: u64) -> (made: Result<
        PersistentCacheManager,
        VideoEngineError,
    >)
        ensures
            config.max_size_mb * BYTES_PER_MB <= usize::MAX <==> made is Ok,
            made matches Ok(cache) ==> {
                &&& cache.wf()
                &&& cache.entries() == Seq::<EntryModel>::empty()
                &&& cache.config() == config
                &&& cache.current_size() == 0
                &&& cache.counters() == PersistentCacheStats::zero()
                &&& cache.last_cleanup() == now
            },
            made matches Err(e) ==> e is InvalidParameter,
    {
        let bytes: u128 = (config.max_size_mb as u128) * (BYTES_PER_MB as u128);
        if bytes > usize::MAX as u128 {
            return Err(invalid_parameter("maximum cache size does not fit in memory"));
        }
        let cache = PersistentCacheManager {
            entries: Vec::new(),
            config,
            max_cache_size: bytes as usize,
            current_cache_size: 0,
            stats: PersistentCacheStats {
                cache_hits: 0,
                cache_misses: 0,
                total_chunks_stored: 0,
                total_chunks_evicted: 0,
                total_bytes_stored: 0,
                total_bytes_evicted: 0,
                cache_hit_ratio: 0,
                cache_utilization: 0,
                avg_compression_ratio: 0,
                integrity_failures: 0,
                backup_operations: 0,
                restore_operations: 0,
            },
            last_cleanup: now,
        };
        proof {
            assert(cache.entries() =~= Seq::<EntryModel>::empty());
        }
        Ok(cache)
    }

    /// The number of entries.
    pub fn len(&self) -> (n: usize)
        ensures
            n == self.entries().len(),
    {
        self.entries.len()
    }

    /// The sum of the stored payloads' lengths, in bytes.
    pub fn get_current_size(&self) -> (n: usize)
        ensures
            n == self.current_size(),
    {
        self.current_cache_size
    }

    /// The maximum size in bytes.
    pub fn get_max_size(&self) -> (n: usize)
        ensures
            n == self.max_size(),
    {
        self.max_cache_size
    }

    /// The configuration.
    pub fn get_config(&self) -> (c: PersistentCacheConfig)
        ensures
            c == self.config(),
    {
        self.config
    }

    /// The size down to which a cleanup evicts.
    pub fn get_target_size(&self) -> (t: usize)
        ensures
            t == self.target(),
    {
        assert(self.max_cache_size * self.config.cleanup_threshold <= 0xFFFF_FFFF_FFFF_FFFF
            * 0xFFFF_FFFF) by (nonlinear_arith)
            requires
                0 <= self.max_cache_size <= 0xFFFF_FFFF_FFFF_FFFF,
                0 <= self.config.cleanup_threshold <= 0xFFFF_FFFF,
        ;
        let scaled: u128 = (self.max_cache_size as u128) * (self.config.cleanup_threshold as u128)
            / 100;
        if scaled <= usize::MAX as u128 {
            scaled as usize
        } else {
            usize::MAX
        }
    }

    /// Where the entry with the key stands.
    fn position(&self, key: &String) -> (at: Option<usize>)
        requires
            self.wf(),
        ensures
            match at {
                Some(i) => {
                    &&& i < self.entries().len()
                    &&& self.entries()[i as int].chunk_id == key@
                    &&& has_key(self.entries(), key@)
                    &&& key_index(self.entries(), key@) == i
                },
                None => !has_key(self.entries(), key@),
            },
    {
        let mut i: usize = 0;
        while i < self.entries.len()
            invariant
                self.wf(),
                i <= self.entries.len(),
                forall|j: int| 0 <= j < i ==> (#[trigger] self.entries()[j]).chunk_id != key@,
            decreases self.entries.len() - i,
        {
            if self.entries[i].chunk_id == *key {
                proof {
                    lemma_key_index(self.entries(), i as int);
                }
                return Some(i);
            }
            i = i + 1;
        }
        None
    }

    /// Whether the cache holds an entry with the key.
    pub fn is_chunk_cached(&self, chunk_id: &str) -> (cached: bool)
        requires
            self.wf(),
        ensures
            cached == has_key(self.entries(), chunk_id@),
    {
        let key = String::from_str(chunk_id);
        self.position(&key).is_some()
    }

    /// Takes the entry at `at` out and accounts for it as evicted.
    fn remove_at(&mut self, at: usize)
        requires
            old(self).wf(),
            at < old(self).entries().len(),
        ensures
            final(self).wf(),
            final(self).same_settings(old(self)),
            final(self).last_cleanup() == old(self).last_cleanup(),
            final(self).entries() == old(self).entries().remove(at as int),
            final(self).current_size() == old(self).current_size() - old(self).entries()[at as int].data_size,
            stored_bytes(final(self).entries()) == stored_bytes(old(self).entries()) - old(self).entries()[at as int].file_size,
            final(self).counters() == old(self).counters().after_evictions(
                1,
                old(self).entries()[at as int].file_size as int,
            ),
    {
        proof {
            crate::eviction::lemma_remove_keeps(self.entries(), at as int);
            lemma_total_size_remove(self.entries(), at as int);
            lemma_total_size_bounds(self.entries(), at as int);
        }
        let removed = self.entries.remove(at);
        proof {
            assert(self.entries() =~= old(self).entries().remove(at as int));
            assert(removed@ == old(self).entries()[at as int]);
        }
        self.current_cache_size = self.current_cache_size - removed.data_size as usize;
        self.stats.total_chunks_evicted = increment(self.stats.total_chunks_evicted);
        self.stats.total_bytes_evicted = saturating_sum(
            self.stats.total_bytes_evicted,
            removed.file_size,
        );
    }

    /// What `remove_chunk` does to a cache.
    pub open spec fn removed(&self, post: &PersistentCacheManager, chunk_id: Seq<char>, found: bool) -> bool {
        &&& post.same_settings(self)
        &&& post.last_cleanup() == self.last_cleanup()
        &&& found == has_key(self.entries(), chunk_id)
        &&& if found {
            let at = key_index(self.entries(), chunk_id);
            &&& post.entries() == self.entries().remove(at)
            &&& post.current_size() == self.current_size() - self.entries()[at].data_size
            &&& post.counters() == self.counters().after_evictions(
                1,
                self.entries()[at].file_size as int,
            )
        } else {
            &&& post.entries() == self.entries()
            &&& post.current_size() == self.current_size()
            &&& post.counters() == self.counters()
        }
    }

    /// Removes the entry with the key, if there is one, and counts it as
    /// evicted. Says whether there was one.
    pub fn remove_chunk(&mut self, chunk_id: &str) -> (found: bool)
        requires
            old(self).wf(),
        ensures
            final(self).wf(),
            old(self).removed(final(self), chunk_id@, found),
    {
        let key = String::from_str(chunk_id);
        match self.position(&key) {
            Some(at) => {
                self.remove_at(at);
                true
            },
            None => false,
        }
    }

    /// What eviction down to `limit` does to a cache.
    pub open spec fn evicted_to(&self, post: &PersistentCacheManager, limit: int, smart: bool, now: u64) -> bool {
        &&& post.same_settings(self)
        &&& post.entries() == crate::eviction::evict_until(
            self.entries(),
            limit,
            smart,
            self.config().weights,
            now,
        )
        &&& post.current_size() == total_size(post.entries())
        &&& post.counters() == self.counters().after_evictions(
            self.entries().len() - post.entries().len(),
            stored_bytes(self.entries()) - stored_bytes(post.entries()),
        )
    }

    /// Evicts, in eviction order, until the cache holds at most `limit`
    /// bytes or nothing.
    fn evict_to(&mut self, limit: usize, smart: bool, now: u64)
        requires
            old(self).wf(),
        ensures
            final(self).wf(),
            old(self).evicted_to(final(self), limit as int, smart, now),
            final(self).last_cleanup() == old(self).last_cleanup(),
            final(self).current_size() <= limit || final(self).entries().len() == 0,
            final(self).current_size() <= old(self).current_size(),
    {
        let weights = self.config.weights;
        proof {
            crate::eviction::lemma_evict_until(
                self.entries(),
                limit as int,
                smart,
                weights,
                now,
            );
        }
        while self.current_cache_size > limit && self.entries.len() > 0
            invariant
                self.wf(),
                self.same_settings(old(self)),
                weights == old(self).config().weights,
                self.last_cleanup() == old(self).last_cleanup(),
                crate::eviction::evict_until(self.entries(), limit as int, smart, weights, now)
                    == crate::eviction::evict_until(
                    old(self).entries(),
                    limit as int,
                    smart,
                    weights,
                    now,
                ),
                self.entries().len() <= old(self).entries().len(),
                self.current_size() <= old(self).current_size(),
                stored_bytes(self.entries()) <= stored_bytes(old(self).entries()),
                self.counters() == old(self).counters().after_evictions(
                    old(self).entries().len() - self.entries().len(),
                    stored_bytes(old(self).entries()) - stored_bytes(self.entries()),
                ),
            decreases self.entries.len(),
        {
            let at = crate::eviction::pick_victim(&self.entries, smart, &weights, now);
            proof {
                lemma_total_size_bounds(self.entries(), at as int);
            }
            self.remove_at(at);
        }
        proof {
            lemma_total_size_nonneg(self.entries());
        }
    }

    /// What `simple_cleanup` does to a cache: entries leave oldest first
    /// until the cache is down to its target size.
    pub open spec fn simply_cleaned(&self, post: &PersistentCacheManager) -> bool {
        &&& self.evicted_to(post, self.target(), false, 0)
        &&& post.last_cleanup() == self.last_cleanup()
    }

    /// Evicts the oldest entries until the cache is down to its target
    /// size. Afterwards the utilization is at most the cleanup threshold.
    pub fn simple_cleanup(&mut self)
        requires
            old(self).wf(),
        ensures
            final(self).wf(),
            old(self).simply_cleaned(final(self)),
            final(self).current_size() <= final(self).target(),
    {
        let limit = self.get_target_size();
        self.evict_to(limit, false, 0);
    }

    /// What `cleanup_cache_at` does to a cache.
    pub open spec fn cleaned(&self, post: &PersistentCacheManager, now: u64) -> bool {
        if self.config().enable_smart_eviction {
            &&& self.evicted_to(post, self.target(), true, now)
            &&& post.last_cleanup() == now
        } else {
            self.simply_cleaned(post)
        }
    }

    /// Brings the cache down to its target size: by score where smart
    /// eviction is on, oldest first where it is off. Afterwards the
    /// utilization is at most the cleanup threshold.
    pub fn cleanup_cache_at(&mut self, now: u64)
        requires
            old(self).wf(),
        ensures
            final(self).wf(),
            old(self).cleaned(final(self), now),
            final(self).current_size() <= final(self).target(),
    {
        if !self.config.enable_smart_eviction {
            self.simple_cleanup();
        } else {
            let limit = self.get_target_size();
            self.evict_to(limit, true, now);
            self.last_cleanup = now;
        }
    }

    /// Records a read or a repeated store of the entry at `at`.
    fn touch(&mut self, at: usize, now: u64)
        requires
            old(self).wf(),
            at < old(self).entries().len(),
        ensures
            final(self).wf(),
            final(self).same_settings(old(self)),
            final(self).last_cleanup() == old(self).last_cleanup(),
            final(self).counters() == old(self).counters(),
            final(self).current_size() == old(self).current_size(),
            final(self).entries() == old(self).entries().update(
                at as int,
                refreshed(old(self).entries()[at as int], now),
            ),
    {
        proof {
            lemma_refresh_keeps(self.entries(), at as int, now);
        }
        let count = self.entries[at].access_count;
        self.entries[at].last_accessed = now;
        self.entries[at].access_count = if count < u32::MAX {
            count + 1
        } else {
            count
        };
        proof {
            assert(self.entries() =~= old(self).entries().update(
                at as int,
                refreshed(old(self).entries()[at as int], now),
            ));
        }
    }

    /// Counts a read that found nothing.
    fn count_miss(&mut self)
        ensures
            final(self).entries() == old(self).entries(),
            final(self).same_settings(old(self)),
            final(self).last_cleanup() == old(self).last_cleanup(),
            final(self).current_size() == old(self).current_size(),
            final(self).counters() == old(self).counters().after_miss(),
    {
        self.stats.cache_misses = increment(self.stats.cache_misses);
        self.stats.cache_hit_ratio = ratio_per_mille(
            self.stats.cache_hits,
            self.stats.cache_hits as u128 + self.stats.cache_misses as u128,
        );
    }

    /// Counts a read that returned a payload.
    fn count_hit(&mut self)
        ensures
            final(self).entries() == old(self).entries(),
            final(self).same_settings(old(self)),
            final(self).last_cleanup() == old(self).last_cleanup(),
            final(self).current_size() == old(self).current_size(),
            final(self).counters() == old(self).counters().after_hit(),
    {
        self.stats.cache_hits = increment(self.stats.cache_hits);
        self.stats.cache_hit_ratio = ratio_per_mille(
            self.stats.cache_hits,
            self.stats.cache_hits as u128 + self.stats.cache_misses as u128,
        );
    }

    /// What committing an entry at `now` does to a cache. A key that is held
    /// is only refreshed. A new key gets the entry at the end; where the
    /// entry would take the cache over its target size, entries leave
    /// first, in eviction order, until the new one fits under the target or
    /// nothing is left. The cache's size counts payloads as they were
    /// handed in, whatever their stored length.
    pub open spec fn entry_added(&self, post: &PersistentCacheManager, e: EntryModel, now: u64) -> bool {
        &&& post.same_settings(self)
        &&& if has_key(self.entries(), e.chunk_id) {
            let at = key_index(self.entries(), e.chunk_id);
            &&& post.entries() == self.entries().update(at, refreshed(self.entries()[at], now))
            &&& post.current_size() == self.current_size()
            &&& post.counters() == self.counters()
            &&& post.last_cleanup() == self.last_cleanup()
        } else {
            let smart = self.config().enable_smart_eviction;
            let crowded = self.current_size() + e.data_size > self.target();
            let kept = if crowded {
                crate::eviction::evict_until(
                    self.entries(),
                    room_for(self.target(), e.data_size as int),
                    smart,
                    self.config().weights,
                    if smart {
                        now
                    } else {
                        0
                    },
                )
            } else {
                self.entries()
            };
            &&& post.entries() == kept.push(e)
            &&& post.current_size() == total_size(kept) + e.data_size
            &&& post.counters() == self.counters().after_evictions(
                self.entries().len() - kept.len(),
                stored_bytes(self.entries()) - stored_bytes(kept),
            ).after_store(e.file_size, e.compression_ratio)
            &&& post.last_cleanup() == if crowded && smart {
                now
            } else {
                self.last_cleanup()
            }
        }
    }

    /// What `store_chunk_at` does to a cache: it commits the entry that the
    /// payload makes.
    pub open spec fn stored(
        &self,
        post: &PersistentCacheManager,
        chunk_id: Seq<char>,
        video_url: Seq<char>,
        data: Seq<u8>,
        is_key_frame: bool,
        sequence_number: u32,
        now: u64,
    ) -> bool {
        self.entry_added(
            post,
            new_entry(
                chunk_id,
                video_url,
                data,
                is_key_frame,
                sequence_number,
                now,
                self.config(),
            ),
            now,
        )
    }

    /// Whether nothing of the cache has changed.
    pub open spec fn untouched(&self, post: &PersistentCacheManager) -> bool {
        &&& post.same_settings(self)
        &&& post.entries() == self.entries()
        &&& post.current_size() == self.current_size()
        &&& post.counters() == self.counters()
        &&& post.last_cleanup() == self.last_cleanup()
    }

    /// Makes the entry that a store at `now` would add, without adding it:
    /// the payload encoded where compression is on, its digest, sizes and
    /// expiry. The cache is not changed, so that the payload can be written
    /// to durable storage before the entry is committed.
    pub fn prepare_entry_at(
        &self,
        chunk_id: &str,
        video_url: &str,
        data: &[u8],
        is_key_frame: bool,
        sequence_number: u32,
        now: u64,
    ) -> (entry: CacheEntry)
        ensures
            entry@ == new_entry(
                chunk_id@,
                video_url@,
                data@,
                is_key_frame,
                sequence_number,
                now,
                self.config(),
            ),
            entry_fits(entry@),
    {
        let compress = self.config.enable_compression;
        let payload: Vec<u8> = if compress {
            compress_data(data)
        } else {
            vstd::slice::slice_to_vec(data)
        };
        let stored_len: usize = payload.len();
        let ratio: u64 = if compress {
            compression_ratio(data.len(), stored_len)
        } else {
            1000
        };
        let file_hash = calculate_data_hash(payload.as_slice());
        let lifetime: u64 = if self.config.chunk_expiration <= u64::MAX / 1000 {
            self.config.chunk_expiration * 1000
        } else {
            u64::MAX
        };
        let expires_at: u64 = if now <= u64::MAX - lifetime {
            now + lifetime
        } else {
            u64::MAX
        };
        CacheEntry {
            chunk_id: String::from_str(chunk_id),
            video_url: String::from_str(video_url),
            payload,
            file_size: stored_len as u64,
            data_size: data.len() as u64,
            created_at: now,
            last_accessed: now,
            access_count: 1,
            is_key_frame,
            sequence_number,
            compression_ratio: ratio,
            file_hash,
            expires_at,
        }
    }

    /// Adds an entry with a new key.
    fn add_entry(&mut self, entry: CacheEntry, now: u64)
        requires
            old(self).wf(),
            !has_key(old(self).entries(), entry@.chunk_id),
            entry_fits(entry@),
        ensures
            final(self).wf(),
            old(self).entry_added(final(self), entry@, now),
            has_key(final(self).entries(), entry@.chunk_id),
    {
        let smart = self.config.enable_smart_eviction;
        let size: usize = entry.data_size as usize;
        let target = self.get_target_size();
        let crowded = size > target || self.current_cache_size > target - size;
        if crowded {
            let limit: usize = if target >= size {
                target - size
            } else {
                0
            };
            self.evict_to(
                limit,
                smart,
                if smart {
                    now
                } else {
                    0
                },
            );
            if smart {
                self.last_cleanup = now;
            }
        }
        let ghost kept = self.entries();
        proof {
            crate::eviction::lemma_evict_until(
                old(self).entries(),
                room_for(old(self).target(), size as int),
                smart,
                old(self).config().weights,
                if smart {
                    now
                } else {
                    0
                },
            );
            lemma_total_size_nonneg(kept);
            assert(!has_key(kept, entry@.chunk_id));
            lemma_push_keeps(kept, entry@);
            lemma_total_size_push(kept, entry@);
        }
        let stored_len = entry.file_size;
        let ratio = entry.compression_ratio;
        self.entries.push(entry);
        self.current_cache_size = self.current_cache_size + size;
        self.stats.total_chunks_stored = increment(self.stats.total_chunks_stored);
        self.stats.total_bytes_stored = saturating_sum(self.stats.total_bytes_stored, stored_len);
        self.stats.avg_compression_ratio = mean_after(
            self.stats.avg_compression_ratio,
            self.stats.total_chunks_stored,
            ratio,
        );
        proof {
            assert(self.entries() =~= kept.push(entry@));
        }
    }

    /// Commits a prepared entry at `now`. A key that is held is only
    /// refreshed. An entry with a new key is added if it records the length
    /// of its payload and its size fits in a `usize`; otherwise it is
    /// refused and nothing changes. Says whether the entry was taken.
    pub fn commit_entry_at(&mut self, entry: CacheEntry, now: u64) -> (done: bool)
        requires
            old(self).wf(),
        ensures
            final(self).wf(),
            done == (has_key(old(self).entries(), entry@.chunk_id) || entry_fits(entry@)),
            done ==> old(self).entry_added(final(self), entry@, now) && has_key(
                final(self).entries(),
                entry@.chunk_id,
            ),
            !done ==> old(self).untouched(final(self)),
    {
        match self.position(&entry.chunk_id) {
            Some(at) => {
                self.touch(at, now);
                proof {
                    assert(final(self).entries()[at as int].chunk_id == entry@.chunk_id);
                }
                return true;
            },
            None => {},
        }
        if entry.payload.len() as u64 != entry.file_size || entry.data_size > usize::MAX as u64 {
            return false;
        }
        self.add_entry(entry, now);
        true
    }

    /// Stores a payload under a key at time `now`. Returns `true`: a store
    /// is never dropped.
    pub fn store_chunk_at(
        &mut self,
        chunk_id: &str,
        video_url: &str,
        data: &[u8],
        is_key_frame: bool,
        sequence_number: u32,
        now: u64,
    ) -> (done: bool)
        requires
            old(self).wf(),
        ensures
            done,
            final(self).wf(),
            old(self).stored(
                final(self),
                chunk_id@,
                video_url@,
                data@,
                is_key_frame,
                sequence_number,
                now,
            ),
            has_key(final(self).entries(), chunk_id@),
    {
        let key = String::from_str(chunk_id);
        match self.position(&key) {
            Some(at) => {
                self.touch(at, now);
                proof {
                    assert(final(self).entries()[at as int].chunk_id == chunk_id@);
                }
                return true;
            },
            None => {},
        }
        let entry = self.prepare_entry_at(
            chunk_id,
            video_url,
            data,
            is_key_frame,
            sequence_number,
            now,
        );
        self.add_entry(entry, now);
        true
    }

    /// What `get_chunk_at` does to a cache and what it returns. An absent
    /// key is a miss. An entry that is expired, or whose payload is not
    /// intact, is removed and is a miss; the second is counted as an
    /// integrity failure. Any other entry is a hit: its data is returned and
    /// the entry refreshed.
    pub open spec fn fetched(
        &self,
        post: &PersistentCacheManager,
        chunk_id: Seq<char>,
        now: u64,
        result: Option<Seq<u8>>,
    ) -> bool {
        &&& post.same_settings(self)
        &&& post.last_cleanup() == self.last_cleanup()
        &&& if !has_key(self.entries(), chunk_id) {
            &&& result is None
            &&& post.entries() == self.entries()
            &&& post.current_size() == self.current_size()
            &&& post.counters() == self.counters().after_miss()
        } else {
            let at = key_index(self.entries(), chunk_id);
            let e = self.entries()[at];
            if entry_expired(e, now) {
                &&& result is None
                &&& post.entries() == self.entries().remove(at)
                &&& post.current_size() == self.current_size() - e.data_size
                &&& post.counters() == self.counters().after_evictions(
                    1,
                    e.file_size as int,
                ).after_miss()
            } else if !entry_intact(e, self.config()) {
                &&& result is None
                &&& post.entries() == self.entries().remove(at)
                &&& post.current_size() == self.current_size() - e.data_size
                &&& post.counters() == self.counters().after_integrity_failure().after_evictions(
                    1,
                    e.file_size as int,
                ).after_miss()
            } else {
                &&& result == Some(entry_data(e, self.config()))
                &&& post.entries() == self.entries().update(at, refreshed(e, now))
                &&& post.current_size() == self.current_size()
                &&& post.counters() == self.counters().after_hit()
            }
        }
    }

    /// Reads the payload stored under a key, at time `now`.
    pub fn get_chunk_at(&mut self, chunk_id: &str, now: u64) -> (result: Option<Vec<u8>>)
        requires
            old(self).wf(),
        ensures
            final(self).wf(),
            old(self).fetched(final(self), chunk_id@, now, bytes_of(result)),
    {
        let key = String::from_str(chunk_id);
        let at = match self.position(&key) {
            Some(at) => at,
            None => {
                self.count_miss();
                return None;
            },
        };
        if now > self.entries[at].expires_at {
            self.remove_at(at);
            self.count_miss();
            return None;
        }
        let digest_ok = if self.config.enable_integrity_check {
            crate::digest::verify_data_hash(
                self.entries[at].payload.as_slice(),
                &self.entries[at].file_hash,
            )
        } else {
            true
        };
        let decoded: Option<Vec<u8>> = if !digest_ok {
            None
        } else if self.config.enable_compression {
            decompress_data(self.entries[at].payload.as_slice())
        } else {
            Some(self.entries[at].payload.clone())
        };
        match decoded {
            None => {
                self.stats.integrity_failures = increment(self.stats.integrity_failures);
                self.remove_at(at);
                self.count_miss();
                None
            },
            Some(bytes) => {
                self.touch(at, now);
                self.count_hit();
                Some(bytes)
            },
        }
    }

    /// The counters, with the utilization as it stands now.
    pub fn get_stats(&self) -> (stats: PersistentCacheStats)
        ensures
            stats == (PersistentCacheStats {
                cache_utilization: per_mille(self.current_size(), self.max_size()),
                ..self.counters()
            }),
    {
        let mut stats = self.stats;
        stats.cache_utilization = if self.max_cache_size == 0 {
            0
        } else {
            let q: u128 = (self.current_cache_size as u128) * 1000 / (self.max_cache_size as u128);
            if q <= u64::MAX as u128 {
                q as u64
            } else {
                u64::MAX
            }
        };
        stats
    }

    /// What `clear_cache` does to a cache: every entry leaves and is
    /// counted as evicted.
    pub open spec fn cleared(&self, post: &PersistentCacheManager) -> bool {
        &&& post.same_settings(self)
        &&& post.last_cleanup() == self.last_cleanup()
        &&& post.entries() == Seq::<EntryModel>::empty()
        &&& post.current_size() == 0
        &&& post.counters() == self.counters().after_evictions(
            self.entries().len() as int,
            stored_bytes(self.entries()),
        )
    }

    /// Removes every entry.
    pub fn clear_cache(&mut self)
        requires
            old(self).wf(),
        ensures
            final(self).wf(),
            old(self).cleared(final(self)),
    {
        while self.entries.len() > 0
            invariant
                self.wf(),
                self.same_settings(old(self)),
                self.last_cleanup() == old(self).last_cleanup(),
                self.entries().len() <= old(self).entries().len(),
                self.current_size() <= old(self).current_size(),
                stored_bytes(self.entries()) <= stored_bytes(old(self).entries()),
                self.counters() == old(self).counters().after_evictions(
                    old(self).entries().len() - self.entries().len(),
                    stored_bytes(old(self).entries()) - stored_bytes(self.entries()),
                ),
            decreases self.entries.len(),
        {
            let last = self.entries.len() - 1;
            proof {
                lemma_total_size_bounds(self.entries(), last as int);
            }
            self.remove_at(last);
        }
        proof {
            assert(self.entries() =~= Seq::<EntryModel>::empty());
        }
    }

    /// The keys of the entries of one video, sorted by sequence number;
    /// entries with the same number come in the order in which they were
    /// stored.
    pub fn get_video_chunks(&self, video_url: &str) -> (ids: Vec<String>)
        requires
            self.wf(),
        ensures
            ids@.len() == video_chunk_ids(self.entries(), video_url@).len(),
            forall|i: int|
                0 <= i < ids@.len() ==> (#[trigger] ids@[i])@ == video_chunk_ids(
                    self.entries(),
                    video_url@,
                )[i],
    {
        let url = String::from_str(video_url);
        let mut order: Vec<usize> = Vec::new();
        let mut k: usize = 0;
        while k < self.entries.len()
            invariant
                k <= self.entries.len(),
                url@ == video_url@,
                order@.len() == chunk_order(self.entries(), video_url@, k as int).len(),
                forall|i: int|
                    0 <= i < order@.len() ==> (#[trigger] order@[i]) as int == chunk_order(
                        self.entries(),
                        video_url@,
                        k as int,
                    )[i],
            decreases self.entries.len() - k,
        {
            let ghost before = chunk_order(self.entries(), video_url@, k as int);
            proof {
                lemma_chunk_order_members(self.entries(), video_url@, k as int);
            }
            if self.entries[k].video_url == url {
                let seq_no = self.entries[k].sequence_number;
                let mut at: usize = 0;
                while at < order.len() && self.entries[order[at]].sequence_number <= seq_no
                    invariant
                        at <= order@.len(),
                        k < self.entries.len(),
                        order@.len() == before.len(),
                        forall|i: int|
                            0 <= i < order@.len() ==> (#[trigger] order@[i]) as int == before[i],
                        forall|i: int|
                            0 <= i < before.len() ==> 0 <= (#[trigger] before[i]) < k,
                        insert_point(self.entries(), before, seq_no, at as int) == insert_point(
                            self.entries(),
                            before,
                            seq_no,
                            0,
                        ),
                    decreases order@.len() - at,
                {
                    at = at + 1;
                }
                order.insert(at, k);
            }
            k = k + 1;
        }
        let ghost final_order = chunk_order(self.entries(), video_url@, self.entries().len() as int);
        proof {
            lemma_chunk_order_members(self.entries(), video_url@, self.entries().len() as int);
        }
        let mut ids: Vec<String> = Vec::new();
        let mut i: usize = 0;
        while i < order.len()
            invariant
                i <= order@.len(),
                order@.len() == final_order.len(),
                forall|j: int| 0 <= j < order@.len() ==> (#[trigger] order@[j]) as int == final_order[j],
                forall|j: int|
                    0 <= j < final_order.len() ==> 0 <= (#[trigger] final_order[j])
                        < self.entries().len(),
                ids@.len() == i,
                forall|j: int|
                    0 <= j < i ==> (#[trigger] ids@[j])@ == self.entries()[final_order[j]].chunk_id,
            decreases order@.len() - i,
        {
            ids.push(self.entries[order[i]].chunk_id.clone());
            i = i + 1;
        }
        ids
    }

    /// What `load_metadata` does to a cache: the loaded entries are offered
    /// in order, and those that are admissible join.
    pub open spec fn loaded(&self, post: &PersistentCacheManager, loaded: Seq<EntryModel>) -> bool {
        &&& post.same_settings(self)
        &&& post.last_cleanup() == self.last_cleanup()
        &&& post.counters() == self.counters()
        &&& post.entries() == replayed(self.entries(), loaded)
        &&& post.current_size() == total_size(post.entries())
    }

    /// Takes over entries that were kept elsewhere. An entry whose key is
    /// held already, whose recorded size is not the length of its payload,
    /// or that would take the sum of the sizes beyond a `usize`, is passed
    /// over. No payload is checked against its digest here: a read does
    /// that.
    pub fn load_metadata(&mut self, entries: &Vec<CacheEntry>)
        requires
            old(self).wf(),
        ensures
            final(self).wf(),
            old(self).loaded(final(self), models(entries@)),
    {
        let ghost offered = models(entries@);
        let mut k: usize = 0;
        proof {
            assert(offered.subrange(0, 0) =~= Seq::<EntryModel>::empty());
        }
        while k < entries.len()
            invariant
                k <= entries.len(),
                offered == models(entries@),
                self.wf(),
                self.same_settings(old(self)),
                self.last_cleanup() == old(self).last_cleanup(),
                self.counters() == old(self).counters(),
                self.entries() == replayed(old(self).entries(), offered.subrange(0, k as int)),
            decreases entries.len() - k,
        {
            proof {
                lemma_replayed_step(old(self).entries(), offered, k as int);
                lemma_total_size_nonneg(self.entries());
            }
            let e = &entries[k];
            let fits = e.data_size <= usize::MAX as u64 && e.data_size as usize <= usize::MAX
                - self.current_cache_size;
            if fits && e.payload.len() as u64 == e.file_size && self.position(&e.chunk_id).is_none() {
                let ghost held = self.entries();
                let copy = copy_entry(e);
                proof {
                    lemma_push_keeps(held, copy@);
                    lemma_total_size_push(held, copy@);
                }
                self.entries.push(copy);
                self.current_cache_size = self.current_cache_size + e.data_size as usize;
                proof {
                    assert(self.entries() =~= held.push(e@));
                }
            }
            k = k + 1;
        }
        proof {
            assert(offered.subrange(0, k as int) =~= offered);
        }
    }

    /// A copy of every entry, in order. Nothing is counted.
    pub fn export_entries(&self) -> (copy: Vec<CacheEntry>)
        ensures
            models(copy@) == self.entries(),
    {
        let mut copy: Vec<CacheEntry> = Vec::new();
        let mut k: usize = 0;
        while k < self.entries.len()
            invariant
                k <= self.entries.len(),
                copy@.len() == k,
                forall|i: int| 0 <= i < k ==> (#[trigger] copy@[i])@ == self.entries()[i],
            decreases self.entries.len() - k,
        {
            copy.push(copy_entry(&self.entries[k]));
            k = k + 1;
        }
        proof {
            assert(models(copy@) =~= self.entries());
        }
        copy
    }

    /// What `backup_cache` does to a cache and what it returns.
    pub open spec fn backed_up(&self, post: &PersistentCacheManager, copy: Option<Seq<EntryModel>>) -> bool {
        &&& post.same_settings(self)
        &&& post.last_cleanup() == self.last_cleanup()
        &&& post.entries() == self.entries()
        &&& post.current_size() == self.current_size()
        &&& if self.config().enable_backup {
            &&& copy == Some(self.entries())
            &&& post.counters() == (PersistentCacheStats {
                backup_operations: bump64(self.counters().backup_operations),
                ..self.counters()
            })
        } else {
            &&& copy is None
            &&& post.counters() == self.counters()
        }
    }

    /// A copy of every entry, to be kept elsewhere; `None`, and nothing
    /// counted, where backups are switched off.
    pub fn backup_cache(&mut self) -> (copy: Option<Vec<CacheEntry>>)
        requires
            old(self).wf(),
        ensures
            final(self).wf(),
            old(self).backed_up(
                final(self),
                match copy {
                    Some(v) => Some(models(v@)),
                    None => None,
                },
            ),
    {
        if !self.config.enable_backup {
            return None;
        }
        let copy = self.export_entries();
        self.stats.backup_operations = increment(self.stats.backup_operations);
        Some(copy)
    }

    /// What `restore_cache` does to a cache. Without a backup nothing
    /// changes. With one, every entry held leaves and is counted as evicted,
    /// and the entries of the backup are loaded.
    pub open spec fn restored(&self, post: &PersistentCacheManager, backup: Option<Seq<EntryModel>>) -> bool {
        &&& post.same_settings(self)
        &&& post.last_cleanup() == self.last_cleanup()
        &&& match backup {
            None => {
                &&& post.entries() == self.entries()
                &&& post.current_size() == self.current_size()
                &&& post.counters() == self.counters()
            },
            Some(kept) => {
                &&& post.entries() == replayed(Seq::<EntryModel>::empty(), kept)
                &&& post.current_size() == total_size(post.entries())
                &&& post.counters() == (PersistentCacheStats {
                    restore_operations: bump64(self.counters().restore_operations),
                    ..self.counters().after_evictions(
                        self.entries().len() as int,
                        stored_bytes(self.entries()),
                    )
                })
            },
        }
    }

    /// Replaces the content of the cache by a backup. Says whether there
    /// was one.
    pub fn restore_cache(&mut self, backup: Option<Vec<CacheEntry>>) -> (done: bool)
        requires
            old(self).wf(),
        ensures
            final(self).wf(),
            done == backup is Some,
            old(self).restored(
                final(self),
                match backup {
                    Some(v) => Some(models(v@)),
                    None => None,
                },
            ),
    {
        match backup {
            None => false,
            Some(kept) => {
                self.clear_cache();
                self.load_metadata(&kept);
                self.stats.restore_operations = increment(self.stats.restore_operations);
                true
            },
        }
    }

    /// A cache with the configuration that the engine ships with.
    pub fn new() -> (made: Result<PersistentCacheManager, VideoEngineError>)
        ensures
            made matches Ok(cache) && {
                &&& cache.wf()
                &&& cache.entries() == Seq::<EntryModel>::empty()
                &&& cache.config() == PersistentCacheConfig::spec_default()
                &&& cache.current_size() == 0
                &&& cache.counters() == PersistentCacheStats::zero()
            },
    {
        PersistentCacheManager::with_config(PersistentCacheConfig::default())
    }

    /// An empty cache with the given configuration. It is refused where the
    /// maximum size in bytes does not fit in a `usize`.
    pub fn with_config(config: PersistentCacheConfig) -> (made: Result<
        PersistentCacheManager,
        VideoEngineError,
    >)
        ensures
            config.max_size_mb * BYTES_PER_MB <= usize::MAX <==> made is Ok,
            made matches Ok(cache) ==> {
                &&& cache.wf()
                &&& cache.entries() == Seq::<EntryModel>::empty()
                &&& cache.config() == config
                &&& cache.current_size() == 0
                &&& cache.counters() == PersistentCacheStats::zero()
            },
            made matches Err(e) ==> e is InvalidParameter,
    {
        let now = current_timestamp_ms();
        PersistentCacheManager::with_config_at(config, now)
    }

    /// Stores a payload under a key, at the time that the clock shows.
    /// Whatever the clock shows, the cache afterwards is as `stored`
    /// describes for that time.
    pub fn store_chunk(
        &mut self,
        chunk_id: &str,
        video_url: &str,
        data: &[u8],
        is_key_frame: bool,
        sequence_number: u32,
    ) -> (done: bool)
        requires
            old(self).wf(),
        ensures
            done,
            final(self).wf(),
            has_key(final(self).entries(), chunk_id@),
            exists|now: u64| #[trigger]
                old(self).stored(
                    final(self),
                    chunk_id@,
                    video_url@,
                    data@,
                    is_key_frame,
                    sequence_number,
                    now,
                ),
    {
        let now = current_timestamp_ms();
        let done = self.store_chunk_at(
            chunk_id,
            video_url,
            data,
            is_key_frame,
            sequence_number,
            now,
        );
        proof {
            assert(old(self).stored(
                final(self),
                chunk_id@,
                video_url@,
                data@,
                is_key_frame,
                sequence_number,
                now,
            ));
        }
        done
    }

    /// Reads the payload stored under a key, at the time that the clock
    /// shows.
    pub fn get_chunk(&mut self, chunk_id: &str) -> (result: Option<Vec<u8>>)
        requires
            old(self).wf(),
        ensures
            final(self).wf(),
            exists|now: u64| #[trigger] old(self).fetched(final(self), chunk_id@, now, bytes_of(result)),
    {
        let now = current_timestamp_ms();
        let result = self.get_chunk_at(chunk_id, now);
        proof {
            assert(old(self).fetched(final(self), chunk_id@, now, bytes_of(result)));
        }
        result
    }

    /// Brings the cache down to its target size, scoring entries at the
    /// time that the clock shows.
    pub fn cleanup_cache(&mut self)
        requires
            old(self).wf(),
        ensures
            final(self).wf(),
            final(self).current_size() <= final(self).target(),
            exists|now: u64| #[trigger] old(self).cleaned(final(self), now),
    {
        let now = current_timestamp_ms();
        self.cleanup_cache_at(now);
        proof {
            assert(old(self).cleaned(final(self), now));
        }
    }
}

/// `x + 1`, stopping at the largest `u64`.
pub fn increment(x: u64) -> (y: u64)
    ensures
        y == bump64(x),
{
    if x < u64::MAX {
        x + 1
    } else {
        x
    }
}

/// `a + b`, stopping at the largest `u64`.
pub fn saturating_sum(a: u64, b: u64) -> (y: u64)
    ensures
        y == add64(a, b as int),
{
    if a <= u64::MAX - b {
        a + b
    } else {
        u64::MAX
    }
}

/// `part` per thousand of `whole`, in integer arithmetic; 0 where `whole`
/// is 0.
fn ratio_per_mille(part: u64, whole: u128) -> (r: u64)
    requires
        whole <= 2 * u64::MAX,
    ensures
        r == per_mille(part as int, whole as int),
{
    if whole == 0 {
        0
    } else {
        let scaled: u128 = (part as u128) * 1000;
        let q: u128 = scaled / whole;
        if q <= u64::MAX as u128 {
            q as u64
        } else {
            u64::MAX
        }
    }
}

/// The compression ratio recorded for a payload of `raw` bytes stored
/// in `stored` bytes, in thousandths.
pub fn compression_ratio(raw: usize, stored: usize) -> (ratio: u64)
    ensures
        ratio == ratio_of(raw as int, stored as int),
{
    if stored == 0 {
        1000
    } else {
        let q: u128 = (raw as u128) * 1000 / (stored as u128);
        if q <= u64::MAX as u128 {
            q as u64
        } else {
            u64::MAX
        }
    }
}

/// The mean compression ratio after the `count`-th entry, with `ratio`, has
/// joined a mean of `mean`.
pub fn mean_after(mean: u64, count: u64, ratio: u64) -> (next: u64)
    ensures
        next == running_mean(mean, count, ratio),
{
    if count == 0 {
        mean
    } else {
        assert(mean * (count - 1) <= 0xFFFF_FFFF_FFFF_FFFF * 0xFFFF_FFFF_FFFF_FFFF)
            by (nonlinear_arith)
            requires
                0 <= mean <= 0xFFFF_FFFF_FFFF_FFFF,
                0 <= count - 1 <= 0xFFFF_FFFF_FFFF_FFFF,
        ;
        let sum: u128 = (mean as u128) * ((count - 1) as u128) + (ratio as u128);
        let q: u128 = sum / (count as u128);
        if q <= u64::MAX as u128 {
            q as u64
        } else {
            u64::MAX
        }
    }
}

/// A copy of the entry.
pub fn copy_entry(e: &CacheEntry) -> (c: CacheEntry)
    ensures
        c@ == e@,
{
    CacheEntry {
        chunk_id: e.chunk_id.clone(),
        video_url: e.video_url.clone(),
        payload: e.payload.clone(),
        file_size: e.file_size,
        data_size: e.data_size,
        created_at: e.created_at,
        last_accessed: e.last_accessed,
        access_count: e.access_count,
        is_key_frame: e.is_key_frame,
        sequence_number: e.sequence_number,
        compression_ratio: e.compression_ratio,
        file_hash: e.file_hash.clone(),
        expires_at: e.expires_at,
    }
}

/// Removing the entry at `at` takes its size off the total.
pub proof fn lemma_total_size_remove(entries: Seq<EntryModel>, at: int)
    requires
        0 <= at < entries.len(),
    ensures
        total_size(entries.remove(at)) == total_size(entries) - entries[at].data_size,
        stored_bytes(entries.remove(at)) == stored_bytes(entries) - entries[at].file_size,
    decreases entries.len(),
{
    if at == entries.len() - 1 {
        assert(entries.remove(at) =~= entries.drop_last());
    } else {
        lemma_total_size_remove(entries.drop_last(), at);
        assert(entries.remove(at).drop_last() =~= entries.drop_last().remove(at));
        assert(entries.remove(at).last() == entries.last());
    }
}

/// Appending an entry adds its size to the total.
pub proof fn lemma_total_size_push(entries: Seq<EntryModel>, e: EntryModel)
    ensures
        total_size(entries.push(e)) == total_size(entries) + e.data_size,
        stored_bytes(entries.push(e)) == stored_bytes(entries) + e.file_size,
{
    assert(entries.push(e).drop_last() =~= entries);
}

/// The total is never negative, and no entry is larger than it.
pub proof fn lemma_total_size_bounds(entries: Seq<EntryModel>, at: int)
    requires
        0 <= at < entries.len(),
    ensures
        0 <= entries[at].data_size <= total_size(entries),
    decreases entries.len(),
{
    lemma_total_size_nonneg(entries.drop_last());
    if at < entries.len() - 1 {
        lemma_total_size_bounds(entries.drop_last(), at);
    }
}

/// The total is never negative.
pub proof fn lemma_total_size_nonneg(entries: Seq<EntryModel>)
    ensures
        0 <= total_size(entries),
        0 <= stored_bytes(entries),
    decreases entries.len(),
{
    if entries.len() > 0 {
        lemma_total_size_nonneg(entries.drop_last());
    }
}

/// Changing an entry without changing its size leaves the total as it was.
pub proof fn lemma_total_size_update(entries: Seq<EntryModel>, at: int, e: EntryModel)
    requires
        0 <= at < entries.len(),
        e.data_size == entries[at].data_size,
    ensures
        total_size(entries.update(at, e)) == total_size(entries),
    decreases entries.len(),
{
    if at == entries.len() - 1 {
        assert(entries.update(at, e).drop_last() =~= entries.drop_last());
    } else {
        lemma_total_size_update(entries.drop_last(), at, e);
        assert(entries.update(at, e).drop_last() =~= entries.drop_last().update(at, e));
    }
}

/// With unique keys, the position of a key is the one place where it stands.
pub proof fn lemma_key_index(entries: Seq<EntryModel>, at: int)
    requires
        keys_unique(entries),
        0 <= at < entries.len(),
    ensures
        has_key(entries, entries[at].chunk_id),
        key_index(entries, entries[at].chunk_id) == at,
{
    let key = entries[at].chunk_id;
    assert(entries[at].chunk_id == key);
    let j = key_index(entries, key);
    assert(0 <= j < entries.len() && entries[j].chunk_id == key);
    if j < at {
        assert(entries[j].chunk_id != entries[at].chunk_id);
    } else if at < j {
        assert(entries[at].chunk_id != entries[j].chunk_id);
    }
}

/// Adding an entry with a new key keeps keys unique, and keeps sizes exact
/// where the entry's size is.
pub proof fn lemma_push_keeps(entries: Seq<EntryModel>, e: EntryModel)
    requires
        keys_unique(entries),
        !has_key(entries, e.chunk_id),
    ensures
        keys_unique(entries.push(e)),
        sizes_exact(entries) && e.file_size == e.payload.len() ==> sizes_exact(entries.push(e)),
        has_key(entries.push(e), e.chunk_id),
        key_index(entries.push(e), e.chunk_id) == entries.len(),
{
    let more = entries.push(e);
    assert forall|i: int, j: int| 0 <= i < j < more.len() implies #[trigger] more[i].chunk_id
        != #[trigger] more[j].chunk_id by {
        if j == entries.len() {
            if more[i].chunk_id == e.chunk_id {
                assert(entries[i].chunk_id == e.chunk_id);
            }
        }
    }
    assert(more[entries.len() as int] == e);
    lemma_key_index(more, entries.len() as int);
}

/// Refreshing an entry keeps keys, uniqueness and sizes.
pub proof fn lemma_refresh_keeps(entries: Seq<EntryModel>, at: int, now: u64)
    requires
        keys_unique(entries),
        0 <= at < entries.len(),
    ensures
        keys_unique(entries.update(at, refreshed(entries[at], now))),
        sizes_exact(entries) ==> sizes_exact(entries.update(at, refreshed(entries[at], now))),
        total_size(entries.update(at, refreshed(entries[at], now))) == total_size(entries),
{
    let after = entries.update(at, refreshed(entries[at], now));
    assert forall|i: int| 0 <= i < after.len() implies (#[trigger] after[i]).chunk_id
        == entries[i].chunk_id && after[i].file_size == entries[i].file_size && after[i].payload
        == entries[i].payload by {}
    assert forall|i: int, j: int| 0 <= i < j < after.len() implies #[trigger] after[i].chunk_id
        != #[trigger] after[j].chunk_id by {
        assert(entries[i].chunk_id != entries[j].chunk_id);
    }
    lemma_total_size_update(entries, at, refreshed(entries[at], now));
}

/// The insertion point lies between `from` and the end, everything before
/// it (from `from` on) has a sequence number of at most `seq_no`, and what
/// stands at it has a larger one.
pub proof fn lemma_insert_point(entries: Seq<EntryModel>, order: Seq<int>, seq_no: u32, from: int)
    requires
        0 <= from <= order.len(),
    ensures
        from <= insert_point(entries, order, seq_no, from) <= order.len(),
        forall|i: int|
            from <= i < insert_point(entries, order, seq_no, from) ==> entries[#[trigger] order[i]].sequence_number
                <= seq_no,
        insert_point(entries, order, seq_no, from) < order.len() ==> entries[order[insert_point(
            entries,
            order,
            seq_no,
            from,
        )]].sequence_number > seq_no,
    decreases order.len() - from,
{
    if from < order.len() && entries[order[from]].sequence_number <= seq_no {
        lemma_insert_point(entries, order, seq_no, from + 1);
    }
}

/// The playback order of a video lists positions of its entries only.
pub proof fn lemma_chunk_order_members(entries: Seq<EntryModel>, video_url: Seq<char>, n: int)
    requires
        0 <= n <= entries.len(),
    ensures
        chunk_order(entries, video_url, n).len() <= n,
        forall|i: int|
            0 <= i < chunk_order(entries, video_url, n).len() ==> 0 <= (#[trigger] chunk_order(
                entries,
                video_url,
                n,
            )[i]) < n && entries[chunk_order(entries, video_url, n)[i]].video_url == video_url,
    decreases n,
{
    if n > 0 {
        lemma_chunk_order_members(entries, video_url, n - 1);
        let before = chunk_order(entries, video_url, n - 1);
        let after = chunk_order(entries, video_url, n);
        if entries[n - 1].video_url == video_url {
            let at = insert_point(entries, before, entries[n - 1].sequence_number, 0);
            lemma_insert_point(entries, before, entries[n - 1].sequence_number, 0);
            assert forall|i: int| 0 <= i < after.len() implies 0 <= (#[trigger] after[i]) < n
                && entries[after[i]].video_url == video_url by {
                if i < at {
                    assert(after[i] == before[i]);
                } else if i > at {
                    assert(after[i] == before[i - 1]);
                }
            }
        }
    }
}

/// The playback order of a video lists the position of each of its entries.
pub proof fn lemma_chunk_order_complete(
    entries: Seq<EntryModel>,
    video_url: Seq<char>,
    n: int,
    p: int,
)
    requires
        0 <= p < n <= entries.len(),
        entries[p].video_url == video_url,
    ensures
        chunk_order(entries, video_url, n).contains(p),
    decreases n,
{
    let before = chunk_order(entries, video_url, n - 1);
    let after = chunk_order(entries, video_url, n);
    lemma_chunk_order_members(entries, video_url, n - 1);
    if entries[n - 1].video_url == video_url {
        let at = insert_point(entries, before, entries[n - 1].sequence_number, 0);
        lemma_insert_point(entries, before, entries[n - 1].sequence_number, 0);
        if p == n - 1 {
            assert(after[at] == p);
        } else {
            lemma_chunk_order_complete(entries, video_url, n - 1, p);
            let i = choose|i: int| 0 <= i < before.len() && before[i] == p;
            if i < at {
                assert(after[i] == p);
            } else {
                assert(after[i + 1] == p);
            }
        }
    } else {
        lemma_chunk_order_complete(entries, video_url, n - 1, p);
    }
}

/// The playback order of a video is sorted by sequence number, and by
/// position among equal numbers.
pub proof fn lemma_chunk_order_sorted(entries: Seq<EntryModel>, video_url: Seq<char>, n: int)
    requires
        0 <= n <= entries.len(),
    ensures
        in_playback_order(entries, chunk_order(entries, video_url, n)),
    decreases n,
{
    if n > 0 {
        lemma_chunk_order_sorted(entries, video_url, n - 1);
        lemma_chunk_order_members(entries, video_url, n - 1);
        let before = chunk_order(entries, video_url, n - 1);
        let after = chunk_order(entries, video_url, n);
        if entries[n - 1].video_url == video_url {
            let s = entries[n - 1].sequence_number;
            let at = insert_point(entries, before, s, 0);
            lemma_insert_point(entries, before, s, 0);
            assert forall|a: int, b: int| 0 <= a < b < after.len() implies {
                let x = entries[#[trigger] after[a]];
                let y = entries[#[trigger] after[b]];
                x.sequence_number < y.sequence_number || (x.sequence_number == y.sequence_number
                    && after[a] < after[b])
            } by {
                lemma_sorted_pair(entries, before, s, at, n, a, b);
            }
        }
    }
}

/// One pair of the sorted order after an insertion at the insertion point.
proof fn lemma_sorted_pair(
    entries: Seq<EntryModel>,
    before: Seq<int>,
    s: u32,
    at: int,
    n: int,
    a: int,
    b: int,
)
    requires
        1 <= n <= entries.len(),
        entries[n - 1].sequence_number == s,
        0 <= at <= before.len(),
        in_playback_order(entries, before),
        forall|i: int| 0 <= i < before.len() ==> 0 <= (#[trigger] before[i]) < n - 1,
        forall|i: int| 0 <= i < at ==> entries[#[trigger] before[i]].sequence_number <= s,
        at < before.len() ==> entries[before[at]].sequence_number > s,
        0 <= a < b < before.len() + 1,
    ensures
        ({
            let after = before.insert(at, n - 1);
            let x = entries[after[a]];
            let y = entries[after[b]];
            x.sequence_number < y.sequence_number || (x.sequence_number == y.sequence_number
                && after[a] < after[b])
        }),
{
    let after = before.insert(at, n - 1);
    let ia = if a < at {
        a
    } else {
        a - 1
    };
    let ib = if b < at {
        b
    } else {
        b - 1
    };
    if a == at {
        assert(after[a] == n - 1);
        assert(after[b] == before[ib]);
        if ib > at {
            let x = entries[before[at]];
            let y = entries[before[ib]];
            assert(x.sequence_number < y.sequence_number || (x.sequence_number
                == y.sequence_number && before[at] < before[ib]));
        }
    } else if b == at {
        assert(after[b] == n - 1);
        assert(after[a] == before[ia]);
        assert(0 <= before[ia] < n - 1);
        assert(entries[before[ia]].sequence_number <= s);
    } else {
        assert(after[a] == before[ia]);
        assert(after[b] == before[ib]);
        let x = entries[before[ia]];
        let y = entries[before[ib]];
        assert(x.sequence_number < y.sequence_number || (x.sequence_number == y.sequence_number
            && before[ia] < before[ib]));
    }
}

/// Offering no entries changes nothing; offering one more entry after
/// others is offering it to what the others left.
pub proof fn lemma_replayed_step(held: Seq<EntryModel>, loaded: Seq<EntryModel>, k: int)
    requires
        0 <= k < loaded.len(),
    ensures
        replayed(held, loaded.subrange(0, k + 1)) == {
            let so_far = replayed(held, loaded.subrange(0, k));
            if admissible(so_far, loaded[k]) {
                so_far.push(loaded[k])
            } else {
                so_far
            }
        },
    decreases k,
{
    let upto = loaded.subrange(0, k + 1);
    let first = if admissible(held, loaded[0]) {
        held.push(loaded[0])
    } else {
        held
    };
    assert(upto[0] == loaded[0]);
    assert(replayed(held, upto) == replayed(first, upto.skip(1)));
    if k == 0 {
        assert(upto.skip(1) =~= Seq::<EntryModel>::empty());
        assert(loaded.subrange(0, 0) =~= Seq::<EntryModel>::empty());
        assert(replayed(first, Seq::<EntryModel>::empty()) == first);
        assert(replayed(held, Seq::<EntryModel>::empty()) == held);
    } else {
        let rest = loaded.skip(1);
        let shorter = loaded.subrange(0, k);
        lemma_replayed_step(first, rest, k - 1);
        assert(rest.subrange(0, k) =~= upto.skip(1));
        assert(rest.subrange(0, k - 1) =~= shorter.skip(1));
        assert(rest[k - 1] == loaded[k]);
        assert(shorter[0] == loaded[0]);
        assert(replayed(held, shorter) == replayed(first, shorter.skip(1)));
    }
}

/// A payload stored under a key that was not held comes back unchanged from
/// a read of that key, as long as the read is not later than the entry's
/// expiry.
pub proof fn lemma_store_then_get(
    pre: PersistentCacheManager,
    mid: PersistentCacheManager,
    post: PersistentCacheManager,
    chunk_id: Seq<char>,
    video_url: Seq<char>,
    data: Seq<u8>,
    is_key_frame: bool,
    sequence_number: u32,
    stored_at: u64,
    read_at: u64,
    result: Option<Seq<u8>>,
)
    requires
        pre.wf(),
        !has_key(pre.entries(), chunk_id),
        pre.stored(&mid, chunk_id, video_url, data, is_key_frame, sequence_number, stored_at),
        mid.fetched(&post, chunk_id, read_at, result),
        read_at <= expiry_of(stored_at, pre.config().chunk_expiration),
    ensures
        result == Some(data),
        has_key(post.entries(), chunk_id),
{
    let e = new_entry(
        chunk_id,
        video_url,
        data,
        is_key_frame,
        sequence_number,
        stored_at,
        pre.config(),
    );
    let smart = pre.config().enable_smart_eviction;
    let kept = if pre.current_size() + e.data_size > pre.target() {
        crate::eviction::evict_until(
            pre.entries(),
            room_for(pre.target(), e.data_size as int),
            smart,
            pre.config().weights,
            if smart {
                stored_at
            } else {
                0
            },
        )
    } else {
        pre.entries()
    };
    crate::eviction::lemma_evict_until(
        pre.entries(),
        room_for(pre.target(), e.data_size as int),
        smart,
        pre.config().weights,
        if smart {
            stored_at
        } else {
            0
        },
    );
    assert(!has_key(kept, chunk_id));
    lemma_push_keeps(kept, e);
    assert(mid.entries() == kept.push(e));
    assert(mid.entries()[kept.len() as int] == e);
    lemma_round_trip(data);
    let after = mid.entries().update(kept.len() as int, refreshed(e, read_at));
    assert(after[kept.len() as int].chunk_id == chunk_id);
}

/// A read that returns nothing leaves the key absent, whether it was absent
/// before, expired, or not intact; a read that returns data leaves the key
/// held.
pub proof fn lemma_miss_leaves_absent(
    pre: PersistentCacheManager,
    post: PersistentCacheManager,
    chunk_id: Seq<char>,
    now: u64,
    result: Option<Seq<u8>>,
)
    requires
        pre.wf(),
        pre.fetched(&post, chunk_id, now, result),
    ensures
        result is None <==> !has_key(post.entries(), chunk_id),
        result is Some ==> has_key(pre.entries(), chunk_id) && !entry_expired(
            pre.entries()[key_index(pre.entries(), chunk_id)],
            now,
        ) && entry_intact(pre.entries()[key_index(pre.entries(), chunk_id)], pre.config()),
{
    if has_key(pre.entries(), chunk_id) {
        let at = key_index(pre.entries(), chunk_id);
        let e = pre.entries()[at];
        if entry_expired(e, now) || !entry_intact(e, pre.config()) {
            crate::eviction::lemma_remove_keeps(pre.entries(), at);
        } else {
            assert(post.entries()[at].chunk_id == chunk_id);
        }
    }
}

/// After a cleanup the cache holds at most the cleanup threshold's share of
/// its maximum size.
pub proof fn lemma_cleanup_bound(pre: PersistentCacheManager, post: PersistentCacheManager, now: u64)
    requires
        pre.wf(),
        pre.cleaned(&post, now),
    ensures
        post.current_size() <= post.target(),
        post.current_size() * 100 <= post.max_size() * post.config().cleanup_threshold,
        post.current_size() <= pre.current_size(),
{
    let smart = pre.config().enable_smart_eviction;
    crate::eviction::lemma_evict_until(
        pre.entries(),
        pre.target(),
        smart,
        pre.config().weights,
        if smart {
            now
        } else {
            0
        },
    );
    lemma_total_size_nonneg(post.entries());
    assert(post.entries().len() == 0 ==> total_size(post.entries()) == 0);
    let product = post.max_size() * post.config().cleanup_threshold;
    assert(0 <= product) by (nonlinear_arith)
        requires
            product == post.max_size() * post.config().cleanup_threshold,
            0 <= post.max_size(),
            0 <= post.config().cleanup_threshold,
    ;
    assert((product / 100) * 100 <= product) by (nonlinear_arith)
        requires
            0 <= product,
    ;
}

/// After a store of a new key the cache holds at most its target size, or
/// the new entry alone where that entry is larger than the target. With a
/// threshold of at most 100 percent the target is at most the maximum size,
/// so that a store of an entry that fits under the target never takes the
/// cache beyond its maximum.
pub proof fn lemma_store_bound(
    pre: PersistentCacheManager,
    post: PersistentCacheManager,
    chunk_id: Seq<char>,
    video_url: Seq<char>,
    data: Seq<u8>,
    is_key_frame: bool,
    sequence_number: u32,
    now: u64,
)
    requires
        pre.wf(),
        !has_key(pre.entries(), chunk_id),
        pre.stored(&post, chunk_id, video_url, data, is_key_frame, sequence_number, now),
    ensures
        ({
            let size = data.len() as u64;
            if size <= post.target() {
                post.current_size() <= post.target()
            } else {
                post.current_size() == size
            }
        }),
        post.config().cleanup_threshold <= 100 ==> post.target() <= post.max_size(),
        post.config().cleanup_threshold <= 100 && data.len() <= post.target()
            ==> post.current_size() <= post.max_size(),
{
    let max = post.max_size();
    let threshold = post.config().cleanup_threshold;
    if threshold <= 100 {
        assert(max * threshold <= max * 100) by (nonlinear_arith)
            requires
                0 <= max,
                0 <= threshold <= 100,
        ;
        assert(max * threshold / 100 <= max) by (nonlinear_arith)
            requires
                max * threshold <= max * 100,
        ;
    }
    let e = new_entry(chunk_id, video_url, data, is_key_frame, sequence_number, now, pre.config());
    let smart = pre.config().enable_smart_eviction;
    crate::eviction::lemma_evict_until(
        pre.entries(),
        room_for(pre.target(), e.data_size as int),
        smart,
        pre.config().weights,
        if smart {
            now
        } else {
            0
        },
    );
    lemma_total_size_nonneg(pre.entries());
    let kept = crate::eviction::evict_until(
        pre.entries(),
        room_for(pre.target(), e.data_size as int),
        smart,
        pre.config().weights,
        if smart {
            now
        } else {
            0
        },
    );
    assert(kept.len() == 0 ==> total_size(kept) == 0);
}

/// Preparing an entry and committing it at the same time is a store: what
/// the cache is after the commit is what a store of the same payload under
/// the same key makes of it.
pub proof fn lemma_commit_is_store(
    pre: PersistentCacheManager,
    post: PersistentCacheManager,
    chunk_id: Seq<char>,
    video_url: Seq<char>,
    data: Seq<u8>,
    is_key_frame: bool,
    sequence_number: u32,
    now: u64,
)
    requires
        pre.entry_added(
            &post,
            new_entry(chunk_id, video_url, data, is_key_frame, sequence_number, now, pre.config()),
            now,
        ),
    ensures
        pre.stored(&post, chunk_id, video_url, data, is_key_frame, sequence_number, now),
{
}

/// After a store the key is held.
pub proof fn lemma_stored_key(
    pre: PersistentCacheManager,
    post: PersistentCacheManager,
    chunk_id: Seq<char>,
    video_url: Seq<char>,
    data: Seq<u8>,
    is_key_frame: bool,
    sequence_number: u32,
    now: u64,
)
    requires
        pre.wf(),
        pre.stored(&post, chunk_id, video_url, data, is_key_frame, sequence_number, now),
    ensures
        has_key(post.entries(), chunk_id),
{
    if has_key(pre.entries(), chunk_id) {
        let at = key_index(pre.entries(), chunk_id);
        assert(post.entries()[at].chunk_id == chunk_id);
    } else {
        let last = post.entries().len() - 1;
        assert(post.entries()[last].chunk_id == chunk_id);
    }
}

} // verus!

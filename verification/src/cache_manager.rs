//! The ephemeral chunk cache: the durable cache's store, expiry and
//! eviction, without integrity checks and without backups.

use crate::persistent_cache::bytes_of;
use crate::persistent_cache::has_key;
use crate::persistent_cache::per_mille;
use crate::persistent_cache::video_chunk_ids;
use crate::persistent_cache::EntryModel;
use crate::persistent_cache::EvictionWeights;
use crate::persistent_cache::PersistentCacheConfig;
use crate::persistent_cache::PersistentCacheManager;
use crate::persistent_cache::PersistentCacheStats;
use crate::persistent_cache::BYTES_PER_MB;
use crate::utils::error::VideoEngineError;
use crate::utils::time::current_timestamp_ms;
use vstd::prelude::*;

verus! {

/// What an ephemeral cache is configured with.
#[derive(Clone, Copy, Debug, PartialEq, Eq)]
pub struct CacheConfig {
    /// Maximum cache size in MB.
    pub max_size_mb: u64,
    /// Maximum number of chunks.
    pub max_chunks: usize,
    /// The share of the maximum size, in percent, above which a store makes
    /// room first and down to which a cleanup evicts.
    pub cleanup_threshold: u32,
    /// Chunk expiration time in seconds.
    pub chunk_expiration: u64,
    /// Store payloads run-length encoded.
    pub enable_compression: bool,
    /// Evict by score rather than by age.
    pub enable_smart_eviction: bool,
    /// The weights of the eviction score.
    pub weights: EvictionWeights,
}

/// Running counters of an ephemeral cache. Ratios are in thousandths.
#[derive(Clone, Copy, Debug, PartialEq, Eq)]
pub struct CacheStats {
    pub cache_hits: u64,
    pub cache_misses: u64,
    pub total_chunks_stored: u64,
    pub total_chunks_evicted: u64,
    pub total_bytes_stored: u64,
    pub total_bytes_evicted: u64,
    pub cache_hit_ratio: u64,
    pub cache_utilization: u64,
    pub avg_compression_ratio: u64,
}

impl CacheConfig {
    /// The configuration that the engine ships with.
    pub open spec fn spec_default() -> CacheConfig {
        CacheConfig {
            max_size_mb: 500,
            max_chunks: 1000,
            cleanup_threshold: 80,
            chunk_expiration: 86400,
            enable_compression: true,
            enable_smart_eviction: true,
            weights: EvictionWeights {
                recency: 300,
                age: 200,
                frequency: 300,
                compression: 200,
                key_frame_bonus: 10000,
            },
        }
    }

    /// The settings of the store that an ephemeral cache with this
    /// configuration runs on: the same, with integrity checks and backups
    /// off.
    pub open spec fn settings(self) -> PersistentCacheConfig {
        PersistentCacheConfig {
            max_size_mb: self.max_size_mb,
            max_chunks: self.max_chunks,
            cleanup_threshold: self.cleanup_threshold,
            chunk_expiration: self.chunk_expiration,
            enable_compression: self.enable_compression,
            enable_smart_eviction: self.enable_smart_eviction,
            enable_integrity_check: false,
            enable_backup: false,
            weights: self.weights,
        }
    }
}

impl Default for CacheConfig {
    fn default() -> (config: CacheConfig)
        ensures
            config == CacheConfig::spec_default(),
    {
        CacheConfig {
            max_size_mb: 500,
            max_chunks: 1000,
            cleanup_threshold: 80,
            chunk_expiration: 86400,
            enable_compression: true,
            enable_smart_eviction: true,
            weights: EvictionWeights::new(),
        }
    }
}

/// The counters of an ephemeral cache among those of its store.
pub open spec fn ephemeral_stats(s: PersistentCacheStats) -> CacheStats {
    CacheStats {
        cache_hits: s.cache_hits,
        cache_misses: s.cache_misses,
        total_chunks_stored: s.total_chunks_stored,
        total_chunks_evicted: s.total_chunks_evicted,
        total_bytes_stored: s.total_bytes_stored,
        total_bytes_evicted: s.total_bytes_evicted,
        cache_hit_ratio: s.cache_hit_ratio,
        cache_utilization: s.cache_utilization,
        avg_compression_ratio: s.avg_compression_ratio,
    }
}

/// An ephemeral cache of chunks.
pub struct CacheManager {
    store: PersistentCacheManager,
}

impl CacheManager {
    /// The store that the cache runs on.
    pub closed spec fn store(&self) -> PersistentCacheManager {
        self.store
    }

    /// The invariant: the store's own, and the store checks no digests and
    /// takes no backups.
    pub open spec fn wf(&self) -> bool {
        &&& self.store().wf()
        &&& !self.store().config().enable_integrity_check
        &&& !self.store().config().enable_backup
    }

    /// A cache with the configuration that the engine ships with.
    pub fn new() -> (made: Result<CacheManager, VideoEngineError>)
        ensures
            made matches Ok(cache) && {
                &&& cache.wf()
                &&& cache.store().entries() == Seq::<EntryModel>::empty()
                &&& cache.store().config() == CacheConfig::spec_default().settings()
                &&& cache.store().current_size() == 0
                &&& cache.store().counters() == PersistentCacheStats::zero()
            },
    {
        CacheManager::with_config(CacheConfig::default())
    }

    /// An empty cache with the given configuration. It is refused where the
    /// maximum size in bytes does not fit in a `usize`.
    pub fn with_config(config: CacheConfig) -> (made: Result<CacheManager, VideoEngineError>)
        ensures
            config.max_size_mb * BYTES_PER_MB <= usize::MAX <==> made is Ok,
            made matches Ok(cache) ==> {
                &&& cache.wf()
                &&& cache.store().entries() == Seq::<EntryModel>::empty()
                &&& cache.store().config() == config.settings()
                &&& cache.store().current_size() == 0
                &&& cache.store().counters() == PersistentCacheStats::zero()
            },
            made matches Err(e) ==> e is InvalidParameter,
    {
        let settings = PersistentCacheConfig {
            max_size_mb: config.max_size_mb,
            max_chunks: config.max_chunks,
            cleanup_threshold: config.cleanup_threshold,
            chunk_expiration: config.chunk_expiration,
            enable_compression: config.enable_compression,
            enable_smart_eviction: config.enable_smart_eviction,
            enable_integrity_check: false,
            enable_backup: false,
            weights: config.weights,
        };
        match PersistentCacheManager::with_config(settings) {
            Ok(store) => Ok(CacheManager { store }),
            Err(e) => Err(e),
        }
    }

    /// Stores a payload under a key at time `now`, as the store's
    /// `store_chunk_at` does.
    pub fn store_chunk_at(
        &mut self,
        chunk_id: &str,
        video_url: &str,
        data: &[u8],
        is_key_frame: bool,
        sequence_number: u32,
        now: u64,
    ) -> (done: bool)
        requires
            old(self).wf(),
        ensures
            done,
            final(self).wf(),
            has_key(final(self).store().entries(), chunk_id@),
            old(self).store().stored(
                &final(self).store(),
                chunk_id@,
                video_url@,
                data@,
                is_key_frame,
                sequence_number,
                now,
            ),
    {
        self.store.store_chunk_at(chunk_id, video_url, data, is_key_frame, sequence_number, now)
    }

    /// Stores a payload under a key, at the time that the clock shows.
    pub fn store_chunk(
        &mut self,
        chunk_id: &str,
        video_url: &str,
        data: &[u8],
        is_key_frame: bool,
        sequence_number: u32,
    ) -> (done: bool)
        requires
            old(self).wf(),
        ensures
            done,
            final(self).wf(),
            has_key(final(self).store().entries(), chunk_id@),
            exists|now: u64| #[trigger]
                old(self).store().stored(
                    &final(self).store(),
                    chunk_id@,
                    video_url@,
                    data@,
                    is_key_frame,
                    sequence_number,
                    now,
                ),
    {
        let now = current_timestamp_ms();
        self.store_chunk_at(chunk_id, video_url, data, is_key_frame, sequence_number, now)
    }

    /// Reads the payload stored under a key at time `now`, as the store's
    /// `get_chunk_at` does.
    pub fn get_chunk_at(&mut self, chunk_id: &str, now: u64) -> (result: Option<Vec<u8>>)
        requires
            old(self).wf(),
        ensures
            final(self).wf(),
            old(self).store().fetched(&final(self).store(), chunk_id@, now, bytes_of(result)),
    {
        self.store.get_chunk_at(chunk_id, now)
    }

    /// Reads the payload stored under a key, at the time that the clock
    /// shows.
    pub fn get_chunk(&mut self, chunk_id: &str) -> (result: Option<Vec<u8>>)
        requires
            old(self).wf(),
        ensures
            final(self).wf(),
            exists|now: u64| #[trigger]
                old(self).store().fetched(&final(self).store(), chunk_id@, now, bytes_of(result)),
    {
        let now = current_timestamp_ms();
        self.get_chunk_at(chunk_id, now)
    }

    /// Whether the cache holds an entry with the key.
    pub fn is_chunk_cached(&self, chunk_id: &str) -> (cached: bool)
        requires
            self.wf(),
        ensures
            cached == has_key(self.store().entries(), chunk_id@),
    {
        self.store.is_chunk_cached(chunk_id)
    }

    /// The keys of the entries of one video, sorted by sequence number.
    pub fn get_video_chunks(&self, video_url: &str) -> (ids: Vec<String>)
        requires
            self.wf(),
        ensures
            ids@.len() == video_chunk_ids(self.store().entries(), video_url@).len(),
            forall|i: int|
                0 <= i < ids@.len() ==> (#[trigger] ids@[i])@ == video_chunk_ids(
                    self.store().entries(),
                    video_url@,
                )[i],
    {
        self.store.get_video_chunks(video_url)
    }

    /// Brings the cache down to its target size at time `now`, as the
    /// store's `cleanup_cache_at` does.
    pub fn cleanup_cache_at(&mut self, now: u64)
        requires
            old(self).wf(),
        ensures
            final(self).wf(),
            old(self).store().cleaned(&final(self).store(), now),
            final(self).store().current_size() <= final(self).store().target(),
    {
        self.store.cleanup_cache_at(now)
    }

    /// Brings the cache down to its target size, scoring entries at the
    /// time that the clock shows.
    pub fn cleanup_cache(&mut self)
        requires
            old(self).wf(),
        ensures
            final(self).wf(),
            final(self).store().current_size() <= final(self).store().target(),
            exists|now: u64| #[trigger] old(self).store().cleaned(&final(self).store(), now),
    {
        let now = current_timestamp_ms();
        self.cleanup_cache_at(now)
    }

    /// Evicts the oldest entries until the cache is down to its target
    /// size, as the store's `simple_cleanup` does.
    pub fn simple_cleanup(&mut self)
        requires
            old(self).wf(),
        ensures
            final(self).wf(),
            old(self).store().simply_cleaned(&final(self).store()),
            final(self).store().current_size() <= final(self).store().target(),
    {
        self.store.simple_cleanup()
    }

    /// Removes the entry with the key, if there is one, as the store's
    /// `remove_chunk` does.
    pub fn remove_chunk(&mut self, chunk_id: &str) -> (found: bool)
        requires
            old(self).wf(),
        ensures
            final(self).wf(),
            old(self).store().removed(&final(self).store(), chunk_id@, found),
    {
        self.store.remove_chunk(chunk_id)
    }

    /// The counters, with the utilization as it stands now.
    pub fn get_stats(&self) -> (stats: CacheStats)
        ensures
            stats == ephemeral_stats(
                PersistentCacheStats {
                    cache_utilization: per_mille(
                        self.store().current_size(),
                        self.store().max_size(),
                    ),
                    ..self.store().counters()
                },
            ),
    {
        let s = self.store.get_stats();
        CacheStats {
            cache_hits: s.cache_hits,
            cache_misses: s.cache_misses,
            total_chunks_stored: s.total_chunks_stored,
            total_chunks_evicted: s.total_chunks_evicted,
            total_bytes_stored: s.total_bytes_stored,
            total_bytes_evicted: s.total_bytes_evicted,
            cache_hit_ratio: s.cache_hit_ratio,
            cache_utilization: s.cache_utilization,
            avg_compression_ratio: s.avg_compression_ratio,
        }
    }

    /// Removes every entry.
    pub fn clear_cache(&mut self)
        requires
            old(self).wf(),
        ensures
            final(self).wf(),
            old(self).store().cleared(&final(self).store()),
    {
        self.store.clear_cache()
    }
}

} // verus!

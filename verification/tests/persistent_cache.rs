use kronop_video_engine::compression::compress_data;
use kronop_video_engine::compression::decompress_data;
use kronop_video_engine::digest::calculate_chunk_hash;
use kronop_video_engine::digest::calculate_data_hash;
use kronop_video_engine::digest::digest_matches;
use kronop_video_engine::digest::verify_data_hash;
use kronop_video_engine::eviction::calculate_eviction_score;
use kronop_video_engine::eviction::leaves_before;
use kronop_video_engine::eviction::pick_victim;
use kronop_video_engine::persistent_cache::copy_entry;
use kronop_video_engine::persistent_cache::CacheEntry;
use kronop_video_engine::persistent_cache::EvictionWeights;
use kronop_video_engine::persistent_cache::PersistentCacheConfig;
use kronop_video_engine::persistent_cache::PersistentCacheManager;

fn entry(id: &str, size: usize, created: u64, accessed: u64, count: u32, key: bool) -> CacheEntry {
    let payload = vec![7u8; size];
    CacheEntry {
        chunk_id: id.to_string(),
        video_url: "v".to_string(),
        file_hash: calculate_data_hash(&payload),
        payload,
        file_size: size as u64,
        data_size: size as u64,
        created_at: created,
        last_accessed: accessed,
        access_count: count,
        is_key_frame: key,
        sequence_number: 0,
        compression_ratio: 1000,
        expires_at: u64::MAX,
    }
}

fn small_config(max_mb: u64, threshold: u32, smart: bool) -> PersistentCacheConfig {
    let mut config = PersistentCacheConfig::default();
    config.max_size_mb = max_mb;
    config.cleanup_threshold = threshold;
    config.enable_compression = false;
    config.enable_smart_eviction = smart;
    config
}

#[test]
fn test_persistent_cache_manager_creation() {
    let cache = PersistentCacheManager::new();
    assert!(cache.is_ok());
}

#[test]
fn test_persistent_chunk_storage_and_retrieval() {
    let mut cache = PersistentCacheManager::new().unwrap();
    let chunk_id = "test_chunk_1";
    let video_url = "https://example.com/video.mp4";
    let data = vec![1, 2, 3, 4, 5];

    // Store chunk
    assert!(cache.store_chunk(chunk_id, video_url, &data, true, 0));

    // Retrieve chunk
    let retrieved = cache.get_chunk(chunk_id);
    assert!(retrieved.is_some());
    assert_eq!(retrieved.unwrap(), data);

    // Check if cached
    assert!(cache.is_chunk_cached(chunk_id));
}

#[test]
fn test_persistent_cache_miss() {
    let mut cache = PersistentCacheManager::new().unwrap();
    let retrieved = cache.get_chunk("non_existent");
    assert!(retrieved.is_none());
}

#[test]
fn test_persistent_video_chunks_retrieval() {
    let mut cache = PersistentCacheManager::new().unwrap();
    let video_url = "https://example.com/video.mp4";

    // Store multiple chunks
    for i in 0..5 {
        let chunk_id = format!("chunk_{}", i);
        let data = vec![i as u8; 100];
        cache.store_chunk(&chunk_id, video_url, &data, i == 0, i);
    }

    // Get all chunks for video
    let chunks = cache.get_video_chunks(video_url);
    assert_eq!(chunks.len(), 5);

    // Verify order (by sequence number)
    for (i, chunk_id) in chunks.iter().enumerate() {
        assert_eq!(chunk_id, &format!("chunk_{}", i));
    }
}

#[test]
fn test_persistent_cache_cleanup() {
    let mut config = PersistentCacheConfig::default();
    config.max_size_mb = 1; // 1MB limit
    config.cleanup_threshold = 50; // Cleanup at 50%

    let mut cache = PersistentCacheManager::with_config(config).unwrap();

    // Store chunks until cleanup is triggered
    for i in 0..10 {
        let chunk_id = format!("chunk_{}", i);
        let data = vec![0; 100000]; // 100KB per chunk
        cache.store_chunk(&chunk_id, "https://example.com/video.mp4", &data, true, i);
    }

    let stats = cache.get_stats();
    assert!(stats.total_chunks_evicted > 0);
}

#[test]
fn key_frame_is_stored_and_read_back() {
    let mut cache = PersistentCacheManager::new().unwrap();
    assert!(cache.store_chunk_at("c1", "v1", &[1, 2, 3, 4, 5], true, 0, 1000));
    assert_eq!(cache.get_chunk_at("c1", 1001).unwrap(), vec![1, 2, 3, 4, 5]);
    assert!(cache.is_chunk_cached("c1"));
    let stats = cache.get_stats();
    assert_eq!(stats.cache_hits, 1);
    assert_eq!(stats.cache_misses, 0);
    assert_eq!(stats.cache_hit_ratio, 1000);
    assert_eq!(stats.total_chunks_stored, 1);
}

#[test]
fn ten_payloads_of_100_kb_in_one_mb_evict_down_to_half() {
    let mut cache = PersistentCacheManager::with_config(small_config(1, 50, true)).unwrap();
    for i in 0..10u32 {
        let payload = vec![i as u8; 102400];
        cache.store_chunk_at(&format!("p{}", i), "v", &payload, false, i, 1000 + i as u64);
    }
    let stats = cache.get_stats();
    assert!(stats.total_chunks_evicted >= 1);
    assert!(stats.cache_utilization <= 500);
    assert!(cache.get_current_size() <= cache.get_target_size());
    assert_eq!(cache.get_target_size(), 524288);
    // five payloads fit under the target, the sixth store makes room
    assert_eq!(cache.len(), 5);
    assert_eq!(stats.total_chunks_evicted, 5);
    assert_eq!(stats.total_bytes_evicted, 5 * 102400);
}

#[test]
fn payloads_that_do_not_shrink_evict_with_compression_on() {
    let mut config = small_config(1, 50, true);
    config.enable_compression = true;
    let mut cache = PersistentCacheManager::with_config(config).unwrap();
    for i in 0..10u32 {
        let payload: Vec<u8> = (0..102400u32).map(|k| (k % 251) as u8).collect();
        cache.store_chunk_at(&format!("p{}", i), "v", &payload, false, i, 1000 + i as u64);
    }
    let stats = cache.get_stats();
    assert!(stats.total_chunks_evicted >= 1);
    assert!(stats.cache_utilization <= 500);
}

#[test]
fn round_trip_holds_for_awkward_payloads() {
    let payloads: Vec<Vec<u8>> = vec![
        vec![],
        vec![255],
        vec![255, 255, 255],
        vec![0; 1000],
        vec![255; 600],
        vec![1, 1, 1, 1, 2, 2, 2, 3, 3, 255, 0, 0, 0, 0, 0],
        (0..=255u8).collect(),
        vec![3, 4, 4, 4, 5],
    ];
    for compress in [true, false] {
        let mut config = PersistentCacheConfig::default();
        config.enable_compression = compress;
        let mut cache = PersistentCacheManager::with_config(config).unwrap();
        for (i, payload) in payloads.iter().enumerate() {
            let key = format!("k{}", i);
            assert!(cache.store_chunk_at(&key, "v", payload, false, i as u32, 10));
            assert_eq!(&cache.get_chunk_at(&key, 20).unwrap(), payload);
        }
    }
}

#[test]
fn run_length_codec_is_byte_preserving() {
    assert_eq!(compress_data(&[]), Vec::<u8>::new());
    assert_eq!(compress_data(&[1, 2, 3]), vec![1, 2, 3]);
    assert_eq!(compress_data(&[9, 9, 9]), vec![9, 9, 9]);
    assert_eq!(compress_data(&[9, 9, 9, 9]), vec![255, 4, 9]);
    assert_eq!(compress_data(&[255]), vec![255, 1, 255]);
    assert_eq!(compress_data(&vec![0; 300]), vec![255, 255, 0, 255, 45, 0]);
    assert_eq!(decompress_data(&[255, 4, 9, 1]).unwrap(), vec![9, 9, 9, 9, 1]);
    // a run token that is cut short, or counts nothing, is malformed
    assert!(decompress_data(&[255]).is_none());
    assert!(decompress_data(&[1, 255, 3]).is_none());
    assert!(decompress_data(&[255, 0, 7]).is_none());
    let data: Vec<u8> = (0..5000u32).map(|k| ((k / 7) % 256) as u8).collect();
    assert_eq!(decompress_data(&compress_data(&data)).unwrap(), data);
    assert!(compress_data(&data).len() <= 3 * data.len());
}

#[test]
fn digests_are_sha256_in_lower_case_hex() {
    assert_eq!(
        calculate_data_hash(b"hello world"),
        "b94d27b9934d3e08a52e52d7da7dabfac484efe37a5380ee9088f7ace2efcde9"
    );
    assert_eq!(
        calculate_data_hash(b""),
        "e3b0c44298fc1c149afbf4c8996fb92427ae41e4649b934ca495991b7852b855"
    );
    assert_eq!(calculate_chunk_hash("hello world"), calculate_data_hash(b"hello world"));
    assert!(verify_data_hash(b"hello world", &calculate_data_hash(b"hello world")));
    assert!(!verify_data_hash(b"hello worle", &calculate_data_hash(b"hello world")));
    assert!(digest_matches(&"ab".to_string(), &"ab".to_string()));
    assert!(!digest_matches(&"ab".to_string(), &"aB".to_string()));
}

#[test]
fn repeated_store_refreshes_without_rewriting() {
    let mut cache = PersistentCacheManager::new().unwrap();
    cache.store_chunk_at("k", "v", &[1, 2, 3], false, 0, 100);
    assert!(cache.store_chunk_at("k", "v", &[9, 9, 9, 9], false, 0, 200));
    assert_eq!(cache.len(), 1);
    assert_eq!(cache.get_stats().total_chunks_stored, 1);
    assert_eq!(cache.get_chunk_at("k", 300).unwrap(), vec![1, 2, 3]);
    let kept = cache.backup_cache().unwrap();
    // one store, one repeated store, one read
    assert_eq!(kept[0].access_count, 3);
    assert_eq!(kept[0].last_accessed, 300);
    assert_eq!(kept[0].created_at, 100);
}

#[test]
fn expired_entries_are_removed_and_missed() {
    let mut config = PersistentCacheConfig::default();
    config.chunk_expiration = 2;
    let mut cache = PersistentCacheManager::with_config(config).unwrap();
    cache.store_chunk_at("k", "v", &[1, 2, 3], false, 0, 1000);
    // at the expiry itself the entry is still good
    assert!(cache.get_chunk_at("k", 3000).is_some());
    assert!(cache.get_chunk_at("k", 3001).is_none());
    assert!(!cache.is_chunk_cached("k"));
    let stats = cache.get_stats();
    assert_eq!(stats.cache_hits, 1);
    assert_eq!(stats.cache_misses, 1);
    assert_eq!(stats.cache_hit_ratio, 500);
    assert_eq!(stats.total_chunks_evicted, 1);
    assert_eq!(stats.integrity_failures, 0);
    assert_eq!(cache.get_current_size(), 0);
}

#[test]
fn corrupted_payload_is_an_integrity_failure_and_a_miss() {
    let mut cache = PersistentCacheManager::new().unwrap();
    let mut bad = entry("bad", 10, 1, 1, 1, false);
    bad.payload[3] = 8;
    let good = entry("good", 10, 1, 1, 1, false);
    cache.load_metadata(&vec![bad, good]);
    assert_eq!(cache.len(), 2);
    assert!(cache.get_chunk_at("bad", 5).is_none());
    assert!(!cache.is_chunk_cached("bad"));
    assert_eq!(cache.get_stats().integrity_failures, 1);
    assert_eq!(cache.get_stats().cache_misses, 1);
    assert_eq!(cache.get_chunk_at("good", 5).unwrap(), vec![7; 10]);
    // without the check the corrupted bytes would be handed out
    let mut config = PersistentCacheConfig::default();
    config.enable_integrity_check = false;
    let mut lax = PersistentCacheManager::with_config(config).unwrap();
    let mut bad = entry("bad", 10, 1, 1, 1, false);
    bad.payload[3] = 8;
    lax.load_metadata(&vec![bad]);
    assert!(lax.get_chunk_at("bad", 5).is_some());
    assert_eq!(lax.get_stats().integrity_failures, 0);
}

#[test]
fn payload_that_does_not_decode_is_an_integrity_failure() {
    let mut config = PersistentCacheConfig::default();
    config.enable_integrity_check = false;
    let mut cache = PersistentCacheManager::with_config(config).unwrap();
    let mut broken = entry("broken", 2, 1, 1, 1, false);
    broken.payload = vec![255, 0];
    cache.load_metadata(&vec![broken]);
    assert!(cache.get_chunk_at("broken", 5).is_none());
    assert_eq!(cache.get_stats().integrity_failures, 1);
    assert_eq!(cache.len(), 0);
}

#[test]
fn load_passes_over_entries_that_do_not_fit() {
    let mut cache = PersistentCacheManager::new().unwrap();
    let twice = entry("a", 4, 1, 1, 1, false);
    let mut wrong_size = entry("b", 4, 1, 1, 1, false);
    wrong_size.file_size = 5;
    cache.load_metadata(&vec![entry("a", 3, 1, 1, 1, false), twice, wrong_size, entry("c", 2, 1, 1, 1, false)]);
    assert_eq!(cache.len(), 2);
    assert_eq!(cache.get_current_size(), 5);
    assert!(cache.is_chunk_cached("a"));
    assert!(!cache.is_chunk_cached("b"));
    assert!(cache.is_chunk_cached("c"));
    // loading counts nothing
    assert_eq!(cache.get_stats().total_chunks_stored, 0);
}

#[test]
fn backup_and_restore_replace_the_content() {
    let mut cache = PersistentCacheManager::new().unwrap();
    cache.store_chunk_at("a", "v", &[1, 2, 3], false, 0, 10);
    cache.store_chunk_at("b", "v", &[4, 5], true, 1, 11);
    let backup = cache.backup_cache().unwrap();
    assert_eq!(backup.len(), 2);
    assert_eq!(cache.get_stats().backup_operations, 1);
    cache.store_chunk_at("c", "v", &[6], false, 2, 12);
    assert!(!cache.restore_cache(None));
    assert!(cache.is_chunk_cached("c"));
    assert!(cache.restore_cache(Some(backup)));
    assert!(!cache.is_chunk_cached("c"));
    assert_eq!(cache.get_chunk_at("a", 20).unwrap(), vec![1, 2, 3]);
    assert_eq!(cache.get_chunk_at("b", 20).unwrap(), vec![4, 5]);
    let stats = cache.get_stats();
    assert_eq!(stats.restore_operations, 1);
    assert_eq!(stats.total_chunks_evicted, 3);
    // with backups off nothing is copied and nothing counted
    let mut config = PersistentCacheConfig::default();
    config.enable_backup = false;
    let mut plain = PersistentCacheManager::with_config(config).unwrap();
    plain.store_chunk_at("a", "v", &[1], false, 0, 1);
    assert!(plain.backup_cache().is_none());
    assert_eq!(plain.get_stats().backup_operations, 0);
}

#[test]
fn simple_eviction_takes_the_oldest_first() {
    let mut cache = PersistentCacheManager::with_config(small_config(1, 100, false)).unwrap();
    cache.load_metadata(&vec![
        entry("young", 400000, 30, 30, 1, false),
        entry("old", 400000, 10, 10, 1, false),
        entry("middle", 400000, 20, 20, 1, false),
    ]);
    // 1.2 MB are held under a target of 1 MB
    cache.simple_cleanup();
    assert!(!cache.is_chunk_cached("old"));
    assert!(cache.is_chunk_cached("middle"));
    assert!(cache.is_chunk_cached("young"));
    assert_eq!(cache.get_current_size(), 800000);
    assert_eq!(cache.get_stats().total_chunks_evicted, 1);
    assert_eq!(cache.get_stats().total_bytes_evicted, 400000);
}

#[test]
fn smart_eviction_takes_the_highest_score_first_and_spares_key_frames() {
    let mut cache = PersistentCacheManager::with_config(small_config(1, 50, true)).unwrap();
    cache.load_metadata(&vec![
        entry("key", 300000, 0, 0, 1, true),
        entry("stale", 300000, 0, 0, 1, false),
        entry("fresh", 300000, 9000, 9000, 1, false),
    ]);
    // at 10 s: key and stale are equally old, but the key frame has 10 points
    // off, which puts it behind the fresh entry too
    cache.cleanup_cache_at(10000);
    assert!(!cache.is_chunk_cached("stale"));
    assert!(!cache.is_chunk_cached("fresh"));
    assert!(cache.is_chunk_cached("key"));
    assert!(cache.get_current_size() <= cache.get_target_size());
    assert_eq!(cache.len(), 1);
    // with room for two entries the fresh one stays as well
    let mut roomy = PersistentCacheManager::with_config(small_config(1, 60, true)).unwrap();
    roomy.load_metadata(&vec![
        entry("key", 300000, 0, 0, 1, true),
        entry("stale", 300000, 0, 0, 1, false),
        entry("fresh", 300000, 9000, 9000, 1, false),
    ]);
    roomy.cleanup_cache_at(10000);
    assert!(!roomy.is_chunk_cached("stale"));
    assert!(roomy.is_chunk_cached("fresh"));
    assert!(roomy.is_chunk_cached("key"));
}

#[test]
fn cleanup_stops_at_the_target_and_leaves_nothing_above_it() {
    let mut cache = PersistentCacheManager::with_config(small_config(1, 50, true)).unwrap();
    let entries: Vec<CacheEntry> =
        (0..9).map(|i| entry(&format!("e{}", i), 100000, i, i, 1, i % 3 == 0)).collect();
    cache.load_metadata(&entries);
    assert_eq!(cache.get_current_size(), 900000);
    cache.cleanup_cache_at(50000);
    assert!(cache.get_current_size() <= cache.get_target_size());
    assert_eq!(cache.get_current_size(), 500000);
    // the three key frames score 10 points lower than their neighbours and stay
    assert!(cache.is_chunk_cached("e0"));
    assert!(cache.is_chunk_cached("e3"));
    assert!(cache.is_chunk_cached("e6"));
    assert_eq!(cache.get_stats().total_chunks_evicted, 4);
}

#[test]
fn key_frame_leaves_after_the_other_entries_of_equal_score() {
    let weights = EvictionWeights { recency: 0, age: 0, frequency: 0, compression: 0, key_frame_bonus: 0 };
    let mut config = small_config(1, 60, true);
    config.weights = weights;
    let mut cache = PersistentCacheManager::with_config(config).unwrap();
    // all scores are 0: the key frame, though stored first, leaves last
    cache.load_metadata(&vec![
        entry("key", 300000, 0, 0, 1, true),
        entry("a", 300000, 0, 0, 1, false),
        entry("b", 300000, 0, 0, 1, false),
    ]);
    cache.cleanup_cache_at(1);
    assert!(cache.is_chunk_cached("key"));
    assert!(!cache.is_chunk_cached("a"));
    assert!(cache.is_chunk_cached("b"));
    cache.store_chunk_at("big", "v", &vec![1; 300000], false, 0, 2);
    assert!(!cache.is_chunk_cached("b"));
    assert!(cache.is_chunk_cached("key"));
    assert!(cache.is_chunk_cached("big"));
    cache.store_chunk_at("bigger", "v", &vec![1; 600000], false, 0, 3);
    assert!(!cache.is_chunk_cached("key"));
    assert!(!cache.is_chunk_cached("big"));
    assert!(cache.is_chunk_cached("bigger"));
}

#[test]
fn eviction_score_weighs_its_factors() {
    let w = EvictionWeights::new();
    // 2 s unread, 4 s old, read once, ratio 1: 0.6 + 0.8 + 0.15 + 0.2 points
    let e = entry("e", 1, 6000, 8000, 1, false);
    assert_eq!(calculate_eviction_score(&e, &w, 10000), 1_750_000);
    // a key frame has 10 points off
    let k = entry("k", 1, 6000, 8000, 1, true);
    assert_eq!(calculate_eviction_score(&k, &w, 10000), -8_250_000);
    // a clock that went back counts as no time
    assert_eq!(calculate_eviction_score(&e, &w, 0), 350_000);
    // better compression lowers the score, rare access raises it
    let mut c = entry("c", 1, 6000, 8000, 3, false);
    c.compression_ratio = 4000;
    assert_eq!(calculate_eviction_score(&c, &w, 10000), 600_000 + 800_000 + 75_000 + 50_000);
    assert!(leaves_before(true, &w, 10000, &e, 1, &k, 0));
    assert!(!leaves_before(true, &w, 10000, &k, 0, &e, 1));
    assert!(leaves_before(false, &w, 10000, &e, 0, &k, 1));
    let entries = vec![copy_entry(&k), copy_entry(&c), copy_entry(&e)];
    assert_eq!(pick_victim(&entries, true, &w, 10000), 2);
    assert_eq!(pick_victim(&entries, false, &w, 10000), 0);
}

#[test]
fn oversized_payload_is_stored_alone() {
    let mut cache = PersistentCacheManager::with_config(small_config(1, 50, true)).unwrap();
    cache.store_chunk_at("a", "v", &vec![1; 1000], false, 0, 1);
    cache.store_chunk_at("huge", "v", &vec![2; 2000000], false, 1, 2);
    assert!(cache.is_chunk_cached("huge"));
    assert!(!cache.is_chunk_cached("a"));
    assert_eq!(cache.get_current_size(), 2000000);
    assert_eq!(cache.get_chunk_at("huge", 3).unwrap().len(), 2000000);
}

#[test]
fn configuration_must_fit_the_machine() {
    let mut config = PersistentCacheConfig::default();
    config.max_size_mb = u64::MAX;
    let refused = PersistentCacheManager::with_config(config);
    assert!(refused.is_err());
    assert!(refused.err().unwrap().to_string().starts_with("Invalid parameter: "));
    let cache = PersistentCacheManager::new().unwrap();
    assert_eq!(cache.get_max_size(), 500 * 1024 * 1024);
    assert_eq!(cache.get_config().cleanup_threshold, 80);
    assert_eq!(cache.get_target_size(), 400 * 1024 * 1024);
}

#[test]
fn compression_ratio_and_mean_are_in_thousandths() {
    let mut cache = PersistentCacheManager::new().unwrap();
    cache.store_chunk_at("zeros", "v", &vec![0; 1020], false, 0, 1);
    // 1020 bytes in four run tokens of three bytes
    let kept = cache.backup_cache().unwrap();
    assert_eq!(kept[0].file_size, 12);
    assert_eq!(kept[0].compression_ratio, 85000);
    cache.store_chunk_at("plain", "v", &[1, 2, 3, 4], false, 1, 2);
    let stats = cache.get_stats();
    assert_eq!(stats.total_bytes_stored, 16);
    assert_eq!(stats.avg_compression_ratio, 43000);
    assert_eq!(cache.remove_chunk("plain"), true);
    assert_eq!(cache.remove_chunk("plain"), false);
    cache.clear_cache();
    assert_eq!(cache.len(), 0);
    assert_eq!(cache.get_stats().total_chunks_evicted, 2);
}

#[test]
fn chunks_of_a_video_come_in_playback_order() {
    let mut cache = PersistentCacheManager::new().unwrap();
    cache.store_chunk_at("c", "v1", &[1], false, 2, 1);
    cache.store_chunk_at("x", "v2", &[1], false, 0, 2);
    cache.store_chunk_at("a", "v1", &[1], false, 0, 3);
    cache.store_chunk_at("b2", "v1", &[1], false, 1, 4);
    cache.store_chunk_at("b1", "v1", &[1], false, 1, 5);
    assert_eq!(cache.get_video_chunks("v1"), vec!["a", "b2", "b1", "c"]);
    assert_eq!(cache.get_video_chunks("v2"), vec!["x"]);
    assert!(cache.get_video_chunks("v3").is_empty());
}

#[test]
fn exported_entries_load_into_an_equal_cache() {
    let mut cache = PersistentCacheManager::new().unwrap();
    cache.store_chunk_at("a", "v", &[1, 2, 3], true, 4, 10);
    cache.store_chunk_at("b", "w", &vec![9; 50], false, 5, 11);
    let exported = cache.export_entries();
    assert_eq!(exported.len(), 2);
    assert_eq!(exported[0].chunk_id, "a");
    assert_eq!(exported[0].video_url, "v");
    assert_eq!(exported[0].payload, vec![1, 2, 3]);
    assert_eq!(exported[0].file_size, 3);
    assert_eq!(exported[0].sequence_number, 4);
    assert!(exported[0].is_key_frame);
    assert_eq!(exported[0].file_hash, calculate_data_hash(&[1, 2, 3]));
    assert_eq!(exported[0].expires_at, 10 + 86400 * 1000);
    assert_eq!(exported[1].payload, vec![255, 50, 9]);
    assert_eq!(cache.get_stats().backup_operations, 0);
    let mut second = PersistentCacheManager::new().unwrap();
    second.load_metadata(&exported);
    assert_eq!(second.get_current_size(), cache.get_current_size());
    assert_eq!(second.get_chunk_at("b", 12).unwrap(), vec![9; 50]);
    assert_eq!(second.get_video_chunks("v"), vec!["a"]);
}

#[test]
fn payloads_that_shrink_count_at_their_full_length() {
    let mut config = PersistentCacheConfig::default();
    config.max_size_mb = 1;
    config.cleanup_threshold = 50;
    assert!(config.enable_compression);
    let mut cache = PersistentCacheManager::with_config(config).unwrap();
    for i in 0..10u32 {
        let stored = cache.store_chunk_at(&format!("z{}", i), "v", &vec![0; 100000], true, i, 1000 + i as u64);
        assert!(stored);
        assert!(cache.get_current_size() <= cache.get_target_size());
    }
    // five payloads of 100000 bytes stay under the target of 524288; each
    // store after the fifth lets one entry go first
    assert_eq!(cache.len(), 5);
    assert_eq!(cache.get_current_size(), 500000);
    let stats = cache.get_stats();
    assert_eq!(stats.total_chunks_evicted, 5);
    // what is held on disk is the encoded payload: 393 run tokens
    assert_eq!(stats.total_bytes_evicted, 5 * 1179);
    let kept = cache.export_entries();
    assert_eq!(kept[0].file_size, 1179);
    assert_eq!(kept[0].data_size, 100000);
    assert_eq!(kept[0].payload.len(), 1179);
    assert_eq!(cache.get_chunk_at("z9", 2000).unwrap(), vec![0; 100000]);
}

#[test]
fn a_prepared_entry_commits_to_what_a_store_gives() {
    let mut config = PersistentCacheConfig::default();
    config.max_size_mb = 1;
    config.cleanup_threshold = 50;
    let mut stored = PersistentCacheManager::with_config(config.clone()).unwrap();
    let mut committed = PersistentCacheManager::with_config(config).unwrap();
    for i in 0..8u32 {
        let key = format!("k{}", i);
        let payload = vec![i as u8; 150000];
        assert!(stored.store_chunk_at(&key, "v", &payload, i % 2 == 0, i, 10 + i as u64));
        let held = committed.len();
        let entry = committed.prepare_entry_at(&key, "v", &payload, i % 2 == 0, i, 10 + i as u64);
        assert_eq!(entry.chunk_id, key);
        assert_eq!(entry.data_size, 150000);
        assert_eq!(entry.file_size as usize, entry.payload.len());
        // the digest is that of the bytes that go to storage
        assert_eq!(entry.file_hash, calculate_data_hash(&entry.payload));
        assert_eq!(entry.payload, compress_data(&payload));
        // preparing changes nothing
        assert_eq!(committed.len(), held);
        assert!(!committed.is_chunk_cached(&key));
        assert!(committed.commit_entry_at(entry, 10 + i as u64));
        assert!(committed.is_chunk_cached(&key));
        assert_eq!(committed.len(), stored.len());
        assert_eq!(committed.get_current_size(), stored.get_current_size());
    }
    let a = stored.get_stats();
    let b = committed.get_stats();
    assert_eq!(a.total_chunks_stored, b.total_chunks_stored);
    assert_eq!(a.total_chunks_evicted, b.total_chunks_evicted);
    assert_eq!(a.total_bytes_evicted, b.total_bytes_evicted);
    assert_eq!(a.total_bytes_stored, b.total_bytes_stored);
    assert!(a.total_chunks_evicted >= 1);
    let left: Vec<String> = stored.export_entries().into_iter().map(|e| e.chunk_id).collect();
    let right: Vec<String> = committed.export_entries().into_iter().map(|e| e.chunk_id).collect();
    assert_eq!(left, right);
}

#[test]
fn an_entry_that_is_never_committed_leaves_the_cache_as_it_was() {
    let mut cache = PersistentCacheManager::new().unwrap();
    assert!(cache.store_chunk_at("held", "v", &[1, 2, 3], false, 0, 5));
    let before = cache.get_stats();
    let dropped = cache.prepare_entry_at("fresh", "v", &[4, 5, 6, 7], true, 1, 6);
    drop(dropped);
    let after = cache.get_stats();
    assert_eq!(cache.len(), 1);
    assert_eq!(cache.get_current_size(), 3);
    assert!(!cache.is_chunk_cached("fresh"));
    assert_eq!(before.total_chunks_stored, after.total_chunks_stored);
    assert_eq!(before.total_chunks_evicted, after.total_chunks_evicted);
    assert_eq!(before.total_bytes_stored, after.total_bytes_stored);
}

#[test]
fn committing_a_held_key_only_refreshes_it() {
    let mut cache = PersistentCacheManager::new().unwrap();
    assert!(cache.store_chunk_at("k", "v", &[1, 2, 3], false, 0, 5));
    let again = cache.prepare_entry_at("k", "v", &[9, 9, 9, 9, 9], false, 0, 50);
    assert!(cache.commit_entry_at(again, 50));
    assert_eq!(cache.len(), 1);
    assert_eq!(cache.get_current_size(), 3);
    assert_eq!(cache.get_stats().total_chunks_stored, 1);
    let held = cache.export_entries();
    assert_eq!(held[0].payload, vec![1, 2, 3]);
    assert_eq!(held[0].last_accessed, 50);
}

#[test]
fn an_entry_with_a_wrong_length_is_refused() {
    let mut cache = PersistentCacheManager::new().unwrap();
    let mut wrong = cache.prepare_entry_at("w", "v", &[1, 2, 3], false, 0, 5);
    wrong.file_size = 7;
    assert!(!cache.commit_entry_at(wrong, 5));
    assert_eq!(cache.len(), 0);
    assert_eq!(cache.get_current_size(), 0);
    assert_eq!(cache.get_stats().total_chunks_stored, 0);
}

use kronop_video_engine::chunk_manager::ChunkManager;
use kronop_video_engine::chunk_manager::VideoChunk;
use kronop_video_engine::chunk_manager::MAX_RETRIES;

#[test]
fn test_chunk_manager_creation() {
    let manager = ChunkManager::new();
    assert_eq!(manager.get_processed_count(), 0);
    assert_eq!(manager.get_pending_count(), 0);
}

#[test]
fn test_add_chunk() {
    let mut manager = ChunkManager::new();
    let data = vec![1, 2, 3, 4, 5];

    assert!(manager.add_chunk("test1", &data).is_ok());
    assert_eq!(manager.get_pending_count(), 1);
}

#[test]
fn test_get_next_chunk() {
    let mut manager = ChunkManager::new();
    let data = vec![1, 2, 3, 4, 5];

    manager.add_chunk("test1", &data).unwrap();

    let (_chunk_id, chunk_data) = manager.get_next_chunk().unwrap();
    assert_eq!(chunk_data, data);

    // After getting chunk, it should still be pending
    assert_eq!(manager.get_pending_count(), 1);
}

#[test]
fn test_mark_processed() {
    let mut manager = ChunkManager::new();
    let data = vec![1, 2, 3, 4, 5];

    manager.add_chunk("test1", &data).unwrap();
    let (chunk_id, _) = manager.get_next_chunk().unwrap();

    manager.mark_processed(&chunk_id);
    assert_eq!(manager.get_processed_count(), 1);
}

#[test]
fn chunk_ids_are_the_given_ones_and_sequences_count_up() {
    let mut manager = ChunkManager::new();
    manager.add_chunk_at("a", &[1], 10).unwrap();
    manager.add_chunk_at("b", &[2, 3], 11).unwrap();
    manager.add_chunk_at("c", &[4, 5, 6], 12).unwrap();
    assert_eq!(manager.get_chunk("a").unwrap().sequence_number, 0);
    assert_eq!(manager.get_chunk("b").unwrap().sequence_number, 1);
    assert_eq!(manager.get_chunk("c").unwrap().sequence_number, 2);
    assert_eq!(manager.get_chunk_by_sequence(1).unwrap().id, "b");
    assert_eq!(manager.get_chunk_by_sequence(1).unwrap().data, vec![2, 3]);
    assert_eq!(manager.get_chunk_by_sequence(2).unwrap().timestamp, 12);
    assert!(manager.get_chunk("d").is_none());
    assert!(manager.get_chunk_by_sequence(3).is_none());
    let (id, data) = manager.get_next_chunk().unwrap();
    assert_eq!(id, "a");
    assert_eq!(data, vec![1]);
}

#[test]
fn duplicate_id_only_refreshes_the_arrival_time() {
    let mut manager = ChunkManager::new();
    manager.add_chunk_at("a", &[1, 2, 3], 10).unwrap();
    manager.add_chunk_at("a", &[9, 9], 50).unwrap();
    assert_eq!(manager.get_pending_count(), 1);
    let chunk = manager.get_chunk("a").unwrap();
    assert_eq!(chunk.data, vec![1, 2, 3]);
    assert_eq!(chunk.timestamp, 50);
    assert_eq!(chunk.sequence_number, 0);
    assert_eq!(manager.get_stats().total_chunks, 1);
    manager.add_chunk_at("b", &[7], 60).unwrap();
    assert_eq!(manager.get_chunk("b").unwrap().sequence_number, 1);
}

#[test]
fn retry_ceiling_makes_the_third_failure_final() {
    let mut manager = ChunkManager::new();
    manager.add_chunk_at("a", &[1], 1).unwrap();
    manager.add_chunk_at("b", &[2], 2).unwrap();
    assert_eq!(manager.get_pending_count(), 2);
    assert_eq!(MAX_RETRIES, 3);

    assert!(manager.mark_failed("a", true).is_ok());
    assert!(!manager.get_chunk("a").unwrap().is_processed);
    assert_eq!(manager.get_chunk("a").unwrap().retry_count, 1);
    assert!(manager.mark_failed("a", true).is_ok());
    assert!(!manager.get_chunk("a").unwrap().is_processed);
    assert_eq!(manager.get_stats().failed_chunks, 0);
    assert_eq!(manager.get_pending_count(), 2);

    assert!(manager.mark_failed("a", true).is_ok());
    assert!(manager.get_chunk("a").unwrap().is_processed);
    assert_eq!(manager.get_chunk("a").unwrap().retry_count, 3);
    assert_eq!(manager.get_stats().failed_chunks, 1);
    assert_eq!(manager.get_pending_count(), 1);
    assert_eq!(manager.get_stats().current_pending, 1);
}

#[test]
fn failure_without_retry_is_final_at_once() {
    let mut manager = ChunkManager::new();
    manager.add_chunk_at("a", &[1], 1).unwrap();
    manager.mark_failed("a", false).unwrap();
    assert!(manager.get_chunk("a").unwrap().is_processed);
    assert_eq!(manager.get_stats().failed_chunks, 1);
    assert_eq!(manager.get_pending_count(), 0);
    // an unknown id changes nothing
    manager.mark_failed("zzz", false).unwrap();
    assert_eq!(manager.get_stats().failed_chunks, 1);
}

#[test]
fn processed_chunks_at_the_head_leave_on_the_next_read() {
    let mut manager = ChunkManager::new();
    manager.add_chunk_at("a", &[1], 1).unwrap();
    manager.add_chunk_at("b", &[2], 2).unwrap();
    manager.add_chunk_at("c", &[3], 3).unwrap();
    manager.mark_processed("a");
    manager.mark_processed("b");
    let (id, data) = manager.get_next_chunk().unwrap();
    assert_eq!(id, "c");
    assert_eq!(data, vec![3]);
    assert!(manager.get_chunk("a").is_none());
    assert!(manager.get_chunk("b").is_none());
    manager.mark_processed("c");
    assert!(manager.get_next_chunk().is_none());
    assert!(manager.get_chunk("c").is_none());
}

#[test]
fn sequence_queries_find_gaps() {
    let mut manager = ChunkManager::new();
    for i in 0..5 {
        manager.add_chunk_at(&format!("c{}", i), &[i as u8], i as u64).unwrap();
    }
    assert!(manager.is_sequence_complete(0));
    assert!(!manager.is_sequence_complete(1));
    manager.mark_processed("c0");
    manager.mark_processed("c1");
    assert!(manager.is_sequence_complete(2));
    assert!(!manager.is_sequence_complete(3));
    assert_eq!(manager.get_missing_chunks(7), vec![5, 6]);
    // reading evicts the processed head, which opens a gap
    let (id, _) = manager.get_next_chunk().unwrap();
    assert_eq!(id, "c2");
    assert_eq!(manager.get_missing_chunks(7), vec![0, 1, 5, 6]);
    assert!(!manager.is_sequence_complete(2));
}

#[test]
fn capacity_reclaims_a_quarter_of_the_processed_chunks() {
    let mut manager = ChunkManager::with_capacity(8);
    for i in 0..8 {
        manager.add_chunk_at(&format!("c{}", i), &[0; 10], i as u64).unwrap();
    }
    // processed chunks that are not at the head
    manager.mark_processed("c1");
    manager.mark_processed("c3");
    manager.mark_processed("c5");
    manager.add_chunk_at("c8", &[0; 10], 8).unwrap();
    // two of the three processed chunks, the oldest, were reclaimed
    assert!(manager.get_chunk("c1").is_none());
    assert!(manager.get_chunk("c3").is_none());
    assert!(manager.get_chunk("c5").is_some());
    assert!(manager.get_chunk("c8").is_some());
    assert_eq!(manager.get_memory_usage(), 70);
    assert_eq!(manager.get_pending_count(), 6);
}

#[test]
fn stats_average_and_clear() {
    let mut manager = ChunkManager::new();
    manager.add_chunk_at("a", &[0; 10], 1).unwrap();
    manager.add_chunk_at("b", &[0; 25], 2).unwrap();
    let stats = manager.get_stats();
    assert_eq!(stats.total_chunks, 2);
    assert_eq!(stats.average_chunk_size, 17);
    assert_eq!(stats.current_pending, 2);
    assert_eq!(manager.get_memory_usage(), 35);
    manager.clear();
    let stats = manager.get_stats();
    assert_eq!(stats.total_chunks, 0);
    assert_eq!(stats.average_chunk_size, 0);
    assert_eq!(manager.get_pending_count(), 0);
    // sequence numbers go on
    manager.add_chunk_at("c", &[1], 3).unwrap();
    assert_eq!(manager.get_chunk("c").unwrap().sequence_number, 2);
}

#[test]
fn new_chunks_get_random_ids() {
    let a = VideoChunk::new(vec![1, 2], 4);
    let b = VideoChunk::new(vec![1, 2], 5);
    assert_ne!(a.id, b.id);
    assert_eq!(a.id.len(), 36);
    assert_eq!(a.data, vec![1, 2]);
    assert_eq!(a.sequence_number, 4);
    assert!(!a.is_processed);
    assert_eq!(a.retry_count, 0);
    assert!(a.timestamp > 0);
    let c = VideoChunk::with_id("x".to_string(), vec![3], 7, 99);
    assert_eq!(c.id, "x");
    assert_eq!(c.timestamp, 99);
}

#[test]
fn lookups_by_sequence_follow_reclaiming_and_clearing() {
    let mut manager = ChunkManager::with_capacity(8);
    for i in 0..8 {
        manager.add_chunk_at(&format!("c{}", i), &[i as u8; 3], i as u64).unwrap();
    }
    manager.mark_processed("c1");
    manager.mark_processed("c3");
    manager.mark_processed("c5");
    manager.add_chunk_at("c8", &[8; 3], 8).unwrap();
    // the two oldest processed chunks are gone, under their numbers too
    assert!(manager.get_chunk_by_sequence(1).is_none());
    assert!(manager.get_chunk_by_sequence(3).is_none());
    assert_eq!(manager.get_chunk_by_sequence(5).unwrap().id, "c5");
    assert_eq!(manager.get_chunk_by_sequence(8).unwrap().id, "c8");
    assert_eq!(manager.get_chunk_by_sequence(8).unwrap().data, vec![8; 3]);
    assert_eq!(manager.get_missing_chunks(10), vec![1, 3, 9]);
    // a refreshed id keeps its number
    manager.add_chunk_at("c5", &[0], 99).unwrap();
    assert_eq!(manager.get_chunk_by_sequence(5).unwrap().timestamp, 99);
    assert_eq!(manager.get_chunk_by_sequence(5).unwrap().data, vec![5; 3]);
    assert!(manager.get_chunk_by_sequence(9).is_none());
    // a failure keeps it as well
    manager.mark_failed("c2", false).unwrap();
    assert!(manager.get_chunk_by_sequence(2).unwrap().is_processed);
    manager.mark_processed("c0");
    let (id, _) = manager.get_next_chunk().unwrap();
    assert_eq!(id, "c4");
    assert!(manager.get_chunk_by_sequence(0).is_none());
    assert!(manager.get_chunk_by_sequence(2).is_none());
    assert_eq!(manager.get_missing_chunks(6), vec![0, 1, 2, 3]);
    manager.clear();
    assert!(manager.get_chunk_by_sequence(4).is_none());
    assert_eq!(manager.get_missing_chunks(3), vec![0, 1, 2]);
}

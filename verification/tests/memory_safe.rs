use kronop_video_engine::memory_safe::classify_health;
use kronop_video_engine::memory_safe::counter_add;
use kronop_video_engine::memory_safe::counter_sub;
use kronop_video_engine::memory_safe::must_apply_backpressure;
use kronop_video_engine::memory_safe::zeroed_buffer;
use kronop_video_engine::memory_safe::AlignedBuffer;
use kronop_video_engine::memory_safe::FrameBufferManager;
use kronop_video_engine::memory_safe::LeakDetector;
use kronop_video_engine::memory_safe::MemoryHealth;
use kronop_video_engine::memory_safe::MemoryPool;
use kronop_video_engine::memory_safe::MemorySafetyGuard;
use kronop_video_engine::memory_safe::SmartFrame;
use kronop_video_engine::memory_safe::TrackedOperation;
use kronop_video_engine::memory_safe::FRAME_SLOT_BYTES;

#[test]
fn pool_hands_out_fresh_items_up_to_its_ceiling() {
    let mut pool: MemoryPool<u32> = MemoryPool::new(2);
    let a = pool.acquire().unwrap();
    assert_eq!(*a, 0);
    let b = pool.acquire().unwrap();
    assert!(pool.acquire().is_none());
    assert_eq!(pool.get_allocations(), 2);
    pool.release(Box::new(41));
    assert_eq!(pool.get_allocations(), 1);
    assert_eq!(pool.idle_count(), 1);
    // the released item comes back
    assert_eq!(*pool.acquire().unwrap(), 41);
    pool.release(a);
    pool.release(b);
    assert_eq!(pool.idle_count(), 2);
    // a full pool lets a third item go
    pool.release(Box::new(5));
    assert_eq!(pool.idle_count(), 2);
    assert_eq!(pool.get_allocations(), usize::MAX);
}

#[test]
fn counters_wrap_like_atomic_ones() {
    assert_eq!(counter_add(usize::MAX, 1), 0);
    assert_eq!(counter_add(usize::MAX, 5), 4);
    assert_eq!(counter_add(3, 4), 7);
    assert_eq!(counter_sub(0, 1), usize::MAX);
    assert_eq!(counter_sub(2, 5), usize::MAX - 2);
    assert_eq!(counter_sub(9, 4), 5);
}

#[test]
fn buffer_pool_stays_within_its_budget() {
    // a budget of 1 MB holds two buffers of 400 KB
    let mut manager = FrameBufferManager::new(4, 400 * 1024, 1);
    let a = manager.get_buffer().unwrap();
    assert_eq!(a, vec![0u8; 400 * 1024]);
    let b = manager.get_buffer().unwrap();
    assert!(manager.get_buffer().is_none());
    assert_eq!(manager.get_memory_usage_mb(), 0);
    manager.return_buffer(a);
    assert_eq!(manager.get_buffer_count(), 1);
    let again = manager.get_buffer().unwrap();
    assert_eq!(again.len(), 400 * 1024);
    assert_eq!(manager.get_buffer_count(), 0);
    manager.return_buffer(b);
    manager.return_buffer(again);
    assert_eq!(manager.get_buffer_count(), 2);
}

#[test]
fn buffers_are_reused_oldest_first_and_collected_to_a_quarter() {
    let mut manager = FrameBufferManager::new(8, 4, 1);
    let taken: Vec<Vec<u8>> = (0..6).map(|_| manager.get_buffer().unwrap()).collect();
    for (i, mut buffer) in taken.into_iter().enumerate() {
        buffer[0] = i as u8;
        manager.return_buffer(buffer);
    }
    assert_eq!(manager.get_buffer_count(), 6);
    manager.collect_garbage();
    // a quarter of eight is left: the two newest
    assert_eq!(manager.get_buffer_count(), 2);
    assert_eq!(manager.get_buffer().unwrap()[0], 4);
    assert_eq!(manager.get_buffer().unwrap()[0], 5);
    assert_eq!(manager.get_buffer().unwrap(), vec![0; 4]);
}

#[test]
fn usage_is_counted_in_whole_megabytes() {
    let mut manager = FrameBufferManager::new(2, 1024 * 1024, 3);
    assert_eq!(manager.get_memory_usage_mb(), 0);
    let a = manager.get_buffer().unwrap();
    let _b = manager.get_buffer().unwrap();
    assert_eq!(manager.get_memory_usage_mb(), 2);
    manager.return_buffer(a);
    assert_eq!(manager.get_memory_usage_mb(), 1);
}

#[test]
fn aligned_buffers_need_a_valid_layout() {
    let buffer = AlignedBuffer::new(100, 64).unwrap();
    assert_eq!(buffer.len(), 100);
    assert_eq!(buffer.as_slice(), &[0u8; 100][..]);
    assert_eq!(AlignedBuffer::new(100, 0).err(), Some("Invalid layout"));
    assert_eq!(AlignedBuffer::new(100, 3).err(), Some("Invalid layout"));
    assert_eq!(AlignedBuffer::new(usize::MAX, 8).err(), Some("Invalid layout"));
    let mut small = AlignedBuffer::new(2, 1).unwrap();
    small.as_mut_slice()[1] = 9;
    assert_eq!(small.as_slice(), &[0, 9]);
}

#[test]
fn leak_detector_reports_what_is_held_for_long() {
    let mut detector = LeakDetector::new();
    let first = detector.track_allocation_at(100, 1000);
    let second = detector.track_allocation_at(200, 2000);
    let third = detector.track_allocation_at(300, 400000);
    assert_eq!((first, second, third), (1, 2, 3));
    assert_eq!(detector.tracked_count(), 3);
    // exactly five minutes is not yet a leak
    assert!(detector.report_leaks_at(301000).is_empty());
    let leaks = detector.report_leaks_at(301001);
    assert_eq!(leaks.len(), 1);
    assert_eq!(leaks[0].0, 1);
    assert_eq!(leaks[0].1.size, 100);
    assert_eq!(leaks[0].1.time, 1000);
    assert_eq!(leaks[0].1.backtrace, "Backtrace at 1000ms");
    assert!(detector.track_deallocation(first));
    assert!(!detector.track_deallocation(first));
    let leaks = detector.report_leaks_at(500000);
    assert_eq!(leaks.len(), 1);
    assert_eq!(leaks[0].0, 2);
    assert_eq!(LeakDetector::capture_backtrace_at(7), "Backtrace at 7ms");
    let now = detector.track_allocation(1);
    assert_eq!(now, 4);
    assert!(detector.report_leaks().len() <= 3);
}

#[test]
fn smart_frames_go_back_to_their_pool() {
    let mut pool: MemoryPool<u64> = MemoryPool::new(1);
    let mut frame = SmartFrame::new(&mut pool).unwrap();
    assert_eq!(frame.as_ref(), Some(&0));
    *frame.as_mut().unwrap() = 77;
    assert_eq!(frame.as_ref(), Some(&77));
    assert!(SmartFrame::new(&mut pool).is_none());
    frame.release(&mut pool);
    assert_eq!(pool.get_allocations(), 0);
    let again = SmartFrame::new(&mut pool).unwrap();
    assert_eq!(again.as_ref(), Some(&77));
}

#[test]
fn health_turns_at_seventy_and_ninety_percent() {
    let mb: usize = 1024 * 1024;
    assert_eq!(classify_health(0, 512, 70, 90), MemoryHealth::Healthy);
    // 70 percent of 512 MB are 375809638.4 bytes, 90 percent 483183820.8
    assert_eq!(classify_health(375809638, 512, 70, 90), MemoryHealth::Healthy);
    assert_eq!(classify_health(375809639, 512, 70, 90), MemoryHealth::Warning);
    assert_eq!(classify_health(483183820, 512, 70, 90), MemoryHealth::Warning);
    assert_eq!(classify_health(483183821, 512, 70, 90), MemoryHealth::Critical);
    // the decision is on bytes, not on whole megabytes
    assert_eq!(classify_health(358 * mb + mb / 2, 512, 70, 90), MemoryHealth::Warning);
    assert_eq!(classify_health(460 * mb + 9 * mb / 10, 512, 70, 90), MemoryHealth::Critical);
    assert_eq!(classify_health(70 * mb - 1, 100, 70, 90), MemoryHealth::Healthy);
    assert_eq!(classify_health(70 * mb, 100, 70, 90), MemoryHealth::Warning);
    assert_eq!(classify_health(90 * mb - 1, 100, 70, 90), MemoryHealth::Warning);
    assert_eq!(classify_health(90 * mb, 100, 70, 90), MemoryHealth::Critical);
    assert!(must_apply_backpressure(MemoryHealth::Critical));
    assert!(!must_apply_backpressure(MemoryHealth::Warning));
    assert!(!must_apply_backpressure(MemoryHealth::Healthy));
}

#[test]
fn guard_accounts_for_frames_and_operations() {
    let mut guard = MemorySafetyGuard::new();
    assert_eq!(guard.check_memory_health(), MemoryHealth::Healthy);
    let frame = guard.allocate_frame().unwrap();
    assert_eq!(frame.len(), FRAME_SLOT_BYTES);
    assert_eq!(guard.get_stats_at(0).current_mb, 7);
    assert_eq!(guard.get_stats_at(0).limit_mb, 512);
    guard.free_frame(frame);
    assert_eq!(guard.get_stats_at(0).current_mb, 0);
    assert_eq!(guard.get_stats_at(0).buffer_count, 1);

    let operation = guard.track_operation_at("decode", 4096, 1000);
    assert_eq!(operation.id, 1);
    assert_eq!(operation.name, "decode");
    assert!(!operation.is_slow_at(11000));
    assert!(operation.is_slow_at(11001));
    assert_eq!(guard.get_stats_at(1000).leak_count, 0);
    assert_eq!(guard.get_stats_at(400000).leak_count, 1);
    let leaks = guard.force_cleanup_at(400000);
    assert_eq!(leaks.len(), 1);
    assert_eq!(leaks[0].0, 1);
    let slot = guard.create_smart_frame().unwrap();
    assert_eq!(slot.as_ref().unwrap().pixels.len(), FRAME_SLOT_BYTES);
    guard.release_smart_frame(slot);
    let later = guard.track_operation("upload", 1);
    assert_eq!(later.id, 2);
    assert_eq!(TrackedOperation::new(9, "n".to_string(), 3).size, 3);
}

#[test]
fn guard_turns_critical_as_frames_pile_up() {
    let mut guard = MemorySafetyGuard::new();
    let mut held = Vec::new();
    let mut seen_warning = false;
    while let Some(frame) = guard.allocate_frame() {
        held.push(frame);
        if guard.check_memory_health() == MemoryHealth::Warning {
            seen_warning = true;
        }
    }
    // 64 frames of 7.9 MB fit under 512 MB
    assert_eq!(held.len(), 64);
    assert!(seen_warning);
    assert_eq!(guard.check_memory_health(), MemoryHealth::Critical);
    assert_eq!(zeroed_buffer(3), vec![0, 0, 0]);
}

#[test]
fn leak_report_lists_each_old_allocation_once() {
    let mut detector = LeakDetector::new();
    for i in 0..20u64 {
        detector.track_allocation_at(10 * i as usize, 1000 * i);
    }
    assert!(detector.track_deallocation(3));
    assert!(!detector.track_deallocation(99));
    assert_eq!(detector.tracked_count(), 19);
    // at 310000 the allocations made before 10000 are older than five minutes
    let mut leaks = detector.report_leaks_at(310000);
    leaks.sort_by_key(|leak| leak.0);
    let ids: Vec<usize> = leaks.iter().map(|leak| leak.0).collect();
    assert_eq!(ids, vec![1, 2, 4, 5, 6, 7, 8, 9, 10]);
    for (id, info) in leaks {
        assert_eq!(info.size, 10 * (id - 1));
        assert_eq!(info.time, 1000 * (id as u64 - 1));
        assert_eq!(info.backtrace, format!("Backtrace at {}ms", info.time));
    }
}

#[test]
fn returned_buffers_wait_in_a_queue() {
    let mut manager = FrameBufferManager::new(3, 2, 1);
    let mut a = manager.get_buffer().unwrap();
    let mut b = manager.get_buffer().unwrap();
    a[0] = 1;
    b[0] = 2;
    manager.return_buffer(a);
    manager.return_buffer(b);
    assert_eq!(manager.get_buffer().unwrap(), vec![1, 0]);
    assert_eq!(manager.get_buffer().unwrap(), vec![2, 0]);
    assert_eq!(manager.get_buffer_count(), 0);
}

use kronop_video_engine::decoder::DecodedFrame;
use kronop_video_engine::decoder::OutputFormat;
use kronop_video_engine::frame_buffer::backoff_ms;
use kronop_video_engine::frame_buffer::create_test_frame_data;
use kronop_video_engine::frame_buffer::simulate_predecode;
use kronop_video_engine::frame_buffer::FrameBuffer;
use kronop_video_engine::frame_buffer::PredecodePriority;
use kronop_video_engine::frame_buffer::PredecodeTask;
use kronop_video_engine::frame_buffer::WorkerStep;

fn create_test_frame(timestamp: u64) -> DecodedFrame {
    DecodedFrame {
        data: create_test_frame_data(0, timestamp),
        width: 1080,
        height: 1920,
        timestamp,
        is_key_frame: false,
        format: OutputFormat::RGB24,
    }
}

fn small_frame(tag: u8, timestamp: u64) -> DecodedFrame {
    DecodedFrame {
        data: vec![tag; 4],
        width: 2,
        height: 2,
        timestamp,
        is_key_frame: false,
        format: OutputFormat::RGB24,
    }
}

#[test]
fn test_frame_buffer_creation() {
    let buffer = FrameBuffer::new(60);
    assert!(buffer.is_ok());

    let buffer = buffer.unwrap();
    assert_eq!(buffer.get_frame_count(), 0);
    assert_eq!(buffer.get_utilization(), 0);
    assert_eq!(buffer.get_predecoded_frame_count(), 0);
}

#[test]
fn test_predecoded_frames() {
    let mut buffer = FrameBuffer::with_capacity_and_predecode(20, 60, 10).unwrap();

    // Add pre-decoded frames
    for i in 0..15 {
        let frame = create_test_frame(i * 16667);
        buffer.add_predecoded_frame_at(frame, 0).unwrap();
    }

    assert_eq!(buffer.get_predecoded_frame_count(), 15);
    assert!(buffer.has_sufficient_predecoded_frames());
    // 15 frames are less than half a second at 60 frames a second
    assert!(!buffer.is_ready_for_playback());
}

#[test]
fn test_insufficient_predecoded_frames() {
    let mut buffer = FrameBuffer::with_capacity_and_predecode(20, 60, 10).unwrap();

    // Add only 5 pre-decoded frames (less than required 10)
    for i in 0..5 {
        let frame = create_test_frame(i * 16667);
        buffer.add_predecoded_frame_at(frame, 0).unwrap();
    }

    assert_eq!(buffer.get_predecoded_frame_count(), 5);
    assert!(!buffer.has_sufficient_predecoded_frames());
    assert!(!buffer.is_ready_for_playback());
}

#[test]
fn test_predecode_task_priority() {
    let mut buffer = FrameBuffer::with_capacity_and_predecode(20, 60, 10).unwrap();

    // Add tasks with different priorities
    buffer.add_predecode_task("low1".to_string(), vec![1, 2, 3], PredecodePriority::Low);
    buffer.add_predecode_task("high1".to_string(), vec![4, 5, 6], PredecodePriority::High);
    buffer.add_predecode_task("medium1".to_string(), vec![7, 8, 9], PredecodePriority::Medium);
    buffer.add_predecode_task("high2".to_string(), vec![10, 11, 12], PredecodePriority::High);

    assert_eq!(buffer.get_predecode_queue_len(), 4);

    // High priority tasks should be at the front
    assert_eq!(buffer.get_predecode_task_id(0).unwrap(), "high1");
    assert_eq!(buffer.get_predecode_task_id(1).unwrap(), "high2");
    assert_eq!(buffer.get_predecode_task_priority(0), Some(PredecodePriority::High));
    assert_eq!(buffer.get_predecode_task_priority(1), Some(PredecodePriority::High));

    // Medium priority should be after high priority
    assert_eq!(buffer.get_predecode_task_id(2).unwrap(), "medium1");

    // Low priority should be at the end
    assert_eq!(buffer.get_predecode_task_id(3).unwrap(), "low1");
    assert!(buffer.get_predecode_task_id(4).is_none());
}

#[test]
fn drain_order_is_high_high_medium_low() {
    let mut buffer = FrameBuffer::with_capacity_and_predecode(4, 60, 0).unwrap();
    buffer.add_predecode_task_at("l".to_string(), vec![], PredecodePriority::Low, 1);
    buffer.add_predecode_task_at("h".to_string(), vec![], PredecodePriority::High, 2);
    buffer.add_predecode_task_at("m".to_string(), vec![], PredecodePriority::Medium, 3);
    buffer.add_predecode_task_at("h2".to_string(), vec![], PredecodePriority::High, 4);
    let mut drained = Vec::new();
    while let Some(task) = buffer.next_predecode_task() {
        drained.push(task.priority);
    }
    assert_eq!(
        drained,
        vec![
            PredecodePriority::High,
            PredecodePriority::High,
            PredecodePriority::Medium,
            PredecodePriority::Low
        ]
    );
}

#[test]
fn medium_tasks_keep_their_order_of_arrival() {
    let mut buffer = FrameBuffer::with_capacity_and_predecode(4, 60, 0).unwrap();
    buffer.add_predecode_task_at("m1".to_string(), vec![], PredecodePriority::Medium, 1);
    buffer.add_predecode_task_at("l1".to_string(), vec![], PredecodePriority::Low, 2);
    buffer.add_predecode_task_at("m2".to_string(), vec![], PredecodePriority::Medium, 3);
    buffer.add_predecode_task_at("l2".to_string(), vec![], PredecodePriority::Low, 4);
    let ids: Vec<String> = (0..4).map(|i| buffer.get_predecode_task_id(i).unwrap()).collect();
    assert_eq!(ids, vec!["m1", "m2", "l1", "l2"]);
    let task = buffer.next_predecode_task().unwrap();
    assert_eq!(task.chunk_id, "m1");
    assert_eq!(task.timestamp, 1);
}

#[test]
fn worker_steps_follow_stop_flag_and_queue() {
    let mut buffer = FrameBuffer::with_capacity_and_predecode(4, 60, 0).unwrap();
    let step = buffer.predecode_worker_step();
    assert!(matches!(step, WorkerStep::Idle));
    assert_eq!(backoff_ms(&step), 10);
    buffer.add_predecode_task_at("a".to_string(), vec![1], PredecodePriority::Low, 5);
    let step = buffer.predecode_worker_step();
    assert_eq!(backoff_ms(&step), 1);
    match step {
        WorkerStep::Decode(task) => assert_eq!(task.chunk_id, "a"),
        _ => panic!("a task was queued"),
    }
    buffer.add_predecode_task_at("b".to_string(), vec![1], PredecodePriority::Low, 6);
    buffer.request_stop();
    let step = buffer.predecode_worker_step();
    assert!(matches!(step, WorkerStep::Stop));
    assert_eq!(backoff_ms(&step), 0);
    assert_eq!(buffer.get_predecode_queue_len(), 1);
}

#[test]
fn buffer_never_grows_beyond_its_capacity() {
    let mut buffer = FrameBuffer::with_capacity_and_predecode(3, 60, 0).unwrap();
    for i in 0..10u8 {
        buffer.add_frame_at(small_frame(i, i as u64), i as u64).unwrap();
        assert!(buffer.get_frame_count() <= 3);
    }
    assert_eq!(buffer.get_frame_count(), 3);
    assert_eq!(buffer.get_total_frames_processed(), 10);
    // seven unconsumed frames were pushed out
    assert_eq!(buffer.get_dropped_frames(), 7);
    assert_eq!(buffer.get_current_frame().unwrap(), vec![9; 4]);
    assert_eq!(buffer.get_utilization(), 1000);
}

#[test]
fn dropped_frames_count_only_unconsumed_ones() {
    let mut buffer = FrameBuffer::with_capacity_and_predecode(2, 60, 0).unwrap();
    buffer.add_frame_at(small_frame(1, 1), 1).unwrap();
    buffer.add_frame_at(small_frame(2, 2), 2).unwrap();
    // consume the oldest: it stays in the buffer, marked
    assert_eq!(buffer.get_next_frame_at(2).unwrap(), vec![1; 4]);
    assert_eq!(buffer.get_frame_count(), 2);
    // pushing it out is no drop
    buffer.add_frame_at(small_frame(3, 3), 3).unwrap();
    assert_eq!(buffer.get_dropped_frames(), 0);
    // pushing out frame 2, which was never consumed, is one
    buffer.add_frame_at(small_frame(4, 4), 4).unwrap();
    assert_eq!(buffer.get_dropped_frames(), 1);
    assert_eq!(buffer.get_next_frame_at(5).unwrap(), vec![3; 4]);
    assert_eq!(buffer.get_next_frame_at(6).unwrap(), vec![4; 4]);
    assert!(buffer.get_next_frame_at(7).is_none());
    // both were consumed within the last second: they stay
    assert_eq!(buffer.get_frame_count(), 2);
    // with the clock of the machine they are long stale
    assert!(buffer.get_next_frame().is_none());
    assert_eq!(buffer.get_frame_count(), 0);
}

#[test]
fn buffer_without_capacity_refuses_frames() {
    let mut buffer = FrameBuffer::with_capacity_and_predecode(0, 60, 0).unwrap();
    let refused = buffer.add_frame_at(small_frame(1, 1), 1);
    assert!(refused.is_err());
    assert_eq!(refused.unwrap_err().to_string(), "Buffer overflow: No frames to drop");
    assert_eq!(buffer.get_frame_count(), 0);
    assert_eq!(buffer.get_total_frames_processed(), 0);
}

#[test]
fn buffer_indexes_wrap_at_the_capacity() {
    let mut buffer = FrameBuffer::with_capacity_and_predecode(3, 60, 0).unwrap();
    for i in 0..4u8 {
        buffer.add_frame_at(small_frame(i, 100 + i as u64), 0).unwrap();
    }
    // frames 1, 2, 3 are left with indexes 1, 2, 0
    assert_eq!(buffer.get_frame_by_index(0).unwrap().timestamp, 103);
    assert_eq!(buffer.get_frame_by_index(1).unwrap().timestamp, 101);
    assert_eq!(buffer.get_frame_by_index(2).unwrap().timestamp, 102);
    assert!(buffer.get_frame_by_index(3).is_none());
}

#[test]
fn readiness_needs_frames_and_predecoded_frames() {
    let mut buffer = FrameBuffer::with_capacity_and_predecode(10, 8, 2).unwrap();
    // four frames make half a second at 8 frames a second, but none is pre-decoded
    for i in 0..4u8 {
        buffer.add_frame_at(small_frame(i, i as u64), 0).unwrap();
    }
    assert!(!buffer.is_ready_for_playback());
    buffer.add_predecoded_frame_at(small_frame(9, 9), 0).unwrap();
    assert!(!buffer.is_ready_for_playback());
    buffer.add_predecoded_frame_at(small_frame(10, 10), 0).unwrap();
    assert!(buffer.is_ready_for_playback());
    let stats = buffer.get_stats();
    assert!(stats.is_ready);
    assert_eq!(stats.frame_count, 6);
    assert_eq!(stats.predecoded_frames, 2);
    assert_eq!(stats.min_predecoded_frames, 2);
    assert_eq!(stats.utilization, 600);
    assert_eq!(stats.memory_usage, 24);
    // enough pre-decoded frames alone are not enough either
    let mut few = FrameBuffer::with_capacity_and_predecode(10, 8, 1).unwrap();
    few.add_predecoded_frame_at(small_frame(1, 1), 0).unwrap();
    assert!(few.has_sufficient_predecoded_frames());
    assert!(!few.is_ready_for_playback());
}

#[test]
fn frame_rate_comes_from_the_window_of_timestamps() {
    let mut buffer = FrameBuffer::with_capacity_and_predecode(10, 60, 0).unwrap();
    assert_eq!(buffer.get_frame_rate_stats().current_fps, 0);
    buffer.add_frame_at(small_frame(0, 1000), 0).unwrap();
    assert_eq!(buffer.get_frame_rate_stats().current_fps, 0);
    buffer.add_frame_at(small_frame(1, 1050), 0).unwrap();
    buffer.add_frame_at(small_frame(2, 1100), 0).unwrap();
    let stats = buffer.get_frame_rate_stats();
    // three frames over 100 ms: 30 frames a second, half of the target
    assert_eq!(stats.current_fps, 30000);
    assert_eq!(stats.target_fps, 60);
    assert_eq!(stats.efficiency, 500);
    assert_eq!(stats.total_frames, 3);
    assert_eq!(stats.dropped_frames, 0);
}

#[test]
fn optimize_memory_purges_stale_consumed_frames_only() {
    let mut buffer = FrameBuffer::with_capacity_and_predecode(10, 60, 0).unwrap();
    buffer.add_frame_at(small_frame(1, 1), 1000).unwrap();
    buffer.add_frame_at(small_frame(2, 2), 1500).unwrap();
    buffer.add_frame_at(small_frame(3, 3), 1600).unwrap();
    assert_eq!(buffer.get_next_frame_at(1700).unwrap(), vec![1; 4]);
    // exactly one second old: not stale yet
    buffer.optimize_memory_at(2000);
    assert_eq!(buffer.get_frame_count(), 3);
    // older than a second and consumed: purged; unconsumed frames stay however old
    buffer.optimize_memory_at(5000);
    assert_eq!(buffer.get_frame_count(), 2);
    assert_eq!(buffer.get_next_frame_at(5000).unwrap(), vec![2; 4]);
    buffer.clear();
    assert_eq!(buffer.get_frame_count(), 0);
    assert_eq!(buffer.get_total_frames_processed(), 0);
}

#[test]
fn frame_buffer_new_sizes_for_two_seconds() {
    let buffer = FrameBuffer::new(30).unwrap();
    assert_eq!(buffer.get_stats().max_frames, 60);
    assert_eq!(buffer.get_stats().min_predecoded_frames, 10);
}

#[test]
fn test_pattern_has_ramps_and_frame_level() {
    let data = create_test_frame_data(3, 7000);
    assert_eq!(data.len(), 1080 * 1920 * 3);
    // pixel (0, 0)
    assert_eq!(&data[0..3], &[0, 0, 157]);
    // pixel (540, 0): red is 540 * 255 / 1080
    assert_eq!(data[540 * 3], 127);
    // pixel (1079, 1919)
    let last = (1919 * 1080 + 1079) * 3;
    assert_eq!(&data[last..last + 3], &[254, 254, 157]);
    // pixel (0, 960): green is 960 * 255 / 1920
    assert_eq!(data[(960 * 1080) * 3 + 1], 127);
}

#[test]
fn simulated_decode_yields_a_frame_per_kilobyte_up_to_five() {
    let task = PredecodeTask {
        chunk_id: "c".to_string(),
        chunk_data: vec![0; 2500],
        priority: PredecodePriority::High,
        timestamp: 1000,
    };
    let frames = simulate_predecode(&task);
    assert_eq!(frames.len(), 2);
    assert!(frames[0].is_key_frame);
    assert!(!frames[1].is_key_frame);
    assert_eq!(frames[0].timestamp, 1000);
    assert_eq!(frames[1].timestamp, 17667);
    assert_eq!(frames[1].width, 1080);
    assert_eq!(frames[1].height, 1920);
    assert_eq!(frames[1].data, create_test_frame_data(1, 1000));
    let none = PredecodeTask { chunk_data: vec![0; 1023], ..task.clone() };
    assert_eq!(simulate_predecode(&none).len(), 0);
    let many = PredecodeTask { chunk_data: vec![0; 10 * 1024], ..task };
    assert_eq!(simulate_predecode(&many).len(), 5);
}

#[test]
fn high_tasks_keep_their_order_of_arrival() {
    let mut buffer = FrameBuffer::with_capacity_and_predecode(4, 60, 0).unwrap();
    buffer.add_predecode_task_at("l1".to_string(), vec![], PredecodePriority::Low, 1);
    buffer.add_predecode_task_at("h1".to_string(), vec![], PredecodePriority::High, 2);
    buffer.add_predecode_task_at("h2".to_string(), vec![], PredecodePriority::High, 3);
    buffer.add_predecode_task_at("m1".to_string(), vec![], PredecodePriority::Medium, 4);
    buffer.add_predecode_task_at("h3".to_string(), vec![], PredecodePriority::High, 5);
    buffer.add_predecode_task_at("l2".to_string(), vec![], PredecodePriority::Low, 6);
    buffer.add_predecode_task_at("m2".to_string(), vec![], PredecodePriority::Medium, 7);
    let ids: Vec<String> = (0..7).map(|i| buffer.get_predecode_task_id(i).unwrap()).collect();
    assert_eq!(ids, vec!["h1", "h2", "h3", "m1", "m2", "l1", "l2"]);
    let mut drained = Vec::new();
    while let Some(task) = buffer.next_predecode_task() {
        drained.push(task.chunk_id);
    }
    assert_eq!(drained, vec!["h1", "h2", "h3", "m1", "m2", "l1", "l2"]);
}

#[test]
fn consumed_frames_stay_until_they_are_stale() {
    let mut buffer = FrameBuffer::with_capacity_and_predecode(10, 60, 0).unwrap();
    buffer.add_frame_at(small_frame(1, 1), 1000).unwrap();
    buffer.add_frame_at(small_frame(2, 2), 1500).unwrap();
    buffer.add_frame_at(small_frame(3, 3), 1600).unwrap();
    assert_eq!(buffer.get_next_frame_at(1700).unwrap(), vec![1; 4]);
    assert_eq!(buffer.get_frame_count(), 3);
    // the first frame is exactly one second old: it stays
    assert_eq!(buffer.get_next_frame_at(2000).unwrap(), vec![2; 4]);
    assert_eq!(buffer.get_frame_count(), 3);
    // now it is older: it is let go on the way to the third
    assert_eq!(buffer.get_next_frame_at(2001).unwrap(), vec![3; 4]);
    assert_eq!(buffer.get_frame_count(), 2);
    // nothing is left to consume; the second frame has grown stale, the
    // third has not
    assert!(buffer.get_next_frame_at(2600).is_none());
    assert_eq!(buffer.get_frame_count(), 1);
    assert_eq!(buffer.get_current_frame().unwrap(), vec![3; 4]);
    assert!(buffer.get_next_frame_at(2601).is_none());
    assert_eq!(buffer.get_frame_count(), 0);
    assert_eq!(buffer.get_dropped_frames(), 0);
}

#[test]
fn a_frame_that_was_never_consumed_is_not_stale() {
    let mut buffer = FrameBuffer::with_capacity_and_predecode(10, 60, 0).unwrap();
    buffer.add_frame_at(small_frame(1, 1), 10).unwrap();
    buffer.add_frame_at(small_frame(2, 2), 20).unwrap();
    assert_eq!(buffer.get_next_frame_at(1000000).unwrap(), vec![1; 4]);
    // the frame that was just consumed stays for this call, however old
    assert_eq!(buffer.get_frame_count(), 2);
    assert_eq!(buffer.get_next_frame_at(1000001).unwrap(), vec![2; 4]);
    assert_eq!(buffer.get_frame_count(), 1);
}

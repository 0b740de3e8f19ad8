use kronop_video_engine::decoder::DecodedFrame;
use kronop_video_engine::decoder::OutputFormat;
use kronop_video_engine::engine::ProcessingStep;
use kronop_video_engine::engine::VideoEngine;
use kronop_video_engine::frame_buffer::PredecodePriority;
use kronop_video_engine::frame_buffer::WorkerStep;
use kronop_video_engine::memory_safe::MemoryHealth;

fn frame(tag: u8, timestamp: u64, key: bool) -> DecodedFrame {
    DecodedFrame {
        data: vec![tag; 6],
        width: 1,
        height: 2,
        timestamp,
        is_key_frame: key,
        format: OutputFormat::RGB24,
    }
}

#[test]
fn test_engine_creation() {
    let engine = VideoEngine::new();
    assert!(engine.is_ok());
    let engine = engine.unwrap();
    assert!(!engine.is_running());
    let stats = engine.get_stats();
    assert_eq!(stats.chunks_processed, 0);
    assert_eq!(stats.frames_decoded, 0);
    assert_eq!(stats.buffer_utilization, 0);
    assert!(!stats.is_running);
}

#[test]
fn stopped_engine_takes_no_steps() {
    let mut engine = VideoEngine::new().unwrap();
    engine.add_chunk_at("c1", &[1, 2, 3], 100).unwrap();
    assert!(matches!(engine.next_step_at(101), ProcessingStep::Stop));
    assert!(engine.start());
    assert!(!engine.start());
    assert!(engine.is_running());
    engine.stop();
    assert!(matches!(engine.next_step_at(102), ProcessingStep::Stop));
}

#[test]
fn chunk_is_decoded_once_and_served_from_the_cache_afterwards() {
    let mut engine = VideoEngine::new().unwrap();
    engine.start();
    assert!(matches!(engine.next_step_at(1), ProcessingStep::Idle));

    engine.add_chunk_at("c1", &[1, 2, 3], 100).unwrap();
    assert!(engine.is_chunk_cached("c1"));
    assert_eq!(engine.get_cached_chunk_at("c1", 101).unwrap(), vec![1, 2, 3]);

    // nothing decoded is cached yet: the chunk is handed out
    match engine.next_step_at(110) {
        ProcessingStep::Decode { chunk_id, data } => {
            assert_eq!(chunk_id, "c1");
            assert_eq!(data, vec![1, 2, 3]);
        }
        _ => panic!("the chunk was pending"),
    }
    // the host decoded two frames
    let published =
        engine.complete_decode_at("c1", Some(vec![frame(7, 0, true), frame(8, 16, false)]), 120);
    assert_eq!(published, 2);
    assert!(engine.is_chunk_cached("decoded_c1"));
    assert_eq!(engine.get_stats().chunks_processed, 1);
    assert_eq!(engine.get_stats().frames_decoded, 2);
    assert_eq!(engine.get_next_frame().unwrap(), vec![7; 6]);
    assert_eq!(engine.get_current_texture().unwrap(), vec![8; 6]);
    assert!(matches!(engine.next_step_at(130), ProcessingStep::Idle));

    // the same id again is a duplicate for the cache, and a new chunk for the manager
    engine.add_chunk_at("c1", &[1, 2, 3], 140).unwrap();
    match engine.next_step_at(150) {
        ProcessingStep::Served { chunk_id } => assert_eq!(chunk_id, "c1"),
        _ => panic!("the decoded frame was cached"),
    }
    assert_eq!(engine.get_stats().chunks_processed, 2);
    assert_eq!(engine.get_stats().frames_decoded, 3);
    assert_eq!(engine.get_current_texture().unwrap(), vec![7; 6]);
}

#[test]
fn failed_decode_still_marks_the_chunk_as_processed() {
    let mut engine = VideoEngine::new().unwrap();
    engine.start();
    engine.add_chunk_at("bad", &[9], 1).unwrap();
    assert!(matches!(engine.next_step_at(2), ProcessingStep::Decode { .. }));
    assert_eq!(engine.complete_decode_at("bad", None, 3), 0);
    assert_eq!(engine.get_stats().chunks_processed, 1);
    assert_eq!(engine.get_stats().frames_decoded, 0);
    assert!(!engine.is_chunk_cached("decoded_bad"));
    assert!(matches!(engine.next_step_at(4), ProcessingStep::Idle));
    // frames that did not come out are not cached either
    engine.add_chunk_at("empty", &[9], 5).unwrap();
    assert!(matches!(engine.next_step_at(6), ProcessingStep::Decode { .. }));
    assert_eq!(engine.complete_decode_at("empty", Some(vec![]), 7), 0);
    assert!(!engine.is_chunk_cached("decoded_empty"));
}

#[test]
fn engine_lists_and_clears_its_cache() {
    let mut engine = VideoEngine::new().unwrap();
    engine.add_chunk("a", &[1]).unwrap();
    engine.add_chunk("b", &[2]).unwrap();
    assert_eq!(engine.get_cached_video_chunks("video_url"), vec!["a", "b"]);
    assert_eq!(engine.get_cache_stats().total_chunks_stored, 2);
    assert_eq!(engine.get_cached_chunk("b").unwrap(), vec![2]);
    engine.clear_cache();
    assert!(!engine.is_chunk_cached("a"));
    assert_eq!(engine.get_cache_stats().total_chunks_evicted, 2);
}

#[test]
fn critical_memory_refuses_new_work_and_counts_it() {
    let mut engine = VideoEngine::new().unwrap();
    let refused = engine.admit_chunk_at(MemoryHealth::Critical, "c", &[1], 1);
    assert_eq!(
        refused.unwrap_err().to_string(),
        "Resource unavailable: memory is critical, the chunk was not taken in"
    );
    assert!(!engine.is_chunk_cached("c"));
    let refused = engine.admit_predecode_task_at(
        MemoryHealth::Critical,
        "c".to_string(),
        vec![1],
        PredecodePriority::High,
        2,
    );
    assert!(refused.is_err());
    assert_eq!(engine.get_refused_counts(), (1, 1));
    assert!(matches!(engine.predecode_worker_step(), WorkerStep::Idle));

    assert!(engine.admit_chunk_at(MemoryHealth::Warning, "c", &[1], 3).is_ok());
    assert!(engine
        .admit_predecode_task_at(MemoryHealth::Healthy, "c".to_string(), vec![1], PredecodePriority::High, 4)
        .is_ok());
    assert!(engine.is_chunk_cached("c"));
    assert_eq!(engine.get_refused_counts(), (1, 1));
    match engine.predecode_worker_step() {
        WorkerStep::Decode(task) => assert_eq!(task.timestamp, 4),
        _ => panic!("a task was queued"),
    }
    engine.request_predecode_stop();
    assert!(matches!(engine.predecode_worker_step(), WorkerStep::Stop));
}

#[test]
fn predecoded_frames_make_the_engine_ready() {
    let mut engine = VideoEngine::new().unwrap();
    for i in 0..30u8 {
        assert!(!engine.is_ready_for_playback());
        if i < 10 {
            engine.add_predecoded_frame_at(frame(i, i as u64, false), 0).unwrap();
        } else {
            engine.complete_decode_at("x", Some(vec![frame(i, i as u64, false)]), 0);
        }
    }
    assert!(engine.is_ready_for_playback());
}

use kronop_video_engine::utils::alignment;
use kronop_video_engine::utils::bytes;
use kronop_video_engine::utils::error;
use kronop_video_engine::utils::logging;
use kronop_video_engine::utils::math;
use kronop_video_engine::utils::text;
use kronop_video_engine::utils::time;
use std::time::Duration;

#[test]
fn test_alignment() {
    assert_eq!(alignment::align_size(10, 8), 16);
    assert_eq!(alignment::align_size(16, 8), 16);
    assert_eq!(alignment::align_size(17, 8), 24);
}

#[test]
fn test_time_utilities() {
    let timestamp = time::current_timestamp_ms();
    assert!(timestamp > 0);

    let formatted = time::format_timestamp(timestamp);
    assert!(!formatted.is_empty());
}

#[test]
fn test_math_utilities() {
    assert_eq!(math::clamp(5, 0, 10), 5);
    assert_eq!(math::clamp(-5, 0, 10), 0);
    assert_eq!(math::clamp(15, 0, 10), 10);
}

#[test]
fn test_bytes_utilities() {
    assert_eq!(bytes::format_bytes(0), "0 B");
    assert_eq!(bytes::format_bytes(1024), "1.00 KB");
    assert_eq!(bytes::format_bytes(1048576), "1.00 MB");

    let data = vec![1, 2, 3, 4, 5];
    let checksum = bytes::calculate_checksum(&data);
    assert!(bytes::validate_checksum(&data, checksum));
}

#[test]
fn test_error_utilities() {
    let error = error::initialization_failed("Test error");
    assert!(matches!(error, error::VideoEngineError::InitializationFailed(_)));

    let error_str = error.to_string();
    assert!(error_str.contains("Initialization failed"));
}

#[test]
fn every_error_kind_has_its_prefix() {
    assert_eq!(error::initialization_failed("a").to_string(), "Initialization failed: a");
    assert_eq!(error::decoding_failed("b").to_string(), "Decoding failed: b");
    assert_eq!(error::buffer_overflow("c").to_string(), "Buffer overflow: c");
    assert_eq!(error::invalid_parameter("d").to_string(), "Invalid parameter: d");
    assert_eq!(error::resource_unavailable("e").to_string(), "Resource unavailable: e");
    assert_eq!(error::unknown("f").to_string(), "Unknown error: f");
    assert!(matches!(error::decoding_failed("x"), error::VideoEngineError::DecodingFailed(_)));
    assert!(matches!(error::unknown("x"), error::VideoEngineError::Unknown(_)));
}

#[test]
fn alignment_rounds_up_to_powers_of_two() {
    assert_eq!(alignment::align_size(0, 16), 0);
    assert_eq!(alignment::align_size(1, 16), 16);
    assert_eq!(alignment::align_size(4097, 4096), 8192);
    assert_eq!(alignment::align_size(5, 1), 5);
    assert!(alignment::is_aligned(64, 16));
    assert!(!alignment::is_aligned(65, 16));
    assert_eq!(alignment::next_aligned_address(65, 16), 80);
}

#[test]
fn format_bytes_rounds_to_hundredths() {
    assert_eq!(bytes::format_bytes(1), "1.00 B");
    assert_eq!(bytes::format_bytes(1023), "1023.00 B");
    assert_eq!(bytes::format_bytes(1536), "1.50 KB");
    assert_eq!(bytes::format_bytes(1030), "1.01 KB");
    // a tie goes to the even hundredth
    assert_eq!(bytes::format_bytes(1152), "1.12 KB");
    assert_eq!(bytes::format_bytes(1048575), "1024.00 KB");
    assert_eq!(bytes::format_bytes(1073741824), "1.00 GB");
    assert_eq!(bytes::format_bytes(1099511627776), "1.00 TB");
    assert_eq!(bytes::format_bytes(1125899906842624), "1024.00 TB");
}

#[test]
fn format_bytes_agrees_with_floating_point_formatting() {
    let units = ["B", "KB", "MB", "GB", "TB"];
    for bytes in [1usize, 999, 1025, 1152, 4097, 65535, 1234567, 987654321, 5000000000000] {
        let mut size = bytes as f64;
        let mut unit = 0;
        while size >= 1024.0 && unit < units.len() - 1 {
            size /= 1024.0;
            unit += 1;
        }
        assert_eq!(bytes::format_bytes(bytes), format!("{:.2} {}", size, units[unit]));
    }
}

#[test]
fn checksum_is_the_polynomial_with_base_31() {
    assert_eq!(bytes::calculate_checksum(&[]), 0);
    assert_eq!(bytes::calculate_checksum(&[7]), 7);
    assert_eq!(bytes::calculate_checksum(&[1, 2, 3, 4, 5]), 986115);
    // wraps modulo 2^32
    let long = vec![255u8; 100];
    let expected = long.iter().fold(0u32, |acc, &b| acc.wrapping_mul(31).wrapping_add(b as u32));
    assert_eq!(bytes::calculate_checksum(&long), expected);
    assert!(!bytes::validate_checksum(&[1, 2, 3], 0));
}

#[test]
fn durations_begin_with_their_largest_unit() {
    assert_eq!(time::format_timestamp(0), "0ms");
    assert_eq!(time::format_timestamp(999), "999ms");
    assert_eq!(time::format_timestamp(1000), "1s 0ms");
    assert_eq!(time::format_timestamp(61001), "1m 1s 1ms");
    assert_eq!(time::format_timestamp(3600000), "1h 0m 0s 0ms");
    assert_eq!(time::format_timestamp(3723004), "1h 2m 3s 4ms");
    assert_eq!(time::format_duration(Duration::from_millis(3723004)), "1h 2m 3s 4ms");
    assert_eq!(time::format_duration(Duration::from_micros(1500)), "1ms");
    assert_eq!(time::format_duration_parts(59, 7), "59s 7ms");
}

#[test]
fn clock_readings_move_with_the_clock() {
    let ms = time::current_timestamp_ms();
    let us = time::current_timestamp_us();
    // after the year 2020, and the two readings agree to within a minute
    assert!(ms > 1_577_836_800_000);
    assert!(us / 1000 >= ms);
    assert!(us / 1000 - ms < 60_000);
}

#[test]
fn timestamps_are_the_low_bits_of_the_time_since_the_epoch() {
    assert_eq!(time::timestamp_of(None), 0);
    assert_eq!(time::timestamp_of(Some(0)), 0);
    assert_eq!(time::timestamp_of(Some(1_700_000_000_123)), 1_700_000_000_123);
    assert_eq!(time::timestamp_of(Some(u64::MAX as u128)), u64::MAX);
    assert_eq!(time::timestamp_of(Some(u64::MAX as u128 + 8)), 7);
    assert_eq!(time::truncate_to_u64(1u128 << 64), 0);
}

#[test]
fn clamp_keeps_values_in_range_and_bounds_at_the_edges() {
    assert_eq!(math::clamp(0, 0, 10), 0);
    assert_eq!(math::clamp(10, 0, 10), 10);
    assert_eq!(math::clamp(7u64, 8, 9), 8);
    assert_eq!(math::clamp("m", "a", "k"), "k");
}

#[test]
fn frame_timestamps_are_whole_milliseconds() {
    assert_eq!(math::frame_timestamp(0, 60), 0);
    assert_eq!(math::frame_timestamp(1, 60), 16);
    assert_eq!(math::frame_timestamp(3, 60), 50);
    assert_eq!(math::frame_timestamp(60, 30), 2000);
    assert_eq!(math::frame_timestamp(0, 0), 0);
    assert_eq!(math::frame_timestamp(5, 0), u64::MAX);
    assert_eq!(math::frame_timestamp(u64::MAX, 1), u64::MAX);
    assert_eq!(math::calculate_fps_millis(&[0, 100, 200]), 10000);
    assert_eq!(math::calculate_fps_millis(&[5]), 0);
    assert_eq!(math::calculate_fps_millis(&[5, 5]), 0);
}

#[test]
fn log_lines_are_complete() {
    assert_eq!(logging::log_performance("decode", 12, None), "Performance: decode took 12ms");
    assert_eq!(
        logging::log_performance("decode", 0, Some("chunk 7")),
        "Performance: decode took 0ms (chunk 7)"
    );
    assert_eq!(logging::log_memory_usage("cache", 2048), "Memory: cache using 2048 (2.00 KB)");
}

#[test]
fn decimal_text_of_numbers() {
    assert_eq!(text::decimal_string(0), "0");
    assert_eq!(text::decimal_string(7), "7");
    assert_eq!(text::decimal_string(1234567890), "1234567890");
    assert_eq!(text::decimal_string(u128::MAX), u128::MAX.to_string());
    assert_eq!(text::digit_str(4), "4");
}

//! Arithmetic helpers.

use core::cmp::Ordering;
use vstd::prelude::*;
use vstd::std_specs::cmp::PartialOrdSpec;

verus! {

/// `value`, or the bound that it is beyond: `min` where the value is less
/// than `min`, else `max` where it is greater than `max`.
pub fn clamp<T: PartialOrd>(value: T, min: T, max: T) -> (clamped: T)
    ensures
        T::obeys_partial_cmp_spec() ==> clamped == if value.partial_cmp_spec(&min) == Some(
            Ordering::Less,
        ) {
            min
        } else if value.partial_cmp_spec(&max) == Some(Ordering::Greater) {
            max
        } else {
            value
        },
{
    if value < min {
        min
    } else if value > max {
        max
    } else {
        value
    }
}

/// The timestamp of a frame in milliseconds: the frame's number times the
/// length of a frame at the given rate, in whole milliseconds and stopping
/// at the largest `u64`. At a rate of 0 every frame but the first lies at
/// the largest `u64`.
pub open spec fn spec_frame_timestamp(frame_number: u64, fps: u32) -> u64 {
    if fps == 0 {
        if frame_number == 0 {
            0
        } else {
            u64::MAX
        }
    } else if frame_number * 1000 / (fps as int) <= u64::MAX {
        (frame_number * 1000 / (fps as int)) as u64
    } else {
        u64::MAX
    }
}

/// The timestamp of a frame in milliseconds.
pub fn frame_timestamp(frame_number: u64, fps: u32) -> (timestamp: u64)
    ensures
        timestamp == spec_frame_timestamp(frame_number, fps),
{
    if fps == 0 {
        if frame_number == 0 {
            0
        } else {
            u64::MAX
        }
    } else {
        let scaled: u128 = (frame_number as u128) * 1000 / (fps as u128);
        if scaled <= u64::MAX as u128 {
            scaled as u64
        } else {
            u64::MAX
        }
    }
}

/// The frame rate over a list of frame timestamps in milliseconds, in
/// thousandths of a frame per second: the number of intervals over the
/// span from the first timestamp to the last. 0 where there are fewer than
/// two timestamps or no span.
pub open spec fn spec_fps(timestamps: Seq<u64>) -> u64 {
    if timestamps.len() < 2 || timestamps.last() <= timestamps[0] {
        0
    } else {
        let rate = (timestamps.len() - 1) * 1000000 / (timestamps.last() - timestamps[0]);
        if rate <= u64::MAX {
            rate as u64
        } else {
            u64::MAX
        }
    }
}

/// The frame rate over a list of frame timestamps, in thousandths of a
/// frame per second.
pub fn calculate_fps_millis(timestamps: &[u64]) -> (rate: u64)
    ensures
        rate == spec_fps(timestamps@),
{
    let n = timestamps.len();
    if n < 2 || timestamps[n - 1] <= timestamps[0] {
        0
    } else {
        let span: u64 = timestamps[n - 1] - timestamps[0];
        let rate: u128 = ((n - 1) as u128) * 1000000 / (span as u128);
        if rate <= u64::MAX as u128 {
            rate as u64
        } else {
            u64::MAX
        }
    }
}

} // verus!

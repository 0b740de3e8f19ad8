//! Clock readings, and durations as text.

use crate::utils::text::decimal;
use crate::utils::text::push_decimal;
use std::time::Duration;
use std::time::SystemTime;
use std::time::UNIX_EPOCH;
use vstd::prelude::*;
use vstd::string::*;

verus! {

/// A point in time as the system clock gives it.
#[verifier::external_type_specification]
#[verifier::external_body]
pub struct ExSystemTime(SystemTime);

/// `SystemTime::now`: the system clock's reading now. Nothing is promised
/// of it: two readings may differ in either direction.
#[verifier::external_body]
fn system_now() -> (now: SystemTime) {
    SystemTime::now()
}

/// `SystemTime::duration_since` the Unix epoch: the time from the epoch to
/// `time`, or nothing where `time` lies before the epoch.
#[verifier::external_body]
fn since_epoch(time: &SystemTime) -> (elapsed: Option<Duration>) {
    match time.duration_since(UNIX_EPOCH) {
        Ok(elapsed) => Some(elapsed),
        Err(_) => None,
    }
}

/// `Duration::as_millis`: a duration in whole milliseconds.
#[verifier::external_body]
fn duration_millis(duration: &Duration) -> (millis: u128) {
    duration.as_millis()
}

/// `Duration::as_micros`: a duration in whole microseconds.
#[verifier::external_body]
fn duration_micros(duration: &Duration) -> (micros: u128) {
    duration.as_micros()
}

/// The low 64 bits of a number.
pub open spec fn low_64_bits(n: u128) -> u64 {
    (n % 0x1_0000_0000_0000_0000) as u64
}

/// The low 64 bits of a number.
pub fn truncate_to_u64(n: u128) -> (low: u64)
    ensures
        low == low_64_bits(n),
{
    (n % 0x1_0000_0000_0000_0000) as u64
}

/// Get current timestamp in milliseconds since the Unix epoch, cut to 64
/// bits; 0 where the clock stands before the epoch. The value is whatever
/// the clock shows: two readings may differ in either direction.
pub fn current_timestamp_ms() -> (now: u64) {
    let time = system_now();
    match since_epoch(&time) {
        Some(elapsed) => timestamp_of(Some(duration_millis(&elapsed))),
        None => timestamp_of(None),
    }
}

/// Get current timestamp in microseconds since the Unix epoch, cut to 64
/// bits; 0 where the clock stands before the epoch.
pub fn current_timestamp_us() -> (now: u64) {
    let time = system_now();
    match since_epoch(&time) {
        Some(elapsed) => timestamp_of(Some(duration_micros(&elapsed))),
        None => timestamp_of(None),
    }
}

/// The timestamp that a clock reading stands for: the low 64 bits of the
/// time since the epoch, 0 for a clock that stands before the epoch.
pub open spec fn spec_timestamp_of(since_epoch: Option<u128>) -> u64 {
    match since_epoch {
        Some(elapsed) => low_64_bits(elapsed),
        None => 0,
    }
}

/// The timestamp that a clock reading stands for, given the time since the
/// epoch in the unit of the timestamp, or nothing for a clock that stands
/// before the epoch.
pub fn timestamp_of(since_epoch: Option<u128>) -> (timestamp: u64)
    ensures
        timestamp == spec_timestamp_of(since_epoch),
{
    match since_epoch {
        Some(elapsed) => truncate_to_u64(elapsed),
        None => 0,
    }
}

/// `Duration::as_secs`: the whole seconds of a duration.
#[verifier::external_body]
fn duration_seconds(duration: &Duration) -> (seconds: u64) {
    duration.as_secs()
}

/// `Duration::subsec_millis`: the part of a duration beyond its whole
/// seconds, in whole milliseconds; below 1000, as the method documents.
#[verifier::external_body]
fn duration_subsec_millis(duration: &Duration) -> (millis: u32)
    ensures
        millis < 1000,
{
    duration.subsec_millis()
}

/// A duration of `seconds` seconds and `millis` milliseconds as text:
/// hours, minutes, seconds and milliseconds, beginning with the largest unit
/// that is not zero.
pub open spec fn duration_text(seconds: u64, millis: u32) -> Seq<char> {
    let hours = (seconds / 3600) as nat;
    let minutes = ((seconds % 3600) / 60) as nat;
    let secs = (seconds % 60) as nat;
    let tail = decimal(millis as nat) + "ms"@;
    if hours > 0 {
        decimal(hours) + "h "@ + decimal(minutes) + "m "@ + decimal(secs) + "s "@ + tail
    } else if minutes > 0 {
        decimal(minutes) + "m "@ + decimal(secs) + "s "@ + tail
    } else if secs > 0 {
        decimal(secs) + "s "@ + tail
    } else {
        tail
    }
}

/// A duration of `seconds` seconds and `millis` milliseconds as text.
pub fn format_duration_parts(seconds: u64, millis: u32) -> (text: String)
    ensures
        text@ == duration_text(seconds, millis),
{
    let hours = seconds / 3600;
    let minutes = (seconds % 3600) / 60;
    let secs = seconds % 60;
    let mut text = String::new();
    if hours > 0 {
        push_decimal(&mut text, hours as u128);
        text.append("h ");
    }
    if hours > 0 || minutes > 0 {
        push_decimal(&mut text, minutes as u128);
        text.append("m ");
    }
    if hours > 0 || minutes > 0 || secs > 0 {
        push_decimal(&mut text, secs as u128);
        text.append("s ");
    }
    push_decimal(&mut text, millis as u128);
    text.append("ms");
    proof {
        assert(text@ =~= duration_text(seconds, millis));
    }
    text
}

/// Format duration as human readable string. The text is `duration_text`
/// of the duration's whole seconds and of its milliseconds beyond them.
pub fn format_duration(duration: Duration) -> (text: String)
    ensures
        exists|seconds: u64, millis: u32|
            millis < 1000 && text@ == #[trigger] duration_text(seconds, millis),
{
    let seconds = duration_seconds(&duration);
    let millis = duration_subsec_millis(&duration);
    let text = format_duration_parts(seconds, millis);
    proof {
        assert(text@ == duration_text(seconds, millis));
    }
    text
}

/// Convert a timestamp in milliseconds to human readable string.
pub fn format_timestamp(timestamp: u64) -> (text: String)
    ensures
        text@ == duration_text(timestamp / 1000, (timestamp % 1000) as u32),
{
    format_duration_parts(timestamp / 1000, (timestamp % 1000) as u32)
}

} // verus!

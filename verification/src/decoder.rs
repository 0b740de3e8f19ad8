//! What a decoder hands to the engine: decoded frames and their formats.
//! Decoding itself is done outside the library.

use vstd::prelude::*;

verus! {

/// Output format for decoded frames.
#[derive(Debug, Clone, Copy, PartialEq, Eq)]
pub enum OutputFormat {
    YUV420P,
    RGB24,
    RGBA32,
}

/// Hardware acceleration options.
#[derive(Debug, Clone, Copy, PartialEq, Eq)]
pub enum HardwareAcceleration {
    Software,
    MediaCodec,
    VideoToolbox,
    CUDA,
    VAAPI,
}

/// One decoded picture.
#[derive(Debug, Clone)]
pub struct DecodedFrame {
    pub data: Vec<u8>,
    pub width: u32,
    pub height: u32,
    pub timestamp: u64,
    pub is_key_frame: bool,
    pub format: OutputFormat,
}

/// The number of bytes that a picture of `width` by `height` pixels takes in
/// the given format: a full luma plane and two quarter-size chroma planes
/// for YUV 4:2:0, three bytes a pixel for RGB, four for RGBA.
pub open spec fn spec_frame_data_size(format: OutputFormat, width: u32, height: u32) -> int {
    match format {
        OutputFormat::YUV420P => width * height + 2 * ((width * height) / 4),
        OutputFormat::RGB24 => width * height * 3,
        OutputFormat::RGBA32 => width * height * 4,
    }
}

/// The number of bytes that a picture takes in the given format.
pub fn frame_data_size(format: OutputFormat, width: u32, height: u32) -> (size: u128)
    ensures
        size == spec_frame_data_size(format, width, height),
{
    assert(width * height <= 0xFFFF_FFFF * 0xFFFF_FFFF) by (nonlinear_arith)
        requires
            0 <= width <= 0xFFFF_FFFF,
            0 <= height <= 0xFFFF_FFFF,
    ;
    let pixels: u128 = (width as u128) * (height as u128);
    match format {
        OutputFormat::YUV420P => pixels + 2 * (pixels / 4),
        OutputFormat::RGB24 => pixels * 3,
        OutputFormat::RGBA32 => pixels * 4,
    }
}

/// Whether the frame's payload has the length that its format and
/// dimensions call for.
pub fn frame_is_complete(frame: &DecodedFrame) -> (complete: bool)
    ensures
        complete == (frame.data@.len() == spec_frame_data_size(
            frame.format,
            frame.width,
            frame.height,
        )),
{
    frame.data.len() as u128 == frame_data_size(frame.format, frame.width, frame.height)
}

} // verus!

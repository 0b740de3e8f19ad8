//! What the host bridge and the engine agree on: frame format numbers,
//! their names, and the bridge's view of the frames it passes on.

use crate::decoder::DecodedFrame;
use crate::decoder::OutputFormat;
use crate::frame_buffer::PredecodePriority;
use crate::utils::error::initialization_failed;
use crate::utils::error::VideoEngineError;
use vstd::prelude::*;

verus! {

/// The number of the planar YUV 4:2:0 format.
pub const FRAME_FORMAT_YUV420P: i32 = 0;

/// The number of the RGB format with three bytes a pixel.
pub const FRAME_FORMAT_RGB24: i32 = 1;

/// The number of the RGBA format with four bytes a pixel.
pub const FRAME_FORMAT_RGBA32: i32 = 2;

/// The number that stands for a format.
pub open spec fn spec_format_constant(format: OutputFormat) -> i32 {
    match format {
        OutputFormat::YUV420P => FRAME_FORMAT_YUV420P,
        OutputFormat::RGB24 => FRAME_FORMAT_RGB24,
        OutputFormat::RGBA32 => FRAME_FORMAT_RGBA32,
    }
}

/// The format that a number stands for; RGB where it stands for none.
pub open spec fn spec_format_from_constant(constant: i32) -> OutputFormat {
    if constant == FRAME_FORMAT_YUV420P {
        OutputFormat::YUV420P
    } else if constant == FRAME_FORMAT_RGBA32 {
        OutputFormat::RGBA32
    } else {
        OutputFormat::RGB24
    }
}

/// The number that stands for a format.
pub fn frame_format_constant(format: OutputFormat) -> (constant: i32)
    ensures
        constant == spec_format_constant(format),
{
    match format {
        OutputFormat::YUV420P => FRAME_FORMAT_YUV420P,
        OutputFormat::RGB24 => FRAME_FORMAT_RGB24,
        OutputFormat::RGBA32 => FRAME_FORMAT_RGBA32,
    }
}

/// The format that a number stands for; RGB where it stands for none.
pub fn frame_format_from_constant(constant: i32) -> (format: OutputFormat)
    ensures
        format == spec_format_from_constant(constant),
{
    if constant == FRAME_FORMAT_YUV420P {
        OutputFormat::YUV420P
    } else if constant == FRAME_FORMAT_RGBA32 {
        OutputFormat::RGBA32
    } else {
        OutputFormat::RGB24
    }
}

/// A format number and the format it stands for agree in both directions.
pub proof fn lemma_format_constant_round_trip(format: OutputFormat)
    ensures
        spec_format_from_constant(spec_format_constant(format)) == format,
{
}

/// The name of a frame format by its number; "UNKNOWN" for any other
/// number.
pub fn kronop_get_frame_format_string(format: i32) -> (name: &'static str)
    ensures
        name@ == if format == FRAME_FORMAT_YUV420P {
            "YUV420P"@
        } else if format == FRAME_FORMAT_RGB24 {
            "RGB24"@
        } else if format == FRAME_FORMAT_RGBA32 {
            "RGBA32"@
        } else {
            "UNKNOWN"@
        },
{
    if format == FRAME_FORMAT_YUV420P {
        "YUV420P"
    } else if format == FRAME_FORMAT_RGB24 {
        "RGB24"
    } else if format == FRAME_FORMAT_RGBA32 {
        "RGBA32"
    } else {
        "UNKNOWN"
    }
}

/// The name of a hardware acceleration by its number; "Unknown" for any
/// other number.
pub fn kronop_get_hw_accel_string(hw_accel: i32) -> (name: &'static str)
    ensures
        name@ == if hw_accel == 0 {
            "None"@
        } else if hw_accel == 1 {
            "MediaCodec"@
        } else if hw_accel == 2 {
            "VideoToolbox"@
        } else if hw_accel == 3 {
            "CUDA"@
        } else if hw_accel == 4 {
            "VAAPI"@
        } else {
            "Unknown"@
        },
{
    if hw_accel == 0 {
        "None"
    } else if hw_accel == 1 {
        "MediaCodec"
    } else if hw_accel == 2 {
        "VideoToolbox"
    } else if hw_accel == 3 {
        "CUDA"
    } else if hw_accel == 4 {
        "VAAPI"
    } else {
        "Unknown"
    }
}

/// The priority that the host's number stands for: 0 is high, 1 is medium,
/// anything else is low.
pub fn priority_from_number(priority: i32) -> (p: PredecodePriority)
    ensures
        p == if priority == 0 {
            PredecodePriority::High
        } else if priority == 1 {
            PredecodePriority::Medium
        } else {
            PredecodePriority::Low
        },
{
    if priority == 0 {
        PredecodePriority::High
    } else if priority == 1 {
        PredecodePriority::Medium
    } else {
        PredecodePriority::Low
    }
}

/// The bridge's view of the frames that it passes to the host.
#[derive(Debug, Clone, Copy, PartialEq, Eq)]
pub struct JSIBridge {
    pub initialized: bool,
    pub frame_format: i32,
    pub frame_width: u32,
    pub frame_height: u32,
}

impl JSIBridge {
    /// A bridge that is not initialized and expects RGB frames of 1080 by
    /// 1920 pixels.
    pub fn new() -> (bridge: JSIBridge)
        ensures
            bridge == (JSIBridge {
                initialized: false,
                frame_format: FRAME_FORMAT_RGB24,
                frame_width: 1080,
                frame_height: 1920,
            }),
    {
        JSIBridge {
            initialized: false,
            frame_format: FRAME_FORMAT_RGB24,
            frame_width: 1080,
            frame_height: 1920,
        }
    }

    /// Marks the bridge as initialized.
    pub fn initialize(&mut self)
        ensures
            *final(self) == (JSIBridge { initialized: true, ..*old(self) }),
    {
        self.initialized = true;
    }

    /// Sets the format of the frames to come.
    pub fn set_frame_format(&mut self, format: i32)
        ensures
            *final(self) == (JSIBridge { frame_format: format, ..*old(self) }),
    {
        self.frame_format = format;
    }

    /// Sets the dimensions of the frames to come.
    pub fn set_frame_dimensions(&mut self, width: u32, height: u32)
        ensures
            *final(self) == (JSIBridge { frame_width: width, frame_height: height, ..*old(self) }),
    {
        self.frame_width = width;
        self.frame_height = height;
    }

    /// Whether the bridge is initialized.
    pub fn is_initialized(&self) -> (initialized: bool)
        ensures
            initialized == self.initialized,
    {
        self.initialized
    }

    /// Takes note of a frame that is about to go to the host: the bridge
    /// adopts the frame's dimensions and format. Fails, and changes nothing,
    /// where the bridge is not initialized.
    pub fn process_decoded_frame(&mut self, frame: &DecodedFrame) -> (done: Result<
        (),
        VideoEngineError,
    >)
        ensures
            done is Ok <==> old(self).initialized,
            done matches Err(e) ==> e is InitializationFailed && *final(self) == *old(self),
            done is Ok ==> *final(self) == (JSIBridge {
                initialized: true,
                frame_format: spec_format_constant(frame.format),
                frame_width: frame.width,
                frame_height: frame.height,
            }),
    {
        if !self.initialized {
            return Err(initialization_failed("JSI bridge not initialized"));
        }
        if frame.width != self.frame_width || frame.height != self.frame_height {
            self.set_frame_dimensions(frame.width, frame.height);
        }
        let constant = frame_format_constant(frame.format);
        if constant != self.frame_format {
            self.set_frame_format(constant);
        }
        Ok(())
    }
}

} // verus!

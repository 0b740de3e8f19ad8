//! The engine's error type.

use vstd::prelude::*;
use vstd::string::*;

verus! {

/// What can go wrong in the engine, each with a message for the host.
#[derive(Debug)]
pub enum VideoEngineError {
    InitializationFailed(String),
    DecodingFailed(String),
    BufferOverflow(String),
    InvalidParameter(String),
    ResourceUnavailable(String),
    Unknown(String),
}

impl VideoEngineError {
    /// The message that the error carries.
    pub open spec fn message(self) -> Seq<char> {
        match self {
            VideoEngineError::InitializationFailed(m) => m@,
            VideoEngineError::DecodingFailed(m) => m@,
            VideoEngineError::BufferOverflow(m) => m@,
            VideoEngineError::InvalidParameter(m) => m@,
            VideoEngineError::ResourceUnavailable(m) => m@,
            VideoEngineError::Unknown(m) => m@,
        }
    }

    /// The words that introduce the message when the error is shown.
    pub open spec fn prefix(self) -> Seq<char> {
        match self {
            VideoEngineError::InitializationFailed(_) => "Initialization failed: "@,
            VideoEngineError::DecodingFailed(_) => "Decoding failed: "@,
            VideoEngineError::BufferOverflow(_) => "Buffer overflow: "@,
            VideoEngineError::InvalidParameter(_) => "Invalid parameter: "@,
            VideoEngineError::ResourceUnavailable(_) => "Resource unavailable: "@,
            VideoEngineError::Unknown(_) => "Unknown error: "@,
        }
    }

    /// The error as text: the kind's prefix, then the message.
    pub fn to_string(&self) -> (text: String)
        ensures
            text@ == self.prefix() + self.message(),
    {
        match self {
            VideoEngineError::InitializationFailed(m) => String::from_str(
                "Initialization failed: ",
            ).concat(m.as_str()),
            VideoEngineError::DecodingFailed(m) => String::from_str("Decoding failed: ").concat(
                m.as_str(),
            ),
            VideoEngineError::BufferOverflow(m) => String::from_str("Buffer overflow: ").concat(
                m.as_str(),
            ),
            VideoEngineError::InvalidParameter(m) => String::from_str(
                "Invalid parameter: ",
            ).concat(m.as_str()),
            VideoEngineError::ResourceUnavailable(m) => String::from_str(
                "Resource unavailable: ",
            ).concat(m.as_str()),
            VideoEngineError::Unknown(m) => String::from_str("Unknown error: ").concat(m.as_str()),
        }
    }
}

/// An error of kind `InitializationFailed` with the given message.
pub fn initialization_failed(msg: &str) -> (e: VideoEngineError)
    ensures
        e is InitializationFailed,
        e.message() == msg@,
{
    VideoEngineError::InitializationFailed(String::from_str(msg))
}

/// An error of kind `DecodingFailed` with the given message.
pub fn decoding_failed(msg: &str) -> (e: VideoEngineError)
    ensures
        e is DecodingFailed,
        e.message() == msg@,
{
    VideoEngineError::DecodingFailed(String::from_str(msg))
}

/// An error of kind `BufferOverflow` with the given message.
pub fn buffer_overflow(msg: &str) -> (e: VideoEngineError)
    ensures
        e is BufferOverflow,
        e.message() == msg@,
{
    VideoEngineError::BufferOverflow(String::from_str(msg))
}

/// An error of kind `InvalidParameter` with the given message.
pub fn invalid_parameter(msg: &str) -> (e: VideoEngineError)
    ensures
        e is InvalidParameter,
        e.message() == msg@,
{
    VideoEngineError::InvalidParameter(String::from_str(msg))
}

/// An error of kind `ResourceUnavailable` with the given message.
pub fn resource_unavailable(msg: &str) -> (e: VideoEngineError)
    ensures
        e is ResourceUnavailable,
        e.message() == msg@,
{
    VideoEngineError::ResourceUnavailable(String::from_str(msg))
}

/// An error of kind `Unknown` with the given message.
pub fn unknown(msg: &str) -> (e: VideoEngineError)
    ensures
        e is Unknown,
        e.message() == msg@,
{
    VideoEngineError::Unknown(String::from_str(msg))
}

} // verus!

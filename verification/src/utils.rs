//! Small utilities shared by the engine's components.

pub mod alignment;
pub mod bytes;
pub mod error;
pub mod logging;
pub mod math;
pub mod text;
pub mod time;

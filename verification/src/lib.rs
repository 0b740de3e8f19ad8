//! Client-side engine for smooth playback of chunked, streamed video under
//! strict memory bounds.

pub mod cache_manager;
pub mod chunk_manager;
pub mod compression;
pub mod decoder;
pub mod digest;
pub mod engine;
pub mod eviction;
pub mod frame_buffer;
pub mod jsi_bridge;
pub mod memory_safe;
pub mod persistent_cache;
pub mod utils;

//! Platform-neutral audio types: device descriptions, PCM frames, ring buffers.

pub mod backend;
pub mod frame;
pub mod ring;

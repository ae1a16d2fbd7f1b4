//! Verified core of a real-time bidirectional voice translation pipeline:
//! audio frames and ring buffers, voice activity detection, device
//! bookkeeping, loop diagnostics, routing, link control and the wire codec.

pub mod audio;
pub mod text;
pub mod dsp;
pub mod diagnostics;
pub mod engine;
pub mod gemini;
pub mod devices;
pub mod cli;

//! Signal processing on PCM frames: voice activity detection.

pub mod vad;

//! Gemini Live session support: protocol messages, the PCM codec and the
//! lossy frame queues in front of the session channels.

pub mod codec;
pub mod protocol;
pub mod session;

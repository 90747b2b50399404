//! Streaming speech-recognition session core: the verified state machine
//! behind one live full-duplex connection that carries outbound PCM audio
//! frames and inbound transcript events.

pub mod codec;
pub mod session;

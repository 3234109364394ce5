//! The WebRTC transport: media over RTP, input over data channels.

pub mod annexb;
pub mod av1;
pub mod channels;
pub mod h264;
pub mod peer;
pub mod track;
pub mod video;

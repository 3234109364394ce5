//! One stream: from the first message on the control socket to the end of the
//! streamer process.

pub mod control;
pub mod forwarder;
pub mod opening;

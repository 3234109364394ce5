//! The WebTransport side of the server: who may connect, how frames travel on
//! the lanes of a connection, and what happens when a lane is congested.

pub mod connection;
pub mod datagram;
pub mod endpoint;
pub mod framing;
pub mod hub;
pub mod origin;
pub mod reliable;
pub mod tokens;
pub mod video;
pub mod video_writer;

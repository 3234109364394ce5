//! Verified core of a browser front end for Moonlight game streaming.

pub mod adaptive_bitrate;
pub mod api;
pub mod channel;
pub mod errors;
pub mod frame;
pub mod input;
pub mod input_history;
pub mod ipc;
pub mod lifecycle;
pub mod messages;
pub mod native_input;
pub mod native_start;
pub mod outside;
pub mod permissions;
pub mod seqs;
pub mod storage;
pub mod stream_start;
pub mod streamer;
pub mod text;
pub mod time;
pub mod video_format;
pub mod video_stats;
pub mod web_rtc;
pub mod web_socket;
pub mod web_transport;
pub mod wire;

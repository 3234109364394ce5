//! The messages between browser, server and streamer.

use crate::ipc::NetworkFeedback;
use crate::permissions::{StreamPermissions, StreamSettings};
use vstd::prelude::*;

verus! {

/// How media and input travel between browser and streamer.
#[derive(Clone, Copy, Debug, PartialEq, Eq, Structural)]
pub enum TransportType {
    WebRTC,
    WebSocket,
    WebTransport,
}

/// How the browser shows a log line.
#[derive(Clone, Copy, Debug, PartialEq, Eq, Structural)]
pub enum LogMessageType {
    Fatal,
    FatalDescription,
}

#[derive(Clone, Copy, Debug, PartialEq, Eq, Structural)]
pub enum RtcSdpType {
    Offer,
    Answer,
    Pranswer,
    Rollback,
    Unspecified,
}

#[derive(Clone, Debug, PartialEq, Eq)]
pub struct RtcSessionDescription {
    pub ty: RtcSdpType,
    pub sdp: String,
}

#[derive(Clone, Debug, PartialEq, Eq)]
pub struct RtcIceCandidate {
    pub candidate: String,
    pub sdp_mid: Option<String>,
    pub sdp_mline_index: Option<u16>,
    pub username_fragment: Option<String>,
}

#[derive(Clone, Debug, PartialEq, Eq)]
pub enum StreamSignalingMessage {
    Description(RtcSessionDescription),
    AddIceCandidate(RtcIceCandidate),
}

/// From the browser.
#[derive(Clone, Debug, PartialEq, Eq)]
pub enum StreamClientMessage {
    Init {
        host_id: u32,
        app_id: u32,
        video_frame_queue_size: usize,
        audio_sample_queue_size: usize,
    },
    SetTransport(TransportType),
    StartStream { settings: StreamSettings },
    WebRtc(StreamSignalingMessage),
}

#[derive(Clone, Debug, PartialEq, Eq)]
pub struct RtcIceServer {
    pub urls: Vec<String>,
    pub username: String,
    pub credential: String,
}

/// An app on a host, as the browser lists it.
#[derive(Clone, Debug, PartialEq, Eq)]
pub struct AppInfo {
    pub app_id: u32,
    pub title: String,
    pub is_hdr_supported: bool,
}

/// What the host can do beyond the basics.
#[derive(Clone, Copy, Debug, PartialEq, Eq, Structural)]
pub struct StreamCapabilities {
    pub touch: bool,
}

/// What a stream that runs looks and sounds like.
#[derive(Clone, Copy, Debug, PartialEq, Eq)]
pub struct CompletedStream {
    pub capabilities: StreamCapabilities,
    pub format: u32,
    pub width: u32,
    pub height: u32,
    pub fps: u32,
    pub audio_sample_rate: u32,
    pub audio_channel_count: u32,
    pub audio_streams: u32,
    pub audio_coupled_streams: u32,
    pub audio_samples_per_frame: u32,
    pub audio_mapping: [u8; 8],
}

/// To the browser.
#[derive(Clone, Debug, PartialEq, Eq)]
pub enum StreamServerMessage {
    DebugLog { message: String, ty: Option<LogMessageType> },
    Setup { ice_servers: Vec<RtcIceServer> },
    WebTransportSetup { url: String },
    UpdateApp { app: AppInfo },
    WebRtc(StreamSignalingMessage),
    ConnectionComplete(CompletedStream),
    ConnectionTerminated { error_code: i32 },
}

#[derive(Clone, Copy, Debug, PartialEq, Eq, Structural)]
pub struct PortRange {
    pub min: u16,
    pub max: u16,
}

#[derive(Clone, Copy, Debug, PartialEq, Eq, Structural)]
pub enum NatIceCandidateType {
    Srflx,
    Host,
}

#[derive(Clone, Debug, PartialEq, Eq)]
pub struct NatMapping {
    pub ips: Vec<String>,
    pub ice_candidate_type: NatIceCandidateType,
}

#[derive(Clone, Copy, Debug, PartialEq, Eq, Structural)]
pub enum NetworkType {
    Udp4,
    Udp6,
    Tcp4,
    Tcp6,
}

#[derive(Clone, Debug, PartialEq, Eq)]
pub struct WebRtcConfig {
    pub ice_servers: Vec<RtcIceServer>,
    pub port_range: Option<PortRange>,
    pub nat_1to1: Option<NatMapping>,
    pub network_types: Vec<NetworkType>,
    pub include_loopback_candidates: bool,
}

/// How much is logged.
#[derive(Clone, Copy, Debug, PartialEq, Eq, Structural)]
pub enum LogLevel {
    Off,
    Error,
    Warn,
    Info,
    Debug,
    Trace,
}

/// What the streamer needs of the server's configuration.
#[derive(Clone, Debug, PartialEq, Eq)]
pub struct StreamerConfig {
    pub webrtc: WebRtcConfig,
    pub log_level: LogLevel,
}

/// The keys of a pairing.
#[derive(Debug)]
pub struct PairKeys {
    pub client_private_key: pem::Pem,
    pub client_certificate: pem::Pem,
    pub server_certificate: pem::Pem,
}

/// What the streamer is started with.
#[derive(Debug)]
pub struct StreamerInit {
    pub config: StreamerConfig,
    pub host_address: String,
    pub host_http_port: u16,
    pub client_unique_id: Option<String>,
    pub keys: PairKeys,
    pub app_id: u32,
    pub video_frame_queue_size: usize,
    pub audio_sample_queue_size: usize,
    pub permissions: StreamPermissions,
}

/// From the server to the streamer.
#[derive(Debug)]
pub enum ServerIpcMessage {
    Init(StreamerInit),
    WebSocket(StreamClientMessage),
    WebSocketTransport(Vec<u8>),
    NetworkFeedback(NetworkFeedback),
    Stop,
}

/// From the streamer to the server.
#[derive(Clone, Debug, PartialEq, Eq)]
pub enum StreamerIpcMessage {
    WebSocket(StreamServerMessage),
    WebSocketTransport(Vec<u8>),
    Stop,
}

/// A log line for the browser.
pub fn log_line(message: &str, ty: Option<LogMessageType>) -> (line: StreamServerMessage)
    ensures
        line matches StreamServerMessage::DebugLog { message: text, ty: kind } && text@ == message@
            && kind == ty,
{
    StreamServerMessage::DebugLog { message: message.to_owned(), ty }
}

} // verus!

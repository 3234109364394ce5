//! The streamer process between server and host.

use crate::lifecycle::{
    next_generation, NativeStartExpectation, StreamLifecycle,
};
use crate::messages::{
    log_line, CompletedStream, LogMessageType, ServerIpcMessage, StreamCapabilities,
    StreamClientMessage, StreamServerMessage, StreamerInit, TransportType,
};
use crate::permissions::{
    apply_permissions_to_settings, permitted, StreamPermissions, StreamSettings,
};
use crate::text::{decimal, decimal_digits, eq_ignore_ascii_case, lowered};
use crate::video_format::{VideoFormat, MASK_ALL};
use vstd::prelude::*;

verus! {

/// The size of the packets from the host.
pub const NATIVE_PACKET_SIZE: u32 = 1024;

pub const TRANSPORT_CLOSE_TIMEOUT_MILLIS: u64 = 2_000;

pub const NATIVE_STOP_TIMEOUT_MILLIS: u64 = 5_000;

pub const IPC_STOP_ENQUEUE_TIMEOUT_MILLIS: u64 = 500;

/// What the first messages of the server mean.
#[derive(Debug)]
pub enum StartupStep {
    /// Wait for the next message.
    Wait,
    Begin(StreamerInit),
    /// Leave without a word.
    Exit,
}

/// Waits for the order to begin.
pub fn startup_step(message: Option<ServerIpcMessage>) -> (step: StartupStep)
    ensures
        match message {
            Some(ServerIpcMessage::Init(init)) => step == StartupStep::Begin(init),
            Some(ServerIpcMessage::Stop) | None => step is Exit,
            Some(_) => step is Wait,
        },
{
    match message {
        Some(ServerIpcMessage::Init(init)) => StartupStep::Begin(init),
        Some(ServerIpcMessage::Stop) | None => StartupStep::Exit,
        Some(ServerIpcMessage::WebSocket(_))
        | Some(ServerIpcMessage::WebSocketTransport(_))
        | Some(ServerIpcMessage::NetworkFeedback(_)) => StartupStep::Wait,
    }
}

/// The address to connect to. The name of this machine stands for its IPv4
/// address, because the host often listens on that alone.
pub fn normalize_loopback_host(host_address: String) -> (address: String)
    ensures
        address@ == (if lowered(host_address@) == lowered("localhost"@) {
            "127.0.0.1"@
        } else {
            host_address@
        }),
{
    if eq_ignore_ascii_case(host_address.as_str(), "localhost") {
        "127.0.0.1".to_owned()
    } else {
        host_address
    }
}

/// The address of a host, as far as it is one.
#[derive(Clone, Copy, Debug, PartialEq, Eq)]
pub enum HostAddress {
    V4([u8; 4]),
    V6([u16; 8]),
    Name,
}

/// Loopback, private or link-local, in IPv4.
pub open spec fn local_v4(octets: Seq<u8>) -> bool {
    ||| octets[0] == 127
    ||| octets[0] == 10
    ||| octets[0] == 172 && 16 <= octets[1] <= 31
    ||| octets[0] == 192 && octets[1] == 168
    ||| octets[0] == 169 && octets[1] == 254
}

/// Loopback or unique local, in IPv6.
pub open spec fn local_v6(segments: Seq<u16>) -> bool {
    ||| segments == seq![0u16, 0u16, 0u16, 0u16, 0u16, 0u16, 0u16, 1u16]
    ||| 0xfc00 <= segments[0] <= 0xfdff
}

/// Whether the host is this machine or in the local network.
pub fn host_is_local(address: HostAddress) -> (local: bool)
    ensures
        local == (match address {
            HostAddress::V4(octets) => local_v4(octets@),
            HostAddress::V6(segments) => local_v6(segments@),
            HostAddress::Name => false,
        }),
{
    match address {
        HostAddress::V4(octets) => octets[0] == 127 || octets[0] == 10 || (octets[0] == 172
            && octets[1] >= 16 && octets[1] <= 31) || (octets[0] == 192 && octets[1] == 168) || (
        octets[0] == 169 && octets[1] == 254),
        HostAddress::V6(segments) => {
            let loopback: bool = segments[0] == 0 && segments[1] == 0 && segments[2] == 0
                && segments[3] == 0 && segments[4] == 0 && segments[5] == 0 && segments[6] == 0
                && segments[7] == 1;
            assert(loopback == (segments@ =~= seq![
                0u16,
                0u16,
                0u16,
                0u16,
                0u16,
                0u16,
                0u16,
                1u16,
            ])) by {
                let one = seq![0u16, 0u16, 0u16, 0u16, 0u16, 0u16, 0u16, 1u16];
                if segments@ == one {
                    assert(one[0] == 0 && one[1] == 0 && one[2] == 0 && one[3] == 0);
                    assert(one[4] == 0 && one[5] == 0 && one[6] == 0 && one[7] == 1);
                }
            }
            loopback || (0xfc00 <= segments[0] && segments[0] <= 0xfdff)
        },
        HostAddress::Name => false,
    }
}

/// What an event of the transport leads to.
#[derive(Clone, Copy, Debug, PartialEq, Eq, Structural)]
pub enum TransportReaction {
    /// The event comes from a transport that was replaced: listen no more.
    Stale,
    /// Pass the message on to the server.
    PassOn,
    /// Start a stream with this expectation, next to listening.
    Start(NativeStartExpectation),
    /// Handle the packet. An order to stop must not hold other packets up.
    Dispatch { release_first: bool },
    /// The browser may come back: listen no more, and end after a while.
    RequestTerminate,
    /// Listen no more, and end.
    Stop,
}

/// An event of the transport.
#[derive(Clone, Copy, Debug, PartialEq, Eq, Structural)]
pub enum TransportEventKind {
    SendIpc,
    StartStream,
    RecvPacket { orders_stop: bool },
    /// The transport reports its end.
    Closed,
    /// The transport is gone.
    Gone,
    /// The transport failed.
    Failed,
}

/// The lifecycle and the reaction after an event of the transport `generation`.
pub open spec fn transport_reaction(
    lifecycle: StreamLifecycle,
    generation: u64,
    closed_event_is_final: bool,
    event: TransportEventKind,
) -> (StreamLifecycle, TransportReaction) {
    if lifecycle.transport_generation != generation {
        (lifecycle, TransportReaction::Stale)
    } else {
        match event {
            TransportEventKind::SendIpc => (lifecycle, TransportReaction::PassOn),
            TransportEventKind::StartStream => {
                let request = next_generation(lifecycle.start_request_generation);
                (
                    StreamLifecycle { start_request_generation: request, ..lifecycle },
                    TransportReaction::Start(
                        NativeStartExpectation {
                            request_generation: request,
                            transport_generation: generation,
                            require_adaptive_transport: false,
                        },
                    ),
                )
            },
            TransportEventKind::RecvPacket { orders_stop } => (
                lifecycle,
                TransportReaction::Dispatch { release_first: orders_stop },
            ),
            TransportEventKind::Closed => (
                lifecycle,
                if closed_event_is_final {
                    TransportReaction::Stop
                } else {
                    TransportReaction::RequestTerminate
                },
            ),
            TransportEventKind::Gone => (lifecycle, TransportReaction::RequestTerminate),
            TransportEventKind::Failed => (lifecycle, TransportReaction::Stop),
        }
    }
}

pub fn on_transport_event(
    lifecycle: &mut StreamLifecycle,
    generation: u64,
    closed_event_is_final: bool,
    event: TransportEventKind,
) -> (reaction: TransportReaction)
    ensures
        (*final(lifecycle), reaction) == transport_reaction(
            *old(lifecycle),
            generation,
            closed_event_is_final,
            event,
        ),
{
    if lifecycle.transport_generation != generation {
        return TransportReaction::Stale;
    }
    match event {
        TransportEventKind::SendIpc => TransportReaction::PassOn,
        TransportEventKind::StartStream => TransportReaction::Start(
            lifecycle.request_start(generation),
        ),
        TransportEventKind::RecvPacket { orders_stop } => TransportReaction::Dispatch {
            release_first: orders_stop,
        },
        TransportEventKind::Closed => if closed_event_is_final {
            TransportReaction::Stop
        } else {
            TransportReaction::RequestTerminate
        },
        TransportEventKind::Gone => TransportReaction::RequestTerminate,
        TransportEventKind::Failed => TransportReaction::Stop,
    }
}

/// What a message of the server leads to, before the transport sees it.
#[derive(Debug)]
pub enum IpcReaction {
    /// Take the report on the network; the transport does not see it.
    Feedback(crate::ipc::NetworkFeedback),
    /// Put a new WebRTC transport in place, then pass the message on to it.
    UseWebRtc(ServerIpcMessage),
    /// Put a new transport through the server in place, then pass the message on.
    UseRelay(ServerIpcMessage),
    /// Pass the message on to the transport.
    PassOn(ServerIpcMessage),
    /// End, then pass the message on.
    Stop(ServerIpcMessage),
}

/// Whether a role may use a transport.
pub open spec fn transport_allowed(
    permissions: StreamPermissions,
    transport: TransportType,
) -> bool {
    match transport {
        TransportType::WebRTC => permissions.allow_transport_webrtc,
        TransportType::WebSocket | TransportType::WebTransport =>
            permissions.allow_transport_websockets,
    }
}

/// Handles a message of the server. The settings of a stream are brought within
/// the permissions. A choice of transport counts as a sign of life.
pub fn on_ipc_message(
    lifecycle: &mut StreamLifecycle,
    permissions: &StreamPermissions,
    message: ServerIpcMessage,
) -> (reaction: IpcReaction)
    ensures
        *final(lifecycle) == (if message matches ServerIpcMessage::WebSocket(inner)
            && inner is SetTransport {
            StreamLifecycle { terminate_requested_at: None, ..*old(lifecycle) }
        } else {
            *old(lifecycle)
        }),
        match message {
            ServerIpcMessage::NetworkFeedback(feedback) => reaction == IpcReaction::Feedback(
                feedback,
            ),
            ServerIpcMessage::WebSocket(StreamClientMessage::StartStream { settings }) => reaction
                == IpcReaction::PassOn(
                ServerIpcMessage::WebSocket(
                    StreamClientMessage::StartStream {
                        settings: permitted(*permissions, settings),
                    },
                ),
            ),
            ServerIpcMessage::WebSocket(StreamClientMessage::SetTransport(transport)) =>
                if !transport_allowed(*permissions, transport) {
                    reaction == IpcReaction::PassOn(message)
                } else if transport is WebRTC {
                    reaction == IpcReaction::UseWebRtc(message)
                } else {
                    reaction == IpcReaction::UseRelay(message)
                },
            ServerIpcMessage::Stop => reaction == IpcReaction::Stop(message),
            _ => reaction == IpcReaction::PassOn(message),
        },
{
    match message {
        ServerIpcMessage::NetworkFeedback(feedback) => IpcReaction::Feedback(feedback),
        ServerIpcMessage::WebSocket(StreamClientMessage::StartStream { settings }) => {
            let mut settings: StreamSettings = settings;
            apply_permissions_to_settings(permissions, &mut settings);
            IpcReaction::PassOn(
                ServerIpcMessage::WebSocket(StreamClientMessage::StartStream { settings }),
            )
        },
        ServerIpcMessage::WebSocket(StreamClientMessage::SetTransport(transport)) => {
            lifecycle.clear_terminate_request();
            let passed: ServerIpcMessage = ServerIpcMessage::WebSocket(
                StreamClientMessage::SetTransport(transport),
            );
            match transport {
                TransportType::WebRTC => if permissions.allow_transport_webrtc {
                    IpcReaction::UseWebRtc(passed)
                } else {
                    IpcReaction::PassOn(passed)
                },
                TransportType::WebSocket | TransportType::WebTransport => if permissions.allow_transport_websockets {
                    IpcReaction::UseRelay(passed)
                } else {
                    IpcReaction::PassOn(passed)
                },
            }
        },
        ServerIpcMessage::Stop => IpcReaction::Stop(ServerIpcMessage::Stop),
        other => IpcReaction::PassOn(other),
    }
}

/// How the host is to stream.
#[derive(Clone, Copy, Debug, PartialEq, Eq, Structural)]
pub struct NativeSettings {
    pub width: u32,
    pub height: u32,
    pub fps: u32,
    pub fps_x100: u32,
    pub hdr: bool,
    pub bitrate: u32,
    pub packet_size: u32,
    pub encrypt_video: bool,
    pub encrypt_audio: bool,
    /// In the local network, and not whatever the host makes of it.
    pub streaming_locally: bool,
    pub sops: bool,
    pub supported_video_formats: u32,
    pub local_audio_play_mode: bool,
    /// One bit for each controller.
    pub gamepads_attached: u16,
    pub gamepads_persist_after_disconnect: bool,
    pub enable_mic: bool,
}

/// What the host is asked for, to fulfil the settings of the browser.
pub fn native_settings(
    settings: StreamSettings,
    gamepads_attached: u16,
    host_is_local: bool,
) -> (native: NativeSettings)
    requires
        settings.fps * 100 <= u32::MAX,
    ensures
        native == (NativeSettings {
            width: settings.width,
            height: settings.height,
            fps: settings.fps,
            fps_x100: (settings.fps * 100) as u32,
            hdr: settings.hdr,
            bitrate: settings.bitrate_kbps,
            packet_size: NATIVE_PACKET_SIZE,
            encrypt_video: settings.encrypt_host_video,
            encrypt_audio: settings.encrypt_host_audio,
            streaming_locally: host_is_local,
            sops: true,
            supported_video_formats: settings.supported_codecs & MASK_ALL,
            local_audio_play_mode: settings.play_audio_local,
            gamepads_attached,
            gamepads_persist_after_disconnect: false,
            enable_mic: false,
        }),
{
    NativeSettings {
        width: settings.width,
        height: settings.height,
        fps: settings.fps,
        fps_x100: settings.fps * 100,
        hdr: settings.hdr,
        bitrate: settings.bitrate_kbps,
        packet_size: NATIVE_PACKET_SIZE,
        encrypt_video: settings.encrypt_host_video,
        encrypt_audio: settings.encrypt_host_audio,
        streaming_locally: host_is_local,
        sops: true,
        supported_video_formats: settings.supported_codecs & MASK_ALL,
        local_audio_play_mode: settings.play_audio_local,
        gamepads_attached,
        gamepads_persist_after_disconnect: false,
        enable_mic: false,
    }
}

/// The video that the host sends.
#[derive(Clone, Copy, Debug, PartialEq, Eq, Structural)]
pub struct VideoSetup {
    pub format: VideoFormat,
    pub width: u32,
    pub height: u32,
    pub redraw_rate: u32,
}

/// The audio that the host sends.
#[derive(Clone, Copy, Debug, PartialEq, Eq)]
pub struct AudioSetup {
    pub sample_rate: u32,
    pub channel_count: u32,
    pub streams: u32,
    pub coupled_streams: u32,
    pub samples_per_frame: u32,
    pub mapping: [u8; 8],
}

/// What the browser is told of a stream that runs. Where the host did not say
/// what it sends, the settings are a guess for video and `stereo` for audio;
/// a host that does not say what it can do can do nothing.
pub fn completed_stream(
    settings: StreamSettings,
    controller_touch: Option<bool>,
    video: Option<VideoSetup>,
    audio: Option<AudioSetup>,
    stereo: AudioSetup,
) -> (completed: CompletedStream)
    ensures
        completed == ({
            let video = match video {
                Some(video) => video,
                None => VideoSetup {
                    format: VideoFormat::H264,
                    width: settings.width,
                    height: settings.height,
                    redraw_rate: settings.fps,
                },
            };
            let audio = match audio {
                Some(audio) => audio,
                None => stereo,
            };
            CompletedStream {
                capabilities: StreamCapabilities { touch: controller_touch == Some(true) },
                format: video.format.spec_bit(),
                width: video.width,
                height: video.height,
                fps: video.redraw_rate,
                audio_sample_rate: audio.sample_rate,
                audio_channel_count: audio.channel_count,
                audio_streams: audio.streams,
                audio_coupled_streams: audio.coupled_streams,
                audio_samples_per_frame: audio.samples_per_frame,
                audio_mapping: audio.mapping,
            }
        }),
{
    let video: VideoSetup = match video {
        Some(video) => video,
        None => VideoSetup {
            format: VideoFormat::H264,
            width: settings.width,
            height: settings.height,
            redraw_rate: settings.fps,
        },
    };
    let audio: AudioSetup = match audio {
        Some(audio) => audio,
        None => stereo,
    };
    let touch: bool = match controller_touch {
        Some(touch) => touch,
        None => false,
    };
    CompletedStream {
        capabilities: StreamCapabilities { touch },
        format: video.format.bit(),
        width: video.width,
        height: video.height,
        fps: video.redraw_rate,
        audio_sample_rate: audio.sample_rate,
        audio_channel_count: audio.channel_count,
        audio_streams: audio.streams,
        audio_coupled_streams: audio.coupled_streams,
        audio_samples_per_frame: audio.samples_per_frame,
        audio_mapping: audio.mapping,
    }
}

/// A step in the start of the native stream.
#[derive(Clone, Copy, Debug, PartialEq, Eq, Structural)]
pub enum StageEvent {
    Starting,
    Complete,
    Failed { error_code: i32 },
}

/// A number in decimal notation, with a sign if it is negative.
pub open spec fn signed_digits(n: int) -> Seq<char> {
    if n < 0 {
        "-"@ + decimal_digits((-n) as nat)
    } else {
        decimal_digits(n as nat)
    }
}

pub open spec fn stage_text(stage: Seq<char>, event: StageEvent) -> Seq<char> {
    match event {
        StageEvent::Starting => "Starting Stage: "@ + stage,
        StageEvent::Complete => "Completed Stage: "@ + stage,
        StageEvent::Failed { error_code } => "Failed Stage: "@ + stage + " with error code "@
            + signed_digits(error_code as int),
    }
}

/// What the browser is told of a step. The failure of a stream that the browser
/// waits for is fatal.
pub fn stage_message(
    stage: &str,
    event: StageEvent,
    report_fatal_errors: bool,
) -> (message: StreamServerMessage)
    ensures
        message matches StreamServerMessage::DebugLog { message: text, ty } && text@ == stage_text(
            stage@,
            event,
        ) && ty == (if event is Failed && report_fatal_errors {
            Some(LogMessageType::Fatal)
        } else {
            None
        }),
{
    let mut text: String = match event {
        StageEvent::Starting => "Starting Stage: ".to_owned(),
        StageEvent::Complete => "Completed Stage: ".to_owned(),
        StageEvent::Failed { .. } => "Failed Stage: ".to_owned(),
    };
    text.append(stage);
    let mut ty: Option<LogMessageType> = None;
    if let StageEvent::Failed { error_code } = event {
        text.append(" with error code ");
        if error_code < 0 {
            text.append("-");
            let size: u64 = (-(error_code as i64)) as u64;
            text.append(decimal(size).as_str());
        } else {
            text.append(decimal(error_code as u64).as_str());
        }
        if report_fatal_errors {
            ty = Some(LogMessageType::Fatal);
        }
    }
    assert(text@ =~= stage_text(stage@, event));
    log_line(text.as_str(), ty)
}

/// A callback of the native library counts only for the stream that it belongs
/// to, and that is still wanted.
pub fn stage_is_current(
    lifecycle: &StreamLifecycle,
    generation: u64,
    expectation: NativeStartExpectation,
) -> (current: bool)
    ensures
        current == (lifecycle.in_force(generation) && lifecycle.wants(expectation)),
{
    lifecycle.is_current_native_generation(generation) && lifecycle.is_current(expectation)
}

/// What the native stream tells of a running stream.
#[derive(Clone, Copy, Debug, PartialEq, Eq, Structural)]
pub enum NativeCallback {
    HdrMode { enabled: bool },
    ControllerRumble { controller_number: u16, low_frequency_motor: u16, high_frequency_motor: u16 },
    ControllerRumbleTriggers {
        controller_number: u16,
        left_trigger_motor: u16,
        right_trigger_motor: u16,
    },
    ConnectionStatus { poor: bool },
}

/// What the browser hears of it.
#[derive(Clone, Copy, Debug, PartialEq, Eq, Structural)]
pub enum CallbackPacket {
    HdrModeUpdate { enabled: bool },
    ControllerRumble { controller_number: u8, low_frequency_motor: u16, high_frequency_motor: u16 },
    ControllerTriggerRumble {
        controller_number: u8,
        left_trigger_motor: u16,
        right_trigger_motor: u16,
    },
    ConnectionStatusUpdate { poor: bool },
}

pub open spec fn packet_of(callback: NativeCallback) -> CallbackPacket {
    match callback {
        NativeCallback::HdrMode { enabled } => CallbackPacket::HdrModeUpdate { enabled },
        NativeCallback::ControllerRumble {
            controller_number,
            low_frequency_motor,
            high_frequency_motor,
        } => CallbackPacket::ControllerRumble {
            controller_number: (controller_number % 256) as u8,
            low_frequency_motor,
            high_frequency_motor,
        },
        NativeCallback::ControllerRumbleTriggers {
            controller_number,
            left_trigger_motor,
            right_trigger_motor,
        } => CallbackPacket::ControllerTriggerRumble {
            controller_number: (controller_number % 256) as u8,
            left_trigger_motor,
            right_trigger_motor,
        },
        NativeCallback::ConnectionStatus { poor } => CallbackPacket::ConnectionStatusUpdate {
            poor,
        },
    }
}

/// The packet for a callback of native stream `generation`, which was started
/// for `expectation`. The callbacks of another stream are dropped.
pub fn native_callback_packet(
    lifecycle: &StreamLifecycle,
    generation: u64,
    expectation: NativeStartExpectation,
    callback: NativeCallback,
) -> (packet: Option<CallbackPacket>)
    ensures
        packet == (if lifecycle.in_force(generation) && lifecycle.hears(generation, expectation) {
            Some(packet_of(callback))
        } else {
            None
        }),
{
    if !lifecycle.is_current_native_generation(generation)
        || !lifecycle.native_callback_context_current(generation, expectation) {
        return None;
    }
    Some(
        match callback {
            NativeCallback::HdrMode { enabled } => CallbackPacket::HdrModeUpdate { enabled },
            NativeCallback::ControllerRumble {
                controller_number,
                low_frequency_motor,
                high_frequency_motor,
            } => CallbackPacket::ControllerRumble {
                controller_number: (controller_number % 256) as u8,
                low_frequency_motor,
                high_frequency_motor,
            },
            NativeCallback::ControllerRumbleTriggers {
                controller_number,
                left_trigger_motor,
                right_trigger_motor,
            } => CallbackPacket::ControllerTriggerRumble {
                controller_number: (controller_number % 256) as u8,
                left_trigger_motor,
                right_trigger_motor,
            },
            NativeCallback::ConnectionStatus { poor } => CallbackPacket::ConnectionStatusUpdate {
                poor,
            },
        },
    )
}

/// A step of the end. A step that takes too long is given up.
#[derive(Clone, Copy, Debug, PartialEq, Eq, Structural)]
pub enum StopStep {
    /// Stop the native stream, next to the following steps.
    StopStream,
    CloseTransport { within_millis: u64 },
    TellServer { within_millis: u64 },
    AwaitStream { within_millis: u64 },
    /// Let the process end.
    Notify,
}

pub open spec fn stop_steps(stream_present: bool, transport_present: bool) -> Seq<StopStep> {
    (if stream_present {
        seq![StopStep::StopStream]
    } else {
        Seq::empty()
    }) + (if transport_present {
        seq![StopStep::CloseTransport { within_millis: TRANSPORT_CLOSE_TIMEOUT_MILLIS }]
    } else {
        Seq::empty()
    }) + seq![StopStep::TellServer { within_millis: IPC_STOP_ENQUEUE_TIMEOUT_MILLIS }] + (
    if stream_present {
        seq![StopStep::AwaitStream { within_millis: NATIVE_STOP_TIMEOUT_MILLIS }]
    } else {
        Seq::empty()
    }) + seq![StopStep::Notify]
}

/// Takes stream and transport out of their places, so that nobody finds them
/// while they end, and says what to do in which order.
pub fn finish_stop(lifecycle: &mut StreamLifecycle) -> (steps: Vec<StopStep>)
    ensures
        steps@ == stop_steps(old(lifecycle).stream_present, old(lifecycle).transport_present),
        *final(lifecycle) == (StreamLifecycle {
            adaptive_transport_active: false,
            native_generation: next_generation(old(lifecycle).native_generation),
            stream_present: false,
            transport_present: false,
            ..*old(lifecycle)
        }),
{
    let (stream, transport) = lifecycle.detach_for_stop();
    let mut steps: Vec<StopStep> = Vec::new();
    if stream {
        steps.push(StopStep::StopStream);
    }
    if transport {
        steps.push(StopStep::CloseTransport { within_millis: TRANSPORT_CLOSE_TIMEOUT_MILLIS });
    }
    steps.push(StopStep::TellServer { within_millis: IPC_STOP_ENQUEUE_TIMEOUT_MILLIS });
    if stream {
        steps.push(StopStep::AwaitStream { within_millis: NATIVE_STOP_TIMEOUT_MILLIS });
    }
    steps.push(StopStep::Notify);
    assert(steps@ =~= stop_steps(stream, transport));
    steps
}

/// What the audio setup of a native stream leads to.
#[derive(Clone, Copy, Debug, PartialEq, Eq, Structural)]
pub enum AudioSetupStep {
    /// The stream was replaced: nothing to set up.
    Ignore,
    /// Note the setup, and hand it to the transport.
    SetUp,
    /// There is no transport.
    Fail,
}

pub fn audio_setup_step(lifecycle: &StreamLifecycle, generation: u64) -> (step: AudioSetupStep)
    ensures
        step == (if !lifecycle.in_force(generation) {
            AudioSetupStep::Ignore
        } else if lifecycle.transport_present {
            AudioSetupStep::SetUp
        } else {
            AudioSetupStep::Fail
        }),
{
    if !lifecycle.is_current_native_generation(generation) {
        AudioSetupStep::Ignore
    } else if lifecycle.transport_present {
        AudioSetupStep::SetUp
    } else {
        AudioSetupStep::Fail
    }
}

/// An event of a transport that was replaced changes nothing.
pub proof fn law_replaced_transport_is_ignored(
    lifecycle: StreamLifecycle,
    generation: u64,
    closed_event_is_final: bool,
    event: TransportEventKind,
)
    requires
        generation != lifecycle.transport_generation,
    ensures
        transport_reaction(lifecycle, generation, closed_event_is_final, event) == (
            lifecycle,
            TransportReaction::Stale,
        ),
{
}

/// A later request to start a stream outdates the earlier one.
pub proof fn law_later_start_outdates_earlier(lifecycle: StreamLifecycle, final_close: bool)
    ensures
        ({
            let generation = lifecycle.transport_generation;
            let (one, first) = transport_reaction(
                lifecycle,
                generation,
                final_close,
                TransportEventKind::StartStream,
            );
            let (two, second) = transport_reaction(
                one,
                generation,
                final_close,
                TransportEventKind::StartStream,
            );
            &&& first matches TransportReaction::Start(expectation) && !two.wants(expectation)
            &&& second matches TransportReaction::Start(expectation) && two.wants(expectation)
                == !two.terminating
        }),
{
}

/// The number that four octets stand for, the first of them the highest.
pub open spec fn address_value(octets: Seq<u8>) -> int {
    octets[0] * 0x100_0000 + octets[1] * 0x1_0000 + octets[2] * 0x100 + octets[3]
}

/// The local addresses are five blocks: 127.0.0.0/8, 10.0.0.0/8, 172.16.0.0/12,
/// 192.168.0.0/16 and 169.254.0.0/16.
pub proof fn law_local_blocks(octets: Seq<u8>)
    requires
        octets.len() == 4,
    ensures
        local_v4(octets) <==> ({
            ||| 0x7f00_0000 <= address_value(octets) <= 0x7fff_ffff
            ||| 0x0a00_0000 <= address_value(octets) <= 0x0aff_ffff
            ||| 0xac10_0000 <= address_value(octets) <= 0xac1f_ffff
            ||| 0xc0a8_0000 <= address_value(octets) <= 0xc0a8_ffff
            ||| 0xa9fe_0000 <= address_value(octets) <= 0xa9fe_ffff
        }),
{
}

/// Of the longer addresses the one that ends in a lone one is local, and those whose
/// highest seven bits are 1111110.
pub proof fn law_local_long_addresses(segments: Seq<u16>)
    requires
        segments.len() == 8,
    ensures
        segments[0] / 0x200 == 0x7e ==> local_v6(segments),
        local_v6(segments) && segments[0] / 0x200 != 0x7e ==> segments[7] == 1 && forall|i: int|
            0 <= i < 7 ==> segments[i] == 0,
        segments[7] == 1 && (forall|i: int| 0 <= i < 7 ==> segments[i] == 0) ==> local_v6(
            segments,
        ),
{
    if segments[7] == 1 && (forall|i: int| 0 <= i < 7 ==> segments[i] == 0) {
        assert(segments =~= seq![0u16, 0u16, 0u16, 0u16, 0u16, 0u16, 0u16, 1u16]);
    }
}

/// What the transport in place says is acted on: its words go to the server, a start
/// is asked for that is wanted, its packets are handled, and an order to stop lets the
/// others pass. A browser that only left may come back, so the end is put off; an end
/// that is final, or a failure, ends the streamer.
pub proof fn law_what_the_transport_says_is_done(
    lifecycle: StreamLifecycle,
    closed_event_is_final: bool,
    orders_stop: bool,
)
    ensures
        ({
            let now = |event: TransportEventKind|
                transport_reaction(
                    lifecycle,
                    lifecycle.transport_generation,
                    closed_event_is_final,
                    event,
                );
            &&& now(TransportEventKind::SendIpc) == (lifecycle, TransportReaction::PassOn)
            &&& now(TransportEventKind::RecvPacket { orders_stop }) == (
                lifecycle,
                TransportReaction::Dispatch { release_first: orders_stop },
            )
            &&& now(TransportEventKind::Gone) == (lifecycle, TransportReaction::RequestTerminate)
            &&& now(TransportEventKind::Failed) == (lifecycle, TransportReaction::Stop)
            &&& now(TransportEventKind::Closed).0 == lifecycle
            &&& now(TransportEventKind::Closed).1 is Stop <==> closed_event_is_final
            &&& now(TransportEventKind::Closed).1 is RequestTerminate <==> !closed_event_is_final
            &&& now(TransportEventKind::StartStream).1 matches TransportReaction::Start(
                expectation,
            ) && now(TransportEventKind::StartStream).0.wants(expectation)
                == !lifecycle.terminating && !lifecycle.wants(expectation)
            &&& now(TransportEventKind::StartStream).0 == StreamLifecycle {
                start_request_generation: now(
                    TransportEventKind::StartStream,
                ).0.start_request_generation,
                ..lifecycle
            }
        }),
{
}

/// One right opens the transport between two peers, and the other right opens both
/// transports through the server; neither depends on the other.
pub proof fn law_rights_open_transports(permissions: StreamPermissions)
    ensures
        transport_allowed(permissions, TransportType::WebRTC)
            == permissions.allow_transport_webrtc,
        transport_allowed(permissions, TransportType::WebSocket)
            == permissions.allow_transport_websockets,
        transport_allowed(permissions, TransportType::WebTransport)
            == permissions.allow_transport_websockets,
{
}

/// What the host wants felt and shown arrives unchanged: the motors keep their
/// strengths and their sides, and a controller keeps its number.
pub proof fn law_callbacks_arrive_unchanged(number: u16, first: u16, second: u16, flag: bool)
    requires
        number < 256,
    ensures
        packet_of(
            NativeCallback::ControllerRumble {
                controller_number: number,
                low_frequency_motor: first,
                high_frequency_motor: second,
            },
        ) == (CallbackPacket::ControllerRumble {
            controller_number: number as u8,
            low_frequency_motor: first,
            high_frequency_motor: second,
        }),
        packet_of(
            NativeCallback::ControllerRumbleTriggers {
                controller_number: number,
                left_trigger_motor: first,
                right_trigger_motor: second,
            },
        ) == (CallbackPacket::ControllerTriggerRumble {
            controller_number: number as u8,
            left_trigger_motor: first,
            right_trigger_motor: second,
        }),
        packet_of(NativeCallback::HdrMode { enabled: flag }) == (CallbackPacket::HdrModeUpdate {
            enabled: flag,
        }),
        packet_of(NativeCallback::ConnectionStatus { poor: flag }) == (
        CallbackPacket::ConnectionStatusUpdate { poor: flag }),
{
}

/// An end always tells the server and lets the process go last. The stream is stopped
/// first and waited for, and the transport is closed before the server is told, each
/// where there is one; nothing else is done, and every wait has its bound.
pub proof fn law_end_goes_in_order(stream_present: bool, transport_present: bool)
    ensures
        ({
            let steps = stop_steps(stream_present, transport_present);
            &&& steps.len() == 2 + (if stream_present {
                2int
            } else {
                0
            }) + (if transport_present {
                1int
            } else {
                0
            })
            &&& steps.last() is Notify
            &&& stream_present ==> steps[0] is StopStream && steps[steps.len() - 2] == (
            StopStep::AwaitStream { within_millis: 5000 }) && steps[steps.len() - 3] == (
            StopStep::TellServer { within_millis: 500 })
            &&& !stream_present ==> steps[steps.len() - 2] == (StopStep::TellServer {
                within_millis: 500,
            })
            &&& transport_present ==> steps[if stream_present {
                1int
            } else {
                0
            }] == (StopStep::CloseTransport { within_millis: 2000 })
        }),
{
}

/// The report on a stage names the stage, and a failed one ends with its error code.
pub proof fn law_stage_reports_name_the_stage(stage: Seq<char>, one: i32)
    ensures
        stage_text(stage, StageEvent::Starting).subrange(16, 16 + stage.len() as int) == stage,
        stage_text(stage, StageEvent::Complete).subrange(17, 17 + stage.len() as int) == stage,
        stage_text(stage, StageEvent::Failed { error_code: one }).subrange(
            14,
            14 + stage.len() as int,
        ) == stage,
        stage_text(stage, StageEvent::Failed { error_code: one }).skip(
            14 + stage.len() as int + 17,
        ) == signed_digits(one as int),
        one >= 0 ==> signed_digits(one as int) == decimal_digits(one as nat),
        one < 0 ==> signed_digits(one as int) == seq!['-'] + decimal_digits((-one) as nat),
{
    reveal_strlit("Starting Stage: ");
    reveal_strlit("Completed Stage: ");
    reveal_strlit("Failed Stage: ");
    reveal_strlit(" with error code ");
    reveal_strlit("-");
    assert(stage_text(stage, StageEvent::Starting).subrange(16, 16 + stage.len() as int)
        =~= stage);
    assert(stage_text(stage, StageEvent::Complete).subrange(17, 17 + stage.len() as int)
        =~= stage);
    let failed = stage_text(stage, StageEvent::Failed { error_code: one });
    assert(failed.subrange(14, 14 + stage.len() as int) =~= stage);
    assert(failed.skip(14 + stage.len() as int + 17) =~= signed_digits(one as int));
    assert("-"@ =~= seq!['-']);
}

/// A streamer begins with the message that tells it what to stream, leaves when it is
/// told to stop or nothing can come any more, and waits through everything else.
pub proof fn law_how_a_streamer_begins(message: Option<ServerIpcMessage>, step: StartupStep)
    requires
        call_ensures(startup_step, (message,), step),
    ensures
        step is Exit <==> message is None || message == Some(ServerIpcMessage::Stop),
        step is Begin <==> message is Some && message->0 is Init,
        step matches StartupStep::Begin(init) ==> message == Some(ServerIpcMessage::Init(init)),
        message is Some && !(message->0 is Init) && !(message->0 is Stop) ==> step is Wait,
{
}

/// The local host is spelled by its number, in whatever case it was named, and every
/// other host is left as it is.
pub proof fn law_local_host_is_spelled_by_number(host_address: String, address: String)
    requires
        call_ensures(normalize_loopback_host, (host_address,), address),
    ensures
        lowered(host_address@) == "localhost"@ ==> address@ == "127.0.0.1"@,
        lowered(host_address@) != "localhost"@ ==> address@ == host_address@,
{
    reveal_strlit("localhost");
    assert(lowered("localhost"@) =~= "localhost"@);
}

/// A host that is known by its name only does not count as local.
pub proof fn law_which_hosts_are_local(octets: [u8; 4], segments: [u16; 8], local: bool)
    ensures
        call_ensures(host_is_local, (HostAddress::V4(octets),), local) ==> local == local_v4(
            octets@,
        ),
        call_ensures(host_is_local, (HostAddress::V6(segments),), local) ==> local == local_v6(
            segments@,
        ),
        call_ensures(host_is_local, (HostAddress::Name,), local) ==> !local,
{
}

/// What becomes of a message of the server: reports on the network stay here, a start
/// is passed on with the settings that the user may have, a transport is put in place
/// where the user may use it, and a stop ends the streamer. Whoever chooses a transport
/// is back, so that nothing waits to end the session any more.
pub proof fn law_what_the_server_says_is_done(
    lifecycle: &mut StreamLifecycle,
    permissions: &StreamPermissions,
    message: ServerIpcMessage,
    reaction: IpcReaction,
)
    requires
        call_ensures(on_ipc_message, (lifecycle, permissions, message), reaction),
    ensures
        ({
            let chooses = message matches ServerIpcMessage::WebSocket(inner)
                && inner is SetTransport;
            &&& chooses ==> final(lifecycle).terminate_requested_at is None
            &&& !chooses ==> *final(lifecycle) == *old(lifecycle)
            &&& *final(lifecycle) == StreamLifecycle {
                terminate_requested_at: final(lifecycle).terminate_requested_at,
                ..*old(lifecycle)
            }
            &&& reaction is Stop <==> message is Stop
            &&& reaction is Feedback <==> message is NetworkFeedback
            &&& message matches ServerIpcMessage::NetworkFeedback(feedback) ==> reaction
                == IpcReaction::Feedback(feedback)
            &&& reaction is UseWebRtc <==> message == ServerIpcMessage::WebSocket(
                StreamClientMessage::SetTransport(TransportType::WebRTC),
            ) && permissions.allow_transport_webrtc
            &&& reaction is UseRelay <==> permissions.allow_transport_websockets && (message
                == ServerIpcMessage::WebSocket(
                StreamClientMessage::SetTransport(TransportType::WebSocket),
            ) || message == ServerIpcMessage::WebSocket(
                StreamClientMessage::SetTransport(TransportType::WebTransport),
            ))
            &&& message matches ServerIpcMessage::WebSocketTransport(bytes) ==> reaction
                == IpcReaction::PassOn(message)
            &&& reaction matches IpcReaction::UseWebRtc(passed) ==> passed == message
            &&& reaction matches IpcReaction::UseRelay(passed) ==> passed == message
            &&& message matches ServerIpcMessage::WebSocket(
                StreamClientMessage::StartStream { settings },
            ) ==> {
                &&& reaction matches IpcReaction::PassOn(
                    ServerIpcMessage::WebSocket(
                        StreamClientMessage::StartStream { settings: passed },
                    ),
                )
                &&& passed.hdr <==> settings.hdr && permissions.allow_hdr
                &&& passed.width == settings.width && passed.height == settings.height
                &&& passed.bitrate_kbps <= settings.bitrate_kbps
            }
        }),
{
}

/// The native stream gets the settings of the browser, each in its place: the rate of
/// frames also in hundredths, packets of 1024 bytes, only known formats, and neither a
/// microphone nor controllers that outlive their connection.
pub proof fn law_native_stream_gets_the_settings(
    settings: StreamSettings,
    gamepads_attached: u16,
    local: bool,
    native: NativeSettings,
)
    requires
        settings.fps * 100 <= u32::MAX,
        call_ensures(native_settings, (settings, gamepads_attached, local), native),
    ensures
        native.width == settings.width && native.height == settings.height,
        native.fps == settings.fps && native.fps_x100 == settings.fps * 100,
        native.hdr == settings.hdr && native.bitrate == settings.bitrate_kbps,
        native.packet_size == 1024 && native.sops,
        native.encrypt_video == settings.encrypt_host_video,
        native.encrypt_audio == settings.encrypt_host_audio,
        native.streaming_locally == local,
        native.supported_video_formats == settings.supported_codecs & 0xff0fu32,
        native.local_audio_play_mode == settings.play_audio_local,
        native.gamepads_attached == gamepads_attached,
        !native.gamepads_persist_after_disconnect && !native.enable_mic,
{
}

/// The browser is told what the stream really is: what was set up of video and sound,
/// and where nothing was set up yet, H264 as it was asked for and stereo.
pub proof fn law_browser_is_told_what_the_stream_is(
    settings: StreamSettings,
    touch: Option<bool>,
    video: Option<VideoSetup>,
    audio: Option<AudioSetup>,
    stereo: AudioSetup,
    told: CompletedStream,
)
    requires
        call_ensures(completed_stream, (settings, touch, video, audio, stereo), told),
    ensures
        told.capabilities.touch <==> touch == Some(true),
        video matches Some(video) ==> told.format == video.format.spec_bit() && told.width
            == video.width && told.height == video.height && told.fps == video.redraw_rate,
        video is None ==> told.format == 1 && told.width == settings.width && told.height
            == settings.height && told.fps == settings.fps,
        ({
            let sound = if audio is Some {
                audio->0
            } else {
                stereo
            };
            &&& told.audio_sample_rate == sound.sample_rate
            &&& told.audio_channel_count == sound.channel_count
            &&& told.audio_streams == sound.streams
            &&& told.audio_coupled_streams == sound.coupled_streams
            &&& told.audio_samples_per_frame == sound.samples_per_frame
            &&& told.audio_mapping == sound.mapping
        }),
{
}

/// A report on a stage is fatal when the stage failed and failures are to be shown.
pub proof fn law_which_reports_are_fatal(
    stage: &str,
    event: StageEvent,
    report_fatal_errors: bool,
    message: StreamServerMessage,
)
    requires
        call_ensures(stage_message, (stage, event, report_fatal_errors), message),
    ensures
        message matches StreamServerMessage::DebugLog { message: text, ty } && text@ == stage_text(
            stage@,
            event,
        ) && (ty == Some(LogMessageType::Fatal) <==> event is Failed && report_fatal_errors) && (ty
            is None <==> !(event is Failed && report_fatal_errors)),
{
}

/// Sound is set up for the stream in force, on a transport; without one it cannot be,
/// and for a stream that was replaced nothing is done. Callbacks of such a stream are
/// not heard either.
pub proof fn law_replaced_streams_are_not_heard(
    lifecycle: StreamLifecycle,
    generation: u64,
    expectation: NativeStartExpectation,
    callback: NativeCallback,
    step: AudioSetupStep,
    packet: Option<CallbackPacket>,
)
    requires
        call_ensures(audio_setup_step, (&lifecycle, generation), step),
        call_ensures(native_callback_packet, (&lifecycle, generation, expectation, callback), packet),
    ensures
        step is Ignore <==> !lifecycle.in_force(generation),
        step is SetUp ==> lifecycle.transport_present,
        step is Fail ==> !lifecycle.transport_present,
        packet is Some <==> lifecycle.in_force(generation) && lifecycle.hears(
            generation,
            expectation,
        ),
        packet is Some ==> packet->0 == packet_of(callback),
        lifecycle.native_generation != generation ==> packet is None && step is Ignore,
{
}

/// An end takes the stream and the transport away, so that nothing of the old stream is
/// in force and a second end has neither to stop.
pub proof fn law_end_takes_everything_away(lifecycle: &mut StreamLifecycle, steps: Vec<StopStep>)
    requires
        call_ensures(finish_stop, (lifecycle,), steps),
    ensures
        steps@ == stop_steps(old(lifecycle).stream_present, old(lifecycle).transport_present),
        !final(lifecycle).stream_present && !final(lifecycle).transport_present,
        !final(lifecycle).adaptive_transport_active,
        !final(lifecycle).in_force(old(lifecycle).native_generation),
        final(lifecycle).terminating == old(lifecycle).terminating,
        final(lifecycle).session == old(lifecycle).session,
{
}

} // verus!

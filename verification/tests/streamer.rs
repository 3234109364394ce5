//! Which native stream counts, and how the streamer reacts.

use moonlight_web::adaptive_bitrate::FeedbackSample;
use moonlight_web::ipc::NetworkFeedback;
use moonlight_web::lifecycle::{
    native_callback_context_matches, native_media_ready_for_transport,
    native_start_expectation_matches, NativeStartExpectation, StreamLifecycle,
};
use moonlight_web::messages::{
    LogMessageType, ServerIpcMessage, StreamClientMessage, StreamServerMessage, TransportType,
};
use moonlight_web::permissions::{StreamPermissions, StreamSettings};
use moonlight_web::streamer::{
    audio_setup_step, completed_stream, finish_stop, host_is_local, native_callback_packet,
    native_settings, normalize_loopback_host, on_ipc_message, on_transport_event,
    stage_is_current, stage_message, startup_step, AudioSetup, AudioSetupStep, CallbackPacket,
    HostAddress, IpcReaction, NativeCallback, StageEvent, StartupStep, StopStep,
    TransportEventKind, TransportReaction, VideoSetup,
};
use moonlight_web::time::{Duration, Instant};
use moonlight_web::video_format::VideoFormat;

#[test]
fn native_start_expectation_rejects_late_handoffs_and_requests() {
    let browser = NativeStartExpectation::browser(7, 11);
    assert!(native_start_expectation_matches(
        browser, false, false, 7, 11
    ));
    assert!(!native_start_expectation_matches(
        browser, false, false, 8, 11
    ));
    assert!(!native_start_expectation_matches(
        browser, false, false, 7, 12
    ));
    assert!(!native_start_expectation_matches(
        browser, true, false, 7, 11
    ));
}

#[test]
fn adaptive_start_expectation_expires_when_data_transport_is_replaced() {
    let adaptive = NativeStartExpectation::adaptive(3, 5);
    assert!(native_start_expectation_matches(
        adaptive, false, true, 3, 5
    ));
    assert!(!native_start_expectation_matches(
        adaptive, false, false, 3, 5
    ));
}

#[test]
fn native_callback_context_stays_bound_to_its_generation_and_transport() {
    let callback = NativeStartExpectation::browser(7, 11);
    assert!(native_callback_context_matches(
        4, 4, callback, callback, false, false, 7, 11,
    ));
    assert!(!native_callback_context_matches(
        4, 5, callback, callback, false, false, 7, 11,
    ));
    assert!(!native_callback_context_matches(
        4,
        4,
        callback,
        NativeStartExpectation::browser(8, 11),
        false,
        false,
        8,
        11,
    ));
    assert!(!native_callback_context_matches(
        4, 4, callback, callback, false, false, 7, 12,
    ));
}

#[test]
fn literal_localhost_uses_ipv4_loopback_without_dns_retry() {
    assert_eq!(normalize_loopback_host("localhost".to_owned()), "127.0.0.1");
    assert_eq!(normalize_loopback_host("LOCALHOST".to_owned()), "127.0.0.1");
}

#[test]
fn non_localhost_addresses_are_preserved() {
    for address in ["sunshine.local", "192.168.1.20", "::1"] {
        assert_eq!(normalize_loopback_host(address.to_owned()), address);
    }
}

#[test]
fn media_readiness_gate_applies_only_to_data_transports() {
    let generation = 9;
    assert!(!native_media_ready_for_transport(true, true, 0, generation));
    assert!(native_media_ready_for_transport(
        true, true, generation, generation
    ));

    // WebRTC provides track-based PLI/recovery and must not lose its
    // initial IDR behind the data-channel readiness test.
    assert!(native_media_ready_for_transport(true, false, 0, generation));
    assert!(!native_media_ready_for_transport(
        false, false, generation, generation
    ));
}

fn settings() -> StreamSettings {
    StreamSettings {
        bitrate_kbps: 10_000,
        adaptive_bitrate: true,
        minimum_bitrate_kbps: 2_000,
        width: 1920,
        height: 1080,
        fps: 60,
        play_audio_local: true,
        encrypt_host_video: true,
        encrypt_host_audio: false,
        supported_codecs: 0xffff_ffff,
        hdr: true,
    }
}

fn permissions() -> StreamPermissions {
    StreamPermissions {
        allow_add_hosts: true,
        maximum_bitrate_kbps: Some(4_000),
        allow_codec_h264: true,
        allow_codec_h265: true,
        allow_codec_av1: true,
        allow_hdr: false,
        allow_transport_webrtc: false,
        allow_transport_websockets: true,
    }
}

#[test]
fn streamer_waits_for_the_order_to_begin() {
    let feedback = ServerIpcMessage::NetworkFeedback(NetworkFeedback::default());
    assert!(matches!(startup_step(Some(feedback)), StartupStep::Wait));
    assert!(matches!(startup_step(Some(ServerIpcMessage::Stop)), StartupStep::Exit));
    assert!(matches!(startup_step(None), StartupStep::Exit));
}

#[test]
fn local_addresses_are_recognised() {
    for octets in [[127, 0, 0, 1], [10, 1, 2, 3], [172, 16, 0, 1], [172, 31, 0, 1], [192, 168, 1, 1], [169, 254, 9, 9]] {
        assert!(host_is_local(HostAddress::V4(octets)));
    }
    for octets in [[8, 8, 8, 8], [172, 15, 0, 1], [172, 32, 0, 1], [192, 169, 1, 1], [169, 253, 0, 1]] {
        assert!(!host_is_local(HostAddress::V4(octets)));
    }
    assert!(host_is_local(HostAddress::V6([0, 0, 0, 0, 0, 0, 0, 1])));
    assert!(host_is_local(HostAddress::V6([0xfd12, 0, 0, 0, 0, 0, 0, 5])));
    assert!(!host_is_local(HostAddress::V6([0xfe80, 0, 0, 0, 0, 0, 0, 1])));
    assert!(!host_is_local(HostAddress::V6([0, 0, 0, 0, 0, 0, 0, 2])));
    assert!(!host_is_local(HostAddress::Name));
}

#[test]
fn replaced_transport_is_not_heard() {
    let mut lifecycle = StreamLifecycle::new();
    let first = lifecycle.set_transport(true);
    let second = lifecycle.set_transport(true);
    assert!(first != second);
    for event in [TransportEventKind::StartStream, TransportEventKind::Failed, TransportEventKind::Closed] {
        assert_eq!(
            on_transport_event(&mut lifecycle, first, true, event),
            TransportReaction::Stale
        );
    }
}

#[test]
fn later_start_outdates_the_earlier_one() {
    let mut lifecycle = StreamLifecycle::new();
    let generation = lifecycle.set_transport(false);
    let mut start = || match on_transport_event(
        &mut lifecycle,
        generation,
        false,
        TransportEventKind::StartStream,
    ) {
        TransportReaction::Start(expectation) => expectation,
        other => panic!("unexpected reaction: {other:?}"),
    };
    let first = start();
    let second = start();
    assert!(!lifecycle.is_current(first));
    assert!(lifecycle.is_current(second));
}

#[test]
fn end_of_a_transport_is_final_only_where_it_says_so() {
    let mut lifecycle = StreamLifecycle::new();
    let generation = lifecycle.set_transport(false);
    let mut react = |final_close, event| on_transport_event(&mut lifecycle, generation, final_close, event);
    assert_eq!(react(true, TransportEventKind::Closed), TransportReaction::Stop);
    assert_eq!(react(false, TransportEventKind::Closed), TransportReaction::RequestTerminate);
    assert_eq!(react(true, TransportEventKind::Gone), TransportReaction::RequestTerminate);
    assert_eq!(react(false, TransportEventKind::Failed), TransportReaction::Stop);
    assert_eq!(react(false, TransportEventKind::SendIpc), TransportReaction::PassOn);
    assert_eq!(
        react(false, TransportEventKind::RecvPacket { orders_stop: true }),
        TransportReaction::Dispatch { release_first: true }
    );
}

#[test]
fn settings_of_a_stream_are_brought_within_the_permissions() {
    let mut lifecycle = StreamLifecycle::new();
    let message = ServerIpcMessage::WebSocket(StreamClientMessage::StartStream { settings: settings() });
    match on_ipc_message(&mut lifecycle, &permissions(), message) {
        IpcReaction::PassOn(ServerIpcMessage::WebSocket(StreamClientMessage::StartStream {
            settings,
        })) => {
            assert_eq!(settings.bitrate_kbps, 4_000);
            assert!(!settings.hdr);
        }
        other => panic!("unexpected reaction: {other:?}"),
    }
}

#[test]
fn choice_of_transport_needs_permission_and_is_a_sign_of_life() {
    let mut lifecycle = StreamLifecycle::new();
    lifecycle.request_terminate(Instant::at(Duration::from_secs(1)));
    let choose = |transport| ServerIpcMessage::WebSocket(StreamClientMessage::SetTransport(transport));
    let reaction = on_ipc_message(&mut lifecycle, &permissions(), choose(TransportType::WebRTC));
    assert!(matches!(reaction, IpcReaction::PassOn(_)));
    assert_eq!(lifecycle.terminate_requested_at, None);
    for transport in [TransportType::WebSocket, TransportType::WebTransport] {
        let reaction = on_ipc_message(&mut lifecycle, &permissions(), choose(transport));
        assert!(matches!(reaction, IpcReaction::UseRelay(_)));
    }
    let allowed = StreamPermissions { allow_transport_webrtc: true, ..permissions() };
    let reaction = on_ipc_message(&mut lifecycle, &allowed, choose(TransportType::WebRTC));
    assert!(matches!(reaction, IpcReaction::UseWebRtc(_)));
    let reaction = on_ipc_message(&mut lifecycle, &permissions(), ServerIpcMessage::Stop);
    assert!(matches!(reaction, IpcReaction::Stop(ServerIpcMessage::Stop)));
}

#[test]
fn host_is_asked_for_the_settings_of_the_browser() {
    let native = native_settings(settings(), 0b101, true);
    assert_eq!(native.fps_x100, 6_000);
    assert_eq!(native.packet_size, 1024);
    assert_eq!(native.supported_video_formats, 0xff0f);
    assert_eq!(native.gamepads_attached, 0b101);
    assert!(native.encrypt_video && !native.encrypt_audio && native.streaming_locally);
    assert!(native.sops && !native.enable_mic && native.local_audio_play_mode);
}

#[test]
fn completed_stream_falls_back_to_the_settings() {
    let stereo = AudioSetup {
        sample_rate: 48_000,
        channel_count: 2,
        streams: 1,
        coupled_streams: 1,
        samples_per_frame: 240,
        mapping: [0, 1, 0, 0, 0, 0, 0, 0],
    };
    let guess = completed_stream(settings(), None, None, None, stereo);
    assert_eq!((guess.width, guess.height, guess.fps), (1920, 1080, 60));
    assert_eq!(guess.format, VideoFormat::H264.bit());
    assert_eq!(guess.audio_sample_rate, 48_000);
    assert!(!guess.capabilities.touch);
    let video = VideoSetup { format: VideoFormat::Av1Main8, width: 640, height: 480, redraw_rate: 30 };
    let known = completed_stream(settings(), Some(true), Some(video), None, stereo);
    assert_eq!((known.width, known.height, known.fps), (640, 480, 30));
    assert_eq!(known.format, 0x1000);
    assert!(known.capabilities.touch);
}

fn logged(message: StreamServerMessage) -> (String, Option<LogMessageType>) {
    match message {
        StreamServerMessage::DebugLog { message, ty } => (message, ty),
        other => panic!("unexpected message: {other:?}"),
    }
}

#[test]
fn steps_of_a_start_are_told() {
    assert_eq!(
        logged(stage_message("RTSP handshake", StageEvent::Starting, true)),
        ("Starting Stage: RTSP handshake".to_owned(), None)
    );
    assert_eq!(
        logged(stage_message("RTSP handshake", StageEvent::Complete, true)),
        ("Completed Stage: RTSP handshake".to_owned(), None)
    );
    assert_eq!(
        logged(stage_message("RTSP handshake", StageEvent::Failed { error_code: -102 }, true)),
        (
            "Failed Stage: RTSP handshake with error code -102".to_owned(),
            Some(LogMessageType::Fatal)
        )
    );
    assert_eq!(
        logged(stage_message("audio", StageEvent::Failed { error_code: i32::MIN }, false)),
        ("Failed Stage: audio with error code -2147483648".to_owned(), None)
    );
}

#[test]
fn callbacks_of_a_replaced_stream_are_dropped() {
    let mut lifecycle = StreamLifecycle::new();
    let generation = lifecycle.set_transport(false);
    let expectation = lifecycle.request_start(generation);
    lifecycle.native_generation = 4;
    lifecycle.mark_native_start_in_progress(4, expectation);
    assert!(stage_is_current(&lifecycle, 4, expectation));
    let rumble = NativeCallback::ControllerRumble {
        controller_number: 258,
        low_frequency_motor: 7,
        high_frequency_motor: 8,
    };
    assert_eq!(
        native_callback_packet(&lifecycle, 4, expectation, rumble),
        Some(CallbackPacket::ControllerRumble {
            controller_number: 2,
            low_frequency_motor: 7,
            high_frequency_motor: 8,
        })
    );
    assert_eq!(native_callback_packet(&lifecycle, 3, expectation, rumble), None);
    assert_eq!(audio_setup_step(&lifecycle, 3), AudioSetupStep::Ignore);
    lifecycle.transport_present = false;
    assert_eq!(audio_setup_step(&lifecycle, 4), AudioSetupStep::Fail);
    lifecycle.transport_present = true;
    assert_eq!(audio_setup_step(&lifecycle, 4), AudioSetupStep::SetUp);
    lifecycle.set_transport(false);
    assert_eq!(native_callback_packet(&lifecycle, 4, expectation, rumble), None);
}

#[test]
fn end_takes_its_steps_in_order() {
    let mut lifecycle = StreamLifecycle::new();
    lifecycle.stream_present = true;
    lifecycle.transport_present = true;
    assert_eq!(
        finish_stop(&mut lifecycle),
        vec![
            StopStep::StopStream,
            StopStep::CloseTransport { within_millis: 2_000 },
            StopStep::TellServer { within_millis: 500 },
            StopStep::AwaitStream { within_millis: 5_000 },
            StopStep::Notify,
        ]
    );
    assert_eq!(
        finish_stop(&mut lifecycle),
        vec![StopStep::TellServer { within_millis: 500 }, StopStep::Notify]
    );
}

#[test]
fn lost_transport_ends_the_stream_after_a_while() {
    let start = Instant::at(Duration::from_secs(100));
    let mut lifecycle = StreamLifecycle::new();
    let generation = lifecycle.set_transport(false);
    assert_eq!(lifecycle.request_terminate(start), generation);
    assert!(!lifecycle.take_expired_terminate_request(generation, start.after(Duration::from_secs(10))));
    assert!(lifecycle.take_expired_terminate_request(generation, start.after(Duration::from_millis(10_001))));
    lifecycle.request_terminate(start);
    lifecycle.set_transport(false);
    assert!(!lifecycle.take_expired_terminate_request(generation, start.after(Duration::from_secs(60))));
}

#[test]
fn sustained_congestion_asks_for_one_restart() {
    let start = Instant::at(Duration::from_secs(100));
    let mut lifecycle = StreamLifecycle::new();
    lifecycle.set_transport(true);
    lifecycle.open_session(settings(), start);
    let sample = |second: u64| FeedbackSample {
        rtt_ms: 20,
        sent_packets: second * 100,
        congestion_events: second,
        ..FeedbackSample::default()
    };
    let mut restarts = 0;
    for second in 1..=12u64 {
        let reaction =
            lifecycle.on_network_feedback(sample(second), start.after(Duration::from_secs(second)));
        assert_eq!(reaction.shown_rtt_ms, Some(20));
        if let Some(request) = reaction.restart {
            restarts += 1;
            assert_eq!(request.reduction.bitrate_kbps, 7_500);
        }
    }
    assert_eq!(restarts, 1);
}

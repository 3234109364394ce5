//! Frames on their way to the browser.

use moonlight_web::channel;
use moonlight_web::frame::{join_buffers, DecodeResult, FrameType};
use moonlight_web::ipc::{next_ipc_message, IpcSender, NextMessage};
use moonlight_web::input::InboundPacket;
use moonlight_web::messages::{
    LogMessageType, RtcSdpType, RtcSessionDescription, ServerIpcMessage, StreamClientMessage,
    StreamServerMessage, StreamSignalingMessage, StreamerIpcMessage,
};
use moonlight_web::time::{Duration, Instant};
use moonlight_web::video_format::VideoFormat;
use moonlight_web::video_stats::{normalize_pinned_c_timestamp, VideoStats};
use moonlight_web::web_rtc::annexb::AnnexBSplitter;
use moonlight_web::web_rtc::av1::av1_units_fit;
use moonlight_web::web_rtc::channels::{
    input_channels, outbound_route, transport_channel_for_label, OutboundRoute,
};
use moonlight_web::web_rtc::h264::{
    frame_samples, ErrorKind, H264Reader, NalHeader, H264_HEADER_SIZE,
};
use moonlight_web::web_rtc::peer::{
    on_description, on_peer_connection_state_change, on_ws_message, PeerReaction, PeerState, SignalingStep,
    TerminationState,
};
use moonlight_web::web_rtc::track::{
    register_header_extensions, MediaKind, SequencedTrackLocalStaticRTP, TrackLocalSender,
    MAX_CHANNEL_QUEUE_SIZE,
};
use moonlight_web::web_rtc::video::{
    packetize, video_timestamp, UnitStep, VideoCodec, VideoSetupStep, WebRtcVideo,
    RTP_HEADER_SIZE, RTP_OUTBOUND_MTU,
};
use moonlight_web::web_socket::{
    encode_video_frame, frame_packet, on_ipc_message, on_packet, send_audio_sample,
    send_video_unit, timestamp_micros, RttProbeState, ServerStep, TransportClosed, VideoRecoveryState,
    RTT_PROBE_TIMEOUT_NANOS,
};
use webrtc::peer_connection::sdp::sdp_type::RTCSdpType;

fn start() -> Instant {
    Instant::at(Duration::from_secs(100))
}

#[test]
fn video_frame_wire_format_is_byte_exact() {
    let first = vec![0x00, 0x00, 0x00, 0x01, 0x67];
    let second = vec![0x00, 0x00, 0x01, 0x65, 0xaa];
    let encoded = encode_video_frame(FrameType::Idr, 0x0102_0304, &vec![first, second]);

    assert_eq!(
        encoded,
        [
            channel::HOST_VIDEO,
            1,
            0x01,
            0x02,
            0x03,
            0x04,
            0x00,
            0x00,
            0x00,
            0x01,
            0x67,
            0x00,
            0x00,
            0x01,
            0x65,
            0xaa,
        ]
    );
    assert_eq!(encoded.len(), encoded.capacity());
}

#[test]
fn overload_requests_one_idr_then_latches_until_it_arrives() {
    let mut state = VideoRecoveryState::default();

    assert!(matches!(state.on_enqueue_failed(FrameType::PFrame), DecodeResult::NeedIdr));
    for _ in 0..100 {
        assert!(matches!(
            state.before_enqueue(FrameType::PFrame),
            Some(DecodeResult::Accepted)
        ));
    }
    assert!(state.before_enqueue(FrameType::Idr).is_none());

    assert!(matches!(state.on_enqueued(FrameType::Idr), DecodeResult::Accepted));
    assert!(state.before_enqueue(FrameType::PFrame).is_none());
}

#[test]
fn failed_idr_enqueue_reissues_recovery_once() {
    let mut state = VideoRecoveryState::default();

    assert!(matches!(state.on_enqueue_failed(FrameType::PFrame), DecodeResult::NeedIdr));
    assert!(state.before_enqueue(FrameType::Idr).is_none());
    assert!(matches!(state.on_enqueue_failed(FrameType::Idr), DecodeResult::NeedIdr));
    assert!(matches!(
        state.before_enqueue(FrameType::PFrame),
        Some(DecodeResult::Accepted)
    ));

    assert!(state.before_enqueue(FrameType::Idr).is_none());
    assert!(matches!(state.on_enqueued(FrameType::Idr), DecodeResult::Accepted));
    assert!(state.before_enqueue(FrameType::PFrame).is_none());
}

#[test]
fn explicit_browser_idr_request_is_preserved() {
    let mut state = VideoRecoveryState::default();
    state.request_idr();

    assert!(matches!(state.on_enqueued(FrameType::PFrame), DecodeResult::NeedIdr));
    assert!(matches!(state.on_enqueued(FrameType::PFrame), DecodeResult::Accepted));
}

#[test]
fn an_accepted_idr_satisfies_an_explicit_browser_request() {
    let mut state = VideoRecoveryState::default();
    state.request_idr();

    assert!(matches!(state.on_enqueued(FrameType::Idr), DecodeResult::Accepted));
    assert!(matches!(state.on_enqueued(FrameType::PFrame), DecodeResult::Accepted));
}

#[test]
fn explicit_browser_idr_is_not_swallowed_by_recovery_latch() {
    let mut state = VideoRecoveryState::default();
    assert!(matches!(state.on_enqueue_failed(FrameType::PFrame), DecodeResult::NeedIdr));

    state.request_idr();
    assert!(matches!(
        state.before_enqueue(FrameType::PFrame),
        Some(DecodeResult::NeedIdr)
    ));
    assert!(matches!(
        state.before_enqueue(FrameType::PFrame),
        Some(DecodeResult::Accepted)
    ));
}

#[test]
fn rtt_probe_retries_only_after_timeout_and_ignores_old_replies() {
    let mut state = RttProbeState::new();
    let start = start();
    let timeout = Duration::from_nanos(RTT_PROBE_TIMEOUT_NANOS);
    let first = state
        .start_probe_if_due(start)
        .expect("first probe should start immediately");

    assert!(
        state
            .start_probe_if_due(
                start.after(Duration::from_nanos(RTT_PROBE_TIMEOUT_NANOS - 1_000_000))
            )
            .is_none(),
        "only one probe may be outstanding before its timeout"
    );

    let second = state
        .start_probe_if_due(start.after(timeout))
        .expect("lost reply should be retried at the timeout");
    assert_ne!(second, first);
    assert!(
        state
            .accept_reply(first, start.after(timeout).after(Duration::from_millis(1)))
            .is_none(),
        "a late reply for the timed-out probe must not complete the new one"
    );
    assert_eq!(
        state.accept_reply(second, start.after(timeout).after(Duration::from_millis(25))),
        Some(Duration::from_millis(25))
    );
    assert!(
        state
            .start_probe_if_due(start.after(timeout).after(Duration::from_millis(26)))
            .is_some(),
        "a valid reply allows the next interval to start one new probe"
    );
}

#[test]
fn mouse_labels_map_to_their_logical_channels() {
    assert_eq!(
        transport_channel_for_label("mouse_reliable"),
        Some(channel::MOUSE_RELIABLE)
    );
    assert_eq!(
        transport_channel_for_label("mouse_absolute"),
        Some(channel::MOUSE_ABSOLUTE)
    );
    assert_eq!(
        transport_channel_for_label("mouse_relative"),
        Some(channel::MOUSE_RELATIVE)
    );
}

#[test]
fn controller_label_mapping_is_bounded() {
    assert_eq!(transport_channel_for_label("controller15"), Some(channel::CONTROLLER15));
    assert!(transport_channel_for_label("controller16").is_none());
    assert!(transport_channel_for_label("controller_invalid").is_none());
}

#[test]
fn reconnect_cancels_a_terminal_event_waiting_for_queue_capacity() {
    let mut state = TerminationState::new();
    let request = state.request(start());
    let late = start().after(Duration::from_millis(10_001));
    assert!(state.is_current_and_expired(request, late));
    state.clear();
    assert!(
        !state.send_closed_if_current(request, late),
        "a reconnect must invalidate the queued terminal event"
    );
}

#[test]
fn queue_capacity_is_clamped_and_enforced_exactly() {
    let mut minimum: TrackLocalSender<u8> = TrackLocalSender::new(0);
    assert_eq!(minimum.channel_queue_size, 1);

    assert!(minimum.send_samples(vec![0], false));
    assert!(!minimum.send_samples(vec![0], false));
    assert_eq!(minimum.queue.len(), 1);

    let maximum: TrackLocalSender<u8> = TrackLocalSender::new(usize::MAX);
    assert_eq!(maximum.channel_queue_size, MAX_CHANNEL_QUEUE_SIZE);
}

#[test]
fn replacing_samples_discards_every_pending_frame_atomically() {
    let mut sender: TrackLocalSender<u8> = TrackLocalSender::new(4);

    assert!(sender.send_samples(vec![0], false));
    assert!(sender.send_samples(vec![0], false));
    sender.replace_queued_samples(vec![0], true);

    assert_eq!(sender.queue.len(), 1);
    assert!(sender.queue.front().is_some_and(|frame| frame.important));
}

#[test]
fn short_nal_returns_invalid_data() {
    let mut reader = H264Reader::new(vec![0, 0, 1], 8);
    let error = reader.next_nal().err().expect("empty NAL must be rejected");
    assert_eq!(error.kind(), ErrorKind::InvalidData);
}

fn pinned_c_timestamp(presentation_time_us: u64) -> Duration {
    Duration::from_nanos(presentation_time_us.saturating_mul(1_000_000_000) / 90_000)
}

#[test]
fn normalizes_representative_presentation_timestamps() {
    for presentation_time_us in [0, 1, 16_667, 1_000_000, 3_600_000_000] {
        assert_eq!(
            normalize_pinned_c_timestamp(pinned_c_timestamp(presentation_time_us)),
            Duration::from_micros(presentation_time_us)
        );
    }
}

#[test]
fn timestamp_normalization_saturates_instead_of_overflowing() {
    assert_eq!(
        normalize_pinned_c_timestamp(Duration::longest()),
        Duration::from_micros(u64::MAX)
    );
}

#[test]
fn video_and_audio_go_to_the_server() {
    let mut ipc = IpcSender::new();
    let mut recovery = VideoRecoveryState::default();
    let buffers = vec![vec![1], vec![2, 3]];
    let time = Duration::from_millis(1);
    assert_eq!(
        send_video_unit(&mut recovery, &mut ipc, FrameType::PFrame, time, &buffers),
        Ok(DecodeResult::Accepted)
    );
    assert_eq!(
        send_video_unit(&mut recovery, &mut ipc, FrameType::PFrame, time, &buffers),
        Ok(DecodeResult::NeedIdr)
    );
    assert_eq!(send_audio_sample(&mut ipc, &[7, 8]), Ok(()));
    match next_ipc_message(&mut ipc) {
        NextMessage::Message(StreamerIpcMessage::WebSocketTransport(bytes)) => {
            assert_eq!(bytes, frame_packet(channel::HOST_AUDIO, &[7, 8]));
        }
        other => panic!("unexpected message: {other:?}"),
    }
    match next_ipc_message(&mut ipc) {
        NextMessage::Message(StreamerIpcMessage::WebSocketTransport(bytes)) => {
            assert_eq!(bytes, [channel::HOST_VIDEO, 0, 0, 0, 3, 0xe8, 1, 2, 3]);
        }
        other => panic!("unexpected message: {other:?}"),
    }
    ipc.close();
    assert_eq!(send_audio_sample(&mut ipc, &[7]), Err(TransportClosed));
}

#[test]
fn times_wrap_in_their_fields() {
    assert_eq!(timestamp_micros(Duration::from_micros(5)), 5);
    assert_eq!(timestamp_micros(Duration::from_micros(u64::from(u32::MAX) + 3)), 2);
    assert_eq!(video_timestamp(Duration::from_secs(1)), 90_000);
    assert_eq!(video_timestamp(Duration::from_millis(1)), 90);
}

#[test]
fn inbound_messages_name_their_channel() {
    let step = |bytes: &[u8]| on_ipc_message(ServerIpcMessage::WebSocketTransport(bytes.to_vec()));
    assert_eq!(step(&[]), ServerStep::Nothing);
    assert_eq!(step(&[4, 1, 2]), ServerStep::Packet { channel: 4, body: vec![1, 2] });
    assert_eq!(on_ipc_message(ServerIpcMessage::Stop), ServerStep::Nothing);
}

#[test]
fn packets_of_the_browser_are_taken_note_of() {
    let mut recovery = VideoRecoveryState::default();
    let mut rtt = RttProbeState::new();
    let number = rtt.start_probe_if_due(start()).unwrap();
    assert_eq!(on_packet(&mut recovery, &mut rtt, &InboundPacket::RequestVideoIdr, start()), None);
    assert!(recovery.browser_requested_idr);
    let answer = InboundPacket::Rtt { sequence_number: number };
    let late = start().after(Duration::from_millis(12));
    assert_eq!(
        on_packet(&mut recovery, &mut rtt, &answer, late),
        Some(Duration::from_millis(12))
    );
    assert_eq!(on_packet(&mut recovery, &mut rtt, &answer, late), None);
}

#[test]
fn every_input_channel_has_its_place() {
    let channels = input_channels();
    assert_eq!(channels.len(), 22);
    assert!(channels
        .iter()
        .all(|channel| transport_channel_for_label(&channel.label).is_some()));
    assert_eq!(outbound_route(channel::STATS), OutboundRoute::Stats);
    assert_eq!(outbound_route(channel::GENERAL), OutboundRoute::General);
    assert_eq!(outbound_route(channel::HOST_VIDEO), OutboundRoute::Closed);
}

#[test]
fn lost_peer_gets_time_to_come_back() {
    assert_eq!(
        on_peer_connection_state_change(PeerState::Disconnected),
        PeerReaction::RequestTerminate
    );
    assert_eq!(
        on_peer_connection_state_change(PeerState::Connected),
        PeerReaction::ClearRequest
    );
    let mut state = TerminationState::new();
    let first = state.request(start());
    let second = state.request(start());
    let late = start().after(Duration::from_secs(11));
    assert!(!state.send_closed_if_current(first, late));
    assert!(!state.send_closed_if_current(second, start()));
    assert!(state.send_closed_if_current(second, late));
}

#[test]
fn browser_answers_but_does_not_offer() {
    let describe = |ty, sdp: &str| {
        on_ws_message(StreamClientMessage::WebRtc(StreamSignalingMessage::Description(
            RtcSessionDescription { ty, sdp: sdp.to_owned() },
        )))
    };
    let sdp = "v=0\r\no=- 1 2 IN IP4 127.0.0.1\r\ns=-\r\nt=0 0\r\n";
    match describe(RtcSdpType::Answer, sdp) {
        SignalingStep::SetRemoteDescription(description) => {
            assert_eq!(description.sdp, sdp);
            assert_eq!(description.sdp_type, RTCSdpType::Answer);
        }
        other => panic!("unexpected step: {other:?}"),
    }
    match describe(RtcSdpType::Pranswer, sdp) {
        SignalingStep::SetRemoteDescription(description) => {
            assert_eq!(description.sdp_type, RTCSdpType::Pranswer);
        }
        other => panic!("unexpected step: {other:?}"),
    }
    assert!(matches!(describe(RtcSdpType::Offer, sdp), SignalingStep::RefuseOffer));
    assert!(matches!(describe(RtcSdpType::Offer, "no"), SignalingStep::RefuseDescription));
    assert!(matches!(describe(RtcSdpType::Answer, "no"), SignalingStep::RefuseDescription));
    assert!(matches!(describe(RtcSdpType::Unspecified, sdp), SignalingStep::RefuseType));
    assert!(matches!(on_description(RtcSdpType::Answer, None), SignalingStep::RefuseDescription));
}

#[test]
fn units_are_split_at_start_codes() {
    let mut splitter = AnnexBSplitter::new(vec![0, 0, 0, 1, 0x67, 1, 0, 0, 1, 0x65, 2, 3], 8);
    let first = splitter.next().unwrap();
    assert_eq!(first.full[first.payload_range.start..first.payload_range.end], [0x67, 1]);
    let second = splitter.next().unwrap();
    assert_eq!(second.full[second.payload_range.start..second.payload_range.end], [0x65, 2, 3]);
    assert!(splitter.next().is_none());
}

#[test]
fn nal_headers_are_read_bit_by_bit() {
    let header = NalHeader::parse(0x67);
    assert_eq!(
        (header.forbidden_zero_bit, header.nal_ref_idc, header.nal_unit_type),
        (false, 3, 7)
    );
    let mut reader = H264Reader::new(vec![0, 0, 1, 0x65, 9], 8);
    let nal = reader.next_nal().unwrap().unwrap();
    assert_eq!(nal.header.nal_unit_type, 5);
    assert!(reader.next_nal().unwrap().is_none());
    reader.reset(vec![0, 0, 1, 0x41, 9]);
    assert_eq!(reader.next_nal().unwrap().unwrap().header.nal_unit_type, 1);
}

#[test]
fn frames_are_taken_apart_into_samples() {
    let frame = vec![0, 0, 0, 1, 0x67, 1, 0, 0, 1, 0x65, 2];
    assert_eq!(
        frame_samples(frame, H264_HEADER_SIZE),
        Some(vec![vec![0x67, 1], vec![0x65, 2]])
    );
    assert_eq!(frame_samples(vec![0, 0, 1], H264_HEADER_SIZE), None);
}

#[test]
fn sequence_numbers_wrap_and_pause() {
    let mut track = SequencedTrackLocalStaticRTP::new();
    assert_eq!(track.next_number(false), Some(0));
    assert_eq!(track.next_number(true), None);
    assert_eq!(track.next_number(false), Some(1));
    track.sequence_number = u16::MAX;
    assert_eq!(track.next_number(false), Some(u16::MAX));
    assert_eq!(track.next_number(false), Some(0));
}

#[test]
fn frames_leave_the_queue_in_order() {
    let mut sender: TrackLocalSender<u8> = TrackLocalSender::new(4);
    sender.send_samples(vec![1], false);
    sender.send_samples(vec![2], false);
    assert_eq!(sender.next_frame().map(|frame| frame.samples), Some(vec![1]));
    assert_eq!(sender.next_frame().map(|frame| frame.samples), Some(vec![2]));
    assert!(sender.next_frame().is_none());
    sender.send_samples(vec![3], true);
    sender.clear_queue(false);
    assert_eq!(sender.queue.len(), 1);
    sender.clear_queue(true);
    assert_eq!(sender.queue.len(), 0);
}

#[test]
fn last_packet_of_a_frame_is_marked() {
    let packets = packetize(vec![vec![1], vec![2], vec![3]], 4, 77, true);
    assert!(packets.iter().all(|packet| packet.sequence_number == 4));
    let marks: Vec<bool> = packets.iter().map(|packet| packet.marker).collect();
    assert_eq!(marks, [false, false, true]);
    assert!(packets.iter().all(|packet| packet.timestamp == 77 && packet.version == 2));
}

fn h264_video() -> WebRtcVideo {
    let mut video = WebRtcVideo::new(1);
    video.set_codecs(VideoFormat::H264.bit());
    assert!(video.setup(VideoFormat::H264, true));
    video
}

#[test]
fn lost_picture_waits_for_a_key_frame() {
    let mut video = h264_video();
    let frame = || vec![0, 0, 1, 0x65, 2];
    video.on_picture_loss();
    assert_eq!(video.begin_unit(frame(), false), UnitStep::NeedIdr);
    let samples = match video.begin_unit(frame(), true) {
        UnitStep::Pack(samples) => samples,
        other => panic!("unexpected step: {other:?}"),
    };
    assert_eq!(samples, [vec![0x65, 2]]);
    let payloads = vec![Some(vec![vec![0x65, 2]])];
    assert_eq!(video.finish_unit(&samples, payloads, 5, true), DecodeResult::Accepted);
    assert!(!video.awaiting_idr);
    let sent = video.sender.next_frame().unwrap();
    assert_eq!(sent.samples[0].payload, [0x65, 2]);
    assert_eq!(sent.samples[0].timestamp, 5);
}

#[test]
fn full_queue_asks_for_a_key_frame() {
    let mut video = h264_video();
    let samples = vec![vec![0x41, 2]];
    let payloads = || vec![Some(vec![vec![0x41, 2]])];
    assert_eq!(video.finish_unit(&samples, payloads(), 5, false), DecodeResult::Accepted);
    assert_eq!(video.finish_unit(&samples, payloads(), 6, false), DecodeResult::NeedIdr);
    assert!(video.awaiting_idr);
}

#[test]
fn av1_frames_are_packed() {
    let mut video = WebRtcVideo::new(2);
    video.set_codecs(VideoFormat::Av1Main8.bit());
    assert!(video.setup(VideoFormat::Av1Main8, true));
    // A frame unit with its size, and three thousand bytes in it.
    let mut unit = vec![0x32, 0xb8, 0x17];
    unit.extend_from_slice(&[7; 3_000]);
    assert!(av1_units_fit(&unit));
    assert_eq!(video.send_av1_unit(unit, 9, true), DecodeResult::Accepted);
    let frame = video.sender.next_frame().unwrap();
    assert!(frame.samples.len() >= 3);
    assert!(frame
        .samples
        .iter()
        .all(|packet| packet.payload.len() <= RTP_OUTBOUND_MTU - RTP_HEADER_SIZE));
    assert!(frame.samples.last().unwrap().marker);
    assert!(!av1_units_fit(&vec![0x32, 0x05, 1]));
}

#[test]
fn processing_times_are_summed_up_once_a_second() {
    let mut stats = VideoStats::new();
    let millis = Duration::from_millis;
    let first = stats.analyze(None, millis(2), start()).expect("the first report is due at once");
    assert!(first.host_processing_latency.is_none());
    assert_eq!(first.streamer_processing_time.average, millis(2));
    // The very first report has nothing to measure the shortest time against.
    assert_eq!(first.streamer_processing_time.shortest, millis(0));
    assert!(stats.analyze(Some(millis(4)), millis(2), start().after(millis(500))).is_none());
    assert!(stats.analyze(None, millis(6), start().after(millis(1_000))).is_none());
    let report = stats
        .analyze(Some(millis(8)), millis(4), start().after(millis(1_001)))
        .expect("a report should be due");
    assert_eq!(report.streamer_processing_time.longest, millis(6));
    assert_eq!(report.streamer_processing_time.average, millis(4));
    let host = report.host_processing_latency.expect("the host told its latency");
    assert_eq!((host.longest, host.average), (millis(8), millis(6)));
    assert_eq!(host.shortest, millis(4));
}

#[test]
fn buffers_are_joined_in_order() {
    assert_eq!(join_buffers(&vec![vec![1], vec![], vec![2, 3]]), [1, 2, 3]);
}

#[test]
fn packets_carry_delay_and_send_time() {
    let extensions = register_header_extensions();
    assert_eq!(extensions.len(), 4);
    assert_eq!(extensions[2].uri, webrtc::sdp::extmap::ABS_SEND_TIME_URI);
    assert_eq!(extensions[1].kind, MediaKind::Audio);
    assert!(extensions[0].uri.ends_with("/playout-delay"));
}

#[test]
fn reader_reads_as_a_new_one_after_a_reset() {
    let mut reader = H264Reader::new(vec![0, 0, 1, 0x65, 9], 8);
    while reader.next_nal().unwrap().is_some() {}
    assert!(reader.next_nal().unwrap().is_none());
    let bytes = vec![0, 0, 0, 1, 0x41, 5, 0, 0, 1, 0x06, 3];
    reader.reset(bytes.clone());
    let mut fresh = H264Reader::new(bytes, 64);
    for _ in 0..4 {
        assert_eq!(reader.next_nal(), fresh.next_nal());
    }
}

#[test]
fn broken_av1_frame_is_not_read_while_a_key_frame_is_awaited() {
    let mut video = WebRtcVideo::new(2);
    video.set_codecs(VideoFormat::Av1Main8.bit());
    assert!(video.setup(VideoFormat::Av1Main8, true));
    video.on_picture_loss();
    let broken = vec![0x32, 0x05, 1];
    assert!(!av1_units_fit(&broken));
    assert_eq!(video.send_av1_unit(broken, 9, false), DecodeResult::NeedIdr);
}

#[test]
fn format_that_was_not_asked_for_is_refused() {
    let mut video = WebRtcVideo::new(1);
    video.set_codecs(VideoFormat::H264.bit() | VideoFormat::H265.bit());
    match video.setup_step(VideoFormat::Av1Main8) {
        VideoSetupStep::Refuse(StreamServerMessage::DebugLog { message, ty }) => {
            assert_eq!(
                message,
                "The host tried to setup a video stream with a non supported video format: \
                 Av1Main8, supported formats: 257"
            );
            assert!(matches!(ty, Some(LogMessageType::FatalDescription)));
        }
        other => panic!("unexpected step: {other:?}"),
    }
    assert!(!video.setup(VideoFormat::Av1Main8, true));
    assert!(!video.setup(VideoFormat::H265, false));
    assert!(video.codec.is_none());
    assert_eq!(video.clock_rate, 0);
    match video.setup_step(VideoFormat::H265) {
        VideoSetupStep::CreateTrack(codec) => assert_eq!(codec.payload_type, 98),
        other => panic!("unexpected step: {other:?}"),
    }
    assert!(video.setup(VideoFormat::H265, true));
    assert_eq!(video.codec, Some(VideoCodec::H265));
    assert_eq!(video.clock_rate, 90_000);
}

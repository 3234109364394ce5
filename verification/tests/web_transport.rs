//! Media and input over WebTransport.

use moonlight_web::channel;
use moonlight_web::ipc::NetworkFeedback;
use moonlight_web::time::{Duration, Instant};
use moonlight_web::web_transport::connection::{
    BrowserConnection, ConnectionAction, ConnectionEvent, WebTransportConnectionState,
};
use moonlight_web::web_transport::datagram::{
    advance_cumulative, is_newer_u16, is_newer_u32, is_snapshot_envelope, split_mouse_delta,
    CumulativePoint, DatagramState, DATAGRAM_HIGH_RES_SCROLL, DATAGRAM_MAGIC,
    DATAGRAM_RELATIVE_MOTION, DATAGRAM_SNAPSHOT,
};
use moonlight_web::web_transport::endpoint::{EndpointError, PublicEndpoint, PROTOCOL_VERSION};
use moonlight_web::web_transport::framing::{
    decode_frame_length, decode_reliable_inbound_frame_length, encode_frame_length,
    encode_video_stream_header, video_stream_inactivity_timeout, video_stream_superseded_code,
    video_stream_timeout_code, webtransport_application_error_code, ConnectionStage,
    LANE_RELIABLE_INBOUND, LANE_VIDEO, MAX_FRAME_BYTES, MAX_RELIABLE_INBOUND_FRAME_BYTES,
    VIDEO_STREAM_SUPERSEDED_APPLICATION_CODE, VIDEO_STREAM_TIMEOUT_APPLICATION_CODE,
    WEBTRANSPORT_APPLICATION_ERROR_FIRST,
};
use moonlight_web::web_transport::hub::{
    requests_draft02_response, AdmissionError, RegisterError, WebTransportHub,
    DRAFT02_REQUEST_HEADER,
};
use moonlight_web::web_transport::origin::canonicalize_https_origin;
use moonlight_web::web_transport::reliable::{
    reliable_replacement_key, NextFrame, Offered, ReliableOutboundQueue, ReliableReplacementKey,
};
use moonlight_web::web_transport::tokens::{
    decode_token, encode_token, hash_token, PendingBridge, TokenConsumeRejection, TokenStore,
    MAX_PENDING_TOKENS,
};
use moonlight_web::web_transport::video::{
    CongestionCounters, Dispatched, NextVideoFrame, OutboundDispatcher, VideoAdmissionQueue,
    VideoRecovery, VIDEO_QUEUE_CAPACITY,
};
use moonlight_web::web_transport::video_writer::{
    retire_video_stream, video_write_outcome_requires_recovery, Acknowledgement, Retirement,
    TaskEnd, VideoStreamWrite, VideoStreamWriteOutcome, VideoWriteTask, VideoWriter,
    VideoWriterBudget, WriteAction, WriteEvent, MAX_VIDEO_DELTA_IN_FLIGHT_BYTES,
    MAX_VIDEO_DELTA_IN_FLIGHT_STREAMS,
};

fn now() -> Instant {
    Instant::at(Duration::from_secs(100))
}

#[test]
fn video_reset_codes_use_webtransport_application_error_mapping() {
    assert_eq!(
        video_stream_timeout_code(),
        WEBTRANSPORT_APPLICATION_ERROR_FIRST + u64::from(VIDEO_STREAM_TIMEOUT_APPLICATION_CODE)
    );
    assert_eq!(
        video_stream_superseded_code(),
        WEBTRANSPORT_APPLICATION_ERROR_FIRST + u64::from(VIDEO_STREAM_SUPERSEDED_APPLICATION_CODE)
    );

    // Crossing application code 0x1e must skip the HTTP/3 grease value.
    assert_eq!(
        webtransport_application_error_code(0x1e),
        WEBTRANSPORT_APPLICATION_ERROR_FIRST + 0x1f
    );
}

#[test]
fn draft02_response_requires_exact_client_advertisement() {
    let mut headers = Vec::new();
    assert!(!requests_draft02_response(&headers));

    headers.push((DRAFT02_REQUEST_HEADER.to_owned(), "0".to_owned()));
    assert!(!requests_draft02_response(&headers));

    headers[0].1 = "1".to_owned();
    assert!(requests_draft02_response(&headers));
}

fn pending(hash: [u8; 32], expires_at: Instant) -> PendingBridge<u8> {
    PendingBridge {
        hash,
        expires_at,
        expected_origin: "https://example.test".to_owned(),
        shut_down: false,
        bridge: 0,
    }
}

#[test]
fn token_is_one_use_and_expires() {
    let now = now();
    let first = hash_token(&[1; 32]);
    let expired = hash_token(&[2; 32]);
    let shut_down = hash_token(&[3; 32]);
    let mut store = TokenStore::new();
    assert!(store.insert(pending(first, now.after(Duration::from_secs(1))), now));
    assert!(store.insert(pending(expired, now), now));
    assert!(store.insert(pending(shut_down, now.after(Duration::from_secs(1))), now));
    store.shut_down(&shut_down);

    assert!(store.consume(&first, "https://example.test", now).is_ok());
    assert!(matches!(
        store.consume(&first, "https://example.test", now),
        Err(TokenConsumeRejection::Unknown)
    ));
    assert!(matches!(
        store.consume(&expired, "https://example.test", now),
        Err(TokenConsumeRejection::Unknown)
    ));
    assert!(matches!(
        store.consume(&shut_down, "https://example.test", now),
        Err(TokenConsumeRejection::Unknown)
    ));
}

#[test]
fn wrong_origin_does_not_consume_token() {
    let now = now();
    let token = hash_token(&[4; 32]);
    let mut store = TokenStore::new();
    assert!(store.insert(pending(token, now.after(Duration::from_secs(1))), now));

    assert!(matches!(
        store.consume(&token, "https://evil.test", now),
        Err(TokenConsumeRejection::OriginMismatch)
    ));
    assert!(store.consume(&token, "https://example.test", now).is_ok());
}

#[test]
fn frame_length_codec_is_big_endian_and_bounded() {
    assert_eq!(encode_frame_length(0x01_02_03).unwrap(), [0, 1, 2, 3]);
    assert_eq!(decode_frame_length([0, 1, 2, 3]).unwrap(), 0x01_02_03);
    assert!(encode_frame_length(0).is_err());
    assert!(encode_frame_length(MAX_FRAME_BYTES + 1).is_err());
    assert!(decode_frame_length([0, 0, 0, 0]).is_err());
    assert!(decode_frame_length(u32::MAX.to_be_bytes()).is_err());
    assert_eq!(
        decode_reliable_inbound_frame_length(
            (MAX_RELIABLE_INBOUND_FRAME_BYTES as u32).to_be_bytes()
        )
        .unwrap(),
        MAX_RELIABLE_INBOUND_FRAME_BYTES
    );
    assert!(decode_reliable_inbound_frame_length(
        (MAX_RELIABLE_INBOUND_FRAME_BYTES as u32 + 1).to_be_bytes()
    )
    .is_err());
}

#[test]
fn video_stream_header_matches_browser_wire_format() {
    assert_eq!(
        encode_video_stream_header(0x0102_0304, 0x0006_0708).unwrap(),
        [LANE_VIDEO, 1, 2, 3, 4, 0, 6, 7, 8]
    );
    assert_eq!(
        encode_video_stream_header(u32::MAX, MAX_FRAME_BYTES).unwrap(),
        [LANE_VIDEO, 0xff, 0xff, 0xff, 0xff, 1, 0, 0, 0]
    );
    assert!(encode_video_stream_header(0, 0).is_err());
    assert!(encode_video_stream_header(0, MAX_FRAME_BYTES + 1).is_err());
}

#[test]
fn video_writer_reserves_stream_and_byte_budget_for_an_idr() {
    let mut budget = VideoWriterBudget::default();
    for _ in 0..MAX_VIDEO_DELTA_IN_FLIGHT_STREAMS {
        budget.take_up(1, false);
    }

    assert!(!budget.can_admit(1, false));
    assert!(budget.can_admit(MAX_FRAME_BYTES, true));

    let mut byte_limited = VideoWriterBudget::default();
    byte_limited.take_up(MAX_VIDEO_DELTA_IN_FLIGHT_BYTES, false);
    assert!(!byte_limited.can_admit(1, false));
    assert!(byte_limited.can_admit(MAX_FRAME_BYTES, true));
}

#[test]
fn idr_inactivity_timeout_scales_with_rtt_and_is_bounded() {
    assert_eq!(
        video_stream_inactivity_timeout(true, Duration::from_millis(10)),
        Duration::from_millis(500)
    );
    assert_eq!(
        video_stream_inactivity_timeout(true, Duration::from_millis(250)),
        Duration::from_secs(1)
    );
    assert_eq!(
        video_stream_inactivity_timeout(true, Duration::from_millis(600)),
        Duration::from_secs(2)
    );
    assert_eq!(
        video_stream_inactivity_timeout(true, Duration::longest()),
        Duration::from_secs(2)
    );
}

#[test]
fn delta_inactivity_timeout_stays_latency_bounded() {
    assert_eq!(
        video_stream_inactivity_timeout(false, Duration::from_secs(10)),
        Duration::from_millis(500)
    );
}

#[test]
fn feedback_snapshot_saturates_rtt_and_reads_cumulative_counters() {
    let counters = CongestionCounters {
        admission_drops: 5,
        video_write_timeouts: 2,
        recovery_requests: 3,
    };

    assert_eq!(
        counters.snapshot(Duration::from_millis(47), 1_000, 7, 4),
        NetworkFeedback {
            rtt_ms: 47,
            sent_packets: 1_000,
            lost_packets: 7,
            congestion_events: 4,
            admission_drops: 5,
            video_write_timeouts: 2,
            recovery_requests: 3,
        }
    );
    assert_eq!(
        counters
            .snapshot(Duration::from_millis(u64::from(u32::MAX) + 1), 0, 0, 0)
            .rtt_ms,
        u32::MAX
    );
}

fn task(generation: u64) -> VideoWriteTask {
    VideoWriteTask { sequence: 1, generation, frame: vec![channel::HOST_VIDEO, 0, 9], is_idr: false }
}

#[test]
fn recovery_generation_advance_wakes_obsolete_sibling_writers() {
    let mut writer = VideoWriter::new();
    writer.gop_generation = 7;
    let mut sibling = VideoStreamWrite::begin(&task(7));
    // This is the same transition used after a current-generation timeout
    // or admission drop, before an IDR has arrived.
    writer.on_stream_stopped(7, &mut VideoRecovery::new(), true);
    assert_eq!(writer.gop_generation, 8);
    assert!(matches!(
        sibling.on_event(WriteEvent::Superseded, writer.gop_generation),
        WriteAction::End { outcome: VideoStreamWriteOutcome::Superseded, .. }
    ));
}

#[test]
fn only_current_timeout_or_peer_stop_requires_video_recovery() {
    assert!(video_write_outcome_requires_recovery(VideoStreamWriteOutcome::TimedOut, 9, 9));
    assert!(video_write_outcome_requires_recovery(VideoStreamWriteOutcome::Stopped, 9, 9));
    assert!(!video_write_outcome_requires_recovery(VideoStreamWriteOutcome::Stopped, 8, 9));
    assert!(!video_write_outcome_requires_recovery(VideoStreamWriteOutcome::Complete, 9, 9));
    assert!(!video_write_outcome_requires_recovery(VideoStreamWriteOutcome::Superseded, 9, 9));
}

#[test]
fn public_endpoint_requires_exact_authority_path_and_protocol() {
    assert!(PublicEndpoint::parse("https://example.test/transport").is_err());
    let endpoint = PublicEndpoint::parse("https://example.test:443/transport").unwrap();
    let token = [7_u8; 32];
    let encoded = encode_token(&token);
    let path = format!("/transport?v={PROTOCOL_VERSION}&token={encoded}");
    assert_eq!(
        endpoint.setup_url("setup-token"),
        "https://example.test:443/transport?v=4&token=setup-token"
    );
    assert_eq!(endpoint.validate_request("example.test", &path), Some(hash_token(&token)));
    assert_eq!(endpoint.validate_request("example.test:443", &path), Some(hash_token(&token)));
    assert!(endpoint.validate_request("evil.test", &path).is_none());
    assert!(endpoint
        .validate_request("example.test", &format!("/transport?v=3&token={encoded}"))
        .is_none());
    assert!(endpoint.validate_request("example.test", "/other?v=1&token=x").is_none());
}

#[test]
fn https_origins_are_strictly_canonicalized() {
    assert_eq!(
        canonicalize_https_origin("HTTPS://Example.TEST:443"),
        Some("https://example.test".to_owned())
    );
    assert_eq!(
        canonicalize_https_origin("https://Example.TEST:8443"),
        Some("https://example.test:8443".to_owned())
    );
    assert_eq!(
        canonicalize_https_origin("https://[::1]:443"),
        Some("https://[::1]".to_owned())
    );
    for invalid in [
        "null",
        "http://example.test",
        "https://user@example.test",
        "https://example.test/",
        "https://example.test?x=1",
        "https://example.test#fragment",
        "https://example.test:not-a-port",
    ] {
        assert_eq!(canonicalize_https_origin(invalid), None, "{invalid}");
    }
}

/// Sends every frame to its lane, as the dispatcher of a connection does.
fn dispatch(
    frames: &[Vec<u8>],
    queue: &mut VideoAdmissionQueue,
    recovery: &mut VideoRecovery,
) -> Vec<Dispatched> {
    let mut dispatcher = OutboundDispatcher::new();
    frames
        .iter()
        .map(|frame| dispatcher.dispatch_outbound(frame.clone(), queue, recovery, true))
        .collect()
}

#[test]
fn reliable_outbound_congestion_applies_backpressure_without_dropping() {
    let first = vec![channel::GENERAL, 1];
    let second = vec![channel::GENERAL, 2];
    let dispatched = dispatch(
        &[first.clone(), second.clone()],
        &mut VideoAdmissionQueue::new(),
        &mut VideoRecovery::new(),
    );
    assert_eq!(
        dispatched,
        vec![Dispatched::Reliable(first.clone()), Dispatched::Reliable(second.clone())]
    );

    let mut other = ReliableOutboundQueue::new(1);
    assert_eq!(other.offer(first.clone()), Offered::Queued);
    // The second critical frame has to wait for room.
    assert_eq!(other.offer(second.clone()), Offered::Wait(second.clone()));
    assert_eq!(other.next(), NextFrame::Frame(first));
    assert_eq!(other.offer(second.clone()), Offered::Queued);
    other.close_producer();
    assert_eq!(other.next(), NextFrame::Frame(second));
    assert_eq!(other.next(), NextFrame::Closed);
}

fn stats_frame(kind: &str, marker: u8) -> Vec<u8> {
    let json = format!(r#"{{"{kind}":{{"marker":{marker}}}}}"#);
    let mut frame = Vec::with_capacity(json.len() + 3);
    frame.push(channel::STATS);
    frame.extend_from_slice(&(json.len() as u16).to_be_bytes());
    frame.extend_from_slice(json.as_bytes());
    frame
}

#[test]
fn reliable_outbound_replaces_stale_snapshots_and_preserves_critical_order() {
    let mut queue = ReliableOutboundQueue::new(6);
    let first = vec![channel::GENERAL, 1];
    let stale_stats = stats_frame("Video", 1);
    let stale_rtt = vec![channel::RTT, 0, 0, 1];
    let second = vec![channel::GENERAL, 2];
    let fresh_stats = stats_frame("Video", 2);
    let fresh_rtt = vec![channel::RTT, 0, 0, 2];

    for frame in [&first, &stale_stats, &stale_rtt, &second, &fresh_stats, &fresh_rtt] {
        assert_eq!(queue.offer(frame.clone()), Offered::Queued);
    }
    queue.close_producer();

    assert_eq!(queue.next(), NextFrame::Frame(first));
    assert_eq!(queue.next(), NextFrame::Frame(second));
    assert_eq!(queue.next(), NextFrame::Frame(fresh_stats));
    assert_eq!(queue.next(), NextFrame::Frame(fresh_rtt));
    assert_eq!(queue.next(), NextFrame::Closed);
}

#[test]
fn reliable_outbound_keeps_independent_snapshot_kinds() {
    let mut queue = ReliableOutboundQueue::new(4);
    let stale_video = stats_frame("Video", 1);
    let stats_rtt = stats_frame("Rtt", 2);
    let fresh_video = stats_frame("Video", 3);
    let transport_rtt = vec![channel::RTT, 0, 0, 4];

    for frame in [&stale_video, &stats_rtt, &fresh_video, &transport_rtt] {
        assert_eq!(queue.offer(frame.clone()), Offered::Queued);
    }
    queue.close_producer();

    assert_eq!(queue.next(), NextFrame::Frame(stats_rtt));
    assert_eq!(queue.next(), NextFrame::Frame(fresh_video));
    assert_eq!(queue.next(), NextFrame::Frame(transport_rtt));
    assert_eq!(queue.next(), NextFrame::Closed);
}

#[test]
fn stream_control_is_strict_fifo_and_never_replaced() {
    let first = vec![channel::STREAM_CONTROL, b'1'];
    let second = vec![channel::STREAM_CONTROL, b'2'];
    assert_eq!(reliable_replacement_key(&first), None);
    assert_eq!(reliable_replacement_key(&second), None);

    let mut queue = ReliableOutboundQueue::new(2);
    assert_eq!(queue.offer(first.clone()), Offered::Queued);
    assert_eq!(queue.offer(second.clone()), Offered::Queued);
    queue.close_producer();

    assert_eq!(queue.next(), NextFrame::Frame(first));
    assert_eq!(queue.next(), NextFrame::Frame(second));
    assert_eq!(queue.next(), NextFrame::Closed);
}

#[test]
fn reliable_outbound_strict_admission_evicts_oldest_replaceable_when_full() {
    let mut queue = ReliableOutboundQueue::new(2);
    let stale_stats = stats_frame("Video", 1);
    let existing_strict = vec![channel::GENERAL, 1];
    let new_strict = vec![channel::GENERAL, 2];

    for frame in [&stale_stats, &existing_strict, &new_strict] {
        assert_eq!(queue.offer(frame.clone()), Offered::Queued);
    }
    queue.close_producer();

    assert_eq!(queue.next(), NextFrame::Frame(existing_strict));
    assert_eq!(queue.next(), NextFrame::Frame(new_strict));
    assert_eq!(queue.next(), NextFrame::Closed);
}

#[test]
fn reliable_outbound_drops_new_snapshot_when_full_of_strict_frames() {
    let mut queue = ReliableOutboundQueue::new(2);
    let first = vec![channel::GENERAL, 1];
    let second = vec![channel::GENERAL, 2];
    let rtt = vec![channel::RTT, 0, 0, 3];

    assert_eq!(queue.offer(first.clone()), Offered::Queued);
    assert_eq!(queue.offer(second.clone()), Offered::Queued);
    // Replaceable telemetry must not wait behind strict frames.
    assert_eq!(queue.offer(rtt), Offered::Discarded);
    queue.close_producer();

    assert_eq!(queue.next(), NextFrame::Frame(first));
    assert_eq!(queue.next(), NextFrame::Frame(second));
    assert_eq!(queue.next(), NextFrame::Closed);
}

#[test]
fn reliable_outbound_closure_wakes_waiters_and_drains_after_sender_close() {
    let mut queue = ReliableOutboundQueue::new(1);
    let frame = vec![channel::GENERAL, 1];
    assert_eq!(queue.offer(frame.clone()), Offered::Queued);
    queue.close_producer();
    assert_eq!(queue.next(), NextFrame::Frame(frame));
    assert_eq!(queue.next(), NextFrame::Closed);

    let mut queue = ReliableOutboundQueue::new(1);
    queue.close_consumer();
    assert_eq!(queue.offer(vec![channel::GENERAL]), Offered::Closed);

    let mut queue = ReliableOutboundQueue::new(1);
    assert_eq!(queue.offer(vec![channel::GENERAL, 1]), Offered::Queued);
    let blocked = match queue.offer(vec![channel::GENERAL, 2]) {
        Offered::Wait(frame) => frame,
        other => panic!("unexpected outcome: {other:?}"),
    };
    queue.close_consumer();
    assert_eq!(queue.offer(blocked), Offered::Closed);

    let mut queue = ReliableOutboundQueue::new(1);
    assert_eq!(queue.next(), NextFrame::Pending);
    queue.close_producer();
    assert_eq!(queue.next(), NextFrame::Closed);
}

#[test]
fn dropping_a_delta_after_a_queued_idr_requests_a_fresh_idr() {
    let mut queue = VideoAdmissionQueue::new();
    let idr = vec![channel::HOST_VIDEO, 1, 0xaa];
    let mut frames = vec![idr.clone()];
    for index in 0..VIDEO_QUEUE_CAPACITY {
        frames.push(vec![channel::HOST_VIDEO, 0, index as u8]);
    }
    let dispatched = dispatch(&frames, &mut queue, &mut VideoRecovery::new());

    assert_eq!(queue.next(), NextVideoFrame::Frame(idr));
    assert_eq!(
        dispatched.last(),
        Some(&Dispatched::VideoDropped {
            request: Some([channel::HOST_VIDEO, 0]),
            newly_congested: true,
        })
    );
}

#[test]
fn idr_supersedes_a_full_stale_delta_queue() {
    let mut queue = VideoAdmissionQueue::new();
    let mut frames = Vec::new();
    for index in 0..VIDEO_QUEUE_CAPACITY {
        frames.push(vec![channel::HOST_VIDEO, 0, index as u8]);
    }
    let idr = vec![channel::HOST_VIDEO, 1, 0xcc];
    frames.push(idr.clone());
    let dispatched = dispatch(&frames, &mut queue, &mut VideoRecovery::new());
    queue.close_producer();

    assert_eq!(queue.next(), NextVideoFrame::Frame(idr));
    assert_eq!(queue.next(), NextVideoFrame::Closed);
    assert!(dispatched
        .iter()
        .all(|dispatched| matches!(dispatched, Dispatched::Video { .. })));
}

#[test]
fn failed_video_recovery_request_is_retried_after_capacity_returns() {
    let mut recovery = VideoRecovery::new();

    // This models the first timeout attempt racing a full input queue.
    assert_eq!(recovery.try_enqueue_video_recovery_request(false), None);
    assert!(!recovery.enqueued);

    // A subsequent discarded delta retries instead of waiting forever
    // for an IDR that was never requested.
    assert_eq!(
        recovery.try_enqueue_video_recovery_request(true),
        Some([channel::HOST_VIDEO, 0])
    );
    assert!(recovery.enqueued);

    // Once latched, later deltas do not create an IDR request storm.
    assert_eq!(recovery.try_enqueue_video_recovery_request(true), None);
    assert_eq!(recovery.counters.recovery_requests, 1);
}

#[test]
fn short_video_burst_does_not_trigger_false_congestion_recovery() {
    let mut queue = VideoAdmissionQueue::new();
    let frames: Vec<Vec<u8>> = (0..VIDEO_QUEUE_CAPACITY)
        .map(|index| vec![channel::HOST_VIDEO, u8::from(index == 0), index as u8])
        .collect();
    let dispatched = dispatch(&frames, &mut queue, &mut VideoRecovery::new());

    for frame in frames {
        assert_eq!(queue.next(), NextVideoFrame::Frame(frame));
    }
    assert!(dispatched
        .iter()
        .all(|dispatched| matches!(dispatched, Dispatched::Video { .. })));
}

#[test]
fn cumulative_motion_recovers_loss_and_rejects_reordering() {
    let mut state = DatagramState::default();
    let packet = |sequence: u32, x: i32, y: i32| {
        let mut bytes = vec![DATAGRAM_MAGIC, DATAGRAM_RELATIVE_MOTION];
        bytes.extend_from_slice(&9_u16.to_be_bytes());
        bytes.extend_from_slice(&sequence.to_be_bytes());
        bytes.extend_from_slice(&x.to_be_bytes());
        bytes.extend_from_slice(&y.to_be_bytes());
        bytes
    };

    assert_eq!(state.decode(&packet(1, 4, -2)).unwrap()[0], [6, 0, 0, 4, 0xff, 0xfe]);
    // Sequence 2 is lost. The cumulative value in 3 recovers both deltas.
    assert_eq!(state.decode(&packet(3, 15, 6)).unwrap()[0], [6, 0, 0, 11, 0, 8]);
    assert!(state.decode(&packet(2, 8, 2)).is_none());
    assert!(state.decode(&packet(3, 15, 6)).is_none());
}

#[test]
fn cumulative_epoch_and_sequence_wrap_are_newer() {
    assert!(is_newer_u32(0, u32::MAX));
    assert!(is_newer_u16(0, u16::MAX));
    assert!(!is_newer_u32(u32::MAX, 0));
    assert!(!is_newer_u16(u16::MAX, 0));
}

#[test]
fn large_relative_delta_is_split_into_valid_i16_packets() {
    let frames = split_mouse_delta(0, 70_000, -70_000);
    assert_eq!(frames.len(), 3);
    assert!(frames.iter().all(|frame| frame.len() == 6));
    let sum_x: i32 = frames
        .iter()
        .map(|frame| i16::from_be_bytes([frame[2], frame[3]]) as i32)
        .sum();
    let sum_y: i32 = frames
        .iter()
        .map(|frame| i16::from_be_bytes([frame[4], frame[5]]) as i32)
        .sum();
    assert_eq!((sum_x, sum_y), (70_000, -70_000));
}

#[test]
fn snapshot_is_channel_prefixed_and_sequenced() {
    let mut state = DatagramState::default();
    let mut packet = vec![DATAGRAM_MAGIC, DATAGRAM_SNAPSHOT, channel::CONTROLLER0];
    packet.extend_from_slice(&2_u16.to_be_bytes());
    packet.extend_from_slice(&10_u32.to_be_bytes());
    packet.extend_from_slice(&[0xaa, 0xbb]);
    assert_eq!(state.decode(&packet).unwrap()[0], [channel::CONTROLLER0, 0xaa, 0xbb]);
    assert!(state.decode(&packet).is_none());

    let mut invalid = vec![DATAGRAM_MAGIC, DATAGRAM_SNAPSHOT, channel::KEYBOARD];
    invalid.extend_from_slice(&2_u16.to_be_bytes());
    invalid.extend_from_slice(&11_u32.to_be_bytes());
    invalid.push(0xaa);
    assert!(state.decode(&invalid).is_none());

    let mut control = vec![DATAGRAM_MAGIC, DATAGRAM_SNAPSHOT, channel::STREAM_CONTROL];
    control.extend_from_slice(&2_u16.to_be_bytes());
    control.extend_from_slice(&12_u32.to_be_bytes());
    control.push(0xaa);
    assert!(state.decode(&control).is_none());
}

#[test]
fn reliable_snapshot_barrier_rejects_a_delayed_older_datagram() {
    let packet = |sequence: u32, value: u8| {
        let mut bytes = vec![DATAGRAM_MAGIC, DATAGRAM_SNAPSHOT, channel::MOUSE_ABSOLUTE];
        bytes.extend_from_slice(&7_u16.to_be_bytes());
        bytes.extend_from_slice(&sequence.to_be_bytes());
        bytes.push(value);
        bytes
    };
    let mut shared_state = DatagramState::default();

    // The reliable fallback uses the same envelope and advances the state
    // shared with the datagram reader.
    let reliable = packet(11, 0xbb);
    assert!(is_snapshot_envelope(&reliable));
    assert_eq!(
        shared_state.decode(&reliable).unwrap()[0],
        [channel::MOUSE_ABSOLUTE, 0xbb]
    );

    // An older datagram that was already in the network is ignored.
    assert!(shared_state.decode(&packet(10, 0xaa)).is_none());
    assert_eq!(
        shared_state.decode(&packet(12, 0xcc)).unwrap()[0],
        [channel::MOUSE_ABSOLUTE, 0xcc]
    );

    // The inverse arrival order is monotonic too: an earlier datagram can
    // be delivered first, then the newer reliable snapshot supersedes it.
    let mut datagram_first = DatagramState::default();
    assert_eq!(
        datagram_first.decode(&packet(10, 0xaa)).unwrap()[0],
        [channel::MOUSE_ABSOLUTE, 0xaa]
    );
    assert_eq!(
        datagram_first.decode(&reliable).unwrap()[0],
        [channel::MOUSE_ABSOLUTE, 0xbb]
    );
    assert!(datagram_first.decode(&reliable).is_none());
    assert!(!is_snapshot_envelope(&[channel::KEYBOARD, 0x01]));
}

#[test]
fn token_text_is_lower_case_hex() {
    let mut token = [0_u8; 32];
    token[0] = 0xaf;
    token[31] = 0x09;
    let text = encode_token(&token);
    assert_eq!(text.len(), 64);
    assert!(text.starts_with("af00") && text.ends_with("0009"));
    assert_eq!(decode_token(&text), Some(hash_token(&token)));
    assert_eq!(decode_token(&text.to_uppercase()), None);
    assert_eq!(decode_token(&text[1..]), None);
}

#[test]
fn token_hash_is_sha256() {
    // The digest of thirty-two zero bytes.
    assert_eq!(
        encode_token(&hash_token(&[0; 32])),
        "66687aadf862bd776c8fc18b8e9f8e20089714856ee233b3902a591d0d5f2925"
    );
}

#[test]
fn endpoints_are_rejected_for_the_right_reason() {
    let error = |url: &str| PublicEndpoint::parse(url).err();
    assert_eq!(error("http://example.test:443/t"), Some(EndpointError::NotHttps));
    assert_eq!(error("https://example.test:443/t?x"), Some(EndpointError::QueryOrFragment));
    assert_eq!(error("https://example.test:443/t#x"), Some(EndpointError::QueryOrFragment));
    assert_eq!(error("https://exa mple:443/t"), Some(EndpointError::InvalidAuthority));
    assert_eq!(error("https://example.test/t"), Some(EndpointError::MissingPort));
    assert_eq!(error("https://example.test:443/a\rb"), Some(EndpointError::InvalidPath));
    let bare = PublicEndpoint::parse("https://example.test:443").unwrap();
    assert_eq!((bare.path.as_str(), bare.public_url.as_str()), ("/", "https://example.test:443/"));
}

fn hub() -> WebTransportHub<&'static str> {
    let endpoint = PublicEndpoint::parse("https://example.test:443/transport").unwrap();
    WebTransportHub::new(endpoint, Duration::from_secs(30))
}

#[test]
fn registered_session_is_found_by_its_token_once() {
    let mut hub = hub();
    let token = [5_u8; 32];
    let registered = hub
        .register_with_token("https://Example.test:443", &token, "bridge", now())
        .unwrap();
    assert_eq!(registered.token_hash, hash_token(&token));
    let path = registered.setup_url["https://example.test:443".len()..].to_owned();
    let mut accept = |origin| hub.accept_request("example.test", &path, origin, now());
    assert_eq!(accept(None), Err(AdmissionError::InvalidOrigin));
    assert_eq!(
        accept(Some("https://evil.test")),
        Err(AdmissionError::Token(TokenConsumeRejection::OriginMismatch))
    );
    assert_eq!(accept(Some("https://example.test")), Ok("bridge"));
    assert_eq!(
        accept(Some("https://example.test")),
        Err(AdmissionError::Token(TokenConsumeRejection::Unknown))
    );
    assert_eq!(
        hub.accept_request("evil.test", &path, Some("https://example.test"), now()),
        Err(AdmissionError::InvalidRequest)
    );
}

#[test]
fn random_tokens_differ() {
    let mut hub = hub();
    let first = hub.register_for_origin("https://example.test", "a", now()).unwrap();
    let second = hub.register_for_origin("https://example.test", "b", now()).unwrap();
    assert!(first.token_hash != second.token_hash);
    assert!(first.setup_url != second.setup_url);
}

#[test]
fn registrations_are_refused_for_the_right_reason() {
    let mut hub = hub();
    assert_eq!(
        hub.register_with_token("http://example.test", &[1; 32], "x", now()).err(),
        Some(RegisterError::InvalidOrigin)
    );
    for index in 0..MAX_PENDING_TOKENS {
        let mut token = [0_u8; 32];
        token[0] = (index % 256) as u8;
        token[1] = (index / 256) as u8;
        assert!(hub.register_with_token("https://example.test", &token, "x", now()).is_ok());
    }
    assert_eq!(
        hub.register_with_token("https://example.test", &[9; 32], "x", now()).err(),
        Some(RegisterError::TooManyPending)
    );
    let later = now().after(Duration::from_secs(30));
    assert!(hub.register_with_token("https://example.test", &[9; 32], "x", later).is_ok());
}

#[test]
fn grease_values_are_left_out_of_error_codes() {
    assert_eq!(
        webtransport_application_error_code(0x1d),
        WEBTRANSPORT_APPLICATION_ERROR_FIRST + 0x1d
    );
    let codes: Vec<u64> = (0..100).map(webtransport_application_error_code).collect();
    assert!(codes.windows(2).all(|pair| pair[0] < pair[1]));
}

#[test]
fn motion_of_a_new_epoch_counts_from_zero() {
    let mut point = None;
    let at = |epoch, sequence, x, y| CumulativePoint { epoch, sequence, x, y };
    assert_eq!(advance_cumulative(&mut point, at(1, 5, 100, 0)), Some((100, 0)));
    assert_eq!(advance_cumulative(&mut point, at(2, 1, 7, -7)), Some((7, -7)));
    assert_eq!(advance_cumulative(&mut point, at(1, 9, 200, 0)), None);
}

#[test]
fn scroll_and_motion_are_counted_apart() {
    let packet = |kind: u8, x: i32| {
        let mut bytes = vec![DATAGRAM_MAGIC, kind];
        bytes.extend_from_slice(&1_u16.to_be_bytes());
        bytes.extend_from_slice(&1_u32.to_be_bytes());
        bytes.extend_from_slice(&x.to_be_bytes());
        bytes.extend_from_slice(&0_i32.to_be_bytes());
        bytes
    };
    let mut state = DatagramState::default();
    assert!(state.decode(&packet(DATAGRAM_RELATIVE_MOTION, 3)).is_some());
    assert!(state.decode(&packet(DATAGRAM_HIGH_RES_SCROLL, 3)).is_some());
    assert!(state.decode(&packet(9, 3)).is_none());
    assert!(state.decode(&[]).is_none());
}

#[test]
fn kinds_of_snapshots_are_told_apart() {
    assert_eq!(
        reliable_replacement_key(&stats_frame("Video", 1)),
        Some(ReliableReplacementKey::StatsVideo)
    );
    assert_eq!(
        reliable_replacement_key(&stats_frame("Rtt", 1)),
        Some(ReliableReplacementKey::StatsRtt)
    );
    assert_eq!(
        reliable_replacement_key(&stats_frame("BrowserRtt", 1)),
        Some(ReliableReplacementKey::StatsBrowserRtt)
    );
    assert_eq!(
        reliable_replacement_key(&[channel::RTT, 0, 0, 1]),
        Some(ReliableReplacementKey::Rtt)
    );
    assert_eq!(reliable_replacement_key(&[]), None);
}

#[test]
fn one_key_frame_is_asked_for_until_it_comes() {
    let mut recovery = VideoRecovery::new();
    assert!(recovery.try_enqueue_video_recovery_request(true).is_some());
    assert!(recovery.try_enqueue_video_recovery_request(true).is_none());
    recovery.clear();
    assert!(recovery.try_enqueue_video_recovery_request(true).is_some());
}

#[test]
fn recovering_writer_waits_for_a_key_frame() {
    let mut writer = VideoWriter::new();
    let mut recovery = VideoRecovery::new();
    let delta = vec![channel::HOST_VIDEO, 0, 1];
    let key = vec![channel::HOST_VIDEO, 1, 2];
    assert!(writer.on_frame(key.clone(), &mut recovery, true).task.is_some());
    let end = TaskEnd::Wrote {
        frame_bytes: key.len(),
        is_idr: true,
        generation: writer.gop_generation,
        outcome: VideoStreamWriteOutcome::TimedOut,
    };
    assert_eq!(
        writer.on_task_end(end, &mut recovery, true).ok(),
        Some(Some([channel::HOST_VIDEO, 0]))
    );
    assert!(writer.recovering);
    assert!(writer.on_frame(delta.clone(), &mut recovery, true).task.is_none());
    assert!(writer.on_frame(key, &mut recovery, true).task.is_some());
    assert!(!writer.recovering);
    assert!(writer.on_frame(delta, &mut recovery, true).task.is_some());
}

#[test]
fn frame_is_written_header_first() {
    let mut write = VideoStreamWrite::begin(&task(0));
    assert_eq!(
        write.on_event(WriteEvent::Opened, 0),
        WriteAction::WriteHeader { header: [LANE_VIDEO, 0, 0, 0, 1, 0, 0, 0, 3], from: 0 }
    );
    assert_eq!(
        write.on_event(WriteEvent::Progress(4), 0),
        WriteAction::WriteHeader { header: [LANE_VIDEO, 0, 0, 0, 1, 0, 0, 0, 3], from: 4 }
    );
    assert_eq!(write.on_event(WriteEvent::Progress(5), 0), WriteAction::WriteBody { from: 0 });
    assert_eq!(write.on_event(WriteEvent::Progress(3), 0), WriteAction::Finish);
    assert_eq!(
        write.on_event(WriteEvent::Finished, 0),
        WriteAction::End { outcome: VideoStreamWriteOutcome::Complete, reset: None }
    );
}

#[test]
fn late_streams_are_reset() {
    let mut write = VideoStreamWrite::begin(&task(0));
    write.on_event(WriteEvent::Opened, 0);
    assert_eq!(
        write.on_event(WriteEvent::TimedOut, 0),
        WriteAction::End {
            outcome: VideoStreamWriteOutcome::TimedOut,
            reset: Some(video_stream_timeout_code()),
        }
    );
    assert_eq!(
        retire_video_stream(1, 2, Acknowledgement::Superseded),
        Retirement::Reset(video_stream_superseded_code())
    );
    assert_eq!(retire_video_stream(2, 2, Acknowledgement::Received), Retirement::Nothing);
}

#[test]
fn browser_opens_the_first_lane() {
    let mut connection = BrowserConnection::begin();
    assert_eq!(connection.state, WebTransportConnectionState::Waiting);
    assert_eq!(
        connection.advance(ConnectionEvent::ClientLane(LANE_RELIABLE_INBOUND)),
        ConnectionAction::OpenAudioLane
    );
    assert_eq!(
        connection.advance(ConnectionEvent::LaneOpened),
        ConnectionAction::OpenReliableLane
    );
    assert_eq!(connection.advance(ConnectionEvent::LaneOpened), ConnectionAction::Run);
    assert_eq!(connection.state, WebTransportConnectionState::Connected);
    assert_eq!(
        connection.advance(ConnectionEvent::LaneFailed(ConnectionStage::WriteVideo)),
        ConnectionAction::Close { failure: Some(ConnectionStage::WriteVideo) }
    );
    assert_eq!(connection.state, WebTransportConnectionState::Closed);
    assert_eq!(ConnectionStage::WriteVideo.name(), "write_video");
}

#[test]
fn datagrams_that_find_no_room_are_not_counted() {
    let packet = |sequence: u32, x: i32| {
        let mut bytes = vec![DATAGRAM_MAGIC, DATAGRAM_RELATIVE_MOTION];
        bytes.extend_from_slice(&1_u16.to_be_bytes());
        bytes.extend_from_slice(&sequence.to_be_bytes());
        bytes.extend_from_slice(&x.to_be_bytes());
        bytes.extend_from_slice(&0_i32.to_be_bytes());
        bytes
    };
    let mut state = DatagramState::default();
    assert_eq!(state.receive(&packet(1, 3), 1), vec![vec![6, 0, 0, 3, 0, 0]]);
    assert!(state.receive(&packet(2, 5), 0).is_empty());
    // The motion that was not delivered is part of the next one.
    assert_eq!(state.receive(&packet(3, 9), 1), vec![vec![6, 0, 0, 6, 0, 0]]);
}

#[test]
fn reliable_frames_pass_and_snapshots_are_unpacked() {
    let mut state = DatagramState::default();
    assert_eq!(state.receive_reliable(vec![channel::KEYBOARD, 1]), Some(vec![channel::KEYBOARD, 1]));
    let mut snapshot = vec![DATAGRAM_MAGIC, DATAGRAM_SNAPSHOT, channel::CONTROLLER0];
    snapshot.extend_from_slice(&[0, 1, 0, 0, 0, 1, 0xaa]);
    assert_eq!(
        state.receive_reliable(snapshot.clone()),
        Some(vec![channel::CONTROLLER0, 0xaa])
    );
    assert_eq!(state.receive_reliable(snapshot), None);
}

#[test]
fn waiting_key_frame_is_written_when_there_is_room() {
    let mut writer = VideoWriter::new();
    let mut recovery = VideoRecovery::new();
    let big = |marker: u8| {
        let mut frame = vec![0; MAX_FRAME_BYTES];
        frame[0] = channel::HOST_VIDEO;
        frame[1] = 1;
        frame[2] = marker;
        frame
    };
    assert!(writer.on_frame(big(1), &mut recovery, true).task.is_some());
    assert!(writer.on_frame(big(2), &mut recovery, true).task.is_some());
    assert!(writer.on_frame(big(3), &mut recovery, true).task.is_none());
    assert!(!writer.wants_frame());
    assert!(writer.launch_pending().is_none());
    let end = TaskEnd::Wrote {
        frame_bytes: MAX_FRAME_BYTES,
        is_idr: true,
        generation: 0,
        outcome: VideoStreamWriteOutcome::Complete,
    };
    assert_eq!(writer.on_task_end(end, &mut recovery, true).ok(), Some(None));
    let task = writer.launch_pending().expect("there is room now");
    assert_eq!((task.frame[2], task.is_idr), (3, true));
    assert!(writer.wants_frame());
    writer.on_queue_closed();
    assert!(!writer.wants_frame());
    assert!(!writer.is_finished());
}

#[test]
fn endpoint_knows_its_own_address() {
    for url in ["https://play.example:4433", "https://play.example:4433/quic"] {
        let endpoint = PublicEndpoint::parse(url).expect("a valid address");
        assert_eq!(
            endpoint.public_url,
            format!("https://{}{}", endpoint.authority, endpoint.path)
        );
        assert!(endpoint.matches_authority(&endpoint.authority));
        let text = encode_token(&[7; 32]);
        let request = endpoint.setup_url(&text).replace("https://play.example:4433", "");
        assert_eq!(
            endpoint.validate_request(&endpoint.authority, &request),
            Some(hash_token(&[7; 32]))
        );
    }
}

#[test]
fn release_undoes_admission_beyond_the_limits() {
    for is_idr in [true, false] {
        let mut budget = VideoWriterBudget {
            streams: 1_000,
            bytes: usize::MAX - 10,
            delta_streams: 7,
            delta_bytes: 9,
        };
        let before = budget;
        budget.take_up(10, is_idr);
        assert_eq!(budget.delta_streams, if is_idr { 7 } else { 8 });
        budget.release(10, is_idr);
        assert_eq!(budget, before);
    }
}

#[test]
fn canonical_origins_stay_as_they_are() {
    for origin in ["HTTPS://Example.TEST:443", "https://A.test:08443", "https://[::A]:444"] {
        let canonical = canonicalize_https_origin(origin).expect("origin should be accepted");
        assert_eq!(canonicalize_https_origin(&canonical), Some(canonical));
    }
}

#[test]
fn requests_with_other_fields_are_refused() {
    let endpoint = PublicEndpoint::parse("https://example.test:443/transport").unwrap();
    let token = [7; 32];
    let encoded = encode_token(&token);
    let valid = format!("/transport?v=4&token={encoded}");
    assert_eq!(endpoint.validate_request("Example.Test", &valid), Some(hash_token(&token)));
    for query in [
        format!("token={encoded}"),
        "v=4".to_owned(),
        format!("v=4&v=4&token={encoded}"),
        format!("v=5&token={encoded}"),
        "v=4&token=zz".to_owned(),
        format!("v=4&token={encoded}&more=1"),
        format!("v=4&token={encoded}&token={encoded}"),
    ] {
        let path = format!("/transport?{query}");
        assert_eq!(endpoint.validate_request("example.test", &path), None, "{query}");
    }
    assert_eq!(endpoint.validate_request("example.test:444", &valid), None);
}

#[test]
fn one_request_goes_out_between_two_key_frames() {
    let mut dispatcher = OutboundDispatcher::new();
    let mut queue = VideoAdmissionQueue::new();
    let mut recovery = VideoRecovery::new();
    let mut requests = 0;
    let mut refused = 0;
    for index in 0..10_u8 {
        let frame = vec![channel::HOST_VIDEO, 0, index];
        if let Dispatched::VideoDropped { request, .. } =
            dispatcher.dispatch_outbound(frame, &mut queue, &mut recovery, true)
        {
            refused += 1;
            requests += usize::from(request.is_some());
        }
        // Room in the queue does not let a delta frame in again.
        if index == 6 {
            queue.next();
        }
    }
    assert_eq!(refused, 10 - VIDEO_QUEUE_CAPACITY);
    assert_eq!(requests, 1);
    assert_eq!(recovery.counters.admission_drops, refused as u64);
    let idr = vec![channel::HOST_VIDEO, 1, 0];
    assert!(matches!(
        dispatcher.dispatch_outbound(idr, &mut queue, &mut recovery, true),
        Dispatched::Video { .. }
    ));
    let delta = vec![channel::HOST_VIDEO, 0, 0];
    assert!(matches!(
        dispatcher.dispatch_outbound(delta, &mut queue, &mut recovery, true),
        Dispatched::Video { superseded: 0 }
    ));
}

#[test]
fn transitions_arrive_in_their_order() {
    let mut queue = ReliableOutboundQueue::new(2);
    let general = |number: u8| vec![channel::GENERAL, number];
    let rtt = |number: u8| vec![channel::RTT, 0, 0, number];
    assert_eq!(queue.offer(rtt(1)), Offered::Queued);
    assert_eq!(queue.offer(general(1)), Offered::Queued);
    // The snapshot makes way for a transition.
    assert_eq!(queue.offer(general(2)), Offered::Queued);
    assert_eq!(queue.offer(rtt(2)), Offered::Discarded);
    assert_eq!(queue.offer(general(3)), Offered::Wait(general(3)));
    assert_eq!(queue.next(), NextFrame::Frame(general(1)));
    assert_eq!(queue.offer(general(3)), Offered::Queued);
    assert_eq!(queue.next(), NextFrame::Frame(general(2)));
    assert_eq!(queue.next(), NextFrame::Frame(general(3)));
    assert_eq!(queue.next(), NextFrame::Pending);
}

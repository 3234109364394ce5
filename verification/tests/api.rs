//! What the server answers its browsers.

use actix_codec::Decoder;
use actix_http::ws::{Codec, Frame};
use bytes::{Bytes, BytesMut};
use moonlight_web::api::client_log::{client_log_lines, PostClientLogRequest};
use moonlight_web::api::low_latency_ws::{
    BinarySendOutcome, BodyItem, CloseReason, Closed, LowLatencySession, RELIABLE_QUEUE_CAPACITY,
};
use moonlight_web::api::settings::{
    convert_user_settings, get_default_settings, get_permissions, get_user_settings,
    patch_user_settings, validate_mutation_id, verify_settings_owner, PatchUserSettingsRequest,
};
use moonlight_web::api::stream::control::{
    selected_transport, wait_for_web_transport_connection, BridgeOffer, ControlAction,
    ControlEvent, ControlSession, SelectedTransport, SocketFrame,
};
use moonlight_web::api::stream::forwarder::{
    idr_request_message, ForwardAction, ForwardEvent, Forwarder, RelayRoute,
};
use moonlight_web::api::stream::opening::{
    find_app, single_origin_header, OpeningAction, OpeningEvent, OpeningFailure, StreamOpening,
};
use moonlight_web::channel;
use moonlight_web::errors::AppError;
use moonlight_web::messages::{
    AppInfo, LogMessageType, StreamClientMessage, StreamServerMessage,
    StreamerIpcMessage, TransportType,
};
use moonlight_web::storage::json::JsonStorage;
use moonlight_web::storage::records::{
    RoleId, RoleType, StorageRoleAdd, StorageRolePermissions, StorageUserAdd, UserId,
};
use moonlight_web::web_transport::connection::WebTransportConnectionState;
use serde_json::Value;

fn json(text: &str) -> Value {
    serde_json::from_str(text).expect("test value should be valid JSON")
}

fn next(session: &mut LowLatencySession) -> Vec<u8> {
    match session.poll_next() {
        BodyItem::Frame(bytes) => bytes,
        other => panic!("unexpected body item: {other:?}"),
    }
}

fn decode(encoded: Vec<u8>) -> Frame {
    let mut codec = Codec::new().client_mode();
    let mut encoded = BytesMut::from(encoded.as_slice());
    let frame = codec.decode(&mut encoded).unwrap().unwrap();
    assert!(codec.decode(&mut encoded).unwrap().is_none());
    assert!(encoded.is_empty());
    frame
}

fn binary(frame: Frame) -> Vec<u8> {
    let Frame::Binary(bytes) = frame else {
        panic!("expected binary frame");
    };
    bytes.to_vec()
}

fn delta(value: u8) -> Vec<u8> {
    vec![channel::HOST_VIDEO, 0, value]
}

fn idr(value: u8) -> Vec<u8> {
    vec![channel::HOST_VIDEO, 1, value]
}

#[test]
fn media_slots_are_constant_size_and_audio_keeps_only_latest() {
    let mut session = LowLatencySession::new();
    for value in 0..10_u8 {
        assert_eq!(
            session.binary(vec![channel::HOST_AUDIO, value]).unwrap(),
            BinarySendOutcome::Enqueued
        );
    }
    assert_eq!(session.reliable.len(), 0);
    assert_eq!(binary(decode(next(&mut session))), vec![channel::HOST_AUDIO, 9]);
    assert_eq!(session.poll_next(), BodyItem::Pending);
}

#[test]
fn video_overflow_protects_queued_frame_and_recovers_only_at_idr() {
    let mut session = LowLatencySession::new();

    assert_eq!(session.binary(delta(1)).unwrap(), BinarySendOutcome::Enqueued);
    assert_eq!(session.binary(delta(2)).unwrap(), BinarySendOutcome::NeedIdr);
    assert_eq!(session.binary(delta(3)).unwrap(), BinarySendOutcome::Dropped);
    assert_eq!(binary(decode(next(&mut session))), delta(1));
    assert_eq!(session.binary(delta(4)).unwrap(), BinarySendOutcome::Dropped);
    assert_eq!(session.binary(idr(5)).unwrap(), BinarySendOutcome::Enqueued);
    assert_eq!(binary(decode(next(&mut session))), idr(5));
}

#[test]
fn dropping_delta_behind_queued_idr_latches_recovery_until_fresh_idr() {
    let mut session = LowLatencySession::new();

    assert_eq!(session.binary(idr(1)).unwrap(), BinarySendOutcome::Enqueued);
    assert_eq!(session.binary(delta(2)).unwrap(), BinarySendOutcome::NeedIdr);
    assert_eq!(binary(decode(next(&mut session))), idr(1));
    assert_eq!(session.binary(delta(3)).unwrap(), BinarySendOutcome::Dropped);
    assert_eq!(session.binary(idr(4)).unwrap(), BinarySendOutcome::Enqueued);
    assert_eq!(binary(decode(next(&mut session))), idr(4));
    assert_eq!(session.binary(delta(5)).unwrap(), BinarySendOutcome::Enqueued);
    assert_eq!(binary(decode(next(&mut session))), delta(5));
}

#[test]
fn reliable_control_has_priority_and_media_is_fair() {
    let mut session = LowLatencySession::new();
    session.binary(vec![channel::HOST_AUDIO, 7]).unwrap();
    session.binary(vec![channel::HOST_VIDEO, 1, 8]).unwrap();
    session.text("control".to_owned()).unwrap();

    assert!(matches!(
        decode(next(&mut session)),
        Frame::Text(text) if text == Bytes::from_static(b"control")
    ));
    assert_eq!(binary(decode(next(&mut session)))[0], channel::HOST_AUDIO);
    assert_eq!(binary(decode(next(&mut session)))[0], channel::HOST_VIDEO);
}

#[test]
fn close_is_immediate_and_discards_queued_work() {
    let mut session = LowLatencySession::new();
    session.text("stale".to_owned()).unwrap();
    session.binary(vec![channel::HOST_AUDIO, 1]).unwrap();
    session.close_now(None).unwrap();

    assert!(matches!(decode(next(&mut session)), Frame::Close(None)));
    assert_eq!(session.poll_next(), BodyItem::End);
}

#[test]
fn graceful_close_preserves_reliable_fifo_but_discards_media() {
    let mut session = LowLatencySession::new();
    session.text("final reason".to_owned()).unwrap();
    session.binary(vec![channel::HOST_AUDIO, 1]).unwrap();
    session.close(None).unwrap();

    assert!(matches!(
        decode(next(&mut session)),
        Frame::Text(text) if text == Bytes::from_static(b"final reason")
    ));
    assert!(matches!(decode(next(&mut session)), Frame::Close(None)));
    assert_eq!(session.poll_next(), BodyItem::End);
}

#[test]
fn each_body_item_contains_exactly_one_message() {
    let mut session = LowLatencySession::new();
    session.text("first".to_owned()).unwrap();
    session.text("second".to_owned()).unwrap();

    assert!(matches!(
        decode(next(&mut session)),
        Frame::Text(text) if text == Bytes::from_static(b"first")
    ));
    assert!(matches!(
        decode(next(&mut session)),
        Frame::Text(text) if text == Bytes::from_static(b"second")
    ));
}

#[test]
fn reliable_overflow_fails_the_entire_session() {
    let mut session = LowLatencySession::new();
    for index in 0..RELIABLE_QUEUE_CAPACITY {
        session.text(index.to_string()).unwrap();
    }
    assert!(session.text("overflow".to_owned()).is_err());
    assert!(session.text("after overflow".to_owned()).is_err());
    assert_eq!(session.poll_next(), BodyItem::End);
}

#[test]
fn dropping_response_body_closes_all_senders() {
    let mut session = LowLatencySession::new();
    session.abort_if_open();
    assert!(session.text("orphaned".to_owned()).is_err());
}

#[test]
fn long_messages_and_closes_are_framed() {
    let mut session = LowLatencySession::new();
    let long = vec![9; 70_000];
    session.binary(long.clone()).unwrap();
    let encoded = next(&mut session);
    assert_eq!(encoded[..2], [0x82, 127]);
    assert_eq!(encoded.len(), 10 + long.len());
    session.binary(vec![9; 300]).unwrap();
    assert_eq!(next(&mut session)[..4], [0x82, 126, 1, 44]);
    session.pong(vec![1, 2]).unwrap();
    assert_eq!(next(&mut session), [0x8a, 2, 1, 2]);
    let reason = CloseReason { code: 1000, description: Some("bye".to_owned()) };
    session.close(Some(reason)).unwrap();
    assert_eq!(next(&mut session), [0x88, 5, 0x03, 0xe8, b'b', b'y', b'e']);
    assert_eq!(session.text("late".to_owned()), Err(Closed));
}

#[test]
fn cleared_media_are_not_sent() {
    let mut session = LowLatencySession::new();
    session.binary(vec![channel::HOST_AUDIO, 7]).unwrap();
    session.binary(idr(1)).unwrap();
    session.clear_media();
    assert_eq!(session.poll_next(), BodyItem::Pending);
    session.abort();
    assert_eq!(session.poll_next(), BodyItem::End);
}

#[test]
fn personal_settings_accept_objects_and_null_but_reject_other_json() {
    let settings = json(r#"{ "bitrate": 12000 }"#);
    assert_eq!(
        convert_user_settings(settings.clone()).expect("objects should be accepted"),
        Some(settings)
    );
    assert_eq!(
        convert_user_settings(Value::Null).expect("null should clear settings"),
        None
    );

    for invalid in [json("[]"), json("true"), json("42"), json(r#""invalid""#)] {
        assert!(matches!(convert_user_settings(invalid), Err(AppError::BadRequest)));
    }
}

#[test]
fn settings_patch_is_bound_to_the_authenticated_user() {
    assert!(verify_settings_owner(17, 17).is_ok());
    assert!(matches!(verify_settings_owner(17, 18), Err(AppError::Forbidden)));
}

#[test]
fn mutation_ids_are_non_empty_and_bounded() {
    assert!(validate_mutation_id("mutation-1").is_ok());
    assert!(matches!(validate_mutation_id(""), Err(AppError::BadRequest)));
    assert!(matches!(validate_mutation_id("   "), Err(AppError::BadRequest)));
    assert!(validate_mutation_id(&"x".repeat(128)).is_ok());
    assert!(matches!(validate_mutation_id(&"x".repeat(129)), Err(AppError::BadRequest)));
}

#[test]
fn settings_of_a_user_are_patched_and_read() {
    let mut storage = JsonStorage::load(None);
    let user = storage
        .add_user(StorageUserAdd {
            role_id: RoleId(1),
            name: "alice".to_owned(),
            password: None,
            client_unique_id: String::new(),
        })
        .expect("user should be created");
    let request = |user_id: u32, mutation_id: &str| PatchUserSettingsRequest {
        user_id,
        settings: json(r#"{ "bitrate": 15000 }"#),
        mutation_id: mutation_id.to_owned(),
    };
    let other = UserId(user.id.0 ^ 1);
    assert_eq!(
        patch_user_settings(&mut storage, user.id, request(other.0, "m")).err(),
        Some(AppError::Forbidden)
    );
    assert_eq!(
        patch_user_settings(&mut storage, user.id, request(user.id.0, " ")).err(),
        Some(AppError::BadRequest)
    );
    let first = patch_user_settings(&mut storage, user.id, request(user.id.0, "m")).unwrap();
    assert_eq!((first.revision, first.applied), (1, true));
    let again = patch_user_settings(&mut storage, user.id, request(user.id.0, "m")).unwrap();
    assert_eq!((again.revision, again.applied), (1, false));
    let read = get_user_settings(&storage, user.id).unwrap();
    assert_eq!(read.user_id, user.id.0);
    assert_eq!(read.settings, Some(json(r#"{ "bitrate": 15000 }"#)));
    assert_eq!(read.revision, 1);
    assert_eq!(get_user_settings(&storage, other).err(), Some(AppError::UserNotFound));
}

#[test]
fn users_have_the_settings_and_permissions_of_their_role() {
    let mut storage = JsonStorage::load(None);
    let role = storage
        .add_role(StorageRoleAdd {
            name: "guests".to_owned(),
            ty: RoleType::User,
            default_settings: json(r#"{ "bitrate": 5000 }"#),
            permissions: StorageRolePermissions {
                allow_hdr: false,
                ..StorageRolePermissions::default()
            },
        })
        .expect("role should be created");
    let add = |storage: &mut JsonStorage, role_id, name: &str| {
        storage
            .add_user(StorageUserAdd {
                role_id,
                name: name.to_owned(),
                password: None,
                client_unique_id: String::new(),
            })
            .expect("user should be created")
            .id
    };
    let guest = add(&mut storage, role.id, "guest");
    let stray = add(&mut storage, RoleId(role.id.0 ^ 1), "stray");
    assert_eq!(get_default_settings(&storage, guest), Ok(json(r#"{ "bitrate": 5000 }"#)));
    assert!(!get_permissions(&storage, guest).expect("guest has a role").allow_hdr);
    assert_eq!(get_default_settings(&storage, stray), Err(AppError::RoleNotFound));
    storage.remove_user(guest).expect("guest should be removed");
    assert_eq!(get_permissions(&storage, guest).err(), Some(AppError::UserNotFound));
}

#[test]
fn web_transport_requires_exactly_one_control_origin() {
    assert_eq!(single_origin_header(&vec![]), None);

    let one = vec![Some("https://example.test".to_owned())];
    assert_eq!(single_origin_header(&one).as_deref(), Some("https://example.test"));

    let ambiguous = vec![
        Some("https://example.test".to_owned()),
        Some("https://evil.test".to_owned()),
    ];
    assert_eq!(single_origin_header(&ambiguous), None);
    assert_eq!(single_origin_header(&vec![None]), None);
}

#[test]
fn logged_lines_are_shortened_and_counted() {
    let request = PostClientLogRequest {
        session: "0123456789abcdefXYZ".to_owned(),
        user_agent: "agent".to_owned(),
        lines: vec!["hello".to_owned(); 250],
    };
    let lines = client_log_lines(&request);
    assert_eq!(lines.len(), 200);
    assert_eq!(lines[0], "[0123456789abcdef] hello ua=agent");
}

fn init() -> OpeningEvent {
    OpeningEvent::Text(Some(StreamClientMessage::Init {
        host_id: 3,
        app_id: 8,
        video_frame_queue_size: 1,
        audio_sample_queue_size: 2,
    }))
}

fn app(app_id: u32) -> AppInfo {
    AppInfo { app_id, title: format!("app {app_id}"), is_hdr_supported: false }
}

#[test]
fn session_is_opened_step_by_step() {
    let mut opening = StreamOpening::begin();
    assert_eq!(opening.advance(&OpeningEvent::OtherFrame), OpeningAction::Wait);
    assert_eq!(opening.advance(&init()), OpeningAction::FindHost { host_id: 3 });
    assert_eq!(opening.advance(&OpeningEvent::HostFound), OpeningAction::ListApps);
    assert_eq!(
        opening.advance(&OpeningEvent::Apps(vec![app(7), app(8)])),
        OpeningAction::FindAddress
    );
    assert_eq!(opening.advance(&OpeningEvent::AddressFound), OpeningAction::FindPairing);
    assert_eq!(opening.advance(&OpeningEvent::PairingFound), OpeningAction::Launch { app: 1 });
    match opening.advance(&OpeningEvent::Launched) {
        OpeningAction::Begin { request } => {
            assert_eq!((request.app_id, request.audio_sample_queue_size), (8, 2));
        }
        other => panic!("unexpected action: {other:?}"),
    }
}

#[test]
fn missing_app_is_reported() {
    assert_eq!(find_app(&vec![app(7), app(8)], 8), 1);
    let mut opening = StreamOpening::begin();
    opening.advance(&init());
    opening.advance(&OpeningEvent::HostFound);
    assert_eq!(
        opening.advance(&OpeningEvent::Apps(vec![app(7)])),
        OpeningAction::Fail { failure: OpeningFailure::AppNotFound, kill_streamer: false }
    );
    match OpeningFailure::AppNotFound.message() {
        StreamServerMessage::DebugLog { message, ty } => {
            assert_eq!(message, "Failed to start stream because the app was not found");
            assert_eq!(ty, Some(LogMessageType::FatalDescription));
        }
        other => panic!("unexpected message: {other:?}"),
    }
}

#[test]
fn streamer_without_pipes_is_killed() {
    let mut opening = StreamOpening::begin();
    for event in [
        init(),
        OpeningEvent::HostFound,
        OpeningEvent::Apps(vec![app(8)]),
        OpeningEvent::AddressFound,
        OpeningEvent::PairingFound,
    ] {
        opening.advance(&event);
    }
    assert!(matches!(
        opening.advance(&OpeningEvent::LaunchedWithoutPipes),
        OpeningAction::Fail { kill_streamer: true, .. }
    ));
}

#[test]
fn frames_take_the_route_of_the_moment() {
    let mut forwarder = Forwarder::begin();
    let frame = |route| ForwardEvent::Message {
        message: Some(StreamerIpcMessage::WebSocketTransport(vec![channel::HOST_AUDIO, 1])),
        route,
    };
    match forwarder.advance(frame(RelayRoute::WebSocket)) {
        ForwardAction::SendFrame(bytes) => assert_eq!(bytes, [channel::HOST_AUDIO, 1]),
        other => panic!("unexpected action: {other:?}"),
    }
    assert!(matches!(
        forwarder.advance(ForwardEvent::FrameSent { outcome: Some(BinarySendOutcome::NeedIdr) }),
        ForwardAction::RequestIdr
    ));
    assert_eq!(idr_request_message(), [channel::HOST_VIDEO, 0]);
}

#[test]
fn choice_of_transport_is_final() {
    let mut session = ControlSession::begin(true);
    let choose = |transport| {
        ControlEvent::Socket(SocketFrame::Text(Some(StreamClientMessage::SetTransport(transport))))
    };
    assert!(matches!(
        session.advance(choose(TransportType::WebSocket)),
        ControlAction::SendIpc { .. }
    ));
    assert_eq!(session.selected, Some(SelectedTransport::WebSocket));
    assert_eq!(session.route, RelayRoute::WebSocket);
    session.advance(ControlEvent::Sent(true));
    session.advance(choose(TransportType::WebRTC));
    assert_eq!(session.selected, Some(SelectedTransport::WebSocket));
    assert_eq!(selected_transport(TransportType::WebRTC), SelectedTransport::WebRtc);
}

#[test]
fn browser_is_awaited_until_it_came_or_went() {
    let settled = wait_for_web_transport_connection;
    assert_eq!(settled(WebTransportConnectionState::Waiting), None);
    assert_eq!(settled(WebTransportConnectionState::Connected), Some(true));
    assert_eq!(settled(WebTransportConnectionState::Closed), Some(false));
}

#[test]
fn bridge_that_was_chosen_ends_the_session_with_it() {
    let mut session = ControlSession::begin(true);
    session.advance(ControlEvent::Offer(BridgeOffer::Bridge));
    assert!(session.has_bridge);
    assert!(matches!(
        session.advance(ControlEvent::Socket(SocketFrame::Text(Some(
            StreamClientMessage::SetTransport(TransportType::WebTransport)
        )))),
        ControlAction::AwaitConnection
    ));
    session.advance(ControlEvent::Connected(true));
    session.advance(ControlEvent::Sent(true));
    assert!(matches!(
        session.advance(ControlEvent::BridgeState(Some(WebTransportConnectionState::Closed))),
        ControlAction::DropBridgeAndEnd | ControlAction::End
    ));
    assert!(!session.has_bridge);
}

#[test]
fn pings_are_answered() {
    let mut session = ControlSession::begin(true);
    assert!(matches!(
        session.advance(ControlEvent::Socket(SocketFrame::Ping(vec![1, 2]))),
        ControlAction::SendPong(bytes) if bytes == [1, 2]
    ));
}

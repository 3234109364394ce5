//! Messages between server and streamer.

use bincode::config::standard;
use bincode::serde::{decode_from_slice, encode_to_vec};
use moonlight_web::ipc::{
    encode_ipc_frame, next_ipc_message, FrameError, IpcReceiver, IpcSender, NetworkFeedback,
    NextMessage, Received, TrySendError, IPC_REALTIME_QUEUE_CAPACITY, IPC_RELIABLE_QUEUE_CAPACITY,
    MAX_IPC_FRAME_BYTES,
};

#[derive(Clone, Copy, Debug, PartialEq)]
enum PriorityMessage {
    Control(u8),
    Audio(u8),
    Feedback(u8),
    Video(u8),
}

fn receiver(bytes: &[u8]) -> IpcReceiver {
    let mut receiver = IpcReceiver::new();
    receiver.feed(bytes);
    receiver.ended = true;
    receiver
}

fn received(receiver: &mut IpcReceiver) -> Vec<u8> {
    match receiver.recv() {
        Received::Frame(encoded) => encoded,
        other => panic!("unexpected decoded IPC message: {other:?}"),
    }
}

#[test]
fn binary_bytes_round_trip() {
    let expected: Vec<u8> = vec![0, 1, 2, 3, 0xff, 0, 0x80];
    let encoded = encode_to_vec(&expected, standard()).unwrap();
    let mut receiver = receiver(&encode_ipc_frame(&encoded).unwrap());

    let frame = received(&mut receiver);
    let (actual, consumed): (Vec<u8>, usize) = decode_from_slice(&frame, standard()).unwrap();
    assert!(receiver.accept(frame.len(), Some(consumed)));
    assert_eq!(actual, expected);
}

#[test]
fn network_feedback_round_trips_through_binary_ipc() {
    let expected = NetworkFeedback {
        rtt_ms: 47,
        sent_packets: 10_000,
        lost_packets: 23,
        congestion_events: 4,
        admission_drops: 7,
        video_write_timeouts: 2,
        recovery_requests: 3,
    };
    let fields = (
        expected.rtt_ms,
        expected.sent_packets,
        expected.lost_packets,
        expected.congestion_events,
        expected.admission_drops,
        expected.video_write_timeouts,
        expected.recovery_requests,
    );
    let encoded = encode_to_vec(fields, standard()).unwrap();
    let mut receiver = receiver(&encode_ipc_frame(&encoded).unwrap());

    let frame = received(&mut receiver);
    let (actual, consumed): ((u32, u64, u64, u64, u64, u64, u64), usize) =
        decode_from_slice(&frame, standard()).unwrap();
    assert!(receiver.accept(frame.len(), Some(consumed)));
    assert_eq!(actual, fields);
}

#[test]
fn oversized_frame_is_rejected_without_allocating_body() {
    let oversized_len = (MAX_IPC_FRAME_BYTES as u32 + 1).to_be_bytes();
    let mut receiver = receiver(&oversized_len);

    assert_eq!(receiver.recv(), Received::Failed(FrameError::Oversized));
    assert!(receiver.errored);
    assert_eq!(receiver.recv(), Received::Ended);
}

#[test]
fn truncated_frame_is_rejected() {
    let mut frame = encode_ipc_frame(&[2]).unwrap();
    frame.pop();
    let mut receiver = receiver(&frame);

    assert_eq!(receiver.recv(), Received::Failed(FrameError::TruncatedBody));
    assert!(receiver.errored);
}

#[test]
fn truncated_length_is_rejected() {
    let mut receiver = receiver(&[0, 0, 1]);
    assert_eq!(receiver.recv(), Received::Failed(FrameError::TruncatedPrefix));
    assert!(receiver.errored);
}

#[test]
fn clean_end_is_no_error() {
    let mut receiver = receiver(&[]);
    assert_eq!(receiver.recv(), Received::Ended);
    assert!(!receiver.errored);
}

#[test]
fn missing_bytes_are_counted() {
    let mut receiver = IpcReceiver::new();
    assert_eq!(receiver.recv(), Received::NeedMore(4));
    receiver.feed(&[0, 0, 0, 3, 7]);
    assert_eq!(receiver.recv(), Received::NeedMore(2));
    receiver.feed(&[8, 9, 0]);
    assert_eq!(receiver.recv(), Received::Frame(vec![7, 8, 9]));
    assert_eq!(receiver.recv(), Received::NeedMore(3));
}

#[test]
fn message_must_use_up_its_frame() {
    let mut receiver = receiver(&encode_ipc_frame(&[1, 2]).unwrap());
    let frame = received(&mut receiver);
    assert!(!receiver.accept(frame.len(), Some(1)));
    assert!(receiver.errored);
}

#[test]
fn frames_have_a_largest_size() {
    assert_eq!(encode_ipc_frame(&[5, 6]), Some(vec![0, 0, 0, 2, 5, 6]));
    assert_eq!(encode_ipc_frame(&vec![0; MAX_IPC_FRAME_BYTES + 1]), None);
}

#[test]
fn reliable_and_realtime_queues_are_independently_bounded() {
    let mut sender = IpcSender::new();

    for index in 0..IPC_RELIABLE_QUEUE_CAPACITY {
        sender
            .try_send(PriorityMessage::Control(index as u8))
            .expect("reliable queue should have capacity");
    }
    assert!(matches!(
        sender.try_send(PriorityMessage::Control(0xff)),
        Err(TrySendError::Full(PriorityMessage::Control(0xff)))
    ));

    // A full reliable queue does not consume the separately bounded audio
    // capacity (and vice versa).
    for index in 0..IPC_REALTIME_QUEUE_CAPACITY {
        sender
            .try_send_realtime(PriorityMessage::Audio(index as u8))
            .expect("realtime queue should have independent capacity");
    }
    assert!(matches!(
        sender.try_send_realtime(PriorityMessage::Audio(0xff)),
        Err(TrySendError::Full(PriorityMessage::Audio(0xff)))
    ));
}

#[test]
fn priority_order_preserves_control_realtime_latest_and_video_lanes() {
    let mut sender = IpcSender::new();

    sender
        .try_send_low_priority(PriorityMessage::Video(1))
        .expect("first video should fit");
    assert!(matches!(
        sender.try_send_low_priority(PriorityMessage::Video(2)),
        Err(TrySendError::Full(PriorityMessage::Video(2)))
    ));
    sender
        .try_send_realtime(PriorityMessage::Audio(3))
        .expect("audio should fit independently of video");
    sender
        .try_send_latest(PriorityMessage::Feedback(4))
        .expect("latest-value feedback should fit independently of media");
    sender
        .try_send(PriorityMessage::Control(5))
        .expect("control should fit independently of media");

    for expected in [
        PriorityMessage::Control(5),
        PriorityMessage::Audio(3),
        PriorityMessage::Feedback(4),
        PriorityMessage::Video(1),
    ] {
        assert_eq!(next_ipc_message(&mut sender), NextMessage::Message(expected));
    }
    assert_eq!(next_ipc_message(&mut sender), NextMessage::Pending);
}

/// Writes every message as one frame, as the writer of a pipe does.
fn written(sender: &mut IpcSender<PriorityMessage>) -> Vec<u8> {
    let mut out = Vec::new();
    while let NextMessage::Message(message) = next_ipc_message(sender) {
        let encoded = match message {
            PriorityMessage::Control(value) => [0, value],
            PriorityMessage::Audio(value) => [1, value],
            PriorityMessage::Feedback(value) => [2, value],
            PriorityMessage::Video(value) => [3, value],
        };
        out.extend_from_slice(&encode_ipc_frame(&encoded).unwrap());
    }
    out
}

#[test]
fn priority_lanes_share_one_binary_framed_writer() {
    let mut sender = IpcSender::new();
    sender
        .try_send_low_priority(PriorityMessage::Video(1))
        .expect("video should fit");
    sender
        .try_send_realtime(PriorityMessage::Audio(2))
        .expect("audio should fit");
    sender
        .try_send_latest(PriorityMessage::Feedback(3))
        .expect("feedback should fit");
    sender
        .try_send(PriorityMessage::Control(4))
        .expect("control should fit");
    sender.close_senders();

    let mut receiver = receiver(&written(&mut sender));
    assert_eq!(receiver.recv(), Received::Frame(vec![0, 4]));
    assert_eq!(receiver.recv(), Received::Frame(vec![1, 2]));
    assert_eq!(receiver.recv(), Received::Frame(vec![2, 3]));
    assert_eq!(receiver.recv(), Received::Frame(vec![3, 1]));
    assert_eq!(receiver.recv(), Received::Ended);
    assert_eq!(next_ipc_message(&mut sender), NextMessage::Closed);
}

#[test]
fn latest_value_is_coalesced_before_crossing_the_ipc_boundary() {
    let mut sender = IpcSender::new();
    for value in 1..=100 {
        sender
            .try_send_latest(PriorityMessage::Feedback(value))
            .expect("latest-value slot should replace without filling");
    }
    sender.close_senders();

    let mut receiver = receiver(&written(&mut sender));
    assert_eq!(receiver.recv(), Received::Frame(vec![2, 100]));
    assert_eq!(receiver.recv(), Received::Ended);
}

#[test]
fn low_priority_video_is_strictly_bounded_to_one_pending_frame() {
    let mut sender = IpcSender::new();

    sender
        .try_send_low_priority(PriorityMessage::Video(7))
        .expect("first video should fit");
    for index in 0..1_000_u16 {
        assert!(matches!(
            sender.try_send_low_priority(PriorityMessage::Video((index % 256) as u8)),
            Err(TrySendError::Full(_))
        ));
    }

    assert_eq!(
        next_ipc_message(&mut sender),
        NextMessage::Message(PriorityMessage::Video(7))
    );
    assert!(sender.low_priority.take().is_none());
    sender
        .try_send_low_priority(PriorityMessage::Video(8))
        .expect("slot should be reusable after it drains");
}

#[test]
fn closure_rejects_low_priority_insertion_and_clears_pending_video() {
    let mut sender = IpcSender::new();
    sender
        .try_send_low_priority(PriorityMessage::Video(1))
        .expect("video should initially fit");

    sender.low_priority.close();

    assert!(sender.low_priority.take().is_none());
    assert!(matches!(
        sender.try_send_low_priority(PriorityMessage::Video(2)),
        Err(TrySendError::Closed(PriorityMessage::Video(2)))
    ));
}

#[test]
fn closure_rejects_latest_value_and_clears_pending_feedback() {
    let mut sender = IpcSender::new();
    sender
        .try_send_latest(PriorityMessage::Feedback(1))
        .expect("feedback should initially fit");

    sender.latest.close();

    assert!(sender.latest.take().is_none());
    assert!(matches!(
        sender.try_send_latest(PriorityMessage::Feedback(2)),
        Err(TrySendError::Closed(PriorityMessage::Feedback(2)))
    ));
}

#[test]
fn checked_reliable_send_reports_writer_closure() {
    let mut sender = IpcSender::new();
    sender.close();

    assert!(matches!(
        sender.try_send(PriorityMessage::Control(1)),
        Err(TrySendError::Closed(PriorityMessage::Control(1)))
    ));
    assert!(sender.is_closed());
}

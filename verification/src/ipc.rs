//! The pipe between the server and a streamer process.
//!
//! Messages wait in four lanes: reliable control first, then realtime audio,
//! then the latest of a replaceable value, and bulk video last. On the pipe a
//! message is a frame: its length in four bytes, then its encoding.

use crate::wire::{be_bytes, be_value, push_u32, read_u32, slice_of};
use std::collections::VecDeque;
use vstd::prelude::*;

verus! {

/// The longest encoding of one message. It has room for a high resolution video
/// frame, and keeps a corrupt length from asking for more memory than that.
pub const MAX_IPC_FRAME_BYTES: usize = 67_108_864;

pub const IPC_LENGTH_PREFIX_BYTES: usize = 4;

/// The reliable lane has its own bound, so that congested video delays no control message.
pub const IPC_RELIABLE_QUEUE_CAPACITY: usize = 16;

/// The realtime lane is short: audio that waits is stale.
pub const IPC_REALTIME_QUEUE_CAPACITY: usize = 4;

/// Totals of a browser connection, since it was made. The streamer compares two
/// reports and decides on its bitrate.
#[derive(Clone, Copy, Debug, PartialEq, Eq, Structural)]
pub struct NetworkFeedback {
    pub rtt_ms: u32,
    pub sent_packets: u64,
    pub lost_packets: u64,
    pub congestion_events: u64,
    pub admission_drops: u64,
    pub video_write_timeouts: u64,
    pub recovery_requests: u64,
}

impl Default for NetworkFeedback {
    fn default() -> (feedback: Self)
        ensures
            feedback == (NetworkFeedback {
                rtt_ms: 0,
                sent_packets: 0,
                lost_packets: 0,
                congestion_events: 0,
                admission_drops: 0,
                video_write_timeouts: 0,
                recovery_requests: 0,
            }),
    {
        NetworkFeedback {
            rtt_ms: 0,
            sent_packets: 0,
            lost_packets: 0,
            congestion_events: 0,
            admission_drops: 0,
            video_write_timeouts: 0,
            recovery_requests: 0,
        }
    }
}

impl NetworkFeedback {
    /// The report as the bitrate controller takes it.
    pub fn sample(self) -> (sample: crate::adaptive_bitrate::FeedbackSample)
        ensures
            sample == (crate::adaptive_bitrate::FeedbackSample {
                rtt_ms: self.rtt_ms,
                sent_packets: self.sent_packets,
                lost_packets: self.lost_packets,
                congestion_events: self.congestion_events,
                admission_drops: self.admission_drops,
                video_write_timeouts: self.video_write_timeouts,
                recovery_requests: self.recovery_requests,
            }),
    {
        crate::adaptive_bitrate::FeedbackSample {
            rtt_ms: self.rtt_ms,
            sent_packets: self.sent_packets,
            lost_packets: self.lost_packets,
            congestion_events: self.congestion_events,
            admission_drops: self.admission_drops,
            video_write_timeouts: self.video_write_timeouts,
            recovery_requests: self.recovery_requests,
        }
    }
}

/// A message that was not taken, and why.
#[derive(Clone, Copy, Debug, PartialEq, Eq)]
pub enum TrySendError<Message> {
    Full(Message),
    Closed(Message),
}

/// A place for one message.
#[derive(Debug)]
pub struct PendingSlot<Message> {
    pub message: Option<Message>,
    pub writer_closed: bool,
}

impl<Message> PendingSlot<Message> {
    pub fn new() -> (slot: Self)
        ensures
            slot.message is None,
            !slot.writer_closed,
    {
        PendingSlot { message: None, writer_closed: false }
    }

    pub fn take(&mut self) -> (message: Option<Message>)
        ensures
            message == old(self).message,
            final(self).message is None,
            final(self).writer_closed == old(self).writer_closed,
    {
        self.message.take()
    }

    /// Closes the place. What waits in it is dropped, because nothing will take it.
    pub fn close(&mut self)
        ensures
            final(self).message is None,
            final(self).writer_closed,
    {
        self.writer_closed = true;
        self.message = None;
    }
}

/// What the writer of the pipe gets.
#[derive(Clone, Copy, Debug, PartialEq, Eq)]
pub enum NextMessage<Message> {
    Message(Message),
    /// There is nothing now, but something may come.
    Pending,
    /// Nothing will ever come.
    Closed,
}

/// The lanes of one direction of the pipe.
#[derive(Debug)]
pub struct IpcSender<Message> {
    reliable: VecDeque<Message>,
    realtime: VecDeque<Message>,
    pub latest: PendingSlot<Message>,
    pub low_priority: PendingSlot<Message>,
    reliable_closed: bool,
    realtime_closed: bool,
}

/// The lanes as a mathematical value.
#[verifier::ext_equal]
pub struct Lanes<Message> {
    pub reliable: Seq<Message>,
    pub realtime: Seq<Message>,
    pub latest: Option<Message>,
    pub low_priority: Option<Message>,
    pub reliable_closed: bool,
    pub realtime_closed: bool,
    pub latest_closed: bool,
    pub low_priority_closed: bool,
}

impl<Message> Lanes<Message> {
    pub open spec fn wf(self) -> bool {
        &&& self.reliable.len() <= IPC_RELIABLE_QUEUE_CAPACITY
        &&& self.realtime.len() <= IPC_REALTIME_QUEUE_CAPACITY
    }

    /// The message that goes first, if there is one.
    pub open spec fn first(self) -> Option<Message> {
        if self.reliable.len() > 0 {
            Some(self.reliable[0])
        } else if self.realtime.len() > 0 {
            Some(self.realtime[0])
        } else if self.latest is Some {
            self.latest
        } else {
            self.low_priority
        }
    }

    /// The lanes without the message that goes first.
    pub open spec fn rest(self) -> Self {
        if self.reliable.len() > 0 {
            Lanes { reliable: self.reliable.drop_first(), ..self }
        } else if self.realtime.len() > 0 {
            Lanes { realtime: self.realtime.drop_first(), ..self }
        } else if self.latest is Some {
            Lanes { latest: None, ..self }
        } else {
            Lanes { low_priority: None, ..self }
        }
    }
}

impl<Message> View for IpcSender<Message> {
    type V = Lanes<Message>;

    closed spec fn view(&self) -> Lanes<Message> {
        Lanes {
            reliable: self.reliable@,
            realtime: self.realtime@,
            latest: self.latest.message,
            low_priority: self.low_priority.message,
            reliable_closed: self.reliable_closed,
            realtime_closed: self.realtime_closed,
            latest_closed: self.latest.writer_closed,
            low_priority_closed: self.low_priority.writer_closed,
        }
    }
}

impl<Message> IpcSender<Message> {
    pub fn new() -> (lanes: Self)
        ensures
            lanes@.wf(),
            lanes@ == (Lanes {
                reliable: Seq::<Message>::empty(),
                realtime: Seq::<Message>::empty(),
                latest: None,
                low_priority: None,
                reliable_closed: false,
                realtime_closed: false,
                latest_closed: false,
                low_priority_closed: false,
            }),
    {
        IpcSender {
            reliable: VecDeque::new(),
            realtime: VecDeque::new(),
            latest: PendingSlot::new(),
            low_priority: PendingSlot::new(),
            reliable_closed: false,
            realtime_closed: false,
        }
    }

    /// Queues a reliable message. On `Full` the caller waits and tries again:
    /// control messages are never dropped.
    pub fn try_send(&mut self, message: Message) -> (sent: Result<(), TrySendError<Message>>)
        requires
            old(self)@.wf(),
        ensures
            final(self)@.wf(),
            if old(self)@.reliable_closed {
                sent == Err::<(), TrySendError<Message>>(TrySendError::Closed(message))
                    && final(self)@ == old(self)@
            } else if old(self)@.reliable.len() == IPC_RELIABLE_QUEUE_CAPACITY {
                sent == Err::<(), TrySendError<Message>>(TrySendError::Full(message)) && final(self)@ == old(self)@
            } else {
                sent == Ok::<(), TrySendError<Message>>(()) && final(self)@ == (Lanes {
                    reliable: old(self)@.reliable.push(message),
                    ..old(self)@
                })
            },
    {
        if self.reliable_closed {
            return Err(TrySendError::Closed(message));
        }
        if self.reliable.len() >= IPC_RELIABLE_QUEUE_CAPACITY {
            return Err(TrySendError::Full(message));
        }
        self.reliable.push_back(message);
        Ok(())
    }

    /// Queues short-lived data such as audio.
    pub fn try_send_realtime(&mut self, message: Message) -> (sent: Result<
        (),
        TrySendError<Message>,
    >)
        requires
            old(self)@.wf(),
        ensures
            final(self)@.wf(),
            if old(self)@.realtime_closed {
                sent == Err::<(), TrySendError<Message>>(TrySendError::Closed(message))
                    && final(self)@ == old(self)@
            } else if old(self)@.realtime.len() == IPC_REALTIME_QUEUE_CAPACITY {
                sent == Err::<(), TrySendError<Message>>(TrySendError::Full(message)) && final(self)@ == old(self)@
            } else {
                sent == Ok::<(), TrySendError<Message>>(()) && final(self)@ == (Lanes {
                    realtime: old(self)@.realtime.push(message),
                    ..old(self)@
                })
            },
    {
        if self.realtime_closed {
            return Err(TrySendError::Closed(message));
        }
        if self.realtime.len() >= IPC_REALTIME_QUEUE_CAPACITY {
            return Err(TrySendError::Full(message));
        }
        self.realtime.push_back(message);
        Ok(())
    }

    /// Publishes a value that a newer one replaces, such as cumulative feedback.
    pub fn try_send_latest(&mut self, message: Message) -> (sent: Result<
        (),
        TrySendError<Message>,
    >)
        requires
            old(self)@.wf(),
        ensures
            final(self)@.wf(),
            if old(self)@.latest_closed {
                sent == Err::<(), TrySendError<Message>>(TrySendError::Closed(message))
                    && final(self)@ == old(self)@
            } else {
                sent == Ok::<(), TrySendError<Message>>(()) && final(self)@ == (Lanes {
                    latest: Some(message),
                    ..old(self)@
                })
            },
    {
        if self.latest.writer_closed {
            return Err(TrySendError::Closed(message));
        }
        self.latest.message = Some(message);
        Ok(())
    }

    /// Offers disposable bulk data such as a video frame. There is one place for
    /// it, and it is never replaced there: a frame may depend on the one before it.
    pub fn try_send_low_priority(&mut self, message: Message) -> (sent: Result<
        (),
        TrySendError<Message>,
    >)
        requires
            old(self)@.wf(),
        ensures
            final(self)@.wf(),
            if old(self)@.low_priority_closed {
                sent == Err::<(), TrySendError<Message>>(TrySendError::Closed(message))
                    && final(self)@ == old(self)@
            } else if old(self)@.low_priority is Some {
                sent == Err::<(), TrySendError<Message>>(TrySendError::Full(message)) && final(self)@ == old(self)@
            } else {
                sent == Ok::<(), TrySendError<Message>>(()) && final(self)@ == (Lanes {
                    low_priority: Some(message),
                    ..old(self)@
                })
            },
    {
        if self.low_priority.writer_closed {
            return Err(TrySendError::Closed(message));
        }
        if self.low_priority.message.is_some() {
            return Err(TrySendError::Full(message));
        }
        self.low_priority.message = Some(message);
        Ok(())
    }

    pub fn is_closed(&self) -> (closed: bool)
        ensures
            closed == (self@.reliable_closed || self@.latest_closed || self@.low_priority_closed),
    {
        self.reliable_closed || self.latest.writer_closed || self.low_priority.writer_closed
    }

    /// The senders are gone. What waits is still written.
    pub fn close_senders(&mut self)
        requires
            old(self)@.wf(),
        ensures
            final(self)@.wf(),
            final(self)@ == (Lanes {
                reliable_closed: true,
                realtime_closed: true,
                ..old(self)@
            }),
    {
        self.reliable_closed = true;
        self.realtime_closed = true;
    }

    /// The writer of the pipe is gone. Every way of sending reports it from now on.
    pub fn close(&mut self)
        requires
            old(self)@.wf(),
        ensures
            final(self)@.wf(),
            final(self)@ == (Lanes {
                reliable_closed: true,
                realtime_closed: true,
                latest: None,
                latest_closed: true,
                low_priority: None,
                low_priority_closed: true,
                ..old(self)@
            }),
    {
        self.reliable_closed = true;
        self.realtime_closed = true;
        self.latest.close();
        self.low_priority.close();
    }
}

/// Takes the message that goes first.
pub fn next_ipc_message<Message>(queues: &mut IpcSender<Message>) -> (next: NextMessage<Message>)
    requires
        old(queues)@.wf(),
    ensures
        final(queues)@.wf(),
        match old(queues)@.first() {
            Some(message) => next == NextMessage::Message(message) && final(queues)@ == old(queues)@.rest(),
            None => final(queues)@ == old(queues)@ && next == (if old(queues)@.reliable_closed
                && old(queues)@.realtime_closed {
                NextMessage::<Message>::Closed
            } else {
                NextMessage::<Message>::Pending
            }),
        },
{
    let ghost before = queues@;
    if let Some(message) = queues.reliable.pop_front() {
        assert(queues@ =~= before.rest());
        return NextMessage::Message(message);
    }
    if let Some(message) = queues.realtime.pop_front() {
        assert(queues@ =~= before.rest());
        return NextMessage::Message(message);
    }
    if let Some(message) = queues.latest.take() {
        assert(queues@ =~= before.rest());
        return NextMessage::Message(message);
    }
    if let Some(message) = queues.low_priority.take() {
        assert(queues@ =~= before.rest());
        return NextMessage::Message(message);
    }
    if queues.reliable_closed && queues.realtime_closed {
        NextMessage::Closed
    } else {
        NextMessage::Pending
    }
}

/// The frame of an encoded message.
pub open spec fn frame_of(encoded: Seq<u8>) -> Seq<u8> {
    be_bytes(encoded.len(), IPC_LENGTH_PREFIX_BYTES as nat) + encoded
}

/// Frames an encoded message. One that is too long is not sent.
pub fn encode_ipc_frame(encoded: &[u8]) -> (frame: Option<Vec<u8>>)
    ensures
        match frame {
            Some(frame) => encoded@.len() <= MAX_IPC_FRAME_BYTES && frame@ == frame_of(encoded@),
            None => encoded@.len() > MAX_IPC_FRAME_BYTES,
        },
{
    let length: usize = encoded.len();
    if length > MAX_IPC_FRAME_BYTES {
        return None;
    }
    let mut frame: Vec<u8> = Vec::with_capacity(IPC_LENGTH_PREFIX_BYTES + length);
    push_u32(&mut frame, length as u32);
    frame.extend_from_slice(encoded);
    assert(frame@ =~= frame_of(encoded@));
    Some(frame)
}

/// Why the receiver gave up.
#[derive(Clone, Copy, Debug, PartialEq, Eq, Structural)]
pub enum FrameError {
    TruncatedPrefix,
    Oversized,
    TruncatedBody,
}

/// What can be said of the bytes so far.
#[derive(Clone, Debug, PartialEq, Eq)]
pub enum Received {
    /// The encoding of a message.
    Frame(Vec<u8>),
    /// This many bytes more have to be read.
    NeedMore(usize),
    /// The pipe ended between two messages, or an error ended it before.
    Ended,
    Failed(FrameError),
}

/// [`Received`] as a mathematical value.
#[verifier::ext_equal]
pub enum Reception {
    Frame(Seq<u8>),
    NeedMore(nat),
    Ended,
    Failed(FrameError),
}

impl View for Received {
    type V = Reception;

    open spec fn view(&self) -> Reception {
        match self {
            Received::Frame(encoded) => Reception::Frame(encoded@),
            Received::NeedMore(count) => Reception::NeedMore(*count as nat),
            Received::Ended => Reception::Ended,
            Received::Failed(error) => Reception::Failed(*error),
        }
    }
}

/// Takes frames apart. After an error nothing more is received.
#[derive(Debug)]
pub struct IpcReceiver {
    pub errored: bool,
    /// The bytes that were read and belong to no complete frame yet.
    pub input: Vec<u8>,
    /// No more bytes will come.
    pub ended: bool,
}

/// What `input` holds at its start.
pub open spec fn reception(input: Seq<u8>, ended: bool) -> Reception {
    let prefix = IPC_LENGTH_PREFIX_BYTES as int;
    if input.len() == 0 && ended {
        Reception::Ended
    } else if input.len() < prefix {
        if ended {
            Reception::Failed(FrameError::TruncatedPrefix)
        } else {
            Reception::NeedMore((prefix - input.len()) as nat)
        }
    } else {
        let length = be_value(input.take(prefix));
        if length > MAX_IPC_FRAME_BYTES {
            Reception::Failed(FrameError::Oversized)
        } else if input.len() < prefix + length {
            if ended {
                Reception::Failed(FrameError::TruncatedBody)
            } else {
                Reception::NeedMore((prefix + length - input.len()) as nat)
            }
        } else {
            Reception::Frame(input.subrange(prefix, prefix + length as int))
        }
    }
}

impl IpcReceiver {
    pub fn new() -> (receiver: IpcReceiver)
        ensures
            !receiver.errored,
            receiver.input@.len() == 0,
            !receiver.ended,
    {
        IpcReceiver { errored: false, input: Vec::new(), ended: false }
    }

    /// Takes bytes that were read from the pipe.
    pub fn feed(&mut self, bytes: &[u8])
        ensures
            final(self).input@ == old(self).input@ + bytes@,
            final(self).errored == old(self).errored,
            final(self).ended == old(self).ended,
    {
        self.input.extend_from_slice(bytes);
        assert(self.input@ =~= old(self).input@ + bytes@);
    }

    /// The next encoded message, if its bytes are there.
    pub fn recv(&mut self) -> (received: Received)
        ensures
            final(self).ended == old(self).ended,
            if old(self).errored {
                received == Received::Ended && *final(self) == *old(self)
            } else {
                &&& received@ == reception(old(self).input@, old(self).ended)
                &&& final(self).errored == (received is Failed)
                &&& final(self).input@ == (if received is Frame {
                    old(self).input@.skip(IPC_LENGTH_PREFIX_BYTES + received->Frame_0@.len())
                } else {
                    old(self).input@
                })
            },
    {
        if self.errored {
            return Received::Ended;
        }
        let available: usize = self.input.len();
        if available == 0 && self.ended {
            return Received::Ended;
        }
        if available < IPC_LENGTH_PREFIX_BYTES {
            if self.ended {
                self.errored = true;
                return Received::Failed(FrameError::TruncatedPrefix);
            }
            return Received::NeedMore(IPC_LENGTH_PREFIX_BYTES - available);
        }
        let length: usize = read_u32(self.input.as_slice(), 0) as usize;
        assert(self.input@.subrange(0, 4) =~= self.input@.take(4));
        if length > MAX_IPC_FRAME_BYTES {
            self.errored = true;
            return Received::Failed(FrameError::Oversized);
        }
        let end: usize = IPC_LENGTH_PREFIX_BYTES + length;
        if available < end {
            if self.ended {
                self.errored = true;
                return Received::Failed(FrameError::TruncatedBody);
            }
            return Received::NeedMore(end - available);
        }
        let encoded: Vec<u8> = slice_of(self.input.as_slice(), IPC_LENGTH_PREFIX_BYTES, end);
        let rest: Vec<u8> = slice_of(self.input.as_slice(), end, available);
        assert(rest@ =~= self.input@.skip(end as int));
        self.input = rest;
        Received::Frame(encoded)
    }

    /// Takes note of how the decoding of a frame of `length` bytes went:
    /// `consumed` is what the message took of them, `None` where it was no
    /// message. Only a message that takes the whole frame is accepted.
    pub fn accept(&mut self, length: usize, consumed: Option<usize>) -> (accepted: bool)
        ensures
            accepted == (consumed == Some(length)),
            final(self).errored == (old(self).errored || !accepted),
            final(self).input == old(self).input,
            final(self).ended == old(self).ended,
    {
        let accepted: bool = match consumed {
            Some(consumed) => consumed == length,
            None => false,
        };
        if !accepted {
            self.errored = true;
        }
        accepted
    }
}

/// What was framed is received as it was, and the bytes behind it are left.
pub proof fn law_frame_round_trip(encoded: Seq<u8>, behind: Seq<u8>, ended: bool)
    requires
        encoded.len() <= MAX_IPC_FRAME_BYTES,
    ensures
        reception(frame_of(encoded) + behind, ended) == Reception::Frame(encoded),
        (frame_of(encoded) + behind).skip((IPC_LENGTH_PREFIX_BYTES + encoded.len()) as int)
            == behind,
{
    crate::wire::law_u32_round_trip(encoded.len() as u32);
    let input = frame_of(encoded) + behind;
    assert(input.take(4) =~= be_bytes(encoded.len(), 4));
    assert(input.subrange(4, 4 + encoded.len() as int) =~= encoded);
    assert(input.skip((4 + encoded.len()) as int) =~= behind);
}

/// A proper part of a frame yields no message, and fails once nothing more can come.
pub proof fn law_truncated_frame_is_rejected(encoded: Seq<u8>, cut: int, ended: bool)
    requires
        encoded.len() <= MAX_IPC_FRAME_BYTES,
        0 < cut < frame_of(encoded).len(),
    ensures
        !(reception(frame_of(encoded).take(cut), ended) is Frame),
        ended ==> reception(frame_of(encoded).take(cut), ended) is Failed,
{
    crate::wire::law_u32_round_trip(encoded.len() as u32);
    let input = frame_of(encoded).take(cut);
    if cut >= 4 {
        assert(input.take(4) =~= be_bytes(encoded.len(), 4));
    }
}

/// An oversized frame is refused as soon as its length is there, before any of
/// its body is read.
pub proof fn law_oversized_frame_is_refused_early(prefix: Seq<u8>, ended: bool)
    requires
        prefix.len() == IPC_LENGTH_PREFIX_BYTES,
        be_value(prefix) > MAX_IPC_FRAME_BYTES,
    ensures
        reception(prefix, ended) == Reception::Failed(FrameError::Oversized),
{
    assert(prefix.take(4) =~= prefix);
}

/// Messages of the reliable lane leave in the order in which they came, and
/// before anything of another lane.
pub proof fn law_control_goes_first<Message>(lanes: Lanes<Message>)
    requires
        lanes.wf(),
        lanes.reliable.len() > 0,
    ensures
        lanes.first() == Some(lanes.reliable[0]),
        lanes.rest().reliable == lanes.reliable.drop_first(),
        lanes.rest().realtime == lanes.realtime,
        lanes.rest().latest == lanes.latest,
        lanes.rest().low_priority == lanes.low_priority,
{
}

/// Video leaves only when nothing else waits.
pub proof fn law_video_goes_last<Message>(lanes: Lanes<Message>)
    requires
        lanes.low_priority is Some,
        lanes.rest().low_priority is None,
    ensures
        lanes.reliable.len() == 0,
        lanes.realtime.len() == 0,
        lanes.latest is None,
        lanes.first() == lanes.low_priority,
{
}

/// The lanes are emptied in their order: control, real time, the latest message, and
/// what has time. Whatever goes first, the other lanes keep what they hold, and each
/// lane gives out its oldest message.
pub proof fn law_lanes_are_emptied_in_order<Message>(lanes: Lanes<Message>)
    ensures
        ({
            let rest = lanes.rest();
            let no_control = lanes.reliable.len() == 0;
            let no_media = no_control && lanes.realtime.len() == 0;
            &&& no_control && lanes.realtime.len() > 0 ==> lanes.first() == Some(lanes.realtime[0])
                && rest == Lanes { realtime: lanes.realtime.skip(1), ..lanes }
            &&& no_media && lanes.latest is Some ==> lanes.first() == lanes.latest && rest == Lanes {
                latest: None,
                ..lanes
            }
            &&& no_media && lanes.latest is None ==> lanes.first() == lanes.low_priority && rest
                == Lanes { low_priority: None, ..lanes }
            &&& lanes.first() is None <==> no_media && lanes.latest is None && lanes.low_priority
                is None
            &&& lanes.first() is None ==> rest == lanes
        }),
        lanes.wf() <==> lanes.reliable.len() <= 16 && lanes.realtime.len() <= 4,
{
    if lanes.reliable.len() == 0 && lanes.realtime.len() > 0 {
        assert(lanes.realtime.drop_first() =~= lanes.realtime.skip(1));
    }
}

/// A frame is the length of the message in four bytes, the highest first, and the
/// message itself; messages of up to sixty-four mebibytes are taken.
pub proof fn law_how_messages_are_framed(encoded: Seq<u8>)
    requires
        encoded.len() <= 64 * 1024 * 1024,
    ensures
        frame_of(encoded).len() == 4 + encoded.len(),
        be_value(frame_of(encoded).take(4)) == encoded.len(),
        frame_of(encoded).skip(4) == encoded,
        reception(frame_of(encoded), false) == Reception::Frame(encoded),
{
    law_frame_round_trip(encoded, Seq::empty(), false);
    assert(frame_of(encoded) + Seq::<u8>::empty() =~= frame_of(encoded));
    crate::wire::law_u32_round_trip(encoded.len() as u32);
    assert(frame_of(encoded).take(4) =~= be_bytes(encoded.len(), 4));
    assert(frame_of(encoded).skip(4) =~= encoded);
}

/// A part of a frame asks for what is missing: first for the rest of the length, then
/// for the rest of the message. At the end of the pipe a part is an error, one in the
/// length and another in the message, and nothing at all is a clean end.
pub proof fn law_what_a_part_of_a_frame_asks_for(encoded: Seq<u8>, cut: int)
    requires
        encoded.len() <= 64 * 1024 * 1024,
        0 <= cut < 4 + encoded.len(),
    ensures
        ({
            let part = frame_of(encoded).take(cut);
            &&& cut < 4 ==> reception(part, false) == Reception::NeedMore((4 - cut) as nat)
            &&& cut >= 4 ==> reception(part, false) == Reception::NeedMore(
                (4 + encoded.len() - cut) as nat,
            )
            &&& cut == 0 ==> reception(part, true) is Ended
            &&& 0 < cut < 4 ==> reception(part, true) == Reception::Failed(
                FrameError::TruncatedPrefix,
            )
            &&& cut >= 4 ==> reception(part, true) == Reception::Failed(FrameError::TruncatedBody)
        }),
{
    law_how_messages_are_framed(encoded);
    let part = frame_of(encoded).take(cut);
    if cut >= 4 {
        assert(part.take(4) =~= frame_of(encoded).take(4));
    }
}

/// A length of more than sixty-four mebibytes is refused.
pub proof fn law_longest_message(input: Seq<u8>, ended: bool)
    requires
        input.len() >= 4,
    ensures
        be_value(input.take(4)) > 67_108_864 <==> reception(input, ended) == Reception::Failed(
            FrameError::Oversized,
        ),
{
}

/// Messages are sent in their order, up to sixteen on the control lane. A full lane and
/// a closed one give the message back, and no other lane is touched.
pub proof fn law_control_messages_queue_up<Message>(
    lanes: &mut IpcSender<Message>,
    message: Message,
    sent: Result<(), TrySendError<Message>>,
)
    requires
        call_ensures(IpcSender::<Message>::try_send, (lanes, message), sent),
    ensures
        ({
            let before = old(lanes)@;
            let after = final(lanes)@;
            &&& sent is Ok ==> after == Lanes { reliable: before.reliable.push(message), ..before }
            &&& sent is Err ==> after == before
            &&& before.reliable_closed <==> sent == Err::<(), _>(TrySendError::Closed(message))
            &&& !before.reliable_closed && before.reliable.len() == 16 <==> sent == Err::<(), _>(
                TrySendError::Full(message),
            )
        }),
{
}

/// The lane of real time holds four messages and works like the control lane.
pub proof fn law_sound_queues_up<Message>(
    lanes: &mut IpcSender<Message>,
    message: Message,
    sent: Result<(), TrySendError<Message>>,
)
    requires
        call_ensures(IpcSender::<Message>::try_send_realtime, (lanes, message), sent),
    ensures
        ({
            let before = old(lanes)@;
            let after = final(lanes)@;
            &&& sent is Ok ==> after == Lanes { realtime: before.realtime.push(message), ..before }
            &&& sent is Err ==> after == before
            &&& before.realtime_closed <==> sent == Err::<(), _>(TrySendError::Closed(message))
            &&& !before.realtime_closed && before.realtime.len() == 4 <==> sent == Err::<(), _>(
                TrySendError::Full(message),
            )
        }),
{
}

/// Of messages that replace one another the latest waits; of those that have time the
/// first waits, and the next is given back until it is gone.
pub proof fn law_latest_and_first_wait<Message>(
    lanes: &mut IpcSender<Message>,
    other: &mut IpcSender<Message>,
    message: Message,
    sent: Result<(), TrySendError<Message>>,
    kept: Result<(), TrySendError<Message>>,
)
    requires
        call_ensures(IpcSender::<Message>::try_send_latest, (lanes, message), sent),
        call_ensures(IpcSender::<Message>::try_send_low_priority, (other, message), kept),
    ensures
        sent is Ok <==> !old(lanes)@.latest_closed,
        sent is Ok ==> final(lanes)@ == (Lanes { latest: Some(message), ..old(lanes)@ }),
        sent is Err ==> sent->Err_0 == TrySendError::Closed(message) && final(lanes)@ == old(lanes)@,
        kept is Ok <==> !old(other)@.low_priority_closed && old(other)@.low_priority is None,
        kept is Ok ==> final(other)@ == (Lanes { low_priority: Some(message), ..old(other)@ }),
        kept is Err ==> final(other)@ == old(other)@,
        old(other)@.low_priority_closed ==> kept->Err_0 == TrySendError::Closed(message),
        !old(other)@.low_priority_closed && old(other)@.low_priority is Some ==> kept->Err_0
            == TrySendError::Full(message),
{
}

/// What waits comes out before the end is told: a reader is done when the senders are
/// gone and nothing is left.
pub proof fn law_nothing_is_lost_at_the_end<Message>(
    lanes: &mut IpcSender<Message>,
    next: NextMessage<Message>,
)
    requires
        call_ensures(next_ipc_message::<Message>, (lanes,), next),
    ensures
        next matches NextMessage::Message(message) ==> old(lanes)@.first() == Some(message),
        next is Message <==> old(lanes)@.first() is Some,
        next is Message ==> final(lanes)@ == old(lanes)@.rest(),
        next is Closed <==> old(lanes)@.first() is None && old(lanes)@.reliable_closed && old(
            lanes,
        )@.realtime_closed,
        !(next is Message) ==> final(lanes)@ == old(lanes)@,
{
}

/// Closing the senders keeps what waits, and closing everything drops what can be
/// replaced and keeps what has to arrive.
pub proof fn law_what_closing_keeps<Message>(
    lanes: &mut IpcSender<Message>,
    other: &mut IpcSender<Message>,
)
    requires
        call_ensures(IpcSender::<Message>::close_senders, (lanes,), ()),
        call_ensures(IpcSender::<Message>::close, (other,), ()),
    ensures
        final(lanes)@.reliable_closed && final(lanes)@.realtime_closed,
        final(lanes)@.reliable == old(lanes)@.reliable && final(lanes)@.realtime == old(
            lanes,
        )@.realtime,
        final(lanes)@.latest == old(lanes)@.latest && final(lanes)@.low_priority == old(
            lanes,
        )@.low_priority,
        final(lanes)@.latest_closed == old(lanes)@.latest_closed,
        final(other)@.reliable_closed && final(other)@.realtime_closed,
        final(other)@.latest_closed && final(other)@.low_priority_closed,
        final(other)@.latest is None && final(other)@.low_priority is None,
        final(other)@.reliable == old(other)@.reliable && final(other)@.realtime == old(
            other,
        )@.realtime,
{
}

/// A receiver that failed once receives nothing more. Otherwise a frame is taken out of
/// what was read, and only a frame is.
pub proof fn law_what_a_receiver_takes(receiver: &mut IpcReceiver, received: Received)
    requires
        call_ensures(IpcReceiver::recv, (receiver,), received),
    ensures
        old(receiver).errored ==> received is Ended && *final(receiver) == *old(receiver),
        !old(receiver).errored ==> received@ == reception(
            old(receiver).input@,
            old(receiver).ended,
        ),
        final(receiver).errored <==> old(receiver).errored || received is Failed,
        received matches Received::Frame(encoded) ==> final(receiver).input@ == old(
            receiver,
        ).input@.skip(4 + encoded@.len() as int),
        !(received is Frame) ==> final(receiver).input@ == old(receiver).input@,
        final(receiver).ended == old(receiver).ended,
{
}

/// The controller sees what the browser reported, each count as it was reported.
pub proof fn law_reports_are_passed_on(
    feedback: NetworkFeedback,
    sample: crate::adaptive_bitrate::FeedbackSample,
)
    requires
        call_ensures(NetworkFeedback::sample, (feedback,), sample),
    ensures
        sample.rtt_ms == feedback.rtt_ms,
        sample.sent_packets == feedback.sent_packets && sample.lost_packets
            == feedback.lost_packets,
        sample.congestion_events == feedback.congestion_events,
        sample.admission_drops == feedback.admission_drops,
        sample.video_write_timeouts == feedback.video_write_timeouts,
        sample.recovery_requests == feedback.recovery_requests,
{
}

} // verus!

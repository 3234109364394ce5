//! The outbound half of the control WebSocket.
//!
//! Control messages wait in a bounded queue, in their order. Audio and video
//! have one place each, so that a slow socket never builds up old media.

use crate::channel::{HOST_AUDIO, HOST_VIDEO};
use crate::outside::encode_websocket;
use crate::web_transport::video::{is_key_frame, key_frame};
use crate::wire::be_bytes;
use std::collections::VecDeque;
use vstd::prelude::*;

verus! {

/// How many control messages may wait.
pub const RELIABLE_QUEUE_CAPACITY: usize = 64;

/// What became of a binary message.
#[derive(Clone, Copy, Debug, PartialEq, Eq, Structural)]
pub enum BinarySendOutcome {
    Enqueued,
    Dropped,
    /// Dropped, and the host must be asked for a key frame.
    NeedIdr,
}

/// The session takes no more messages.
#[derive(Clone, Copy, Debug, PartialEq, Eq, Structural)]
pub struct Closed;

#[derive(Clone, Debug, PartialEq, Eq)]
pub struct CloseReason {
    pub code: u16,
    pub description: Option<String>,
}

/// A message to the browser.
#[derive(Debug, PartialEq, Eq)]
pub enum OutboundMessage {
    Text(String),
    Binary(Vec<u8>),
    Pong(Vec<u8>),
    Close(Option<CloseReason>),
}

/// The payload of a message: a text in UTF-8, and the reason for a close behind
/// its code.
pub open spec fn payload(message: OutboundMessage) -> Seq<u8> {
    match message {
        OutboundMessage::Text(text) => vstd::utf8::encode_utf8(text@),
        OutboundMessage::Binary(bytes) => bytes@,
        OutboundMessage::Pong(bytes) => bytes@,
        OutboundMessage::Close(None) => Seq::empty(),
        OutboundMessage::Close(Some(reason)) => be_bytes(reason.code as nat, 2)
            + match reason.description {
            Some(text) => vstd::utf8::encode_utf8(text@),
            None => Seq::empty(),
        },
    }
}

/// The first byte of a frame: the message is complete, and of this kind.
pub open spec fn opcode(message: OutboundMessage) -> u8 {
    match message {
        OutboundMessage::Text(_) => 0x81,
        OutboundMessage::Binary(_) => 0x82,
        OutboundMessage::Close(_) => 0x88,
        OutboundMessage::Pong(_) => 0x8a,
    }
}

/// The length of a payload, in one, three or nine bytes.
pub open spec fn payload_length(length: nat) -> Seq<u8> {
    if length < 126 {
        seq![length as u8]
    } else if length <= 0xffff {
        seq![126u8] + be_bytes(length, 2)
    } else {
        seq![127u8] + be_bytes(length, 8)
    }
}

/// A message as one WebSocket frame from the server, which is not masked.
pub open spec fn websocket_frame(message: OutboundMessage) -> Seq<u8> {
    seq![opcode(message)] + payload_length(payload(message).len()) + payload(message)
}

/// Whose turn it is when both media wait.
#[derive(Clone, Copy, Debug, PartialEq, Eq, Structural)]
pub enum MediaTurn {
    Audio,
    Video,
}

/// How far the end of the session has come.
#[derive(Debug, PartialEq, Eq)]
pub enum Terminal {
    Open,
    /// Control messages still go out, then the close.
    GracefulClosePending(Option<CloseReason>),
    /// The close goes out next.
    CloseNowPending(Option<CloseReason>),
    EndAfterClose,
    Aborted,
    Finished,
}

/// What goes out next.
#[derive(Debug, PartialEq, Eq)]
pub enum Selection {
    Message(OutboundMessage),
    End,
    Pending,
}

/// The next item of the response body.
#[derive(Debug, PartialEq, Eq)]
pub enum BodyItem {
    /// One message in one frame.
    Frame(Vec<u8>),
    EncodeFailed,
    End,
    Pending,
}

pub struct LowLatencySession {
    pub reliable: VecDeque<OutboundMessage>,
    pub audio: Option<Vec<u8>>,
    pub video: Option<Vec<u8>>,
    /// A frame was dropped: nothing but a key frame is of use.
    pub video_recovering: bool,
    pub idr_request_pending: bool,
    pub next_media: MediaTurn,
    pub terminal: Terminal,
}

/// [`LowLatencySession`] as a mathematical value.
#[verifier::ext_equal]
pub struct Outbound {
    pub reliable: Seq<OutboundMessage>,
    pub audio: Option<Vec<u8>>,
    pub video: Option<Vec<u8>>,
    pub video_recovering: bool,
    pub idr_request_pending: bool,
    pub next_media: MediaTurn,
    pub terminal: Terminal,
}

impl View for LowLatencySession {
    type V = Outbound;

    open spec fn view(&self) -> Outbound {
        Outbound {
            reliable: self.reliable@,
            audio: self.audio,
            video: self.video,
            video_recovering: self.video_recovering,
            idr_request_pending: self.idr_request_pending,
            next_media: self.next_media,
            terminal: self.terminal,
        }
    }
}

impl Outbound {
    pub open spec fn is_open(self) -> bool {
        self.terminal is Open
    }

    /// Without media, and without a memory of what was dropped.
    pub open spec fn without_media(self) -> Outbound {
        Outbound {
            audio: None,
            video: None,
            video_recovering: false,
            idr_request_pending: false,
            ..self
        }
    }

    pub open spec fn aborted(self) -> Outbound {
        Outbound {
            reliable: Seq::empty(),
            terminal: Terminal::Aborted,
            ..self.without_media()
        }
    }

    /// After a control message. One too many ends the session.
    pub open spec fn with_reliable(self, message: OutboundMessage) -> Outbound {
        if !self.is_open() {
            self
        } else if self.reliable.len() >= RELIABLE_QUEUE_CAPACITY {
            self.aborted()
        } else {
            Outbound { reliable: self.reliable.push(message), ..self }
        }
    }

    pub open spec fn takes_reliable(self) -> bool {
        self.is_open() && self.reliable.len() < RELIABLE_QUEUE_CAPACITY
    }

    /// Whether a video frame gets its place: a key frame in any case, another
    /// only where nothing was dropped and the place is free.
    pub open spec fn takes_video(self, frame: Seq<u8>) -> bool {
        key_frame(frame) || (!self.video_recovering && self.video is None)
    }

    /// After a video frame, while the session is open.
    pub open spec fn with_video(self, frame: Vec<u8>) -> Outbound {
        if key_frame(frame@) {
            Outbound {
                video: Some(frame),
                video_recovering: false,
                idr_request_pending: false,
                ..self
            }
        } else if self.takes_video(frame@) {
            Outbound { video: Some(frame), ..self }
        } else {
            Outbound { video_recovering: true, idr_request_pending: true, ..self }
        }
    }

    pub open spec fn video_outcome(self, frame: Seq<u8>) -> BinarySendOutcome {
        if self.takes_video(frame) {
            BinarySendOutcome::Enqueued
        } else if self.idr_request_pending {
            BinarySendOutcome::Dropped
        } else {
            BinarySendOutcome::NeedIdr
        }
    }

    /// What goes out next, and the session after it.
    pub open spec fn selected(self) -> (Selection, Outbound) {
        match self.terminal {
            Terminal::CloseNowPending(reason) => (
                Selection::Message(OutboundMessage::Close(reason)),
                Outbound { terminal: Terminal::EndAfterClose, ..self },
            ),
            Terminal::EndAfterClose | Terminal::Aborted | Terminal::Finished => (
                Selection::End,
                Outbound { terminal: Terminal::Finished, ..self },
            ),
            Terminal::Open | Terminal::GracefulClosePending(_) => if self.reliable.len() > 0 {
                (
                    Selection::Message(self.reliable[0]),
                    Outbound { reliable: self.reliable.skip(1), ..self },
                )
            } else {
                match self.terminal {
                    Terminal::GracefulClosePending(reason) => (
                        Selection::Message(OutboundMessage::Close(reason)),
                        Outbound { terminal: Terminal::EndAfterClose, ..self },
                    ),
                    _ => self.selected_media(),
                }
            },
        }
    }

    /// The media whose turn it is, or else the other.
    pub open spec fn selected_media(self) -> (Selection, Outbound) {
        let audio_first = self.next_media is Audio && self.audio is Some;
        if self.audio is Some && (audio_first || self.video is None) {
            (
                Selection::Message(OutboundMessage::Binary(self.audio->0)),
                Outbound { audio: None, next_media: MediaTurn::Video, ..self },
            )
        } else if self.video is Some {
            (
                Selection::Message(OutboundMessage::Binary(self.video->0)),
                Outbound { video: None, next_media: MediaTurn::Audio, ..self },
            )
        } else {
            (Selection::Pending, self)
        }
    }
}

impl LowLatencySession {
    pub open spec fn well_formed(&self) -> bool {
        self.reliable@.len() <= RELIABLE_QUEUE_CAPACITY
    }

    pub fn new() -> (session: Self)
        ensures
            session.well_formed(),
            session@ == (Outbound {
                reliable: Seq::empty(),
                audio: None,
                video: None,
                video_recovering: false,
                idr_request_pending: false,
                next_media: MediaTurn::Audio,
                terminal: Terminal::Open,
            }),
    {
        LowLatencySession {
            reliable: VecDeque::new(),
            audio: None,
            video: None,
            video_recovering: false,
            idr_request_pending: false,
            next_media: MediaTurn::Audio,
            terminal: Terminal::Open,
        }
    }

    fn is_open(&self) -> (open: bool)
        ensures
            open == self@.is_open(),
    {
        match self.terminal {
            Terminal::Open => true,
            _ => false,
        }
    }

    fn enqueue_reliable(&mut self, message: OutboundMessage) -> (sent: Result<(), Closed>)
        requires
            old(self).well_formed(),
        ensures
            final(self).well_formed(),
            final(self)@ == old(self)@.with_reliable(message),
            sent is Ok == old(self)@.takes_reliable(),
    {
        if !self.is_open() {
            return Err(Closed);
        }
        if self.reliable.len() >= RELIABLE_QUEUE_CAPACITY {
            self.abort();
            return Err(Closed);
        }
        self.reliable.push_back(message);
        Ok(())
    }

    /// Sends a control message.
    pub fn text(&mut self, message: String) -> (sent: Result<(), Closed>)
        requires
            old(self).well_formed(),
        ensures
            final(self).well_formed(),
            final(self)@ == old(self)@.with_reliable(OutboundMessage::Text(message)),
            sent is Ok == old(self)@.takes_reliable(),
    {
        self.enqueue_reliable(OutboundMessage::Text(message))
    }

    /// Answers a ping.
    pub fn pong(&mut self, message: Vec<u8>) -> (sent: Result<(), Closed>)
        requires
            old(self).well_formed(),
        ensures
            final(self).well_formed(),
            final(self)@ == old(self)@.with_reliable(OutboundMessage::Pong(message)),
            sent is Ok == old(self)@.takes_reliable(),
    {
        self.enqueue_reliable(OutboundMessage::Pong(message))
    }

    /// Sends a frame of the transport, by its channel.
    pub fn binary(&mut self, message: Vec<u8>) -> (sent: Result<BinarySendOutcome, Closed>)
        requires
            old(self).well_formed(),
        ensures
            final(self).well_formed(),
            ({
                let audio = message@.len() > 0 && message@[0] == HOST_AUDIO;
                let video = message@.len() > 0 && message@[0] == HOST_VIDEO;
                if audio || video {
                    if !old(self)@.is_open() {
                        sent is Err && final(self)@ == old(self)@
                    } else if audio {
                        sent == Ok::<_, Closed>(BinarySendOutcome::Enqueued) && final(self)@ == (
                        Outbound { audio: Some(message), ..old(self)@ })
                    } else {
                        sent == Ok::<_, Closed>(old(self)@.video_outcome(message@)) && final(self)@
                            == old(self)@.with_video(message)
                    }
                } else {
                    &&& final(self)@ == old(self)@.with_reliable(OutboundMessage::Binary(message))
                    &&& sent == (if old(self)@.takes_reliable() {
                        Ok(BinarySendOutcome::Enqueued)
                    } else {
                        Err(Closed)
                    })
                }
            }),
    {
        if message.len() > 0 && message[0] == HOST_AUDIO {
            if !self.is_open() {
                return Err(Closed);
            }
            self.audio = Some(message);
            return Ok(BinarySendOutcome::Enqueued);
        }
        if message.len() > 0 && message[0] == HOST_VIDEO {
            return self.enqueue_video(message);
        }
        match self.enqueue_reliable(OutboundMessage::Binary(message)) {
            Ok(()) => Ok(BinarySendOutcome::Enqueued),
            Err(closed) => Err(closed),
        }
    }

    fn enqueue_video(&mut self, message: Vec<u8>) -> (sent: Result<BinarySendOutcome, Closed>)
        requires
            old(self).well_formed(),
        ensures
            final(self).well_formed(),
            if old(self)@.is_open() {
                sent == Ok::<_, Closed>(old(self)@.video_outcome(message@)) && final(self)@
                    == old(self)@.with_video(message)
            } else {
                sent is Err && final(self)@ == old(self)@
            },
    {
        if !self.is_open() {
            return Err(Closed);
        }
        if is_key_frame(message.as_slice()) {
            self.video = Some(message);
            self.video_recovering = false;
            self.idr_request_pending = false;
            return Ok(BinarySendOutcome::Enqueued);
        }
        if !self.video_recovering && self.video.is_none() {
            self.video = Some(message);
            return Ok(BinarySendOutcome::Enqueued);
        }
        self.video_recovering = true;
        if self.idr_request_pending {
            Ok(BinarySendOutcome::Dropped)
        } else {
            self.idr_request_pending = true;
            Ok(BinarySendOutcome::NeedIdr)
        }
    }

    /// Discards the media that wait. Control messages stay.
    pub fn clear_media(&mut self)
        requires
            old(self).well_formed(),
        ensures
            final(self).well_formed(),
            final(self)@ == old(self)@.without_media(),
    {
        self.audio = None;
        self.video = None;
        self.video_recovering = false;
        self.idr_request_pending = false;
    }

    /// Takes no more messages, and closes once the control messages are out.
    pub fn close(&mut self, reason: Option<CloseReason>) -> (closed: Result<(), Closed>)
        requires
            old(self).well_formed(),
        ensures
            final(self).well_formed(),
            closed is Ok == old(self)@.is_open(),
            final(self)@ == (if old(self)@.is_open() {
                Outbound {
                    terminal: Terminal::GracefulClosePending(reason),
                    ..old(self)@.without_media()
                }
            } else {
                old(self)@
            }),
    {
        if !self.is_open() {
            return Err(Closed);
        }
        self.clear_media();
        self.terminal = Terminal::GracefulClosePending(reason);
        Ok(())
    }

    /// Takes no more messages, and closes before anything that waits.
    pub fn close_now(&mut self, reason: Option<CloseReason>) -> (closed: Result<(), Closed>)
        requires
            old(self).well_formed(),
        ensures
            final(self).well_formed(),
            closed is Ok == (old(self).terminal is Open || old(self).terminal is GracefulClosePending),
            final(self)@ == (if closed is Ok {
                Outbound {
                    reliable: Seq::empty(),
                    terminal: Terminal::CloseNowPending(reason),
                    ..old(self)@.without_media()
                }
            } else {
                old(self)@
            }),
    {
        match self.terminal {
            Terminal::Open | Terminal::GracefulClosePending(_) => {},
            _ => {
                return Err(Closed);
            },
        }
        self.reliable.clear();
        self.clear_media();
        self.terminal = Terminal::CloseNowPending(reason);
        Ok(())
    }

    /// The socket is gone.
    pub fn abort(&mut self)
        ensures
            final(self).well_formed(),
            final(self)@ == old(self)@.aborted(),
    {
        self.reliable.clear();
        self.audio = None;
        self.video = None;
        self.video_recovering = false;
        self.idr_request_pending = false;
        self.terminal = Terminal::Aborted;
    }

    /// The last one who could send is gone.
    pub fn abort_if_open(&mut self)
        requires
            old(self).well_formed(),
        ensures
            final(self).well_formed(),
            final(self)@ == (if old(self)@.is_open() {
                old(self)@.aborted()
            } else {
                old(self)@
            }),
    {
        if self.is_open() {
            self.abort();
        }
    }

    fn select_media(&mut self) -> (selection: Selection)
        requires
            old(self).well_formed(),
        ensures
            final(self).well_formed(),
            (selection, final(self)@) == old(self)@.selected_media(),
    {
        let audio_first: bool = self.next_media == MediaTurn::Audio || self.video.is_none();
        if audio_first {
            if let Some(audio) = self.audio.take() {
                self.next_media = MediaTurn::Video;
                return Selection::Message(OutboundMessage::Binary(audio));
            }
        }
        if let Some(video) = self.video.take() {
            self.next_media = MediaTurn::Audio;
            return Selection::Message(OutboundMessage::Binary(video));
        }
        Selection::Pending
    }

    /// Takes out what goes out next.
    pub fn select(&mut self) -> (selection: Selection)
        requires
            old(self).well_formed(),
        ensures
            final(self).well_formed(),
            (selection, final(self)@) == old(self)@.selected(),
    {
        let mut terminal: Terminal = Terminal::EndAfterClose;
        std::mem::swap(&mut terminal, &mut self.terminal);
        match terminal {
            Terminal::CloseNowPending(reason) => {
                return Selection::Message(OutboundMessage::Close(reason));
            },
            Terminal::EndAfterClose | Terminal::Aborted | Terminal::Finished => {
                self.terminal = Terminal::Finished;
                return Selection::End;
            },
            Terminal::GracefulClosePending(reason) => {
                if self.reliable.len() == 0 {
                    return Selection::Message(OutboundMessage::Close(reason));
                }
                self.terminal = Terminal::GracefulClosePending(reason);
            },
            Terminal::Open => {
                self.terminal = Terminal::Open;
            },
        }
        match self.reliable.pop_front() {
            Some(message) => {
                assert(self@.reliable =~= old(self)@.reliable.skip(1));
                Selection::Message(message)
            },
            None => self.select_media(),
        }
    }

    /// The next item of the response body: one message in one frame.
    pub fn poll_next(&mut self) -> (item: BodyItem)
        requires
            old(self).well_formed(),
        ensures
            final(self).well_formed(),
            final(self)@ == old(self)@.selected().1,
            match old(self)@.selected().0 {
                Selection::Message(message) => item matches BodyItem::Frame(bytes) && bytes@
                    == websocket_frame(message),
                Selection::End => item is End,
                Selection::Pending => item is Pending,
            },
    {
        match self.select() {
            Selection::Message(message) => match encode_websocket(message) {
                Some(bytes) => BodyItem::Frame(bytes),
                None => {
                    self.abort();
                    BodyItem::EncodeFailed
                },
            },
            Selection::End => BodyItem::End,
            Selection::Pending => BodyItem::Pending,
        }
    }
}

/// Nothing is taken once the end of the session has begun.
pub proof fn law_closed_session_takes_nothing(session: Outbound, message: OutboundMessage)
    requires
        !session.is_open(),
    ensures
        session.with_reliable(message) == session,
        !session.takes_reliable(),
{
}

/// After the close comes the end, and nothing else ever.
pub proof fn law_nothing_follows_the_close(session: Outbound)
    requires
        session.terminal is CloseNowPending || (session.terminal is GracefulClosePending
            && session.reliable.len() == 0),
    ensures
        session.selected().0 matches Selection::Message(message) && message is Close,
        ({
            let after = session.selected().1;
            let end = after.selected().1;
            &&& after.selected().0 is End
            &&& end.selected() == (Selection::End, end)
        }),
{
}

/// A control message never waits for media.
pub proof fn law_control_goes_before_media(session: Outbound)
    requires
        session.is_open(),
        session.reliable.len() > 0,
    ensures
        session.selected().0 == Selection::Message(session.reliable[0]),
        session.selected().1.audio == session.audio,
        session.selected().1.video == session.video,
{
}

/// Of two media that wait, each goes out within two turns.
pub proof fn law_media_take_turns(session: Outbound)
    requires
        session.is_open(),
        session.reliable.len() == 0,
        session.audio is Some,
        session.video is Some,
    ensures
        ({
            let after = session.selected().1.selected().1;
            &&& after.audio is None
            &&& after.video is None
            &&& after.next_media == session.next_media
        }),
{
}

/// After a dropped frame, no frame but a key frame is taken, and only one
/// request is made.
pub proof fn law_recovery_waits_for_a_key_frame(session: Outbound, dropped: Vec<u8>, next: Vec<u8>)
    requires
        !session.takes_video(dropped@),
        !key_frame(next@),
    ensures
        !session.with_video(dropped).takes_video(next@),
        session.with_video(dropped).video_outcome(next@) is Dropped,
        session.with_video(dropped).video == session.video,
{
}

/// A graceful close keeps the control messages in their order.
pub proof fn law_graceful_close_drains_control(
    session: Outbound,
    reason: Option<CloseReason>,
)
    requires
        session.is_open(),
        session.reliable.len() > 0,
    ensures
        ({
            let closing = Outbound {
                terminal: Terminal::GracefulClosePending(reason),
                ..session.without_media()
            };
            &&& closing.selected().0 == Selection::Message(session.reliable[0])
            &&& closing.selected().1.reliable == session.reliable.skip(1)
        }),
{
}

/// A frame of the WebSocket protocol: the last-frame bit and the kind of the message,
/// its length in one, three or nine bytes, and the payload. Nothing is masked.
pub proof fn law_how_messages_are_framed(message: OutboundMessage)
    requires
        payload(message).len() < 0x8000_0000_0000_0000,
    ensures
        ({
            let frame = websocket_frame(message);
            let length = payload(message).len();
            let head = if length < 126 {
                2int
            } else if length < 65536 {
                4
            } else {
                10
            };
            &&& frame[0] >= 128
            &&& frame[0] - 128 == match message {
                OutboundMessage::Text(_) => 1int,
                OutboundMessage::Binary(_) => 2,
                OutboundMessage::Close(_) => 8,
                OutboundMessage::Pong(_) => 10,
            }
            &&& frame.len() == head + length
            &&& frame.skip(head) == payload(message)
            &&& head == 2 ==> frame[1] == length
            &&& head == 4 ==> frame[1] == 126 && crate::wire::be_value(frame.subrange(2, 4))
                == length
            &&& head == 10 ==> frame[1] == 127 && crate::wire::be_value(frame.subrange(2, 10))
                == length
        }),
{
    let frame = websocket_frame(message);
    let length = payload(message).len();
    if length < 126 {
        assert(frame.skip(2) =~= payload(message));
    } else if length < 65536 {
        crate::wire::law_u16_round_trip(length as u16);
        assert(frame.subrange(2, 4) =~= be_bytes(length, 2));
        assert(frame.skip(4) =~= payload(message));
    } else {
        assert(crate::wire::power_of_256(8) >= 0x8000_0000_0000_0000) by {
            reveal_with_fuel(crate::wire::power_of_256, 9);
        }
        crate::wire::lemma_be_round_trip(length, 8);
        crate::wire::lemma_be_bytes_len(length, 8);
        assert(frame.subrange(2, 10) =~= be_bytes(length, 8));
        assert(frame.skip(10) =~= payload(message));
    }
}

/// What the payloads are: the bytes of a binary message and of a pong, and for a close
/// with a reason its code in two bytes, the higher first, before the description.
pub proof fn law_what_the_payloads_are(bytes: Vec<u8>, code: u16, description: Option<String>)
    ensures
        payload(OutboundMessage::Binary(bytes)) == bytes@,
        payload(OutboundMessage::Pong(bytes)) == bytes@,
        payload(OutboundMessage::Close(None)).len() == 0,
        ({
            let closing = payload(OutboundMessage::Close(Some(CloseReason { code, description })));
            &&& closing.len() >= 2
            &&& crate::wire::be_value(closing.take(2)) == code
            &&& description is None ==> closing.len() == 2
            &&& description is Some ==> closing.skip(2) == vstd::utf8::encode_utf8(
                description->0@,
            )
        }),
{
    let closing = payload(OutboundMessage::Close(Some(CloseReason { code, description })));
    crate::wire::law_u16_round_trip(code);
    assert(closing.take(2) =~= be_bytes(code as nat, 2));
    if description is Some {
        assert(closing.skip(2) =~= vstd::utf8::encode_utf8(description->0@));
    }
}

/// Control messages queue up in their order, sixty-four at most; one more means that
/// the browser does not read, and ends the session with all that waits.
pub proof fn law_control_queues_up(session: Outbound, message: OutboundMessage)
    requires
        session.terminal is Open,
    ensures
        ({
            let after = session.with_reliable(message);
            &&& session.takes_reliable() <==> session.reliable.len() < 64
            &&& session.reliable.len() < 64 ==> after == Outbound {
                reliable: session.reliable.push(message),
                ..session
            }
            &&& session.reliable.len() >= 64 ==> after.terminal is Aborted && after.reliable.len()
                == 0 && after.audio is None && after.video is None && after.selected().0 is End
        }),
{
}

/// One frame of video waits at most. A key frame takes the place of what waits and ends
/// a recovery. Another frame is taken only where none waits and none was lost; else it
/// is dropped, what waits stays, and a key frame is asked for once.
pub proof fn law_what_becomes_of_video(session: Outbound, frame: Vec<u8>)
    ensures
        ({
            let after = session.with_video(frame);
            let outcome = session.video_outcome(frame@);
            let key = frame@.len() >= 2 && frame@[1] == 1;
            let free = session.video is None && !session.video_recovering;
            &&& key ==> after == Outbound {
                video: Some(frame),
                video_recovering: false,
                idr_request_pending: false,
                ..session
            } && outcome is Enqueued
            &&& !key && free ==> after == Outbound { video: Some(frame), ..session } && outcome
                is Enqueued
            &&& !key && !free ==> after == Outbound {
                video_recovering: true,
                idr_request_pending: true,
                ..session
            }
            &&& !key && !free && !session.idr_request_pending ==> outcome is NeedIdr
            &&& !key && !free && session.idr_request_pending ==> outcome is Dropped
        }),
{
}

/// Without control messages, sound and video go out in turns: the one whose turn it is
/// goes first, the other one where it does not wait, and then it is the turn of the
/// other. Nothing goes out where nothing waits.
pub proof fn law_whose_turn_it_is(session: Outbound)
    requires
        session.terminal is Open,
        session.reliable.len() == 0,
    ensures
        ({
            let (selection, after) = session.selected();
            let sound = session.audio is Some && (session.next_media is Audio || session.video
                is None);
            &&& sound ==> selection == Selection::Message(
                OutboundMessage::Binary(session.audio->0),
            ) && after == Outbound { audio: None, next_media: MediaTurn::Video, ..session }
            &&& !sound && session.video is Some ==> selection == Selection::Message(
                OutboundMessage::Binary(session.video->0),
            ) && after == Outbound { video: None, next_media: MediaTurn::Audio, ..session }
            &&& session.audio is None && session.video is None ==> selection is Pending && after
                == session
        }),
{
}

/// How a session ends: a close that cannot wait goes out before everything else, with
/// its reason; an aborted session says nothing; and after the close comes the end.
pub proof fn law_how_a_session_ends(session: Outbound, reason: Option<CloseReason>)
    ensures
        ({
            let closing = Outbound { terminal: Terminal::CloseNowPending(reason), ..session };
            let graceful = Outbound {
                terminal: Terminal::GracefulClosePending(reason),
                reliable: Seq::empty(),
                ..session
            };
            &&& closing.selected().0 == Selection::Message(OutboundMessage::Close(reason))
            &&& closing.selected().1.selected().0 is End
            &&& graceful.selected().0 == Selection::Message(OutboundMessage::Close(reason))
            &&& graceful.selected().1.selected().0 is End
            &&& session.aborted().selected().0 is End
            &&& session.without_media().audio is None && session.without_media().video is None
            &&& session.without_media().reliable == session.reliable
            &&& session.without_media().terminal == session.terminal
            &&& !session.without_media().video_recovering
            &&& !session.without_media().idr_request_pending
        }),
{
}

/// Binary messages go by their channel: sound takes the place of sound, video has its
/// own rules, and everything else queues up with the control messages.
pub proof fn law_where_binary_messages_go(
    session: &mut LowLatencySession,
    message: Vec<u8>,
    sent: Result<BinarySendOutcome, Closed>,
)
    requires
        call_ensures(LowLatencySession::binary, (session, message), sent),
    ensures
        ({
            let before = old(session)@;
            let after = final(session)@;
            let open = before.terminal is Open;
            let audio = message@.len() > 0 && message@[0] == 3;
            let video = message@.len() > 0 && message@[0] == 2;
            &&& !open ==> sent is Err && after == before
            &&& open && audio ==> sent == Ok::<_, Closed>(BinarySendOutcome::Enqueued) && after
                == Outbound { audio: Some(message), ..before }
            &&& open && video ==> sent == Ok::<_, Closed>(before.video_outcome(message@)) && after
                == before.with_video(message)
            &&& open && !audio && !video && before.reliable.len() < 64 ==> sent == Ok::<_, Closed>(
                BinarySendOutcome::Enqueued,
            ) && after == Outbound {
                reliable: before.reliable.push(OutboundMessage::Binary(message)),
                ..before
            }
            &&& open && !audio && !video && before.reliable.len() >= 64 ==> sent is Err
                && after.terminal is Aborted
        }),
{
}

/// A close drops the media and lets control messages out first; one that cannot wait
/// drops these too and overrules a close that waits. Closing again does nothing.
pub proof fn law_what_closing_does(
    session: &mut LowLatencySession,
    other: &mut LowLatencySession,
    aborted: &mut LowLatencySession,
    reason: Option<CloseReason>,
    closed: Result<(), Closed>,
    closed_now: Result<(), Closed>,
)
    requires
        call_ensures(LowLatencySession::close, (session, reason), closed),
        call_ensures(LowLatencySession::close_now, (other, reason), closed_now),
        call_ensures(LowLatencySession::abort_if_open, (aborted,), ()),
    ensures
        closed is Ok <==> old(session)@.terminal is Open,
        closed is Ok ==> final(session)@.terminal == Terminal::GracefulClosePending(reason)
            && final(session)@.reliable == old(session)@.reliable && final(session)@.audio is None
            && final(session)@.video is None,
        closed is Err ==> final(session)@ == old(session)@,
        closed_now is Ok <==> old(other)@.terminal is Open || old(other)@.terminal
            is GracefulClosePending,
        closed_now is Ok ==> final(other)@.terminal == Terminal::CloseNowPending(reason)
            && final(other)@.reliable.len() == 0 && final(other)@.audio is None
            && final(other)@.video is None,
        closed_now is Err ==> final(other)@ == old(other)@,
        old(aborted)@.terminal is Open ==> final(aborted)@.terminal is Aborted
            && final(aborted)@.reliable.len() == 0,
        !(old(aborted)@.terminal is Open) ==> final(aborted)@ == old(aborted)@,
{
}

/// What is selected goes out in one frame.
pub proof fn law_what_goes_out(session: &mut LowLatencySession, item: BodyItem)
    requires
        call_ensures(LowLatencySession::poll_next, (session,), item),
    ensures
        old(session)@.terminal is Open && old(session)@.reliable.len() > 0 ==> (
        item matches BodyItem::Frame(bytes) && bytes@ == websocket_frame(
            old(session)@.reliable[0],
        )),
        item is End <==> old(session)@.selected().0 is End,
        item is Pending <==> old(session)@.selected().0 is Pending,
        !(item is EncodeFailed),
        final(session)@ == old(session)@.selected().1,
{
}

} // verus!

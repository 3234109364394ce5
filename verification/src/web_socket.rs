//! The transport by way of the server: everything goes through the pipe to it,
//! and from there over WebSocket or WebTransport.

use crate::channel::{HOST_AUDIO, HOST_VIDEO};
use crate::frame::{join_buffers, joined, DecodeResult, FrameType};
use crate::input::InboundPacket;
use crate::ipc::{IpcSender, Lanes, TrySendError, IPC_REALTIME_QUEUE_CAPACITY};
use crate::messages::{ServerIpcMessage, StreamClientMessage, StreamerIpcMessage};
use crate::permissions::StreamSettings;
use crate::time::{Duration, Instant};
use crate::wire::{be_bytes, push_u32, slice_of};
use vstd::prelude::*;

verus! {

/// How long an answer to a probe is waited for.
pub const RTT_PROBE_TIMEOUT_NANOS: u64 = 1_000_000_000;

/// Channel, kind and time in front of a frame.
pub const VIDEO_HEADER_BYTES: usize = 6;

/// The server is gone.
#[derive(Clone, Copy, Debug, PartialEq, Eq, Structural)]
pub struct TransportClosed;

/// Measures how long the browser takes to answer.
#[derive(Clone, Copy, Debug, PartialEq, Eq, Structural)]
pub struct RttProbeState {
    pub sent_at: Option<Instant>,
    pub sequence_number: u16,
    pub awaiting_reply: bool,
}

pub open spec fn probe_after(number: u16) -> u16 {
    if number == u16::MAX {
        0
    } else {
        (number + 1) as u16
    }
}

impl RttProbeState {
    pub fn new() -> (state: Self)
        ensures
            state == (RttProbeState { sent_at: None, sequence_number: 0, awaiting_reply: false }),
    {
        RttProbeState { sent_at: None, sequence_number: 0, awaiting_reply: false }
    }

    /// Whether an answer is still waited for.
    pub open spec fn waits(self, now: Instant) -> bool {
        &&& self.awaiting_reply
        &&& self.sent_at is Some
        &&& now.elapsed_since(self.sent_at->0) < RTT_PROBE_TIMEOUT_NANOS
    }

    /// Begins a probe, unless an answer is still waited for. An answer that
    /// does not come is given up.
    pub fn start_probe_if_due(&mut self, now: Instant) -> (number: Option<u16>)
        ensures
            if old(self).waits(now) {
                number is None && *final(self) == *old(self)
            } else {
                number == Some(probe_after(old(self).sequence_number)) && *final(self) == (
                RttProbeState {
                    sent_at: Some(now),
                    sequence_number: probe_after(old(self).sequence_number),
                    awaiting_reply: true,
                })
            },
    {
        if self.awaiting_reply {
            if let Some(sent_at) = self.sent_at {
                if now.nanos_since(sent_at) < RTT_PROBE_TIMEOUT_NANOS as u128 {
                    return None;
                }
            }
        }
        self.sequence_number = self.sequence_number.wrapping_add(1);
        self.sent_at = Some(now);
        self.awaiting_reply = true;
        Some(self.sequence_number)
    }

    /// Takes an answer. Only that to the last probe counts, and only once.
    pub fn accept_reply(&mut self, sequence_number: u16, now: Instant) -> (rtt: Option<Duration>)
        ensures
            if !old(self).awaiting_reply || sequence_number != old(self).sequence_number {
                rtt is None && *final(self) == *old(self)
            } else {
                &&& *final(self) == (RttProbeState {
                    sent_at: None,
                    awaiting_reply: false,
                    ..*old(self)
                })
                &&& rtt is Some == old(self).sent_at is Some
                &&& rtt is Some ==> rtt->0.nanos() == now.elapsed_since(old(self).sent_at->0)
            },
    {
        if !self.awaiting_reply || sequence_number != self.sequence_number {
            return None;
        }
        self.awaiting_reply = false;
        match self.sent_at.take() {
            Some(sent_at) => Some(now.duration_since(sent_at)),
            None => None,
        }
    }
}

/// What is known of lost frames, and of requests for a key frame.
#[derive(Clone, Copy, Debug, PartialEq, Eq, Structural)]
pub struct VideoRecoveryState {
    /// A frame was lost: nothing but a key frame is sent.
    pub recovering: bool,
    /// A key frame was asked for because of it.
    pub recovery_request_outstanding: bool,
    /// The browser asked for a key frame itself.
    pub browser_requested_idr: bool,
}

impl Default for VideoRecoveryState {
    fn default() -> (state: Self)
        ensures
            state == (VideoRecoveryState {
                recovering: false,
                recovery_request_outstanding: false,
                browser_requested_idr: false,
            }),
    {
        VideoRecoveryState {
            recovering: false,
            recovery_request_outstanding: false,
            browser_requested_idr: false,
        }
    }
}

impl VideoRecoveryState {
    /// A key frame is asked for where the browser did, or nobody yet.
    pub open spec fn asks(self) -> bool {
        self.browser_requested_idr || !self.recovery_request_outstanding
    }

    pub open spec fn asked(self) -> VideoRecoveryState {
        VideoRecoveryState {
            recovery_request_outstanding: true,
            browser_requested_idr: false,
            ..self
        }
    }

    pub open spec fn answer(asks: bool) -> DecodeResult {
        if asks {
            DecodeResult::NeedIdr
        } else {
            DecodeResult::Accepted
        }
    }

    /// Decides on a frame before it is sent: `Some` where it is discarded.
    pub fn before_enqueue(&mut self, frame_type: FrameType) -> (result: Option<DecodeResult>)
        ensures
            if old(self).recovering && frame_type is PFrame {
                result == Some(VideoRecoveryState::answer(old(self).asks())) && *final(self)
                    == old(self).asked()
            } else {
                result is None && *final(self) == *old(self)
            },
    {
        if !self.recovering || frame_type == FrameType::Idr {
            return None;
        }
        let asks: bool = self.browser_requested_idr || !self.recovery_request_outstanding;
        self.browser_requested_idr = false;
        self.recovery_request_outstanding = true;
        if asks {
            Some(DecodeResult::NeedIdr)
        } else {
            Some(DecodeResult::Accepted)
        }
    }

    /// The browser asks for a key frame.
    pub fn request_idr(&mut self)
        ensures
            *final(self) == (VideoRecoveryState { browser_requested_idr: true, ..*old(self) }),
    {
        self.browser_requested_idr = true;
    }

    /// A frame could not be sent. A key frame that could not be sent is asked
    /// for again.
    pub fn on_enqueue_failed(&mut self, frame_type: FrameType) -> (result: DecodeResult)
        ensures
            result == VideoRecoveryState::answer(frame_type is Idr || old(self).asks()),
            *final(self) == (VideoRecoveryState { recovering: true, ..old(self).asked() }),
    {
        let asks: bool = frame_type == FrameType::Idr || self.browser_requested_idr
            || !self.recovery_request_outstanding;
        self.recovering = true;
        self.browser_requested_idr = false;
        self.recovery_request_outstanding = true;
        if asks {
            DecodeResult::NeedIdr
        } else {
            DecodeResult::Accepted
        }
    }

    pub open spec fn after_enqueued(self, frame_type: FrameType) -> VideoRecoveryState {
        if frame_type is Idr {
            VideoRecoveryState {
                recovering: false,
                recovery_request_outstanding: false,
                browser_requested_idr: false,
            }
        } else {
            VideoRecoveryState { browser_requested_idr: false, ..self }
        }
    }

    /// A frame was sent. A key frame answers every request.
    pub fn on_enqueued(&mut self, frame_type: FrameType) -> (result: DecodeResult)
        ensures
            result == VideoRecoveryState::answer(
                frame_type is PFrame && old(self).browser_requested_idr,
            ),
            *final(self) == old(self).after_enqueued(frame_type),
    {
        if frame_type == FrameType::Idr {
            self.recovering = false;
            self.recovery_request_outstanding = false;
            self.browser_requested_idr = false;
            return DecodeResult::Accepted;
        }
        if self.browser_requested_idr {
            self.browser_requested_idr = false;
            DecodeResult::NeedIdr
        } else {
            DecodeResult::Accepted
        }
    }
}

/// A video frame on the wire: channel, kind, time in microseconds, data.
pub open spec fn video_frame(frame_type: FrameType, timestamp_us: u32, data: Seq<u8>) -> Seq<u8> {
    seq![
        HOST_VIDEO,
        if frame_type is Idr {
            1u8
        } else {
            0u8
        },
    ] + be_bytes(timestamp_us as nat, 4) + data
}

pub fn encode_video_frame(
    frame_type: FrameType,
    timestamp_us: u32,
    buffers: &Vec<Vec<u8>>,
) -> (framed: Vec<u8>)
    ensures
        framed@ == video_frame(frame_type, timestamp_us, joined(buffers@)),
{
    let data: Vec<u8> = join_buffers(buffers);
    let mut framed: Vec<u8> = Vec::with_capacity(data.len().saturating_add(VIDEO_HEADER_BYTES));
    framed.push(HOST_VIDEO);
    framed.push(
        match frame_type {
            FrameType::Idr => 1,
            FrameType::PFrame => 0,
        },
    );
    push_u32(&mut framed, timestamp_us);
    let ghost header = framed@;
    framed.extend_from_slice(data.as_slice());
    assert(framed@ =~= header + data@);
    assert(framed@ =~= video_frame(frame_type, timestamp_us, joined(buffers@)));
    framed
}

/// The time of a frame on the wire: microseconds, of which 32 bits count.
pub open spec fn wire_micros(nanos: nat) -> int {
    (nanos / 1_000) as int % 0x1_0000_0000
}

pub fn timestamp_micros(time: Duration) -> (micros: u32)
    ensures
        micros == wire_micros(time.nanos()),
{
    (time.as_nanos() / 1_000 % 0x1_0000_0000) as u32
}

/// Any packet on the wire: channel and data.
pub fn frame_packet(channel: u8, data: &[u8]) -> (framed: Vec<u8>)
    ensures
        framed@ == seq![channel] + data@,
{
    let mut framed: Vec<u8> = Vec::new();
    framed.push(channel);
    framed.extend_from_slice(data);
    assert(framed@ =~= seq![channel] + data@);
    framed
}

/// The message that carries these bytes to the server.
pub open spec fn carries(message: StreamerIpcMessage, bytes: Seq<u8>) -> bool {
    message matches StreamerIpcMessage::WebSocketTransport(data) && data@ == bytes
}

/// Sends a frame of the host, unless the one before it is still waiting.
pub fn send_video_unit(
    recovery: &mut VideoRecoveryState,
    ipc: &mut IpcSender<StreamerIpcMessage>,
    frame_type: FrameType,
    time: Duration,
    buffers: &Vec<Vec<u8>>,
) -> (result: Result<DecodeResult, TransportClosed>)
    requires
        old(ipc)@.wf(),
    ensures
        final(ipc)@.wf(),
        ({
            let discarded = old(recovery).recovering && frame_type is PFrame;
            if discarded {
                &&& result == Ok::<_, TransportClosed>(
                    VideoRecoveryState::answer(old(recovery).asks()),
                )
                &&& *final(recovery) == old(recovery).asked()
                &&& final(ipc)@ == old(ipc)@
            } else if old(ipc)@.low_priority_closed {
                &&& result is Err
                &&& *final(recovery) == *old(recovery)
                &&& final(ipc)@ == old(ipc)@
            } else if old(ipc)@.low_priority is Some {
                &&& result == Ok::<_, TransportClosed>(
                    VideoRecoveryState::answer(frame_type is Idr || old(recovery).asks()),
                )
                &&& *final(recovery) == (VideoRecoveryState {
                    recovering: true,
                    ..old(recovery).asked()
                })
                &&& final(ipc)@ == old(ipc)@
            } else {
                &&& result == Ok::<_, TransportClosed>(
                    VideoRecoveryState::answer(
                        frame_type is PFrame && old(recovery).browser_requested_idr,
                    ),
                )
                &&& *final(recovery) == old(recovery).after_enqueued(frame_type)
                &&& final(ipc)@.low_priority is Some
                &&& carries(
                    final(ipc)@.low_priority->0,
                    video_frame(
                        frame_type,
                        wire_micros(time.nanos()) as u32,
                        joined(buffers@),
                    ),
                )
                &&& final(ipc)@ == (Lanes {
                    low_priority: final(ipc)@.low_priority,
                    ..old(ipc)@
                })
            }
        }),
{
    if let Some(result) = recovery.before_enqueue(frame_type) {
        return Ok(result);
    }
    let framed: Vec<u8> = encode_video_frame(frame_type, timestamp_micros(time), buffers);
    match ipc.try_send_low_priority(StreamerIpcMessage::WebSocketTransport(framed)) {
        Ok(()) => Ok(recovery.on_enqueued(frame_type)),
        Err(TrySendError::Full(_)) => Ok(recovery.on_enqueue_failed(frame_type)),
        Err(TrySendError::Closed(_)) => Err(TransportClosed),
    }
}

/// Sends a packet of audio. Where too many wait, it is dropped.
pub fn send_audio_sample(ipc: &mut IpcSender<StreamerIpcMessage>, data: &[u8]) -> (sent: Result<
    (),
    TransportClosed,
>)
    requires
        old(ipc)@.wf(),
    ensures
        final(ipc)@.wf(),
        sent is Err == old(ipc)@.realtime_closed,
        if old(ipc)@.realtime_closed || old(ipc)@.realtime.len() == IPC_REALTIME_QUEUE_CAPACITY {
            final(ipc)@ == old(ipc)@
        } else {
            &&& final(ipc)@.realtime.len() == old(ipc)@.realtime.len() + 1
            &&& carries(final(ipc)@.realtime.last(), seq![HOST_AUDIO] + data@)
            &&& final(ipc)@ == (Lanes {
                realtime: old(ipc)@.realtime.push(final(ipc)@.realtime.last()),
                ..old(ipc)@
            })
        },
{
    let framed: Vec<u8> = frame_packet(HOST_AUDIO, data);
    match ipc.try_send_realtime(StreamerIpcMessage::WebSocketTransport(framed)) {
        Ok(()) | Err(TrySendError::Full(_)) => Ok(()),
        Err(TrySendError::Closed(_)) => Err(TransportClosed),
    }
}

/// What a message of the server means to the transport.
#[derive(Debug, PartialEq, Eq)]
pub enum ServerStep {
    /// A packet of the browser, on its channel.
    Packet { channel: u8, body: Vec<u8> },
    StartStream { settings: StreamSettings },
    Nothing,
}

/// Handles a message of the server. A packet stands behind its channel.
pub fn on_ipc_message(message: ServerIpcMessage) -> (step: ServerStep)
    ensures
        match message {
            ServerIpcMessage::WebSocketTransport(bytes) => if bytes@.len() == 0 {
                step is Nothing
            } else {
                step matches ServerStep::Packet { channel, body } && channel == bytes@[0] && body@
                    == bytes@.skip(1)
            },
            ServerIpcMessage::WebSocket(StreamClientMessage::StartStream { settings }) => step == (
            ServerStep::StartStream { settings }),
            _ => step is Nothing,
        },
{
    match message {
        ServerIpcMessage::WebSocketTransport(bytes) => {
            if bytes.len() == 0 {
                return ServerStep::Nothing;
            }
            let body: Vec<u8> = slice_of(bytes.as_slice(), 1, bytes.len());
            assert(body@ =~= bytes@.skip(1));
            ServerStep::Packet { channel: bytes[0], body }
        },
        ServerIpcMessage::WebSocket(StreamClientMessage::StartStream { settings }) =>
            ServerStep::StartStream { settings },
        _ => ServerStep::Nothing,
    }
}

/// Takes note of a packet of the browser before it goes on. The answer to a
/// probe gives the round trip time.
pub fn on_packet(
    recovery: &mut VideoRecoveryState,
    rtt: &mut RttProbeState,
    packet: &InboundPacket,
    now: Instant,
) -> (measured: Option<Duration>)
    ensures
        *final(recovery) == (if packet is RequestVideoIdr {
            VideoRecoveryState { browser_requested_idr: true, ..*old(recovery) }
        } else {
            *old(recovery)
        }),
        match packet {
            InboundPacket::Rtt { sequence_number } => if !old(rtt).awaiting_reply
                || *sequence_number != old(rtt).sequence_number {
                measured is None && *final(rtt) == *old(rtt)
            } else {
                &&& *final(rtt) == (RttProbeState {
                    sent_at: None,
                    awaiting_reply: false,
                    ..*old(rtt)
                })
                &&& measured is Some == old(rtt).sent_at is Some
                &&& measured is Some ==> measured->0.nanos() == now.elapsed_since(
                    old(rtt).sent_at->0,
                )
            },
            _ => measured is None && *final(rtt) == *old(rtt),
        },
{
    match packet {
        InboundPacket::RequestVideoIdr => {
            recovery.request_idr();
            None
        },
        InboundPacket::Rtt { sequence_number } => rtt.accept_reply(*sequence_number, now),
        _ => None,
    }
}

/// After a lost frame one key frame is asked for, and then none until it came.
pub proof fn law_one_request_until_a_key_frame(state: VideoRecoveryState)
    requires
        state.recovering,
        state.recovery_request_outstanding,
        !state.browser_requested_idr,
    ensures
        !state.asks(),
        state.asked() == state,
        VideoRecoveryState::answer(state.asks()) is Accepted,
{
}

/// A request of the browser is passed on, whatever was asked for before.
pub proof fn law_request_of_the_browser_is_passed_on(state: VideoRecoveryState)
    ensures
        (VideoRecoveryState { browser_requested_idr: true, ..state }).asks(),
        !(VideoRecoveryState { browser_requested_idr: true, ..state }).asked().asks(),
{
}

/// Only one probe is on its way at a time.
pub proof fn law_one_probe_at_a_time(state: RttProbeState, sent: Instant, now: Instant)
    requires
        now.elapsed_since(sent) < RTT_PROBE_TIMEOUT_NANOS,
    ensures
        (RttProbeState { sent_at: Some(sent), awaiting_reply: true, ..state }).waits(now),
{
}

/// A frame on the wire has six bytes before its data: the channel of video, a one for
/// a key frame and a zero otherwise, and the time with its highest byte first.
pub proof fn law_how_video_frames_are_written(frame_type: FrameType, time: u32, data: Seq<u8>)
    ensures
        ({
            let frame = video_frame(frame_type, time, data);
            &&& frame.len() == 6 + data.len()
            &&& frame[0] == 2
            &&& frame[1] == 1 <==> frame_type is Idr
            &&& frame[1] == 0 <==> frame_type is PFrame
            &&& crate::wire::be_value(frame.subrange(2, 6)) == time
            &&& frame.skip(6) == data
        }),
{
    crate::wire::law_u32_round_trip(time);
    let frame = video_frame(frame_type, time, data);
    assert(frame.subrange(2, 6) =~= be_bytes(time as nat, 4));
    assert(frame.skip(6) =~= data);
}

/// Times on the wire are whole microseconds, and begin again after two to the power of
/// thirty-two of them.
pub proof fn law_times_on_the_wire(micros: nat, rest: nat)
    requires
        rest < 1_000,
    ensures
        micros < 0x1_0000_0000 ==> wire_micros(micros * 1_000 + rest) == micros,
        wire_micros(micros * 1_000 + rest + 0x1_0000_0000 * 1_000) == wire_micros(
            micros * 1_000 + rest,
        ),
{
}

/// A probe waits for its reply for one second, and then another one may go out, with
/// the next number. A probe that was answered, or that never went out, is not waited
/// for.
pub proof fn law_how_long_a_probe_waits(state: RttProbeState, sent: Instant, now: Instant)
    ensures
        ({
            let out = RttProbeState { sent_at: Some(sent), awaiting_reply: true, ..state };
            &&& out.waits(now) <==> now.nanos() < sent.nanos() + 1_000_000_000
            &&& !(RttProbeState { awaiting_reply: false, ..out }).waits(now)
            &&& !(RttProbeState { sent_at: None, ..out }).waits(now)
        }),
        probe_after(state.sequence_number) == (state.sequence_number + 1) % 0x1_0000,
{
}

/// After a loss a key frame is asked for once, and once more whenever the browser asks.
/// A key frame that goes out ends all that; another frame that goes out has passed the
/// wish of the browser on.
pub proof fn law_when_a_key_frame_is_asked_for(state: VideoRecoveryState)
    ensures
        state.asks() <==> state.browser_requested_idr || !state.recovery_request_outstanding,
        !state.asked().asks(),
        state.asked().recovering == state.recovering,
        VideoRecoveryState::answer(true) is NeedIdr,
        VideoRecoveryState::answer(false) is Accepted,
        state.after_enqueued(FrameType::Idr) == (VideoRecoveryState {
            recovering: false,
            recovery_request_outstanding: false,
            browser_requested_idr: false,
        }),
        ({
            let after = state.after_enqueued(FrameType::PFrame);
            &&& after.recovering == state.recovering
            &&& after.recovery_request_outstanding == state.recovery_request_outstanding
            &&& !after.browser_requested_idr
        }),
{
}

/// A probe goes out when none is waited for, under the next number, and is waited for
/// from then on. Its reply, and no other, gives the time that has passed, once.
pub proof fn law_probe_and_reply(
    state: &mut RttProbeState,
    answered: &mut RttProbeState,
    sent: Instant,
    number: Option<u16>,
    reply: u16,
    now: Instant,
    rtt: Option<Duration>,
)
    requires
        call_ensures(RttProbeState::start_probe_if_due, (state, sent), number),
        call_ensures(RttProbeState::accept_reply, (answered, reply, now), rtt),
        *old(answered) == *final(state),
    ensures
        number is None ==> *final(state) == *old(state) && old(state).awaiting_reply,
        number is Some ==> number->0 == (old(state).sequence_number + 1) % 0x1_0000,
        number is Some && reply == number->0 ==> rtt is Some && rtt->0.nanos() == now.elapsed_since(
            sent,
        ) && !final(answered).awaiting_reply,
        number is Some && reply != number->0 ==> rtt is None && *final(answered) == *old(answered),
        number is Some ==> final(state).waits(sent),
{
}

/// While a loss is not made up for, only key frames go out; the others are dropped, and
/// a key frame is asked for if none was yet.
pub proof fn law_losses_are_made_up_for(
    state: &mut VideoRecoveryState,
    failed: &mut VideoRecoveryState,
    frame_type: FrameType,
    before: Option<DecodeResult>,
    after: DecodeResult,
)
    requires
        call_ensures(VideoRecoveryState::before_enqueue, (state, frame_type), before),
        call_ensures(VideoRecoveryState::on_enqueue_failed, (failed, frame_type), after),
    ensures
        before is Some <==> old(state).recovering && frame_type is PFrame,
        before is None ==> *final(state) == *old(state),
        before == Some(DecodeResult::NeedIdr) ==> final(state).recovery_request_outstanding
            && !final(state).browser_requested_idr,
        final(failed).recovering && final(failed).recovery_request_outstanding,
        frame_type is Idr ==> after is NeedIdr,
        frame_type is PFrame ==> (after is NeedIdr <==> old(failed).browser_requested_idr || !old(
            failed,
        ).recovery_request_outstanding),
{
}

/// A video frame that can go out waits on the lane that has time, with its kind, its
/// time and all its bytes. A second one finds the lane taken: it is lost, and a loss is
/// to be made up for. On a closed lane nothing is sent.
pub proof fn law_what_becomes_of_a_video_frame(
    recovery: &mut VideoRecoveryState,
    ipc: &mut IpcSender<StreamerIpcMessage>,
    frame_type: FrameType,
    time: Duration,
    buffers: &Vec<Vec<u8>>,
    result: Result<DecodeResult, TransportClosed>,
)
    requires
        call_ensures(send_video_unit, (recovery, ipc, frame_type, time, buffers), result),
        frame_type is Idr || !old(recovery).recovering,
    ensures
        ({
            let before = old(ipc)@;
            let after = final(ipc)@;
            let free = !before.low_priority_closed && before.low_priority is None;
            &&& result is Err <==> before.low_priority_closed
            &&& !free ==> after == before
            &&& !before.low_priority_closed && !free ==> final(recovery).recovering
            &&& free ==> {
                &&& after.low_priority matches Some(
                    StreamerIpcMessage::WebSocketTransport(bytes),
                ) && bytes@.len() == 6 + joined(buffers@).len() && bytes@[0] == 2 && (bytes@[1] == 1
                    <==> frame_type is Idr) && bytes@.skip(6) == joined(buffers@)
                &&& after.reliable == before.reliable && after.realtime == before.realtime
                    && after.latest == before.latest
                &&& frame_type is Idr ==> !final(recovery).recovering && result == Ok::<
                    _,
                    TransportClosed,
                >(DecodeResult::Accepted)
            }
        }),
{
    law_how_video_frames_are_written(
        frame_type,
        wire_micros(time.nanos()) as u32,
        joined(buffers@),
    );
}

/// Sound goes out on the lane of real time, behind the number of its channel. A full
/// lane drops it, and only a closed one is an error.
pub proof fn law_what_becomes_of_sound(
    ipc: &mut IpcSender<StreamerIpcMessage>,
    data: &[u8],
    sent: Result<(), TransportClosed>,
)
    requires
        call_ensures(send_audio_sample, (ipc, data), sent),
    ensures
        ({
            let before = old(ipc)@;
            let after = final(ipc)@;
            let free = !before.realtime_closed && before.realtime.len() != 4;
            &&& sent is Err <==> before.realtime_closed
            &&& !free ==> after == before
            &&& free ==> {
                &&& after.realtime.drop_last() == before.realtime
                &&& after.realtime.last() matches StreamerIpcMessage::WebSocketTransport(bytes)
                    && bytes@ == seq![3u8] + data@
            }
        }),
{
    let after = final(ipc)@;
    if !old(ipc)@.realtime_closed && old(ipc)@.realtime.len() != 4 {
        assert(after.realtime.drop_last() =~= old(ipc)@.realtime);
    }
}

/// What the server passes on of the browser: the first byte of a packet is its channel
/// and the rest is its body, and a start carries the settings. An empty packet is none.
pub proof fn law_what_the_server_passes_on(message: ServerIpcMessage, step: ServerStep)
    requires
        call_ensures(on_ipc_message, (message,), step),
    ensures
        step matches ServerStep::Packet { channel, body } ==> (
        message matches ServerIpcMessage::WebSocketTransport(bytes) && bytes@ == seq![channel]
            + body@),
        message matches ServerIpcMessage::WebSocketTransport(bytes) ==> (step is Packet
            <==> bytes@.len() > 0),
        step matches ServerStep::StartStream { settings } ==> message
            == ServerIpcMessage::WebSocket(StreamClientMessage::StartStream { settings }),
        message matches ServerIpcMessage::WebSocket(StreamClientMessage::StartStream { settings })
            ==> step is StartStream,
{
    match message {
        ServerIpcMessage::WebSocketTransport(bytes) => {
            if bytes@.len() > 0 {
                assert(bytes@ =~= seq![bytes@[0]] + bytes@.skip(1));
            }
        },
        _ => {},
    }
}

/// A wish of the browser for a key frame is noted, and a reply to a probe is measured.
/// Other packets do neither.
pub proof fn law_what_packets_do(
    recovery: &mut VideoRecoveryState,
    rtt: &mut RttProbeState,
    packet: &InboundPacket,
    now: Instant,
    measured: Option<Duration>,
)
    requires
        call_ensures(on_packet, (recovery, rtt, packet, now), measured),
    ensures
        packet is RequestVideoIdr ==> final(recovery).browser_requested_idr
            && final(recovery).recovering == old(recovery).recovering,
        !(packet is RequestVideoIdr) ==> *final(recovery) == *old(recovery),
        measured is Some ==> packet is Rtt && old(rtt).awaiting_reply && !final(rtt).awaiting_reply,
        packet matches InboundPacket::Rtt { sequence_number } && old(rtt).awaiting_reply
            && sequence_number == old(rtt).sequence_number && old(rtt).sent_at is Some ==> measured
            is Some && measured->0.nanos() == now.elapsed_since(old(rtt).sent_at->0),
        measured is None && !(packet is Rtt) ==> *final(rtt) == *old(rtt),
{
}

} // verus!

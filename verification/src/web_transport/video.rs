//! Video frames on their way to the browser: which are let through, and when
//! the host is asked for a new key frame.

use crate::channel::{HOST_AUDIO, HOST_VIDEO};
use crate::ipc::NetworkFeedback;
use crate::time::Duration;
use crate::web_transport::framing::{sendable, MAX_FRAME_BYTES};
use std::collections::VecDeque;
use vstd::prelude::*;

verus! {

/// How many video frames may wait to be written.
pub const VIDEO_QUEUE_CAPACITY: usize = 4;

pub const PRIORITY_VIDEO_DELTA: i32 = 0;

pub const PRIORITY_VIDEO_IDR: i32 = 10;

pub const PRIORITY_RELIABLE_OTHER: i32 = 20;

pub const PRIORITY_AUDIO: i32 = 30;

/// A video frame that can be decoded without any before it.
pub open spec fn key_frame(frame: Seq<u8>) -> bool {
    frame.len() >= 2 && frame[1] == 1
}

pub fn is_key_frame(frame: &[u8]) -> (key: bool)
    ensures
        key == key_frame(frame@),
{
    frame.len() >= 2 && frame[1] == 1
}

/// How often the connection was too slow.
#[derive(Clone, Copy, Debug, PartialEq, Eq, Structural)]
pub struct CongestionCounters {
    pub admission_drops: u64,
    pub video_write_timeouts: u64,
    pub recovery_requests: u64,
}

/// A counter after one more event. It starts again after its largest value.
pub open spec fn counted(counter: u64) -> u64 {
    if counter == u64::MAX {
        0
    } else {
        (counter + 1) as u64
    }
}

fn count(counter: u64) -> (next: u64)
    ensures
        next == counted(counter),
{
    counter.wrapping_add(1)
}

impl Default for CongestionCounters {
    fn default() -> (counters: Self)
        ensures
            counters == (CongestionCounters {
                admission_drops: 0,
                video_write_timeouts: 0,
                recovery_requests: 0,
            }),
    {
        CongestionCounters { admission_drops: 0, video_write_timeouts: 0, recovery_requests: 0 }
    }
}

/// A span in whole milliseconds, as far as they fit.
pub open spec fn whole_millis(nanos: nat) -> int {
    if nanos / 1_000_000 > u32::MAX {
        u32::MAX as int
    } else {
        (nanos / 1_000_000) as int
    }
}

impl CongestionCounters {
    /// A report on the connection.
    pub fn snapshot(
        &self,
        rtt: Duration,
        sent_packets: u64,
        lost_packets: u64,
        congestion_events: u64,
    ) -> (feedback: NetworkFeedback)
        ensures
            feedback.rtt_ms == whole_millis(rtt.nanos()),
            feedback == (NetworkFeedback {
                rtt_ms: feedback.rtt_ms,
                sent_packets,
                lost_packets,
                congestion_events,
                admission_drops: self.admission_drops,
                video_write_timeouts: self.video_write_timeouts,
                recovery_requests: self.recovery_requests,
            }),
    {
        let millis: u128 = rtt.as_nanos() / 1_000_000;
        let rtt_ms: u32 = if millis > u32::MAX as u128 {
            u32::MAX
        } else {
            millis as u32
        };
        NetworkFeedback {
            rtt_ms,
            sent_packets,
            lost_packets,
            congestion_events,
            admission_drops: self.admission_drops,
            video_write_timeouts: self.video_write_timeouts,
            recovery_requests: self.recovery_requests,
        }
    }
}

/// Requests for a key frame, and what is counted with them.
#[derive(Clone, Copy, Debug, PartialEq, Eq, Structural)]
pub struct VideoRecovery {
    /// A request is on its way, and no key frame came since.
    pub enqueued: bool,
    pub counters: CongestionCounters,
}

/// The message to the streamer that asks for a key frame.
pub open spec fn recovery_request() -> Seq<u8> {
    seq![HOST_VIDEO, 0]
}

impl VideoRecovery {
    pub fn new() -> (recovery: Self)
        ensures
            !recovery.enqueued,
            recovery.counters == (CongestionCounters {
                admission_drops: 0,
                video_write_timeouts: 0,
                recovery_requests: 0,
            }),
    {
        VideoRecovery { enqueued: false, counters: CongestionCounters::default() }
    }

    /// After a key frame was asked for, with room for the message or without.
    pub open spec fn requested(self, room: bool) -> VideoRecovery {
        if !self.enqueued && room {
            VideoRecovery {
                enqueued: true,
                counters: CongestionCounters {
                    recovery_requests: counted(self.counters.recovery_requests),
                    ..self.counters
                },
            }
        } else {
            self
        }
    }

    /// After a frame was dropped, and a key frame asked for.
    pub open spec fn dropped(self, room: bool) -> VideoRecovery {
        (VideoRecovery {
            enqueued: self.enqueued,
            counters: CongestionCounters {
                admission_drops: counted(self.counters.admission_drops),
                ..self.counters
            },
        }).requested(room)
    }

    /// After a key frame came.
    pub open spec fn cleared(self) -> VideoRecovery {
        VideoRecovery { enqueued: false, ..self }
    }

    /// Asks for a key frame, unless a request is on its way. Where there is no
    /// room for the message, the next attempt tries again.
    pub fn try_enqueue_video_recovery_request(&mut self, room: bool) -> (message: Option<[u8; 2]>)
        ensures
            *final(self) == old(self).requested(room),
            message is Some == (!old(self).enqueued && room),
            message is Some ==> message->0@ == recovery_request(),
    {
        if self.enqueued || !room {
            return None;
        }
        self.enqueued = true;
        self.counters.recovery_requests = count(self.counters.recovery_requests);
        let message: [u8; 2] = [HOST_VIDEO, 0];
        assert(message@ =~= recovery_request());
        Some(message)
    }

    fn drop_frame(&mut self, room: bool) -> (message: Option<[u8; 2]>)
        ensures
            *final(self) == old(self).dropped(room),
            message is Some == (!old(self).enqueued && room),
            message is Some ==> message->0@ == recovery_request(),
    {
        self.counters.admission_drops = count(self.counters.admission_drops);
        self.try_enqueue_video_recovery_request(room)
    }

    pub fn clear(&mut self)
        ensures
            *final(self) == old(self).cleared(),
    {
        self.enqueued = false;
    }
}

/// The short queue before the writer of video frames.
#[derive(Debug)]
pub struct VideoAdmissionQueue {
    pub frames: VecDeque<Vec<u8>>,
    pub producer_closed: bool,
    pub consumer_closed: bool,
}

#[derive(Clone, Copy, Debug, PartialEq, Eq, Structural)]
pub enum VideoAdmissionError {
    Full,
    Closed,
}

/// What the queue has for the writer.
#[derive(Debug, PartialEq, Eq)]
pub enum NextVideoFrame {
    Frame(Vec<u8>),
    Pending,
    Closed,
}

/// [`VideoAdmissionQueue`] as a mathematical value.
#[verifier::ext_equal]
pub struct VideoAdmissionView {
    pub frames: Seq<Vec<u8>>,
    pub producer_closed: bool,
    pub consumer_closed: bool,
}

impl View for VideoAdmissionQueue {
    type V = VideoAdmissionView;

    open spec fn view(&self) -> VideoAdmissionView {
        VideoAdmissionView {
            frames: self.frames@,
            producer_closed: self.producer_closed,
            consumer_closed: self.consumer_closed,
        }
    }
}

/// The queue after a frame came: a key frame takes the place of all that wait,
/// any other frame needs a free place.
pub open spec fn after_send(queue: VideoAdmissionView, frame: Vec<u8>) -> Result<
    VideoAdmissionView,
    VideoAdmissionError,
> {
    if queue.consumer_closed {
        Err(VideoAdmissionError::Closed)
    } else if key_frame(frame@) {
        Ok(VideoAdmissionView { frames: seq![frame], ..queue })
    } else if queue.frames.len() >= VIDEO_QUEUE_CAPACITY {
        Err(VideoAdmissionError::Full)
    } else {
        Ok(VideoAdmissionView { frames: queue.frames.push(frame), ..queue })
    }
}

impl VideoAdmissionQueue {
    pub open spec fn well_formed(&self) -> bool {
        self.frames@.len() <= VIDEO_QUEUE_CAPACITY
    }

    pub fn new() -> (queue: Self)
        ensures
            queue.well_formed(),
            queue@ == (VideoAdmissionView {
                frames: Seq::empty(),
                producer_closed: false,
                consumer_closed: false,
            }),
    {
        VideoAdmissionQueue {
            frames: VecDeque::new(),
            producer_closed: false,
            consumer_closed: false,
        }
    }

    /// Takes a frame without waiting, and says how many it superseded.
    pub fn try_send(&mut self, frame: Vec<u8>) -> (sent: Result<usize, VideoAdmissionError>)
        requires
            old(self).well_formed(),
        ensures
            final(self).well_formed(),
            match after_send(old(self)@, frame) {
                Ok(queue) => final(self)@ == queue && sent is Ok && sent->Ok_0 == (if key_frame(
                    frame@,
                ) {
                    old(self).frames@.len()
                } else {
                    0
                }),
                Err(error) => final(self)@ == old(self)@ && sent == Err::<usize, _>(error),
            },
    {
        if self.consumer_closed {
            return Err(VideoAdmissionError::Closed);
        }
        let mut evicted: usize = 0;
        if is_key_frame(frame.as_slice()) {
            evicted = self.frames.len();
            self.frames.clear();
        } else if self.frames.len() >= VIDEO_QUEUE_CAPACITY {
            return Err(VideoAdmissionError::Full);
        }
        let ghost kept = self.frames@;
        self.frames.push_back(frame);
        assert(self.frames@ =~= kept.push(frame));
        assert(Seq::empty().push(frame) =~= seq![frame]);
        Ok(evicted)
    }

    pub fn next(&mut self) -> (next: NextVideoFrame)
        requires
            old(self).well_formed(),
        ensures
            final(self).well_formed(),
            match next {
                NextVideoFrame::Frame(frame) => old(self).frames@.len() > 0 && frame
                    == old(self).frames@[0] && final(self)@ == (VideoAdmissionView {
                    frames: old(self).frames@.skip(1),
                    ..old(self)@
                }),
                NextVideoFrame::Pending => old(self).frames@.len() == 0
                    && !old(self).producer_closed && final(self)@ == old(self)@,
                NextVideoFrame::Closed => old(self).frames@.len() == 0
                    && old(self).producer_closed && final(self)@ == old(self)@,
            },
    {
        match self.frames.pop_front() {
            Some(frame) => {
                assert(self.frames@ =~= old(self).frames@.skip(1));
                NextVideoFrame::Frame(frame)
            },
            None => if self.producer_closed {
                NextVideoFrame::Closed
            } else {
                NextVideoFrame::Pending
            },
        }
    }

    pub fn close_producer(&mut self)
        requires
            old(self).well_formed(),
        ensures
            final(self).well_formed(),
            final(self)@ == (VideoAdmissionView { producer_closed: true, ..old(self)@ }),
    {
        self.producer_closed = true;
    }

    pub fn close_consumer(&mut self)
        requires
            old(self).well_formed(),
        ensures
            final(self).well_formed(),
            final(self)@ == (VideoAdmissionView {
                consumer_closed: true,
                frames: Seq::empty(),
                ..old(self)@
            }),
    {
        self.consumer_closed = true;
        self.frames.clear();
    }
}

/// Where a frame from the streamer goes.
#[derive(Debug, PartialEq, Eq)]
pub enum Dispatched {
    /// No frame that can be sent.
    Ignored,
    /// Into the video queue, which held this many superseded frames.
    Video { superseded: usize },
    /// Nowhere, and a key frame is asked for unless one already was.
    VideoDropped { request: Option<[u8; 2]>, newly_congested: bool },
    /// To the audio lane, in place of audio that was not yet sent.
    Audio(Vec<u8>),
    /// To the reliable lane.
    Reliable(Vec<u8>),
    /// The writer of video frames is gone.
    VideoClosed,
}

/// Sorts the frames from the streamer onto the lanes.
#[derive(Clone, Copy, Debug, PartialEq, Eq, Structural)]
pub struct OutboundDispatcher {
    /// A frame was dropped, so that nothing can be decoded before a key frame.
    pub drop_video_until_idr: bool,
}

/// The lane of a frame.
pub open spec fn is_video(frame: Seq<u8>) -> bool {
    sendable(frame.len() as int) && frame[0] == HOST_VIDEO
}

/// A video frame that does not get into the queue.
pub open spec fn is_dropped(
    dispatcher: OutboundDispatcher,
    queue: VideoAdmissionView,
    frame: Vec<u8>,
) -> bool {
    ||| dispatcher.drop_video_until_idr && !key_frame(frame@)
    ||| after_send(queue, frame) == Err::<VideoAdmissionView, _>(VideoAdmissionError::Full)
}

/// The dispatcher with the queue and the requests that it works on.
#[verifier::ext_equal]
pub struct DispatchState {
    pub dispatcher: OutboundDispatcher,
    pub queue: VideoAdmissionView,
    pub recovery: VideoRecovery,
}

/// What follows from a frame of the streamer.
pub open spec fn after_dispatch(state: DispatchState, frame: Vec<u8>, room: bool) -> DispatchState {
    if !is_video(frame@) {
        state
    } else if is_dropped(state.dispatcher, state.queue, frame) {
        DispatchState {
            dispatcher: OutboundDispatcher { drop_video_until_idr: true },
            recovery: state.recovery.dropped(room),
            ..state
        }
    } else if after_send(state.queue, frame) is Ok {
        DispatchState {
            dispatcher: OutboundDispatcher { drop_video_until_idr: false },
            queue: after_send(state.queue, frame)->Ok_0,
            recovery: if key_frame(frame@) {
                state.recovery.cleared()
            } else {
                state.recovery
            },
        }
    } else {
        state
    }
}

impl OutboundDispatcher {
    pub fn new() -> (dispatcher: Self)
        ensures
            !dispatcher.drop_video_until_idr,
    {
        OutboundDispatcher { drop_video_until_idr: false }
    }

    /// Handles one frame from the streamer. `room` says whether a message to
    /// the streamer can be taken.
    pub fn dispatch_outbound(
        &mut self,
        frame: Vec<u8>,
        queue: &mut VideoAdmissionQueue,
        recovery: &mut VideoRecovery,
        room: bool,
    ) -> (dispatched: Dispatched)
        requires
            old(queue).well_formed(),
        ensures
            final(queue).well_formed(),
            (DispatchState {
                dispatcher: *final(self),
                queue: final(queue)@,
                recovery: *final(recovery),
            }) == after_dispatch(
                DispatchState {
                    dispatcher: *old(self),
                    queue: old(queue)@,
                    recovery: *old(recovery),
                },
                frame,
                room,
            ),
            !sendable(frame@.len() as int) ==> dispatched is Ignored,
            sendable(frame@.len() as int) && frame@[0] == HOST_AUDIO ==> dispatched
                == Dispatched::Audio(frame),
            sendable(frame@.len() as int) && frame@[0] != HOST_AUDIO && frame@[0] != HOST_VIDEO
                ==> dispatched == Dispatched::Reliable(frame),
            is_video(frame@) ==> if is_dropped(*old(self), old(queue)@, frame) {
                &&& dispatched matches Dispatched::VideoDropped { request, newly_congested }
                &&& request is Some == (!old(recovery).enqueued && room)
                &&& request is Some ==> request->0@ == recovery_request()
                &&& newly_congested == !old(self).drop_video_until_idr
            } else if after_send(old(queue)@, frame) is Ok {
                &&& dispatched matches Dispatched::Video { superseded }
                &&& superseded == (if key_frame(frame@) {
                    old(queue)@.frames.len()
                } else {
                    0
                })
            } else {
                dispatched is VideoClosed
            },
    {
        if frame.len() == 0 || frame.len() > MAX_FRAME_BYTES {
            return Dispatched::Ignored;
        }
        if frame[0] == HOST_AUDIO {
            return Dispatched::Audio(frame);
        }
        if frame[0] != HOST_VIDEO {
            return Dispatched::Reliable(frame);
        }
        let is_idr: bool = is_key_frame(frame.as_slice());
        if self.drop_video_until_idr && !is_idr {
            let request = recovery.drop_frame(room);
            return Dispatched::VideoDropped { request, newly_congested: false };
        }
        match queue.try_send(frame) {
            Ok(superseded) => {
                if is_idr {
                    self.drop_video_until_idr = false;
                    recovery.clear();
                }
                Dispatched::Video { superseded }
            },
            Err(VideoAdmissionError::Full) => {
                let newly_congested: bool = !self.drop_video_until_idr;
                self.drop_video_until_idr = true;
                let request = recovery.drop_frame(room);
                Dispatched::VideoDropped { request, newly_congested }
            },
            Err(VideoAdmissionError::Closed) => Dispatched::VideoClosed,
        }
    }
}

/// A key frame always finds a place, as long as there is a writer.
pub proof fn law_key_frames_are_let_in(queue: VideoAdmissionView, frame: Vec<u8>)
    requires
        key_frame(frame@),
        !queue.consumer_closed,
    ensures
        after_send(queue, frame) is Ok,
        after_send(queue, frame)->Ok_0.frames == seq![frame],
{
}

/// After a frame was dropped, every frame is dropped up to the next key frame.
pub proof fn law_nothing_passes_before_a_key_frame(queue: VideoAdmissionView, frame: Vec<u8>)
    requires
        !key_frame(frame@),
    ensures
        is_dropped(OutboundDispatcher { drop_video_until_idr: true }, queue, frame),
{
}

/// Of two requests without a key frame between them, only the first is sent.
pub proof fn law_one_request_per_key_frame(recovery: VideoRecovery, first: bool, second: bool)
    requires
        !recovery.enqueued,
        first,
    ensures
        recovery.requested(first).enqueued,
        recovery.requested(first).requested(second) == recovery.requested(first),
        recovery.requested(first).dropped(second).counters.recovery_requests
            == recovery.requested(first).counters.recovery_requests,
        !recovery.requested(first).cleared().enqueued,
{
}

/// What happens to the dispatcher and its queue.
pub enum DispatchEvent {
    /// A frame comes from the streamer, with room for a message to it or without.
    Frame { frame: Vec<u8>, room: bool },
    /// The writer takes the next frame, if one waits.
    Taken,
}

pub open spec fn after_event(state: DispatchState, event: DispatchEvent) -> DispatchState {
    match event {
        DispatchEvent::Frame { frame, room } => after_dispatch(state, frame, room),
        DispatchEvent::Taken => if state.queue.frames.len() > 0 {
            DispatchState {
                queue: VideoAdmissionView { frames: state.queue.frames.skip(1), ..state.queue },
                ..state
            }
        } else {
            state
        },
    }
}

/// The state after the first `count` events.
pub open spec fn state_at(start: DispatchState, events: Seq<DispatchEvent>, count: int) -> DispatchState
    decreases count,
{
    if count <= 0 {
        start
    } else {
        after_event(state_at(start, events, count - 1), events[count - 1])
    }
}

/// A delta frame comes with the event.
pub open spec fn is_delta(event: DispatchEvent) -> bool {
    event matches DispatchEvent::Frame { frame, .. } && is_video(frame@) && !key_frame(frame@)
}

/// A key frame comes with the event.
pub open spec fn is_idr(event: DispatchEvent) -> bool {
    event matches DispatchEvent::Frame { frame, .. } && is_video(frame@) && key_frame(frame@)
}

/// A frame comes with the event that does not get into the queue.
pub open spec fn refuses(state: DispatchState, event: DispatchEvent) -> bool {
    event matches DispatchEvent::Frame { frame, .. } && is_video(frame@) && is_dropped(
        state.dispatcher,
        state.queue,
        frame,
    )
}

/// A message goes to the streamer that asks for a key frame.
pub open spec fn asks(state: DispatchState, event: DispatchEvent) -> bool {
    refuses(state, event) && !state.recovery.enqueued && event->room
}

/// How many of the first `count` events bring a frame that is refused.
pub open spec fn refusals(start: DispatchState, events: Seq<DispatchEvent>, count: int) -> nat
    decreases count,
{
    if count <= 0 {
        0
    } else {
        refusals(start, events, count - 1) + (if refuses(
            state_at(start, events, count - 1),
            events[count - 1],
        ) {
            1nat
        } else {
            0nat
        })
    }
}

/// No key frame comes with the events from `from` up to `to`.
pub open spec fn no_idr_between(events: Seq<DispatchEvent>, from: int, to: int) -> bool {
    forall|k: int| from <= k < to ==> !is_idr(#[trigger] events[k])
}

proof fn lemma_writer_stays(start: DispatchState, events: Seq<DispatchEvent>, count: int)
    requires
        !start.queue.consumer_closed,
    ensures
        !state_at(start, events, count).queue.consumer_closed,
    decreases count,
{
    if count > 0 {
        lemma_writer_stays(start, events, count - 1);
    }
}

/// What a refusal and a request leave behind lasts up to the next key frame.
proof fn lemma_marks_last(
    start: DispatchState,
    events: Seq<DispatchEvent>,
    from: int,
    to: int,
)
    requires
        0 <= from <= to,
        no_idr_between(events, from, to),
    ensures
        state_at(start, events, from).dispatcher.drop_video_until_idr ==> state_at(
            start,
            events,
            to,
        ).dispatcher.drop_video_until_idr,
        state_at(start, events, from).recovery.enqueued ==> state_at(
            start,
            events,
            to,
        ).recovery.enqueued,
    decreases to - from,
{
    if from < to {
        lemma_marks_last(start, events, from, to - 1);
        assert(!is_idr(events[to - 1]));
    }
}

/// Every frame that is refused is counted, and without one no key frame is asked
/// for.
pub proof fn law_refusals_are_counted(
    start: DispatchState,
    events: Seq<DispatchEvent>,
    count: int,
)
    ensures
        state_at(start, events, count).recovery.counters.admission_drops == (
        start.recovery.counters.admission_drops + refusals(start, events, count))
            % 0x1_0000_0000_0000_0000,
        refusals(start, events, count) == 0 ==> forall|i: int|
            0 <= i < count ==> !asks(#[trigger] state_at(start, events, i), events[i]),
    decreases count,
{
    if count > 0 {
        law_refusals_are_counted(start, events, count - 1);
    }
}

/// Over any run, as long as there is a writer: once a delta frame is refused, no
/// delta frame is let in before a key frame is, and every key frame is let in.
/// Only delta frames are refused. Between two requests for a key frame there is a
/// key frame.
pub proof fn law_dispatch_over_a_run(
    start: DispatchState,
    events: Seq<DispatchEvent>,
    first: int,
    second: int,
)
    requires
        !start.queue.consumer_closed,
        0 <= first < second < events.len(),
    ensures
        refuses(state_at(start, events, first), events[first]) && no_idr_between(
            events,
            first + 1,
            second,
        ) && is_delta(events[second]) ==> refuses(state_at(start, events, second), events[second]),
        refuses(state_at(start, events, first), events[first]) ==> is_delta(events[first]),
        asks(state_at(start, events, first), events[first]) && asks(
            state_at(start, events, second),
            events[second],
        ) ==> !no_idr_between(events, first + 1, second),
        is_idr(events[second]) ==> !refuses(state_at(start, events, second), events[second]),
{
    lemma_writer_stays(start, events, first);
    lemma_writer_stays(start, events, second);
    let next = state_at(start, events, first + 1);
    assert(next == after_event(state_at(start, events, first), events[first]));
    if no_idr_between(events, first + 1, second) {
        lemma_marks_last(start, events, first + 1, second);
    }
}

/// Frames come out as they went in: a delta frame joins the end of the queue while
/// fewer than four wait, and a key frame takes the place of all that wait. A full
/// queue refuses a delta frame, and one that nobody reads refuses everything.
pub proof fn law_what_the_video_queue_takes(queue: VideoAdmissionView, frame: Vec<u8>)
    ensures
        ({
            let key = frame@.len() >= 2 && frame@[1] == 1;
            let sent = after_send(queue, frame);
            &&& queue.consumer_closed ==> sent == Err::<VideoAdmissionView, _>(
                VideoAdmissionError::Closed,
            )
            &&& !queue.consumer_closed && !key && queue.frames.len() >= 4 ==> sent == Err::<
                VideoAdmissionView,
                _,
            >(VideoAdmissionError::Full)
            &&& !queue.consumer_closed && !key && queue.frames.len() < 4 ==> sent is Ok
                && sent->Ok_0.frames == queue.frames.push(frame)
            &&& !queue.consumer_closed && key ==> sent is Ok && sent->Ok_0.frames == seq![frame]
            &&& sent is Ok ==> sent->Ok_0.producer_closed == queue.producer_closed
                && !sent->Ok_0.consumer_closed
        }),
{
}

/// What a frame of video comes to. One that cannot be queued, or that follows a lost
/// one, is dropped: that is counted, everything up to the next key frame is dropped as
/// well, and a key frame is asked for, once, if there is room for the request. A key
/// frame that is let in ends all that. Other frames leave the state alone.
pub proof fn law_what_a_frame_comes_to(state: DispatchState, frame: Vec<u8>, room: bool)
    requires
        !state.queue.consumer_closed,
        state.recovery.counters.admission_drops < 0xffff_ffff_ffff_ffff,
        state.recovery.counters.recovery_requests < 0xffff_ffff_ffff_ffff,
    ensures
        ({
            let after = after_dispatch(state, frame, room);
            let video = 1 <= frame@.len() <= 16 * 1024 * 1024 && frame@[0] == 2;
            let key = frame@.len() >= 2 && frame@[1] == 1;
            let lost = !key && (state.dispatcher.drop_video_until_idr || state.queue.frames.len()
                >= 4);
            &&& !video ==> after == state
            &&& video && lost ==> {
                &&& after.queue == state.queue
                &&& after.dispatcher.drop_video_until_idr
                &&& after.recovery.counters.admission_drops
                    == state.recovery.counters.admission_drops + 1
                &&& after.recovery.enqueued <==> state.recovery.enqueued || room
                &&& after.recovery.counters.recovery_requests
                    == state.recovery.counters.recovery_requests + (if room
                    && !state.recovery.enqueued {
                    1int
                } else {
                    0
                })
            }
            &&& video && !lost ==> {
                &&& !after.dispatcher.drop_video_until_idr
                &&& after.queue.frames == (if key {
                    seq![frame]
                } else {
                    state.queue.frames.push(frame)
                })
                &&& after.recovery.enqueued <==> !key && state.recovery.enqueued
                &&& after.recovery.counters == state.recovery.counters
            }
            &&& after.recovery.counters.video_write_timeouts
                == state.recovery.counters.video_write_timeouts
        }),
{
}

/// A request for a key frame is two bytes: the channel of video and a zero.
pub proof fn law_request_for_a_key_frame()
    ensures
        recovery_request() == seq![2u8, 0],
{
}

/// Round trip times are reported in whole milliseconds, rounded down, as far as they
/// can be written.
pub proof fn law_round_trips_in_milliseconds(millis: u32, rest: nat)
    requires
        rest < 1_000_000,
    ensures
        whole_millis((millis * 1_000_000 + rest) as nat) == millis,
        whole_millis((0xffff_ffff * 1_000_000 + 1_000_000 + rest) as nat) == 0xffff_ffff,
{
}

/// Sound goes before messages, messages before key frames and those before the other
/// frames.
pub proof fn law_what_goes_first()
    ensures
        PRIORITY_AUDIO > PRIORITY_RELIABLE_OTHER > PRIORITY_VIDEO_IDR > PRIORITY_VIDEO_DELTA,
{
}

/// A reader takes the oldest frame, waits while there is none, and is done once no more
/// can come.
pub proof fn law_frames_are_read_in_order(queue: &mut VideoAdmissionQueue, next: NextVideoFrame)
    requires
        call_ensures(VideoAdmissionQueue::next, (queue,), next),
    ensures
        next is Frame <==> old(queue)@.frames.len() > 0,
        next matches NextVideoFrame::Frame(frame) ==> frame == old(queue)@.frames[0]
            && final(queue)@.frames == old(queue)@.frames.skip(1),
        next is Closed <==> old(queue)@.frames.len() == 0 && old(queue)@.producer_closed,
        !(next is Frame) ==> final(queue)@ == old(queue)@,
        final(queue)@.producer_closed == old(queue)@.producer_closed,
        final(queue)@.consumer_closed == old(queue)@.consumer_closed,
{
}

/// Whoever sends a frame learns how many it took the place of, and a reader that goes
/// takes all that waits with it.
pub proof fn law_what_senders_learn(
    queue: &mut VideoAdmissionQueue,
    closing: &mut VideoAdmissionQueue,
    frame: Vec<u8>,
    sent: Result<usize, VideoAdmissionError>,
)
    requires
        call_ensures(VideoAdmissionQueue::try_send, (queue, frame), sent),
        call_ensures(VideoAdmissionQueue::close_consumer, (closing,), ()),
    ensures
        ({
            let key = frame@.len() >= 2 && frame@[1] == 1;
            &&& sent is Ok && key ==> sent->Ok_0 == old(queue)@.frames.len()
            &&& sent is Ok && !key ==> sent->Ok_0 == 0
            &&& sent is Err ==> final(queue)@ == old(queue)@
            &&& sent == Err::<usize, _>(VideoAdmissionError::Closed) <==> old(queue)@.consumer_closed
            &&& sent is Ok ==> final(queue)@.frames.last() == frame
        }),
        final(closing)@.consumer_closed && final(closing)@.frames.len() == 0,
        final(closing)@.producer_closed == old(closing)@.producer_closed,
{
}

/// Where a frame goes: sound to its lane, messages to theirs, and video to the queue, or
/// nowhere if it is lost, which is told once as the beginning of trouble. What cannot be
/// sent goes nowhere.
pub proof fn law_where_frames_go(
    dispatcher: &mut OutboundDispatcher,
    frame: Vec<u8>,
    queue: &mut VideoAdmissionQueue,
    recovery: &mut VideoRecovery,
    room: bool,
    dispatched: Dispatched,
)
    requires
        call_ensures(
            OutboundDispatcher::dispatch_outbound,
            (dispatcher, frame, queue, recovery, room),
            dispatched,
        ),
    ensures
        ({
            let fits = 1 <= frame@.len() <= 16 * 1024 * 1024;
            let key = frame@.len() >= 2 && frame@[1] == 1;
            let video = fits && frame@[0] == 2;
            let lost = !key && (old(dispatcher).drop_video_until_idr || (!old(
                queue,
            )@.consumer_closed && old(queue)@.frames.len() >= 4));
            &&& !fits ==> dispatched is Ignored
            &&& fits && frame@[0] == 3 ==> dispatched == Dispatched::Audio(frame)
            &&& fits && frame@[0] != 2 && frame@[0] != 3 ==> dispatched == Dispatched::Reliable(
                frame,
            )
            &&& video && lost ==> (dispatched matches Dispatched::VideoDropped {
                request,
                newly_congested,
            } && newly_congested == !old(dispatcher).drop_video_until_idr && (request is Some
                <==> room && !old(recovery).enqueued) && (request is Some ==> request->0@
                == seq![2u8, 0]))
            &&& video && !lost && !old(queue)@.consumer_closed ==> dispatched is Video
            &&& video && !lost && old(queue)@.consumer_closed ==> dispatched is VideoClosed
        }),
{
}

/// A report holds what the connection and the counters say, each in its place.
pub proof fn law_what_a_report_holds(
    counters: CongestionCounters,
    rtt: Duration,
    sent: u64,
    lost: u64,
    events: u64,
    feedback: NetworkFeedback,
)
    requires
        call_ensures(CongestionCounters::snapshot, (&counters, rtt, sent, lost, events), feedback),
    ensures
        feedback.rtt_ms == whole_millis(rtt.nanos()),
        feedback.sent_packets == sent && feedback.lost_packets == lost,
        feedback.congestion_events == events,
        feedback.admission_drops == counters.admission_drops,
        feedback.video_write_timeouts == counters.video_write_timeouts,
        feedback.recovery_requests == counters.recovery_requests,
{
}

} // verus!

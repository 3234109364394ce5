//! The writer of video frames. Each frame travels on a stream of its own, so
//! that a loss delays only that frame. A frame that is late makes the frames
//! that build on it useless: their streams are given up together, and a key
//! frame is asked for.

use crate::web_transport::framing::{
    application_error_code, encode_video_stream_header, sendable, video_stream_header,
    video_stream_superseded_code, video_stream_timeout_code,
    VIDEO_STREAM_SUPERSEDED_APPLICATION_CODE, VIDEO_STREAM_TIMEOUT_APPLICATION_CODE,
};
use crate::web_transport::video::{
    counted, is_key_frame, key_frame, recovery_request, CongestionCounters, VideoRecovery,
};
use vstd::prelude::*;

verus! {

pub const MAX_VIDEO_IN_FLIGHT_STREAMS: usize = 8;

pub const MAX_VIDEO_IN_FLIGHT_BYTES: usize = 33_554_432;

/// What delta frames may take up, so that a key frame still fits beside them.
pub const MAX_VIDEO_DELTA_IN_FLIGHT_STREAMS: usize = 7;

pub const MAX_VIDEO_DELTA_IN_FLIGHT_BYTES: usize = 16_777_216;

/// What the frames that are being written take up.
#[derive(Clone, Copy, Debug, PartialEq, Eq, Structural)]
pub struct VideoWriterBudget {
    pub streams: usize,
    pub bytes: usize,
    pub delta_streams: usize,
    pub delta_bytes: usize,
}

impl Default for VideoWriterBudget {
    fn default() -> (budget: Self)
        ensures
            budget == (VideoWriterBudget {
                streams: 0,
                bytes: 0,
                delta_streams: 0,
                delta_bytes: 0,
            }),
    {
        VideoWriterBudget { streams: 0, bytes: 0, delta_streams: 0, delta_bytes: 0 }
    }
}

/// `a` less `b`, and not less than zero.
pub open spec fn less(a: usize, b: usize) -> usize {
    if a > b {
        (a - b) as usize
    } else {
        0
    }
}

impl VideoWriterBudget {
    /// Within the limits, for all frames and for delta frames.
    pub open spec fn within_limits(self) -> bool {
        &&& self.streams <= MAX_VIDEO_IN_FLIGHT_STREAMS
        &&& self.bytes <= MAX_VIDEO_IN_FLIGHT_BYTES
        &&& self.delta_streams <= MAX_VIDEO_DELTA_IN_FLIGHT_STREAMS
        &&& self.delta_bytes <= MAX_VIDEO_DELTA_IN_FLIGHT_BYTES
    }

    /// One more frame stays within the limits that hold for it.
    pub open spec fn has_room(self, frame_bytes: int, is_idr: bool) -> bool {
        &&& self.streams < MAX_VIDEO_IN_FLIGHT_STREAMS
        &&& self.bytes + frame_bytes <= MAX_VIDEO_IN_FLIGHT_BYTES
        &&& is_idr || (self.delta_streams < MAX_VIDEO_DELTA_IN_FLIGHT_STREAMS && self.delta_bytes
            + frame_bytes <= MAX_VIDEO_DELTA_IN_FLIGHT_BYTES)
    }

    /// One more frame can be counted.
    pub open spec fn can_count(self, frame_bytes: int, is_idr: bool) -> bool {
        &&& self.streams < usize::MAX
        &&& self.bytes + frame_bytes <= usize::MAX
        &&& is_idr || (self.delta_streams < usize::MAX && self.delta_bytes + frame_bytes
            <= usize::MAX)
    }

    /// With one more frame. A key frame leaves the counters of delta frames alone.
    pub open spec fn taken(self, frame_bytes: int, is_idr: bool) -> VideoWriterBudget {
        VideoWriterBudget {
            streams: (self.streams + 1) as usize,
            bytes: (self.bytes + frame_bytes) as usize,
            delta_streams: if is_idr {
                self.delta_streams
            } else {
                (self.delta_streams + 1) as usize
            },
            delta_bytes: if is_idr {
                self.delta_bytes
            } else {
                (self.delta_bytes + frame_bytes) as usize
            },
        }
    }

    pub open spec fn released(self, frame_bytes: usize, is_idr: bool) -> VideoWriterBudget {
        VideoWriterBudget {
            streams: less(self.streams, 1),
            bytes: less(self.bytes, frame_bytes),
            delta_streams: if is_idr {
                self.delta_streams
            } else {
                less(self.delta_streams, 1)
            },
            delta_bytes: if is_idr {
                self.delta_bytes
            } else {
                less(self.delta_bytes, frame_bytes)
            },
        }
    }

    pub fn can_admit(&self, frame_bytes: usize, is_idr: bool) -> (can: bool)
        ensures
            can == self.has_room(frame_bytes as int, is_idr),
    {
        if frame_bytes > MAX_VIDEO_IN_FLIGHT_BYTES || self.streams >= MAX_VIDEO_IN_FLIGHT_STREAMS
            || self.bytes.saturating_add(frame_bytes) > MAX_VIDEO_IN_FLIGHT_BYTES {
            return false;
        }
        is_idr || (self.delta_streams < MAX_VIDEO_DELTA_IN_FLIGHT_STREAMS
            && self.delta_bytes.saturating_add(frame_bytes) <= MAX_VIDEO_DELTA_IN_FLIGHT_BYTES)
    }

    /// Takes up room for a frame, whether it stays within the limits or not.
    pub fn take_up(&mut self, frame_bytes: usize, is_idr: bool)
        requires
            old(self).can_count(frame_bytes as int, is_idr),
        ensures
            *final(self) == old(self).taken(frame_bytes as int, is_idr),
    {
        self.streams = self.streams + 1;
        self.bytes = self.bytes + frame_bytes;
        if !is_idr {
            self.delta_streams = self.delta_streams + 1;
            self.delta_bytes = self.delta_bytes + frame_bytes;
        }
    }

    /// Gives back the room of a frame.
    pub fn release(&mut self, frame_bytes: usize, is_idr: bool)
        ensures
            *final(self) == old(self).released(frame_bytes, is_idr),
    {
        self.streams = self.streams.saturating_sub(1);
        self.bytes = self.bytes.saturating_sub(frame_bytes);
        if !is_idr {
            self.delta_streams = self.delta_streams.saturating_sub(1);
            self.delta_bytes = self.delta_bytes.saturating_sub(frame_bytes);
        }
    }
}

#[derive(Clone, Copy, Debug, PartialEq, Eq, Structural)]
pub enum VideoStreamWriteOutcome {
    Complete,
    Stopped,
    Superseded,
    TimedOut,
}

/// An outcome that leaves a gap in what the browser can decode.
pub open spec fn needs_recovery(
    outcome: VideoStreamWriteOutcome,
    task_generation: u64,
    current_generation: u64,
) -> bool {
    task_generation == current_generation && (outcome is Stopped || outcome is TimedOut)
}

pub fn video_write_outcome_requires_recovery(
    outcome: VideoStreamWriteOutcome,
    task_generation: u64,
    current_generation: u64,
) -> (requires_recovery: bool)
    ensures
        requires_recovery == needs_recovery(outcome, task_generation, current_generation),
{
    task_generation == current_generation && match outcome {
        VideoStreamWriteOutcome::Stopped | VideoStreamWriteOutcome::TimedOut => true,
        VideoStreamWriteOutcome::Complete | VideoStreamWriteOutcome::Superseded => false,
    }
}

/// A frame to be written on a stream of its own.
#[derive(Debug, PartialEq, Eq)]
pub struct VideoWriteTask {
    pub sequence: u32,
    pub generation: u64,
    pub frame: Vec<u8>,
    pub is_idr: bool,
}

/// How the writing of a frame ended.
#[derive(Clone, Copy, Debug, PartialEq, Eq, Structural)]
pub enum TaskEnd {
    Wrote { frame_bytes: usize, is_idr: bool, generation: u64, outcome: VideoStreamWriteOutcome },
    /// The connection failed under the task.
    ConnectionFailed { frame_bytes: usize, is_idr: bool },
    Cancelled,
    Panicked,
}

/// The writer of video frames.
#[derive(Debug)]
pub struct VideoWriter {
    pub next_sequence: u32,
    pub budget: VideoWriterBudget,
    /// How many frames are being written.
    pub tasks: usize,
    /// A key frame that waits for room. Nothing else ever waits.
    pub pending_idr: Option<Vec<u8>>,
    pub queue_closed: bool,
    /// Streams of an earlier generation are given up.
    pub gop_generation: u64,
    /// A frame is missing: nothing but a key frame is written.
    pub recovering: bool,
}

pub open spec fn next_generation(generation: u64) -> u64 {
    if generation == u64::MAX {
        0
    } else {
        (generation + 1) as u64
    }
}

pub open spec fn sequence_after(sequence: u32) -> u32 {
    if sequence == u32::MAX {
        0
    } else {
        (sequence + 1) as u32
    }
}

/// The writer after it gave up the generation, waiting for a key frame.
pub open spec fn gave_up(writer: VideoWriter) -> VideoWriter {
    VideoWriter {
        gop_generation: next_generation(writer.gop_generation),
        recovering: true,
        ..writer
    }
}

/// The writer after it began to write a frame.
pub open spec fn launched(writer: VideoWriter, frame: Vec<u8>, is_idr: bool) -> VideoWriter {
    VideoWriter {
        budget: writer.budget.taken(frame@.len() as int, is_idr),
        tasks: (writer.tasks + 1) as usize,
        next_sequence: sequence_after(writer.next_sequence),
        ..writer
    }
}

/// The writer after it learned of a key frame: earlier frames are given up.
pub open spec fn began_group(writer: VideoWriter) -> VideoWriter {
    VideoWriter {
        gop_generation: next_generation(writer.gop_generation),
        recovering: false,
        ..writer
    }
}

/// What the writer does with a frame.
pub enum FrameFate {
    /// It is written.
    Written,
    /// A key frame waits for room.
    Waits,
    /// A delta frame is useless while a frame is missing.
    Useless,
    /// A delta frame finds no room, and is now missing itself.
    NoRoom,
}

pub open spec fn frame_fate(writer: VideoWriter, frame: Vec<u8>) -> FrameFate {
    let is_idr = key_frame(frame@);
    if !is_idr && writer.recovering {
        FrameFate::Useless
    } else if writer.budget.has_room(frame@.len() as int, is_idr) {
        FrameFate::Written
    } else if is_idr {
        FrameFate::Waits
    } else {
        FrameFate::NoRoom
    }
}

/// The writer after a frame came.
pub open spec fn after_frame(writer: VideoWriter, frame: Vec<u8>) -> VideoWriter {
    let is_idr = key_frame(frame@);
    let group = if is_idr {
        began_group(writer)
    } else {
        writer
    };
    match frame_fate(writer, frame) {
        FrameFate::Written => launched(group, frame, is_idr),
        FrameFate::Waits => VideoWriter { pending_idr: Some(frame), ..group },
        FrameFate::Useless => writer,
        FrameFate::NoRoom => gave_up(writer),
    }
}

/// The requests for key frames after a frame came.
pub open spec fn recovery_after_frame(
    writer: VideoWriter,
    recovery: VideoRecovery,
    frame: Vec<u8>,
    room: bool,
) -> VideoRecovery {
    match frame_fate(writer, frame) {
        FrameFate::Written | FrameFate::Waits => if key_frame(frame@) {
            recovery.cleared()
        } else {
            recovery
        },
        FrameFate::Useless | FrameFate::NoRoom => recovery.dropped(room),
    }
}

/// What is to be done after a frame came.
#[derive(Debug, PartialEq, Eq)]
pub struct FrameStep {
    pub task: Option<VideoWriteTask>,
    pub request: Option<[u8; 2]>,
}

/// Whether the outcome of a task says that a frame is missing.
pub open spec fn end_needs_recovery(writer: VideoWriter, end: TaskEnd) -> bool {
    match end {
        TaskEnd::Wrote { generation, outcome, .. } => needs_recovery(
            outcome,
            generation,
            writer.gop_generation,
        ),
        _ => false,
    }
}

/// The writer once the task is off its books.
pub open spec fn settled(writer: VideoWriter, end: TaskEnd) -> VideoWriter {
    let budget = match end {
        TaskEnd::Wrote { frame_bytes, is_idr, .. } => writer.budget.released(frame_bytes, is_idr),
        TaskEnd::ConnectionFailed { frame_bytes, is_idr } => writer.budget.released(
            frame_bytes,
            is_idr,
        ),
        TaskEnd::Cancelled | TaskEnd::Panicked => writer.budget,
    };
    VideoWriter { tasks: less(writer.tasks, 1), budget, ..writer }
}

/// The writer after the writing of a frame ended.
pub open spec fn after_end(writer: VideoWriter, end: TaskEnd) -> VideoWriter {
    if end_needs_recovery(writer, end) {
        gave_up(settled(writer, end))
    } else {
        settled(writer, end)
    }
}

/// The requests for key frames after the writing of a frame ended.
pub open spec fn recovery_after_end(
    writer: VideoWriter,
    recovery: VideoRecovery,
    end: TaskEnd,
    room: bool,
) -> VideoRecovery {
    let late = end matches TaskEnd::Wrote { outcome, .. } && outcome is TimedOut;
    let noted = if late {
        VideoRecovery {
            counters: CongestionCounters {
                video_write_timeouts: counted(recovery.counters.video_write_timeouts),
                ..recovery.counters
            },
            ..recovery
        }
    } else {
        recovery
    };
    if end_needs_recovery(writer, end) {
        noted.requested(room)
    } else {
        noted
    }
}

impl VideoWriter {
    pub open spec fn well_formed(&self) -> bool {
        &&& self.budget.within_limits()
        &&& self.tasks <= self.budget.streams
        &&& self.pending_idr is Some ==> key_frame(self.pending_idr->0@) && sendable(
            self.pending_idr->0@.len() as int,
        )
    }

    pub fn new() -> (writer: Self)
        ensures
            writer.well_formed(),
            writer == (VideoWriter {
                next_sequence: 0,
                budget: VideoWriterBudget {
                    streams: 0,
                    bytes: 0,
                    delta_streams: 0,
                    delta_bytes: 0,
                },
                tasks: 0,
                pending_idr: None,
                queue_closed: false,
                gop_generation: 0,
                recovering: false,
            }),
    {
        VideoWriter {
            next_sequence: 0,
            budget: VideoWriterBudget::default(),
            tasks: 0,
            pending_idr: None,
            queue_closed: false,
            gop_generation: 0,
            recovering: false,
        }
    }

    fn launch(&mut self, frame: Vec<u8>, is_idr: bool) -> (task: VideoWriteTask)
        requires
            old(self).budget.has_room(frame@.len() as int, is_idr),
            old(self).tasks <= old(self).budget.streams,
        ensures
            *final(self) == launched(*old(self), frame, is_idr),
            task == (VideoWriteTask {
                sequence: old(self).next_sequence,
                generation: old(self).gop_generation,
                frame,
                is_idr,
            }),
    {
        self.budget.take_up(frame.len(), is_idr);
        self.tasks = self.tasks + 1;
        let task = VideoWriteTask {
            sequence: self.next_sequence,
            generation: self.gop_generation,
            frame,
            is_idr,
        };
        self.next_sequence = self.next_sequence.wrapping_add(1);
        task
    }

    fn give_up(&mut self)
        ensures
            *final(self) == gave_up(*old(self)),
    {
        self.gop_generation = self.gop_generation.wrapping_add(1);
        self.recovering = true;
    }

    /// Writes the key frame that waits, once there is room for it.
    pub fn launch_pending(&mut self) -> (task: Option<VideoWriteTask>)
        requires
            old(self).well_formed(),
        ensures
            final(self).well_formed(),
            match old(self).pending_idr {
                Some(frame) => if old(self).budget.has_room(frame@.len() as int, true) {
                    *final(self) == launched(
                        VideoWriter { pending_idr: None, ..*old(self) },
                        frame,
                        true,
                    ) && task == Some(
                        VideoWriteTask {
                            sequence: old(self).next_sequence,
                            generation: old(self).gop_generation,
                            frame,
                            is_idr: true,
                        },
                    )
                } else {
                    *final(self) == *old(self) && task is None
                },
                None => *final(self) == *old(self) && task is None,
            },
    {
        match self.pending_idr.take() {
            Some(frame) => if self.budget.can_admit(frame.len(), true) {
                Some(self.launch(frame, true))
            } else {
                self.pending_idr = Some(frame);
                None
            },
            None => None,
        }
    }

    /// Nothing is left to do.
    pub fn is_finished(&self) -> (finished: bool)
        ensures
            finished == (self.queue_closed && self.pending_idr is None && self.tasks == 0),
    {
        self.queue_closed && self.pending_idr.is_none() && self.tasks == 0
    }

    /// Whether the next frame is to be taken from the queue.
    pub fn wants_frame(&self) -> (wants: bool)
        ensures
            wants == (!self.queue_closed && self.pending_idr is None),
    {
        !self.queue_closed && self.pending_idr.is_none()
    }

    /// A frame came out of the queue. `room` says whether a message to the
    /// streamer can be taken.
    pub fn on_frame(
        &mut self,
        frame: Vec<u8>,
        recovery: &mut VideoRecovery,
        room: bool,
    ) -> (step: FrameStep)
        requires
            old(self).well_formed(),
            sendable(frame@.len() as int),
        ensures
            final(self).well_formed(),
            *final(self) == after_frame(*old(self), frame),
            *final(recovery) == recovery_after_frame(*old(self), *old(recovery), frame, room),
            step.task == (if frame_fate(*old(self), frame) is Written {
                Some(
                    VideoWriteTask {
                        sequence: old(self).next_sequence,
                        generation: final(self).gop_generation,
                        frame,
                        is_idr: key_frame(frame@),
                    },
                )
            } else {
                None
            }),
            step.request is Some == (room && !old(recovery).enqueued && (frame_fate(
                *old(self),
                frame,
            ) is Useless || frame_fate(*old(self), frame) is NoRoom)),
            step.request is Some ==> step.request->0@ == recovery_request(),
    {
        let is_idr: bool = is_key_frame(frame.as_slice());
        if is_idr {
            self.gop_generation = self.gop_generation.wrapping_add(1);
            self.recovering = false;
            recovery.clear();
        } else if self.recovering {
            recovery.counters.admission_drops = recovery.counters.admission_drops.wrapping_add(1);
            let request = recovery.try_enqueue_video_recovery_request(room);
            return FrameStep { task: None, request };
        }
        if self.budget.can_admit(frame.len(), is_idr) {
            let task = self.launch(frame, is_idr);
            FrameStep { task: Some(task), request: None }
        } else if is_idr {
            self.pending_idr = Some(frame);
            FrameStep { task: None, request: None }
        } else {
            recovery.counters.admission_drops = recovery.counters.admission_drops.wrapping_add(1);
            self.give_up();
            let request = recovery.try_enqueue_video_recovery_request(room);
            FrameStep { task: None, request }
        }
    }

    /// The queue has come to its end.
    pub fn on_queue_closed(&mut self)
        requires
            old(self).well_formed(),
        ensures
            final(self).well_formed(),
            *final(self) == (VideoWriter { queue_closed: true, ..*old(self) }),
    {
        self.queue_closed = true;
    }

    /// The writing of a frame ended. An error ends the connection.
    pub fn on_task_end(
        &mut self,
        end: TaskEnd,
        recovery: &mut VideoRecovery,
        room: bool,
    ) -> (request: Result<Option<[u8; 2]>, TaskEnd>)
        requires
            old(self).well_formed(),
        ensures
            final(self).well_formed(),
            *final(self) == after_end(*old(self), end),
            *final(recovery) == recovery_after_end(*old(self), *old(recovery), end, room),
            request is Err == (end is ConnectionFailed || end is Panicked),
            request is Err ==> request->Err_0 == end,
            request is Ok ==> request->Ok_0 is Some == (end_needs_recovery(*old(self), end) && room
                && !old(recovery).enqueued),
            request is Ok && request->Ok_0 is Some ==> request->Ok_0->0@ == recovery_request(),
    {
        self.tasks = self.tasks.saturating_sub(1);
        match end {
            TaskEnd::Wrote { frame_bytes, is_idr, generation, outcome } => {
                self.budget.release(frame_bytes, is_idr);
                if outcome == VideoStreamWriteOutcome::TimedOut {
                    recovery.counters.video_write_timeouts =
                    recovery.counters.video_write_timeouts.wrapping_add(1);
                }
                if video_write_outcome_requires_recovery(outcome, generation, self.gop_generation) {
                    self.give_up();
                    Ok(recovery.try_enqueue_video_recovery_request(room))
                } else {
                    Ok(None)
                }
            },
            TaskEnd::ConnectionFailed { frame_bytes, is_idr } => {
                self.budget.release(frame_bytes, is_idr);
                Err(end)
            },
            TaskEnd::Cancelled => Ok(None),
            TaskEnd::Panicked => Err(end),
        }
    }

    /// The peer stopped a stream that was written to its end.
    pub fn on_stream_stopped(
        &mut self,
        generation: u64,
        recovery: &mut VideoRecovery,
        room: bool,
    ) -> (request: Option<[u8; 2]>)
        requires
            old(self).well_formed(),
        ensures
            final(self).well_formed(),
            *final(self) == (if generation == old(self).gop_generation {
                gave_up(*old(self))
            } else {
                *old(self)
            }),
            *final(recovery) == (if generation == old(self).gop_generation {
                old(recovery).requested(room)
            } else {
                *old(recovery)
            }),
            request is Some == (generation == old(self).gop_generation && room
                && !old(recovery).enqueued),
            request is Some ==> request->0@ == recovery_request(),
    {
        if video_write_outcome_requires_recovery(
            VideoStreamWriteOutcome::Stopped,
            generation,
            self.gop_generation,
        ) {
            self.give_up();
            recovery.try_enqueue_video_recovery_request(room)
        } else {
            None
        }
    }
}

/// The steps of writing one frame.
#[derive(Clone, Copy, Debug, PartialEq, Eq, Structural)]
pub enum WriteStep {
    Opening,
    Header,
    Body,
    Finishing,
    Ended,
}

/// One frame on its stream.
#[derive(Clone, Copy, Debug, PartialEq, Eq, Structural)]
pub struct VideoStreamWrite {
    pub sequence: u32,
    pub generation: u64,
    pub frame_bytes: usize,
    pub step: WriteStep,
    /// How much of the part that the step writes is out.
    pub written: usize,
}

#[derive(Clone, Copy, Debug, PartialEq, Eq, Structural)]
pub enum WriteEvent {
    /// A new generation began.
    Superseded,
    Opened,
    /// So many bytes were taken.
    Progress(usize),
    /// Nothing moved for the time that was allowed.
    TimedOut,
    /// The peer does not want the stream.
    Stopped,
    /// The end of the stream was marked.
    Finished,
    ConnectionFailed,
}

#[derive(Clone, Copy, Debug, PartialEq, Eq)]
pub enum WriteAction {
    /// Write the header, from this byte on.
    WriteHeader { header: [u8; 9], from: usize },
    /// Write the frame, from this byte on.
    WriteBody { from: usize },
    /// Mark the end of the stream.
    Finish,
    /// Nothing is left to write; reset the stream with this code first.
    End { outcome: VideoStreamWriteOutcome, reset: Option<u64> },
    /// The connection is beyond use.
    Fail,
    /// The event does not belong to this step.
    Ignore,
}

pub open spec fn timeout_reset() -> u64 {
    application_error_code(VIDEO_STREAM_TIMEOUT_APPLICATION_CODE) as u64
}

pub open spec fn superseded_reset() -> u64 {
    application_error_code(VIDEO_STREAM_SUPERSEDED_APPLICATION_CODE) as u64
}

/// How long the part is that the step writes.
pub open spec fn part_length(write: VideoStreamWrite) -> int {
    match write.step {
        WriteStep::Header => 9,
        WriteStep::Body => write.frame_bytes as int,
        _ => 0,
    }
}

pub open spec fn ended_with(
    outcome: VideoStreamWriteOutcome,
    reset: Option<u64>,
) -> (WriteStep, int, WriteAction) {
    (WriteStep::Ended, 0, WriteAction::End { outcome, reset })
}

/// The step, what is written of it, and the action, after `written` bytes of
/// the part are out.
pub open spec fn after_progress(
    write: VideoStreamWrite,
    written: int,
    current_generation: u64,
    header: [u8; 9],
) -> (WriteStep, int, WriteAction) {
    if written < part_length(write) {
        if write.step is Header {
            (WriteStep::Header, written, WriteAction::WriteHeader { header, from: written as usize })
        } else {
            (WriteStep::Body, written, WriteAction::WriteBody { from: written as usize })
        }
    } else if write.step is Header {
        (WriteStep::Body, 0, WriteAction::WriteBody { from: 0 })
    } else if current_generation != write.generation {
        ended_with(VideoStreamWriteOutcome::Superseded, Some(superseded_reset()))
    } else {
        (WriteStep::Finishing, 0, WriteAction::Finish)
    }
}

/// The next step, what is written of it, and the action.
pub open spec fn write_transition(
    write: VideoStreamWrite,
    event: WriteEvent,
    current_generation: u64,
    header: [u8; 9],
) -> (WriteStep, int, WriteAction) {
    let writes = write.step is Header || write.step is Body;
    let unchanged = (write.step, write.written as int, WriteAction::Ignore);
    match event {
        WriteEvent::ConnectionFailed => if write.step is Opening || writes {
            (WriteStep::Ended, 0, WriteAction::Fail)
        } else {
            unchanged
        },
        WriteEvent::Superseded => if write.step is Opening {
            ended_with(VideoStreamWriteOutcome::Superseded, None)
        } else if writes {
            ended_with(VideoStreamWriteOutcome::Superseded, Some(superseded_reset()))
        } else {
            unchanged
        },
        WriteEvent::TimedOut => if write.step is Opening {
            ended_with(VideoStreamWriteOutcome::TimedOut, None)
        } else if writes {
            ended_with(VideoStreamWriteOutcome::TimedOut, Some(timeout_reset()))
        } else {
            unchanged
        },
        WriteEvent::Stopped => if writes || write.step is Finishing {
            ended_with(VideoStreamWriteOutcome::Stopped, None)
        } else {
            unchanged
        },
        WriteEvent::Opened => if write.step is Opening {
            if sendable(write.frame_bytes as int) {
                (WriteStep::Header, 0, WriteAction::WriteHeader { header, from: 0 })
            } else {
                (WriteStep::Ended, 0, WriteAction::Fail)
            }
        } else {
            unchanged
        },
        WriteEvent::Progress(count) => if !writes {
            unchanged
        } else if count == 0 {
            ended_with(VideoStreamWriteOutcome::TimedOut, Some(timeout_reset()))
        } else {
            after_progress(write, write.written + count, current_generation, header)
        },
        WriteEvent::Finished => if write.step is Finishing {
            ended_with(VideoStreamWriteOutcome::Complete, None)
        } else {
            unchanged
        },
    }
}

impl VideoStreamWrite {
    pub fn begin(task: &VideoWriteTask) -> (write: Self)
        ensures
            write == (VideoStreamWrite {
                sequence: task.sequence,
                generation: task.generation,
                frame_bytes: task.frame@.len() as usize,
                step: WriteStep::Opening,
                written: 0,
            }),
    {
        VideoStreamWrite {
            sequence: task.sequence,
            generation: task.generation,
            frame_bytes: task.frame.len(),
            step: WriteStep::Opening,
            written: 0,
        }
    }

    fn end(
        &mut self,
        outcome: VideoStreamWriteOutcome,
        reset: Option<u64>,
    ) -> (action: WriteAction)
        ensures
            *final(self) == (VideoStreamWrite { step: WriteStep::Ended, written: 0, ..*old(self) }),
            action == (WriteAction::End { outcome, reset }),
    {
        self.step = WriteStep::Ended;
        self.written = 0;
        WriteAction::End { outcome, reset }
    }

    fn on_progress(&mut self, count: usize, current_generation: u64) -> (action: WriteAction)
        requires
            old(self).step is Header || old(self).step is Body,
            sendable(old(self).frame_bytes as int),
            old(self).written <= part_length(*old(self)),
        ensures
            ({
                let header = match action {
                    WriteAction::WriteHeader { header, .. } => header,
                    _ => arbitrary(),
                };
                let next = after_progress(
                    *old(self),
                    old(self).written + count,
                    current_generation,
                    header,
                );
                &&& *final(self) == (VideoStreamWrite {
                    step: next.0,
                    written: next.1 as usize,
                    ..*old(self)
                })
                &&& action == next.2
                &&& action is WriteHeader ==> header@ == video_stream_header(
                    old(self).sequence,
                    old(self).frame_bytes as nat,
                )
            }),
    {
        let length: usize = if self.step == WriteStep::Header {
            9
        } else {
            self.frame_bytes
        };
        if count < length - self.written {
            self.written = self.written + count;
            if self.step == WriteStep::Header {
                match encode_video_stream_header(self.sequence, self.frame_bytes) {
                    Ok(header) => WriteAction::WriteHeader { header, from: self.written },
                    Err(_) => WriteAction::Fail,
                }
            } else {
                WriteAction::WriteBody { from: self.written }
            }
        } else if self.step == WriteStep::Header {
            self.step = WriteStep::Body;
            self.written = 0;
            WriteAction::WriteBody { from: 0 }
        } else if current_generation != self.generation {
            let code: u64 = video_stream_superseded_code();
            self.end(VideoStreamWriteOutcome::Superseded, Some(code))
        } else {
            self.step = WriteStep::Finishing;
            self.written = 0;
            WriteAction::Finish
        }
    }

    /// The next action, after an event of the stream. The time that a step may
    /// take begins anew with each action.
    pub fn on_event(&mut self, event: WriteEvent, current_generation: u64) -> (action: WriteAction)
        requires
            old(self).step is Header || old(self).step is Body ==> sendable(
                old(self).frame_bytes as int,
            ) && old(self).written <= part_length(*old(self)),
        ensures
            ({
                let header = match action {
                    WriteAction::WriteHeader { header, .. } => header,
                    _ => arbitrary(),
                };
                let next = write_transition(*old(self), event, current_generation, header);
                &&& *final(self) == (VideoStreamWrite {
                    step: next.0,
                    written: next.1 as usize,
                    ..*old(self)
                })
                &&& action == next.2
                &&& action is WriteHeader ==> header@ == video_stream_header(
                    old(self).sequence,
                    old(self).frame_bytes as nat,
                )
            }),
            final(self).step is Header || final(self).step is Body ==> sendable(
                final(self).frame_bytes as int,
            ) && final(self).written <= part_length(*final(self)),
    {
        let writes: bool = self.step == WriteStep::Header || self.step == WriteStep::Body;
        match event {
            WriteEvent::ConnectionFailed => if self.step == WriteStep::Opening || writes {
                self.step = WriteStep::Ended;
                self.written = 0;
                WriteAction::Fail
            } else {
                WriteAction::Ignore
            },
            WriteEvent::Superseded => if self.step == WriteStep::Opening {
                self.end(VideoStreamWriteOutcome::Superseded, None)
            } else if writes {
                let code: u64 = video_stream_superseded_code();
                self.end(VideoStreamWriteOutcome::Superseded, Some(code))
            } else {
                WriteAction::Ignore
            },
            WriteEvent::TimedOut => if self.step == WriteStep::Opening {
                self.end(VideoStreamWriteOutcome::TimedOut, None)
            } else if writes {
                let code: u64 = video_stream_timeout_code();
                self.end(VideoStreamWriteOutcome::TimedOut, Some(code))
            } else {
                WriteAction::Ignore
            },
            WriteEvent::Stopped => if writes || self.step == WriteStep::Finishing {
                self.end(VideoStreamWriteOutcome::Stopped, None)
            } else {
                WriteAction::Ignore
            },
            WriteEvent::Opened => if self.step == WriteStep::Opening {
                self.written = 0;
                match encode_video_stream_header(self.sequence, self.frame_bytes) {
                    Ok(header) => {
                        self.step = WriteStep::Header;
                        WriteAction::WriteHeader { header, from: 0 }
                    },
                    Err(_) => {
                        self.step = WriteStep::Ended;
                        WriteAction::Fail
                    },
                }
            } else {
                WriteAction::Ignore
            },
            WriteEvent::Progress(count) => if !writes {
                WriteAction::Ignore
            } else if count == 0 {
                let code: u64 = video_stream_timeout_code();
                self.end(VideoStreamWriteOutcome::TimedOut, Some(code))
            } else {
                self.on_progress(count, current_generation)
            },
            WriteEvent::Finished => if self.step == WriteStep::Finishing {
                self.end(VideoStreamWriteOutcome::Complete, None)
            } else {
                WriteAction::Ignore
            },
        }
    }
}

/// How a stream whose end was marked is let go.
#[derive(Clone, Copy, Debug, PartialEq, Eq, Structural)]
pub enum Acknowledgement {
    Superseded,
    Stopped,
    Received,
}

#[derive(Clone, Copy, Debug, PartialEq, Eq, Structural)]
pub enum Retirement {
    /// Reset the stream with this code.
    Reset(u64),
    /// Tell the writer that a stream of this generation was stopped.
    ReportStopped(u64),
    Nothing,
}

pub fn retire_video_stream(
    generation: u64,
    current_generation: u64,
    acknowledgement: Acknowledgement,
) -> (retirement: Retirement)
    ensures
        retirement == (if generation != current_generation || acknowledgement is Superseded {
            Retirement::Reset(superseded_reset())
        } else if acknowledgement is Stopped {
            Retirement::ReportStopped(generation)
        } else {
            Retirement::Nothing
        }),
{
    if generation != current_generation {
        return Retirement::Reset(video_stream_superseded_code());
    }
    match acknowledgement {
        Acknowledgement::Superseded => Retirement::Reset(video_stream_superseded_code()),
        Acknowledgement::Stopped => Retirement::ReportStopped(generation),
        Acknowledgement::Received => Retirement::Nothing,
    }
}

/// The limits hold after a frame was taken in, and after one was let go.
pub proof fn law_budget_stays_within_limits(
    budget: VideoWriterBudget,
    frame_bytes: usize,
    is_idr: bool,
)
    requires
        budget.within_limits(),
    ensures
        budget.has_room(frame_bytes as int, is_idr) ==> budget.taken(
            frame_bytes as int,
            is_idr,
        ).within_limits(),
        budget.released(frame_bytes, is_idr).within_limits(),
{
}

/// However many delta frames are being written, the largest key frame fits.
pub proof fn law_deltas_leave_room_for_a_key_frame(budget: VideoWriterBudget, frame_bytes: int)
    requires
        budget.within_limits(),
        budget.streams == budget.delta_streams,
        budget.bytes == budget.delta_bytes,
        sendable(frame_bytes),
    ensures
        budget.has_room(frame_bytes, true),
{
}

/// Letting a frame go gives back what it took. A key frame touches the counters
/// of delta frames neither way.
pub proof fn law_release_undoes_admission(
    budget: VideoWriterBudget,
    frame_bytes: usize,
    is_idr: bool,
)
    requires
        budget.can_count(frame_bytes as int, is_idr),
    ensures
        ({
            let taken = budget.taken(frame_bytes as int, is_idr);
            let released = taken.released(frame_bytes, is_idr);
            &&& released == budget
            &&& is_idr ==> taken.delta_streams == budget.delta_streams && taken.delta_bytes
                == budget.delta_bytes
            &&& is_idr ==> released.delta_streams == taken.delta_streams && released.delta_bytes
                == taken.delta_bytes
        }),
{
}

/// While a frame is missing, no delta frame is written.
pub proof fn law_no_delta_while_recovering(writer: VideoWriter, frame: Vec<u8>)
    requires
        writer.recovering,
        !key_frame(frame@),
    ensures
        frame_fate(writer, frame) is Useless,
        after_frame(writer, frame) == writer,
{
}

/// A key frame ends the wait, and gives up all streams before it.
pub proof fn law_key_frame_ends_recovery(writer: VideoWriter, frame: Vec<u8>)
    requires
        key_frame(frame@),
    ensures
        frame_fate(writer, frame) is Written || frame_fate(writer, frame) is Waits,
        !after_frame(writer, frame).recovering,
        after_frame(writer, frame).gop_generation != writer.gop_generation,
{
}

/// A key frame that waits is written as soon as nothing else is.
pub proof fn law_waiting_key_frame_is_written(writer: VideoWriter)
    requires
        writer.well_formed(),
        writer.pending_idr is Some,
        writer.budget.streams == 0,
        writer.budget.bytes == 0,
    ensures
        writer.budget.has_room(writer.pending_idr->0@.len() as int, true),
{
}

/// The end of a task of an earlier generation asks for nothing.
pub proof fn law_old_generations_ask_for_nothing(
    writer: VideoWriter,
    recovery: VideoRecovery,
    frame_bytes: usize,
    is_idr: bool,
    generation: u64,
    outcome: VideoStreamWriteOutcome,
    room: bool,
)
    requires
        generation != writer.gop_generation,
    ensures
        ({
            let end = TaskEnd::Wrote { frame_bytes, is_idr, generation, outcome };
            &&& after_end(writer, end).recovering == writer.recovering
            &&& after_end(writer, end).gop_generation == writer.gop_generation
            &&& recovery_after_end(writer, recovery, end, room).enqueued == recovery.enqueued
        }),
{
}

/// The loss of one frame gives up its whole generation, so that the outcomes of
/// its siblings ask for nothing more.
pub proof fn law_a_generation_is_given_up_once(writer: VideoWriter, end: TaskEnd, other: TaskEnd)
    requires
        end_needs_recovery(writer, end),
        other matches TaskEnd::Wrote { generation, .. } && generation == writer.gop_generation,
    ensures
        after_end(writer, end).recovering,
        !end_needs_recovery(after_end(writer, end), other),
{
}

/// At most eight frames of at most thirty-two mebibytes are under way; delta frames
/// take at most seven of these places and half of these bytes. A frame has room
/// exactly while the limits allow it, and a key frame is bound by the former only.
pub proof fn law_how_much_is_under_way(budget: VideoWriterBudget, frame_bytes: int)
    requires
        0 <= frame_bytes,
    ensures
        budget.has_room(frame_bytes, true) <==> budget.streams < 8 && budget.bytes + frame_bytes
            <= 32 * 1024 * 1024,
        budget.has_room(frame_bytes, false) <==> budget.has_room(frame_bytes, true)
            && budget.delta_streams < 7 && budget.delta_bytes + frame_bytes <= 16 * 1024 * 1024,
        budget.within_limits() <==> budget.streams <= 8 && budget.bytes <= 32 * 1024 * 1024
            && budget.delta_streams <= 7 && budget.delta_bytes <= 16 * 1024 * 1024,
{
}

/// What is taken up is counted: one more frame with its bytes, and one more delta frame
/// with its bytes if it is one.
pub proof fn law_what_is_under_way_is_counted(
    budget: VideoWriterBudget,
    frame_bytes: int,
    is_idr: bool,
)
    requires
        budget.within_limits(),
        budget.has_room(frame_bytes, is_idr),
        0 <= frame_bytes,
    ensures
        ({
            let taken = budget.taken(frame_bytes, is_idr);
            &&& taken.streams == budget.streams + 1
            &&& taken.bytes == budget.bytes + frame_bytes
            &&& taken.delta_streams - budget.delta_streams == (if is_idr {
                0int
            } else {
                1
            })
            &&& taken.delta_bytes - budget.delta_bytes == (if is_idr {
                0int
            } else {
                frame_bytes
            })
        }),
{
}

/// What becomes of a frame. With room it is written, under the next number. A key frame
/// begins a generation and ends the recovery, and it waits where there is no room. A
/// delta frame without room is given up: the generation ends, and nothing but a key
/// frame is written from there on.
pub proof fn law_what_the_writer_does_with_a_frame(
    writer: VideoWriter,
    recovery: VideoRecovery,
    frame: Vec<u8>,
    room: bool,
)
    requires
        writer.well_formed(),
        sendable(frame@.len() as int),
        writer.gop_generation < 0xffff_ffff_ffff_ffff,
        writer.next_sequence < 0xffff_ffff,
    ensures
        ({
            let after = after_frame(writer, frame);
            let recovered = recovery_after_frame(writer, recovery, frame, room);
            let key = frame@.len() >= 2 && frame@[1] == 1;
            let fits = writer.budget.has_room(frame@.len() as int, key);
            let begun = writer.gop_generation + 1;
            &&& key && fits ==> after.tasks == writer.tasks + 1 && after.next_sequence
                == writer.next_sequence + 1 && after.gop_generation == begun && !after.recovering
                && after.pending_idr == writer.pending_idr
            &&& key && !fits ==> after.pending_idr == Some(frame) && after.gop_generation == begun
                && !after.recovering && after.tasks == writer.tasks && after.next_sequence
                == writer.next_sequence && after.budget == writer.budget
            &&& !key && !writer.recovering && fits ==> after.tasks == writer.tasks + 1
                && after.next_sequence == writer.next_sequence + 1 && after.gop_generation
                == writer.gop_generation && !after.recovering
            &&& !key && !writer.recovering && !fits ==> after == VideoWriter {
                gop_generation: begun as u64,
                recovering: true,
                ..writer
            }
            &&& (key || !writer.recovering) && fits ==> after.budget.bytes == writer.budget.bytes
                + frame@.len() && after.budget.streams == writer.budget.streams + 1
            &&& key ==> !recovered.enqueued && recovered.counters == recovery.counters
            &&& !key && !writer.recovering && fits ==> recovered == recovery
            &&& !key && (writer.recovering || !fits) ==> (recovered.enqueued
                <==> recovery.enqueued || room) && recovered.counters.admission_drops
                != recovery.counters.admission_drops
            &&& after.queue_closed == writer.queue_closed
        }),
{
}

/// What the end of a write means. Its place is free again. A stream of the generation
/// in force that was stopped or stood still has left a gap: the generation is given up
/// and a key frame is asked for. One that was completed or superseded has left none.
pub proof fn law_what_the_end_of_a_write_means(
    writer: VideoWriter,
    recovery: VideoRecovery,
    frame_bytes: usize,
    is_idr: bool,
    outcome: VideoStreamWriteOutcome,
    room: bool,
)
    requires
        writer.well_formed(),
        writer.tasks > 0,
        writer.budget.bytes >= frame_bytes,
        writer.gop_generation < 0xffff_ffff_ffff_ffff,
        recovery.counters.video_write_timeouts < 0xffff_ffff_ffff_ffff,
    ensures
        ({
            let generation = writer.gop_generation;
            let end = TaskEnd::Wrote { frame_bytes, is_idr, generation, outcome };
            let after = after_end(writer, end);
            let recovered = recovery_after_end(writer, recovery, end, room);
            let gap = outcome is Stopped || outcome is TimedOut;
            &&& after.tasks == writer.tasks - 1
            &&& after.budget.streams == writer.budget.streams - 1
            &&& after.budget.bytes == writer.budget.bytes - frame_bytes
            &&& is_idr ==> after.budget.delta_streams == writer.budget.delta_streams
            &&& after.recovering <==> writer.recovering || gap
            &&& after.gop_generation == writer.gop_generation + (if gap {
                1int
            } else {
                0
            })
            &&& recovered.enqueued <==> recovery.enqueued || (gap && room)
            &&& recovered.counters.video_write_timeouts - recovery.counters.video_write_timeouts
                == (if outcome is TimedOut {
                1int
            } else {
                0
            })
            &&& recovered.counters.admission_drops == recovery.counters.admission_drops
            &&& after.pending_idr == writer.pending_idr
            &&& after.next_sequence == writer.next_sequence
        }),
{
}

/// A write that nothing hinders: the header, then the frame, then the end, and it is
/// complete. Nothing is reset.
pub proof fn law_write_that_nothing_hinders(write: VideoStreamWrite, header: [u8; 9])
    requires
        write.step is Opening,
        sendable(write.frame_bytes as int),
    ensures
        ({
            let at = |step: WriteStep, event: WriteEvent|
                write_transition(
                    VideoStreamWrite { step, written: 0, ..write },
                    event,
                    write.generation,
                    header,
                );
            &&& at(WriteStep::Opening, WriteEvent::Opened) == (
                WriteStep::Header,
                0int,
                WriteAction::WriteHeader { header, from: 0 },
            )
            &&& at(WriteStep::Header, WriteEvent::Progress(9)) == (
                WriteStep::Body,
                0int,
                WriteAction::WriteBody { from: 0 },
            )
            &&& at(WriteStep::Body, WriteEvent::Progress(write.frame_bytes)) == (
                WriteStep::Finishing,
                0int,
                WriteAction::Finish,
            )
            &&& at(WriteStep::Finishing, WriteEvent::Finished) == (
                WriteStep::Ended,
                0int,
                WriteAction::End { outcome: VideoStreamWriteOutcome::Complete, reset: None },
            )
        }),
{
}

/// Part of a header or of a frame that was taken is not written again: the rest
/// follows, from where the last write ended.
pub proof fn law_write_goes_on_where_it_ended(
    write: VideoStreamWrite,
    count: usize,
    current_generation: u64,
    header: [u8; 9],
)
    requires
        0 < count,
    ensures
        write.step is Header && write.written + count < 9 ==> write_transition(
            write,
            WriteEvent::Progress(count),
            current_generation,
            header,
        ) == (
            WriteStep::Header,
            write.written + count,
            WriteAction::WriteHeader { header, from: (write.written + count) as usize },
        ),
        write.step is Body && write.written + count < write.frame_bytes ==> write_transition(
            write,
            WriteEvent::Progress(count),
            current_generation,
            header,
        ) == (
            WriteStep::Body,
            write.written + count,
            WriteAction::WriteBody { from: (write.written + count) as usize },
        ),
{
}

/// How a write ends early. An open stream is reset with the code for a stream that
/// stood still, or with the one for a stream that was overtaken; one that the browser
/// stopped, or that was not open yet, is not reset. A frame of an old generation is
/// overtaken even when all of it was written.
pub proof fn law_how_a_write_ends_early(
    write: VideoStreamWrite,
    current_generation: u64,
    header: [u8; 9],
)
    requires
        write.step is Header || write.step is Body,
        sendable(write.frame_bytes as int),
    ensures
        ({
            let open = |event: WriteEvent|
                write_transition(write, event, current_generation, header).2;
            let opening = |event: WriteEvent|
                write_transition(
                    VideoStreamWrite { step: WriteStep::Opening, ..write },
                    event,
                    current_generation,
                    header,
                ).2;
            let end = |outcome: VideoStreamWriteOutcome, reset: Option<u64>|
                WriteAction::End { outcome, reset };
            let late = 0x52e4_a40f_a8eb_u64;
            let overtaken = 0x52e4_a40f_a8ec_u64;
            &&& open(WriteEvent::TimedOut) == end(VideoStreamWriteOutcome::TimedOut, Some(late))
            &&& open(WriteEvent::Progress(0)) == open(WriteEvent::TimedOut)
            &&& open(WriteEvent::Superseded) == end(
                VideoStreamWriteOutcome::Superseded,
                Some(overtaken),
            )
            &&& open(WriteEvent::Stopped) == end(VideoStreamWriteOutcome::Stopped, None)
            &&& open(WriteEvent::ConnectionFailed) is Fail
            &&& opening(WriteEvent::TimedOut) == end(VideoStreamWriteOutcome::TimedOut, None)
            &&& opening(WriteEvent::Superseded) == end(VideoStreamWriteOutcome::Superseded, None)
            &&& opening(WriteEvent::ConnectionFailed) is Fail
            &&& write.step is Body && write.written == 0 && current_generation != write.generation
                ==> open(WriteEvent::Progress(write.frame_bytes)) == open(WriteEvent::Superseded)
            &&& write_transition(
                VideoStreamWrite { step: WriteStep::Finishing, ..write },
                WriteEvent::Stopped,
                current_generation,
                header,
            ).2 == end(VideoStreamWriteOutcome::Stopped, None)
            &&& write_transition(
                VideoStreamWrite { step: WriteStep::Opening, frame_bytes: 0, ..write },
                WriteEvent::Opened,
                current_generation,
                header,
            ).2 is Fail
        }),
{
}

/// A key frame that waited is written as soon as there is room, under the next number
/// and in the generation that it began, and waits no longer.
pub proof fn law_waiting_key_frame_goes_out(
    writer: &mut VideoWriter,
    task: Option<VideoWriteTask>,
)
    requires
        call_ensures(VideoWriter::launch_pending, (writer,), task),
    ensures
        ({
            let waiting = old(writer).pending_idr;
            let fits = waiting is Some && old(writer).budget.streams < 8 && old(writer).budget.bytes
                + waiting->0@.len() <= 32 * 1024 * 1024;
            &&& task is Some <==> fits
            &&& task matches Some(task) ==> task.frame == waiting->0 && task.is_idr && task.sequence
                == old(writer).next_sequence && task.generation == old(writer).gop_generation
            &&& task is Some ==> final(writer).pending_idr is None && final(writer).gop_generation
                == old(writer).gop_generation
            &&& task is None ==> *final(writer) == *old(writer)
        }),
{
}

/// A task carries its frame, with its number, its kind and the generation in force, and
/// a write begins with all of it to be done.
pub proof fn law_tasks_carry_their_frames(
    writer: &mut VideoWriter,
    frame: Vec<u8>,
    recovery: &mut VideoRecovery,
    room: bool,
    step: FrameStep,
    write: VideoStreamWrite,
)
    requires
        call_ensures(VideoWriter::on_frame, (writer, frame, recovery, room), step),
        step.task is Some ==> call_ensures(VideoStreamWrite::begin, (&step.task->0,), write),
        frame@.len() <= usize::MAX,
    ensures
        ({
            let key = frame@.len() >= 2 && frame@[1] == 1;
            let fits = old(writer).budget.has_room(frame@.len() as int, key);
            &&& step.task is Some <==> fits && (key || !old(writer).recovering)
            &&& step.task matches Some(task) ==> task.frame == frame && task.is_idr == key
                && task.sequence == old(writer).next_sequence && task.generation
                == final(writer).gop_generation
            &&& step.task is Some ==> write.frame_bytes == frame@.len() && write.step is Opening
                && write.written == 0 && write.sequence == old(writer).next_sequence
                && write.generation == final(writer).gop_generation
            &&& step.request is Some <==> !key && step.task is None && room && !old(
                recovery,
            ).enqueued
            &&& step.request is Some ==> step.request->0@ == seq![2u8, 0]
        }),
{
}

/// A stream of the generation in force that the browser stopped gives the generation up
/// and asks for a key frame, once; one of an older generation changes nothing.
pub proof fn law_stopped_streams(
    writer: &mut VideoWriter,
    generation: u64,
    recovery: &mut VideoRecovery,
    room: bool,
    request: Option<[u8; 2]>,
)
    requires
        call_ensures(VideoWriter::on_stream_stopped, (writer, generation, recovery, room), request),
    ensures
        ({
            let current = generation == old(writer).gop_generation;
            &&& !current ==> *final(writer) == *old(writer) && *final(recovery) == *old(recovery)
            &&& current ==> final(writer).recovering && final(writer).gop_generation != generation
            &&& current && room ==> final(recovery).enqueued
            &&& request is Some <==> current && room && !old(recovery).enqueued
            &&& request is Some ==> request->0@ == seq![2u8, 0]
            &&& final(writer).budget == old(writer).budget && final(writer).tasks == old(
                writer,
            ).tasks
        }),
{
}

/// A stream that is out is reset when it was overtaken, reported when it was stopped and
/// left alone when it arrived.
pub proof fn law_what_becomes_of_written_streams(
    generation: u64,
    current: u64,
    acknowledgement: Acknowledgement,
    retirement: Retirement,
)
    requires
        call_ensures(retire_video_stream, (generation, current, acknowledgement), retirement),
    ensures
        retirement is Nothing <==> generation == current && acknowledgement is Received,
        retirement is ReportStopped <==> generation == current && acknowledgement is Stopped,
        retirement matches Retirement::ReportStopped(reported) ==> reported == generation,
        retirement matches Retirement::Reset(code) ==> code == 0x52e4_a40f_a8ec,
{
}

} // verus!

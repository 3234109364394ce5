//! The queue before a media track.

use std::collections::VecDeque;
use vstd::prelude::*;

verus! {

pub const MAX_CHANNEL_QUEUE_SIZE: usize = 256;

/// The packets or samples of one frame.
#[derive(Debug)]
pub struct FrameSamples<Sample> {
    pub important: bool,
    pub samples: Vec<Sample>,
}

/// The frames that wait to be sent. New ones come to the front and the oldest
/// leaves at the back.
#[derive(Debug)]
pub struct TrackLocalSender<Sample> {
    pub channel_queue_size: usize,
    pub queue: VecDeque<FrameSamples<Sample>>,
}

pub open spec fn clamped_queue_size(size: usize) -> usize {
    if size < 1 {
        1
    } else if size > MAX_CHANNEL_QUEUE_SIZE {
        MAX_CHANNEL_QUEUE_SIZE
    } else {
        size
    }
}

pub open spec fn is_important<Sample>() -> spec_fn(FrameSamples<Sample>) -> bool {
    |frame: FrameSamples<Sample>| frame.important
}

impl<Sample> TrackLocalSender<Sample> {
    pub open spec fn well_formed(&self) -> bool {
        self.queue@.len() <= self.channel_queue_size && 1 <= self.channel_queue_size
            <= MAX_CHANNEL_QUEUE_SIZE
    }

    pub fn new(channel_queue_size: usize) -> (sender: Self)
        ensures
            sender.well_formed(),
            sender.channel_queue_size == clamped_queue_size(channel_queue_size),
            sender.queue@.len() == 0,
    {
        let channel_queue_size: usize = if channel_queue_size < 1 {
            1
        } else if channel_queue_size > MAX_CHANNEL_QUEUE_SIZE {
            MAX_CHANNEL_QUEUE_SIZE
        } else {
            channel_queue_size
        };
        TrackLocalSender { channel_queue_size, queue: VecDeque::new() }
    }

    /// Queues a frame, and says whether there was room for it.
    pub fn send_samples(&mut self, samples: Vec<Sample>, important: bool) -> (queued: bool)
        requires
            old(self).well_formed(),
        ensures
            final(self).well_formed(),
            final(self).channel_queue_size == old(self).channel_queue_size,
            queued == (old(self).queue@.len() < old(self).channel_queue_size),
            final(self).queue@ == (if queued {
                seq![FrameSamples { important, samples }] + old(self).queue@
            } else {
                old(self).queue@
            }),
    {
        if self.queue.len() >= self.channel_queue_size {
            return false;
        }
        self.queue.push_front(FrameSamples { important, samples });
        assert(self.queue@ =~= seq![FrameSamples { important, samples }] + old(self).queue@);
        true
    }

    /// Queues a frame in place of all that wait. This is for video, where a key
    /// frame makes every frame before it useless.
    pub fn replace_queued_samples(&mut self, samples: Vec<Sample>, important: bool)
        requires
            old(self).well_formed(),
        ensures
            final(self).well_formed(),
            final(self).channel_queue_size == old(self).channel_queue_size,
            final(self).queue@ == seq![FrameSamples { important, samples }],
    {
        self.queue.clear();
        self.queue.push_front(FrameSamples { important, samples });
        assert(self.queue@ =~= seq![FrameSamples { important, samples }]);
    }

    /// Discards the frames that wait, the important ones only on demand.
    pub fn clear_queue(&mut self, clear_important: bool)
        requires
            old(self).well_formed(),
        ensures
            final(self).well_formed(),
            final(self).channel_queue_size == old(self).channel_queue_size,
            final(self).queue@ == (if clear_important {
                Seq::empty()
            } else {
                old(self).queue@.filter(is_important())
            }),
    {
        if clear_important {
            self.queue.clear();
            return;
        }
        let mut kept: VecDeque<FrameSamples<Sample>> = VecDeque::new();
        let ghost all = self.queue@;
        let ghost mut done: int = 0;
        assert(all.take(0).filter(is_important()) =~= Seq::empty()) by {
            reveal(Seq::filter);
        }
        assert(all.skip(0) =~= all);
        while self.queue.len() > 0
            invariant
                0 <= done <= all.len(),
                self.queue@ == all.skip(done),
                kept@ == all.take(done).filter(is_important()),
                kept@.len() <= done,
                self.channel_queue_size == old(self).channel_queue_size,
            decreases self.queue@.len(),
        {
            proof {
                crate::seqs::lemma_filter_step(all, is_important(), done);
                assert(all.skip(done)[0] == all[done]);
            }
            if let Some(frame) = self.queue.pop_front() {
                assert(frame == all[done]);
                if frame.important {
                    kept.push_back(frame);
                }
            }
            proof {
                assert(self.queue@ =~= all.skip(done + 1));
                done = done + 1;
            }
        }
        assert(all.take(done) =~= all);
        self.queue = kept;
    }

    /// The frame to send next: the one that waits longest.
    pub fn next_frame(&mut self) -> (frame: Option<FrameSamples<Sample>>)
        requires
            old(self).well_formed(),
        ensures
            final(self).well_formed(),
            final(self).channel_queue_size == old(self).channel_queue_size,
            match frame {
                Some(frame) => old(self).queue@.len() > 0 && frame == old(self).queue@.last()
                    && final(self).queue@ == old(self).queue@.drop_last(),
                None => old(self).queue@.len() == 0 && final(self).queue@ == old(self).queue@,
            },
    {
        self.queue.pop_back()
    }
}

#[derive(Clone, Copy, Debug, PartialEq, Eq, Structural)]
pub enum MediaKind {
    Audio,
    Video,
}

/// A header extension that packets of a kind carry.
#[derive(Clone, Debug, PartialEq, Eq)]
pub struct HeaderExtension {
    pub uri: String,
    pub kind: MediaKind,
}

/// Lets the browser play what arrives without delay.
pub const PLAYOUT_DELAY_URI: &'static str =
    "http://www.webrtc.org/experiments/rtp-hdrext/playout-delay";

/// Tells the browser when a packet was sent.
pub const ABS_SEND_TIME_URI: &'static str =
    "http://www.webrtc.org/experiments/rtp-hdrext/abs-send-time";

fn extension(uri: &str, kind: MediaKind) -> (extension: HeaderExtension)
    ensures
        extension.uri@ == uri@,
        extension.kind == kind,
{
    HeaderExtension { uri: uri.to_owned(), kind }
}

/// The header extensions of a session, in the order in which they are registered.
pub fn register_header_extensions() -> (extensions: Vec<HeaderExtension>)
    ensures
        extensions@.len() == 4,
        forall|i: int|
            0 <= i < 4 ==> (#[trigger] extensions@[i]).uri@ == (if i < 2 {
                PLAYOUT_DELAY_URI@
            } else {
                ABS_SEND_TIME_URI@
            }) && extensions@[i].kind == (if i % 2 == 0 {
                MediaKind::Video
            } else {
                MediaKind::Audio
            }),
{
    let mut extensions: Vec<HeaderExtension> = Vec::new();
    extensions.push(extension(PLAYOUT_DELAY_URI, MediaKind::Video));
    extensions.push(extension(PLAYOUT_DELAY_URI, MediaKind::Audio));
    extensions.push(extension(ABS_SEND_TIME_URI, MediaKind::Video));
    extensions.push(extension(ABS_SEND_TIME_URI, MediaKind::Audio));
    extensions
}

/// Numbers the packets of a track.
#[derive(Clone, Copy, Debug, PartialEq, Eq, Structural)]
pub struct SequencedTrackLocalStaticRTP {
    pub sequence_number: u16,
}

pub open spec fn number_after(number: u16) -> u16 {
    if number == u16::MAX {
        0
    } else {
        (number + 1) as u16
    }
}

impl SequencedTrackLocalStaticRTP {
    pub fn new() -> (track: Self)
        ensures
            track.sequence_number == 0,
    {
        SequencedTrackLocalStaticRTP { sequence_number: 0 }
    }

    /// The number of the next packet. While nobody receives, packets are dropped
    /// without using a number up.
    pub fn next_number(&mut self, all_paused: bool) -> (number: Option<u16>)
        ensures
            if all_paused {
                number is None && *final(self) == *old(self)
            } else {
                number == Some(old(self).sequence_number) && final(self).sequence_number
                    == number_after(old(self).sequence_number)
            },
    {
        if all_paused {
            return None;
        }
        let number: u16 = self.sequence_number;
        self.sequence_number = self.sequence_number.wrapping_add(1);
        Some(number)
    }
}

/// The waiting frames in the order in which they will leave.
pub open spec fn leaving_order<Sample>(queue: Seq<FrameSamples<Sample>>) -> Seq<
    FrameSamples<Sample>,
> {
    queue.reverse()
}

/// Frames leave in the order in which they came: a new one goes behind all that
/// wait, and the first of them leaves next.
pub proof fn law_frames_leave_in_order<Sample>(
    queue: Seq<FrameSamples<Sample>>,
    frame: FrameSamples<Sample>,
)
    ensures
        leaving_order(seq![frame] + queue) == leaving_order(queue).push(frame),
        queue.len() > 0 ==> leaving_order(queue)[0] == queue.last(),
        queue.len() > 0 ==> leaving_order(queue.drop_last()) == leaving_order(queue).skip(1),
{
    assert(leaving_order(seq![frame] + queue) =~= leaving_order(queue).push(frame));
    if queue.len() > 0 {
        assert(leaving_order(queue.drop_last()) =~= leaving_order(queue).skip(1));
    }
}

/// A queue has the size that was asked for, but room for at least one frame and for no
/// more than two hundred and fifty-six. Packets are numbered one after the other, and
/// the numbers begin again after 65535.
pub proof fn law_sizes_and_numbers(size: usize, number: u16)
    ensures
        1 <= clamped_queue_size(size) <= 256,
        1 <= size <= 256 ==> clamped_queue_size(size) == size,
        size > 256 ==> clamped_queue_size(size) == 256,
        number_after(number) == (number + 1) % 0x1_0000,
{
}

/// Frames leave in the order in which they were sent: one that was sent is the last to
/// leave, and one that leaves is the one that was sent first. A full queue refuses.
pub proof fn law_frames_are_queued_in_order<Sample>(
    sender: &mut TrackLocalSender<Sample>,
    reader: &mut TrackLocalSender<Sample>,
    samples: Vec<Sample>,
    important: bool,
    queued: bool,
    frame: Option<FrameSamples<Sample>>,
)
    requires
        call_ensures(TrackLocalSender::<Sample>::send_samples, (sender, samples, important), queued),
        call_ensures(TrackLocalSender::<Sample>::next_frame, (reader,), frame),
        *old(reader) == *final(sender),
    ensures
        ({
            let before = leaving_order(old(sender).queue@);
            let sent = leaving_order(final(sender).queue@);
            let left = leaving_order(final(reader).queue@);
            &&& queued <==> old(sender).queue@.len() < old(sender).channel_queue_size
            &&& queued ==> sent == before.push(FrameSamples { important, samples })
            &&& !queued ==> sent == before
            &&& frame is Some <==> sent.len() > 0
            &&& frame is Some ==> frame->0 == sent[0] && left == sent.skip(1)
            &&& frame is None ==> left == sent
        }),
{
    law_frames_leave_in_order(old(sender).queue@, FrameSamples { important, samples });
    law_frames_leave_in_order(final(sender).queue@, FrameSamples { important, samples });
}

/// Clearing a queue drops what can be missed, and everything only where that is asked
/// for. A frame that replaces the queue is alone in it.
pub proof fn law_what_clearing_keeps<Sample>(
    sender: &mut TrackLocalSender<Sample>,
    replaced: &mut TrackLocalSender<Sample>,
    clear_important: bool,
    frame: FrameSamples<Sample>,
)
    requires
        call_ensures(TrackLocalSender::<Sample>::clear_queue, (sender, clear_important), ()),
        call_ensures(
            TrackLocalSender::<Sample>::replace_queued_samples,
            (replaced, frame.samples, frame.important),
            (),
        ),
    ensures
        clear_important ==> final(sender).queue@.len() == 0,
        !clear_important ==> (final(sender).queue@.contains(frame) <==> old(
            sender,
        ).queue@.contains(frame) && frame.important),
        final(replaced).queue@ == seq![frame],
{
    let keep = is_important::<Sample>();
    let queue = old(sender).queue@;
    let kept = queue.filter(keep);
    if kept.contains(frame) {
        let i = choose|i: int| 0 <= i < kept.len() && kept[i] == frame;
        queue.lemma_filter_pred(keep, i);
        queue.lemma_filter_contains_rev(keep, frame);
    }
    if queue.contains(frame) && frame.important {
        let i = choose|i: int| 0 <= i < queue.len() && queue[i] == frame;
        queue.lemma_filter_contains(keep, i);
    }
}

/// Packets are numbered while anyone receives them, and no number is used while nobody
/// does.
pub proof fn law_when_numbers_are_used(
    track: &mut SequencedTrackLocalStaticRTP,
    all_paused: bool,
    number: Option<u16>,
)
    requires
        call_ensures(SequencedTrackLocalStaticRTP::next_number, (track, all_paused), number),
    ensures
        number is None <==> all_paused,
        all_paused ==> final(track).sequence_number == old(track).sequence_number,
        !all_paused ==> number->0 == old(track).sequence_number && final(track).sequence_number == (
        old(track).sequence_number + 1) % 0x1_0000,
{
}

} // verus!

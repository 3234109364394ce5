//! The queue before the reliable lane to the browser.
//!
//! Most frames are transitions that must arrive, each in its place. Some are
//! snapshots, of which only the latest is of use: one replaces another of its
//! kind, and none makes a transition wait.

use crate::channel::{RTT, STATS};
use crate::wire::{be_value, read_u16};
use std::collections::VecDeque;
use vstd::prelude::*;

verus! {

/// How many frames may wait for the reliable lane.
pub const OTHER_QUEUE_CAPACITY: usize = 32;

#[derive(Clone, Copy, Debug, PartialEq, Eq, Structural)]
pub enum ReliableReplacementKey {
    StatsVideo,
    StatsRtt,
    StatsBrowserRtt,
    Rtt,
}

pub open spec fn starts_with(bytes: Seq<u8>, prefix: Seq<u8>) -> bool {
    prefix.len() <= bytes.len() && bytes.take(prefix.len() as int) == prefix
}

/// `{"Video":`
pub open spec fn video_tag() -> Seq<u8> {
    seq![0x7b, 0x22, 0x56, 0x69, 0x64, 0x65, 0x6f, 0x22, 0x3a]
}

/// `{"Rtt":`
pub open spec fn rtt_tag() -> Seq<u8> {
    seq![0x7b, 0x22, 0x52, 0x74, 0x74, 0x22, 0x3a]
}

/// `{"BrowserRtt":`
pub open spec fn browser_rtt_tag() -> Seq<u8> {
    seq![0x7b, 0x22, 0x42, 0x72, 0x6f, 0x77, 0x73, 0x65, 0x72, 0x52, 0x74, 0x74, 0x22, 0x3a]
}

/// The kind of snapshot that a frame carries, or `None` for a transition.
///
/// A frame of statistics is a text in JSON behind its length, and the first tag
/// in it tells the kind. Everything that is not known to be a snapshot is a
/// transition.
pub open spec fn replacement_key(frame: Seq<u8>) -> Option<ReliableReplacementKey> {
    if frame.len() >= 3 && frame[0] == STATS {
        let json = frame.skip(3);
        if json.len() != be_value(frame.subrange(1, 3)) {
            None
        } else if starts_with(json, video_tag()) {
            Some(ReliableReplacementKey::StatsVideo)
        } else if starts_with(json, rtt_tag()) {
            Some(ReliableReplacementKey::StatsRtt)
        } else if starts_with(json, browser_rtt_tag()) {
            Some(ReliableReplacementKey::StatsBrowserRtt)
        } else {
            None
        }
    } else if frame.len() == 4 && frame[0] == RTT && frame[1] == 0 {
        Some(ReliableReplacementKey::Rtt)
    } else {
        None
    }
}

fn has_prefix_at(bytes: &[u8], at: usize, prefix: &[u8]) -> (has: bool)
    requires
        at <= bytes@.len(),
    ensures
        has == starts_with(bytes@.skip(at as int), prefix@),
{
    assert(bytes.len() == bytes@.len());
    if prefix.len() > bytes.len() - at {
        return false;
    }
    let mut i: usize = 0;
    while i < prefix.len()
        invariant
            i <= prefix@.len(),
            at + prefix@.len() <= bytes@.len(),
            bytes.len() == bytes@.len(),
            forall|k: int| 0 <= k < i ==> bytes@[at + k] == prefix@[k],
        decreases prefix@.len() - i,
    {
        if bytes[at + i] != prefix[i] {
            proof {
                assert(bytes@.skip(at as int).take(prefix@.len() as int)[i as int] != prefix@[i as int]);
            }
            return false;
        }
        i = i + 1;
    }
    assert(bytes@.skip(at as int).take(prefix@.len() as int) =~= prefix@);
    true
}

pub fn reliable_replacement_key(frame: &[u8]) -> (key: Option<ReliableReplacementKey>)
    ensures
        key == replacement_key(frame@),
{
    if frame.len() >= 3 && frame[0] == STATS {
        let declared_length: usize = read_u16(frame, 1) as usize;
        if frame.len() - 3 != declared_length {
            return None;
        }
        let video: [u8; 9] = [0x7b, 0x22, 0x56, 0x69, 0x64, 0x65, 0x6f, 0x22, 0x3a];
        let rtt: [u8; 7] = [0x7b, 0x22, 0x52, 0x74, 0x74, 0x22, 0x3a];
        let browser_rtt: [u8; 14] = [
            0x7b,
            0x22,
            0x42,
            0x72,
            0x6f,
            0x77,
            0x73,
            0x65,
            0x72,
            0x52,
            0x74,
            0x74,
            0x22,
            0x3a,
        ];
        proof {
            assert(video@ =~= video_tag());
            assert(rtt@ =~= rtt_tag());
            assert(browser_rtt@ =~= browser_rtt_tag());
        }
        if has_prefix_at(frame, 3, video.as_slice()) {
            Some(ReliableReplacementKey::StatsVideo)
        } else if has_prefix_at(frame, 3, rtt.as_slice()) {
            Some(ReliableReplacementKey::StatsRtt)
        } else if has_prefix_at(frame, 3, browser_rtt.as_slice()) {
            Some(ReliableReplacementKey::StatsBrowserRtt)
        } else {
            None
        }
    } else if frame.len() == 4 && frame[0] == RTT && frame[1] == 0 {
        Some(ReliableReplacementKey::Rtt)
    } else {
        None
    }
}

#[derive(Debug)]
pub struct ReliableOutboundFrame {
    pub bytes: Vec<u8>,
    pub replacement_key: Option<ReliableReplacementKey>,
}

/// The queue before the reliable lane.
#[derive(Debug)]
pub struct ReliableOutboundQueue {
    pub frames: VecDeque<ReliableOutboundFrame>,
    pub producer_closed: bool,
    pub consumer_closed: bool,
    pub capacity: usize,
}

/// [`ReliableOutboundQueue`] as a mathematical value.
#[verifier::ext_equal]
pub struct ReliableView {
    pub frames: Seq<Seq<u8>>,
    pub producer_closed: bool,
    pub consumer_closed: bool,
    pub capacity: nat,
}

/// What became of a frame that was offered to the queue.
#[derive(Debug, PartialEq, Eq)]
pub enum Offered {
    Queued,
    /// A snapshot found nothing but transitions in a full queue.
    Discarded,
    /// The queue is full of transitions: offer the frame again when one has left.
    Wait(Vec<u8>),
    Closed,
}

/// What the queue has for the lane.
#[derive(Debug, PartialEq, Eq)]
pub enum NextFrame {
    Frame(Vec<u8>),
    Pending,
    Closed,
}

/// A snapshot of the kind `key`, or any snapshot where `key` is `None`.
pub open spec fn is_snapshot(frame: Seq<u8>, key: Option<ReliableReplacementKey>) -> bool {
    replacement_key(frame) is Some && (key is Some ==> replacement_key(frame) == key)
}

/// Where the first such snapshot stands; the length where there is none.
pub open spec fn first_snapshot(
    frames: Seq<Seq<u8>>,
    key: Option<ReliableReplacementKey>,
) -> nat
    decreases frames.len(),
{
    if frames.len() == 0 || is_snapshot(frames[0], key) {
        0
    } else {
        1 + first_snapshot(frames.skip(1), key)
    }
}

/// The frames without the first such snapshot.
pub open spec fn without_snapshot(
    frames: Seq<Seq<u8>>,
    key: Option<ReliableReplacementKey>,
) -> Seq<Seq<u8>> {
    let at = first_snapshot(frames, key);
    if at < frames.len() {
        frames.remove(at as int)
    } else {
        frames
    }
}

/// The frames once room was made for one more: a snapshot takes the place of
/// the one of its kind, and the oldest snapshot leaves a full queue.
pub open spec fn with_room_for(queue: ReliableView, frame: Seq<u8>) -> Seq<Seq<u8>> {
    let key = replacement_key(frame);
    if key is Some && first_snapshot(queue.frames, key) < queue.frames.len() {
        without_snapshot(queue.frames, key)
    } else if queue.frames.len() >= queue.capacity {
        without_snapshot(queue.frames, None)
    } else {
        queue.frames
    }
}

/// The queue after a frame was offered.
pub open spec fn after_offer(queue: ReliableView, frame: Seq<u8>) -> ReliableView {
    let kept = with_room_for(queue, frame);
    if !queue.consumer_closed && kept.len() < queue.capacity {
        ReliableView { frames: kept.push(frame), ..queue }
    } else {
        queue
    }
}

impl View for ReliableOutboundQueue {
    type V = ReliableView;

    open spec fn view(&self) -> ReliableView {
        ReliableView {
            frames: self.frames@.map_values(|frame: ReliableOutboundFrame| frame.bytes@),
            producer_closed: self.producer_closed,
            consumer_closed: self.consumer_closed,
            capacity: self.capacity as nat,
        }
    }
}

impl ReliableOutboundQueue {
    /// No more frames than the capacity, and each under its own kind.
    pub open spec fn well_formed(&self) -> bool {
        &&& self.capacity > 0
        &&& self.frames@.len() <= self.capacity
        &&& forall|i: int|
            0 <= i < self.frames@.len() ==> (#[trigger] self.frames@[i]).replacement_key
                == replacement_key(self.frames@[i].bytes@)
    }

    pub fn new(capacity: usize) -> (queue: Self)
        requires
            capacity > 0,
        ensures
            queue.well_formed(),
            queue@ == (ReliableView {
                frames: Seq::empty(),
                producer_closed: false,
                consumer_closed: false,
                capacity: capacity as nat,
            }),
    {
        let queue = ReliableOutboundQueue {
            frames: VecDeque::new(),
            producer_closed: false,
            consumer_closed: false,
            capacity,
        };
        assert(queue@.frames =~= Seq::empty());
        queue
    }

    fn find_snapshot(&self, key: Option<ReliableReplacementKey>) -> (at: usize)
        requires
            self.well_formed(),
        ensures
            at == first_snapshot(self@.frames, key),
            at <= self.frames@.len(),
    {
        let mut at: usize = 0;
        let count: usize = self.frames.len();
        assert(self@.frames.skip(0) =~= self@.frames);
        while at < count
            invariant
                at <= count,
                count == self.frames@.len(),
                self.well_formed(),
                first_snapshot(self@.frames, key) == at + first_snapshot(
                    self@.frames.skip(at as int),
                    key,
                ),
            decreases count - at,
        {
            let queued: Option<ReliableReplacementKey> = self.frames[at].replacement_key;
            assert(self@.frames.skip(at as int)[0] == self.frames@[at as int].bytes@);
            assert(self@.frames.skip(at as int).skip(1) =~= self@.frames.skip(at + 1));
            if queued.is_some() && (key.is_none() || queued == key) {
                return at;
            }
            at = at + 1;
        }
        at
    }

    /// Offers a frame without waiting.
    pub fn offer(&mut self, frame: Vec<u8>) -> (offered: Offered)
        requires
            old(self).well_formed(),
        ensures
            final(self).well_formed(),
            final(self)@ == after_offer(old(self)@, frame@),
            ({
                let room = with_room_for(old(self)@, frame@).len() < old(self).capacity;
                match offered {
                    Offered::Closed => old(self).consumer_closed,
                    Offered::Queued => !old(self).consumer_closed && room,
                    Offered::Discarded => !old(self).consumer_closed && !room && replacement_key(
                        frame@,
                    ) is Some,
                    Offered::Wait(back) => !old(self).consumer_closed && !room && replacement_key(
                        frame@,
                    ) is None && back == frame,
                }
            }),
    {
        let replacement_key = reliable_replacement_key(frame.as_slice());
        if self.consumer_closed {
            return Offered::Closed;
        }
        let ghost before = self@.frames;
        let mut at: usize = self.frames.len();
        if replacement_key.is_some() {
            at = self.find_snapshot(replacement_key);
        }
        if at == self.frames.len() && self.frames.len() >= self.capacity {
            at = self.find_snapshot(None);
        }
        if at < self.frames.len() {
            self.frames.remove(at);
            assert(self@.frames =~= before.remove(at as int));
        }
        assert(self@.frames == with_room_for(old(self)@, frame@));
        if self.frames.len() < self.capacity {
            let ghost kept = self@.frames;
            let ghost bytes = frame@;
            self.frames.push_back(ReliableOutboundFrame { bytes: frame, replacement_key });
            assert(self@.frames =~= kept.push(bytes));
            return Offered::Queued;
        }
        if replacement_key.is_some() {
            return Offered::Discarded;
        }
        Offered::Wait(frame)
    }

    /// The next frame for the lane.
    pub fn next(&mut self) -> (next: NextFrame)
        requires
            old(self).well_formed(),
        ensures
            final(self).well_formed(),
            match next {
                NextFrame::Frame(bytes) => old(self)@.frames.len() > 0 && bytes@
                    == old(self)@.frames[0] && final(self)@ == (ReliableView {
                    frames: old(self)@.frames.skip(1),
                    ..old(self)@
                }),
                NextFrame::Pending => old(self)@.frames.len() == 0 && !old(self).producer_closed
                    && final(self)@ == old(self)@,
                NextFrame::Closed => old(self)@.frames.len() == 0 && old(self).producer_closed
                    && final(self)@ == old(self)@,
            },
    {
        match self.frames.pop_front() {
            Some(frame) => {
                assert(self@.frames =~= old(self)@.frames.skip(1));
                NextFrame::Frame(frame.bytes)
            },
            None => {
                if self.producer_closed {
                    NextFrame::Closed
                } else {
                    NextFrame::Pending
                }
            },
        }
    }

    /// The producer is gone: what is queued still goes out.
    pub fn close_producer(&mut self)
        requires
            old(self).well_formed(),
        ensures
            final(self).well_formed(),
            final(self)@ == (ReliableView { producer_closed: true, ..old(self)@ }),
    {
        self.producer_closed = true;
    }

    /// The lane is gone, and with it what is queued.
    pub fn close_consumer(&mut self)
        requires
            old(self).well_formed(),
        ensures
            final(self).well_formed(),
            final(self)@ == (ReliableView {
                consumer_closed: true,
                frames: Seq::empty(),
                ..old(self)@
            }),
    {
        self.consumer_closed = true;
        self.frames.clear();
        assert(self@.frames =~= Seq::empty());
    }
}

/// Transitions, in contrast to snapshots.
pub open spec fn transition() -> spec_fn(Seq<u8>) -> bool {
    |frame: Seq<u8>| replacement_key(frame) is None
}

proof fn lemma_first_snapshot(frames: Seq<Seq<u8>>, key: Option<ReliableReplacementKey>)
    ensures
        first_snapshot(frames, key) <= frames.len(),
        first_snapshot(frames, key) < frames.len() ==> is_snapshot(
            frames[first_snapshot(frames, key) as int],
            key,
        ),
        forall|i: int| 0 <= i < first_snapshot(frames, key) ==> !is_snapshot(#[trigger] frames[i], key),
    decreases frames.len(),
{
    if frames.len() > 0 && !is_snapshot(frames[0], key) {
        lemma_first_snapshot(frames.skip(1), key);
        let at = first_snapshot(frames, key);
        assert forall|i: int| 0 <= i < at implies !is_snapshot(#[trigger] frames[i], key) by {
            if i > 0 {
                assert(frames.skip(1)[i - 1] == frames[i]);
            }
        }
    }
}

proof fn lemma_transitions_survive(frames: Seq<Seq<u8>>, key: Option<ReliableReplacementKey>)
    ensures
        without_snapshot(frames, key).filter(transition()) == frames.filter(transition()),
{
    lemma_first_snapshot(frames, key);
    let at = first_snapshot(frames, key) as int;
    if at < frames.len() {
        crate::seqs::lemma_filter_remove(frames, transition(), at);
    }
}

/// No transition is lost or overtaken by another: a snapshot leaves the queued
/// transitions as they are, and a transition that is queued comes after them.
pub proof fn law_transitions_keep_their_order(queue: ReliableView, frame: Seq<u8>)
    ensures
        ({
            let before = queue.frames.filter(transition());
            let after = after_offer(queue, frame).frames.filter(transition());
            if replacement_key(frame) is Some || after_offer(queue, frame) == queue {
                after == before
            } else {
                after == before.push(frame)
            }
        }),
{
    let kept = with_room_for(queue, frame);
    lemma_transitions_survive(queue.frames, replacement_key(frame));
    lemma_transitions_survive(queue.frames, None);
    assert(kept.filter(transition()) == queue.frames.filter(transition()));
    crate::seqs::lemma_filter_push(kept, transition(), frame);
}

/// A transition waits only for other transitions.
pub proof fn law_only_transitions_make_a_frame_wait(queue: ReliableView, frame: Seq<u8>)
    requires
        queue.capacity > 0,
        queue.frames.len() <= queue.capacity,
        with_room_for(queue, frame).len() >= queue.capacity,
    ensures
        queue.frames.len() == queue.capacity,
        forall|i: int|
            0 <= i < queue.frames.len() ==> replacement_key(#[trigger] queue.frames[i]) is None,
{
    lemma_first_snapshot(queue.frames, replacement_key(frame));
    lemma_first_snapshot(queue.frames, None);
    assert forall|i: int| 0 <= i < queue.frames.len() implies replacement_key(
        #[trigger] queue.frames[i],
    ) is None by {
        assert(!is_snapshot(queue.frames[i], None));
    }
}

/// No two frames are snapshots of the same kind.
pub open spec fn one_of_each_kind(frames: Seq<Seq<u8>>) -> bool {
    forall|i: int, j: int|
        0 <= i < j < frames.len() && replacement_key(#[trigger] frames[i]) is Some
            ==> replacement_key(frames[i]) != replacement_key(#[trigger] frames[j])
}

/// Of each kind of snapshot, at most one is queued.
pub proof fn law_one_snapshot_of_each_kind(queue: ReliableView, frame: Seq<u8>)
    requires
        one_of_each_kind(queue.frames),
    ensures
        one_of_each_kind(after_offer(queue, frame).frames),
{
    let key = replacement_key(frame);
    lemma_first_snapshot(queue.frames, key);
    lemma_first_snapshot(queue.frames, None);
    let kept = with_room_for(queue, frame);
    let at = if key is Some && first_snapshot(queue.frames, key) < queue.frames.len() {
        first_snapshot(queue.frames, key) as int
    } else {
        first_snapshot(queue.frames, None) as int
    };
    assert forall|i: int| 0 <= i < kept.len() && key is Some implies replacement_key(
        #[trigger] kept[i],
    ) != key by {
        if kept.len() < queue.frames.len() {
            let original = if i < at {
                i
            } else {
                i + 1
            };
            assert(kept[i] == queue.frames[original]);
            if first_snapshot(queue.frames, key) < queue.frames.len() {
                assert(is_snapshot(queue.frames[at], key));
            }
        } else {
            assert(!is_snapshot(queue.frames[i], key));
        }
    }
    assert(one_of_each_kind(kept)) by {
        if kept.len() < queue.frames.len() {
            assert forall|i: int, j: int|
                0 <= i < j < kept.len() && replacement_key(
                    #[trigger] kept[i],
                ) is Some implies replacement_key(kept[i]) != replacement_key(#[trigger] kept[j]) by {
                let first = if i < at {
                    i
                } else {
                    i + 1
                };
                let second = if j < at {
                    j
                } else {
                    j + 1
                };
                assert(kept[i] == queue.frames[first]);
                assert(kept[j] == queue.frames[second]);
            }
        }
    }
}

/// All frames are transitions, and there is no room for another frame.
pub open spec fn full_of_transitions(queue: ReliableView) -> bool {
    queue.frames.len() == queue.capacity && forall|i: int|
        0 <= i < queue.frames.len() ==> replacement_key(#[trigger] queue.frames[i]) is None
}

/// What a frame that is offered comes to, as long as there is a lane: it is queued
/// behind all others, unless the queue is full of transitions. In that case, and
/// in no other, a transition waits and a snapshot is discarded. The queue stays
/// within its capacity, keeps its transitions, and holds one snapshot of each
/// kind. Without a lane nothing is queued.
pub proof fn law_what_an_offer_comes_to(queue: ReliableView, frame: Seq<u8>)
    requires
        queue.capacity > 0,
        queue.frames.len() <= queue.capacity,
        one_of_each_kind(queue.frames),
    ensures
        ({
            let after = after_offer(queue, frame);
            let room = with_room_for(queue, frame).len() < queue.capacity;
            &&& room <==> !full_of_transitions(queue)
            &&& room && !queue.consumer_closed ==> after.frames.len() > 0 && after.frames.last()
                == frame
            &&& !room || queue.consumer_closed ==> after == queue
            &&& after.frames.len() <= after.capacity
            &&& after.capacity == queue.capacity
            &&& one_of_each_kind(after.frames)
            &&& after.frames.filter(transition()) == (if room && !queue.consumer_closed
                && replacement_key(frame) is None {
                queue.frames.filter(transition()).push(frame)
            } else {
                queue.frames.filter(transition())
            })
        }),
{
    let key = replacement_key(frame);
    lemma_first_snapshot(queue.frames, key);
    lemma_first_snapshot(queue.frames, None);
    law_one_snapshot_of_each_kind(queue, frame);
    law_transitions_keep_their_order(queue, frame);
    if with_room_for(queue, frame).len() >= queue.capacity {
        law_only_transitions_make_a_frame_wait(queue, frame);
    }
    if full_of_transitions(queue) {
        assert forall|i: int| 0 <= i < queue.frames.len() implies !is_snapshot(
            #[trigger] queue.frames[i],
            None,
        ) && !is_snapshot(queue.frames[i], key) by {}
        assert(with_room_for(queue, frame) == queue.frames);
    }
    if !queue.consumer_closed && with_room_for(queue, frame).len() < queue.capacity {
        let kept = with_room_for(queue, frame);
        lemma_transitions_survive(queue.frames, key);
        lemma_transitions_survive(queue.frames, None);
        crate::seqs::lemma_filter_push(kept, transition(), frame);
    }
}

/// What happens to the queue.
pub enum ReliableEvent {
    Offered(Seq<u8>),
    /// The lane takes the next frame, if one waits.
    Taken,
}

/// The queue, what left it for the lane, and the transitions that were queued.
pub struct ReliableRun {
    pub queue: ReliableView,
    pub taken: Seq<Seq<u8>>,
    pub queued: Seq<Seq<u8>>,
}

/// A new queue after events, one behind the other.
pub open spec fn reliable_run(capacity: nat, events: Seq<ReliableEvent>) -> ReliableRun
    decreases events.len(),
{
    if events.len() == 0 {
        ReliableRun {
            queue: ReliableView {
                frames: Seq::empty(),
                producer_closed: false,
                consumer_closed: false,
                capacity,
            },
            taken: Seq::empty(),
            queued: Seq::empty(),
        }
    } else {
        let run = reliable_run(capacity, events.drop_last());
        match events.last() {
            ReliableEvent::Offered(frame) => ReliableRun {
                queue: after_offer(run.queue, frame),
                queued: if replacement_key(frame) is None && with_room_for(run.queue, frame).len()
                    < capacity {
                    run.queued.push(frame)
                } else {
                    run.queued
                },
                ..run
            },
            ReliableEvent::Taken => if run.queue.frames.len() > 0 {
                ReliableRun {
                    queue: ReliableView { frames: run.queue.frames.skip(1), ..run.queue },
                    taken: run.taken.push(run.queue.frames[0]),
                    ..run
                }
            } else {
                run
            },
        }
    }
}

/// Over any run, every transition that was queued goes to the lane or still
/// waits, once and in its order. The queue stays within its capacity, with one
/// snapshot of each kind.
pub proof fn law_transitions_arrive_in_order(capacity: nat, events: Seq<ReliableEvent>)
    requires
        capacity > 0,
    ensures
        ({
            let run = reliable_run(capacity, events);
            &&& (run.taken + run.queue.frames).filter(transition()) == run.queued
            &&& run.queue.frames.len() <= capacity
            &&& one_of_each_kind(run.queue.frames)
            &&& !run.queue.consumer_closed
            &&& run.queue.capacity == capacity
        }),
    decreases events.len(),
{
    let run = reliable_run(capacity, events);
    if events.len() == 0 {
        reveal(Seq::filter);
        assert((run.taken + run.queue.frames).filter(transition()) =~= run.queued);
    } else {
        let before = reliable_run(capacity, events.drop_last());
        law_transitions_arrive_in_order(capacity, events.drop_last());
        match events.last() {
            ReliableEvent::Offered(frame) => {
                law_what_an_offer_comes_to(before.queue, frame);
                Seq::filter_distributes_over_add(before.taken, before.queue.frames, transition());
                Seq::filter_distributes_over_add(run.taken, run.queue.frames, transition());
                let left = run.taken.filter(transition());
                let held = before.queue.frames.filter(transition());
                assert((left + held).push(frame) =~= left + held.push(frame));
            },
            ReliableEvent::Taken => {
                let frames = before.queue.frames;
                if frames.len() > 0 {
                    assert(before.taken + frames =~= run.taken + run.queue.frames);
                    assert forall|i: int, j: int|
                        0 <= i < j < run.queue.frames.len() && replacement_key(
                            #[trigger] run.queue.frames[i],
                        ) is Some implies replacement_key(run.queue.frames[i]) != replacement_key(
                        #[trigger] run.queue.frames[j],
                    ) by {
                        assert(run.queue.frames[i] == frames[i + 1]);
                        assert(run.queue.frames[j] == frames[j + 1]);
                    }
                }
            },
        }
    }
}

/// What a snapshot is: a reading of statistics whose text begins with one of three
/// names and is as long as it says, or a round trip time of four bytes.
pub proof fn law_what_a_snapshot_is(frame: Seq<u8>)
    ensures
        ({
            let whole = frame.len() >= 3 && frame[0] == 1 && frame.len() - 3 == frame[1] * 256
                + frame[2];
            &&& whole && begins_with(frame.skip(3), "{\"Video\":"@) ==> replacement_key(frame)
                == Some(ReliableReplacementKey::StatsVideo)
            &&& whole && begins_with(frame.skip(3), "{\"Rtt\":"@) ==> replacement_key(frame)
                == Some(ReliableReplacementKey::StatsRtt)
            &&& whole && begins_with(frame.skip(3), "{\"BrowserRtt\":"@) ==> replacement_key(frame)
                == Some(ReliableReplacementKey::StatsBrowserRtt)
            &&& replacement_key(frame) == Some(ReliableReplacementKey::Rtt) <==> frame.len() == 4
                && frame[0] == 26 && frame[1] == 0
            &&& replacement_key(frame) is Some && frame[0] != 26 ==> whole
        }),
{
    reveal_strlit("{\"Video\":");
    reveal_strlit("{\"Rtt\":");
    reveal_strlit("{\"BrowserRtt\":");
    let json = frame.skip(3);
    if frame.len() >= 3 {
        crate::wire::law_highest_byte_comes_first(frame.subrange(1, 3));
    }
    if begins_with(json, "{\"Video\":"@) {
        assert forall|i: int| 0 <= i < 9 implies json[i] == video_tag()[i] by {
            assert(json[i] as int == "{\"Video\":"@[i] as int);
        }
        assert(json.take(9) =~= video_tag());
    }
    if begins_with(json, "{\"Rtt\":"@) {
        assert forall|i: int| 0 <= i < 7 implies json[i] == rtt_tag()[i] by {
            assert(json[i] as int == "{\"Rtt\":"@[i] as int);
        }
        assert(json.take(7) =~= rtt_tag());
        assert(json[2] == 0x52);
        if json.len() >= 9 {
            assert(json.take(9)[2] == json[2]);
        }
    }
    if begins_with(json, "{\"BrowserRtt\":"@) {
        assert forall|i: int| 0 <= i < 14 implies json[i] == browser_rtt_tag()[i] by {
            assert(json[i] as int == "{\"BrowserRtt\":"@[i] as int);
        }
        assert(json.take(14) =~= browser_rtt_tag());
        assert(json[2] == 0x42);
        assert(json.take(9)[2] == json[2]);
        assert(json.take(7)[2] == json[2]);
    }
}

/// The bytes begin with this text, one byte for a character.
pub open spec fn begins_with(bytes: Seq<u8>, text: Seq<char>) -> bool {
    &&& bytes.len() >= text.len()
    &&& forall|i: int| 0 <= i < text.len() ==> bytes[i] as int == (#[trigger] text[i]) as int
}

/// How room is made. A snapshot takes the place of the one of its kind; a full queue
/// gives up its oldest snapshot; and otherwise nothing leaves. The new frame comes last.
pub proof fn law_how_room_is_made(queue: ReliableView, frame: Seq<u8>, at: int)
    requires
        !queue.consumer_closed,
        0 <= at < queue.frames.len() <= queue.capacity,
    ensures
        ({
            let after = after_offer(queue, frame).frames;
            let key = replacement_key(frame);
            let same = key is Some && replacement_key(queue.frames[at]) == key && forall|i: int|
                0 <= i < at ==> replacement_key(#[trigger] queue.frames[i]) != key;
            let none = forall|i: int|
                0 <= i < queue.frames.len() ==> key is None || replacement_key(
                    #[trigger] queue.frames[i],
                ) != key;
            let oldest = replacement_key(queue.frames[at]) is Some && forall|i: int|
                0 <= i < at ==> replacement_key(#[trigger] queue.frames[i]) is None;
            &&& same ==> after == queue.frames.remove(at).push(frame)
            &&& none && oldest && queue.frames.len() == queue.capacity ==> after
                == queue.frames.remove(at).push(frame)
            &&& none && queue.frames.len() < queue.capacity ==> after == queue.frames.push(frame)
        }),
{
    let key = replacement_key(frame);
    lemma_first_snapshot(queue.frames, key);
    lemma_first_snapshot(queue.frames, None);
}

/// What an offer is answered: a frame that has no room is given back where it must not
/// be lost, and dropped where the next one makes up for it. Nobody reads a closed queue.
pub proof fn law_how_offers_are_answered(
    queue: &mut ReliableOutboundQueue,
    frame: Vec<u8>,
    offered: Offered,
)
    requires
        call_ensures(ReliableOutboundQueue::offer, (queue, frame), offered),
    ensures
        offered is Closed <==> old(queue)@.consumer_closed,
        offered is Queued ==> final(queue)@.frames.len() > 0 && final(queue)@.frames.last()
            == frame@,
        offered is Discarded ==> replacement_key(frame@) is Some,
        offered matches Offered::Wait(back) ==> back == frame && replacement_key(frame@) is None,
        !(offered is Queued) ==> final(queue)@ == old(queue)@,
        offered is Queued <==> !old(queue)@.consumer_closed && with_room_for(
            old(queue)@,
            frame@,
        ).len() < old(queue)@.capacity,
{
}

/// A reader takes the oldest frame, waits while there is none, and is done once no more
/// can come. When it goes, all that waits goes with it.
pub proof fn law_frames_are_read_in_order(
    queue: &mut ReliableOutboundQueue,
    closing: &mut ReliableOutboundQueue,
    next: NextFrame,
)
    requires
        call_ensures(ReliableOutboundQueue::next, (queue,), next),
        call_ensures(ReliableOutboundQueue::close_consumer, (closing,), ()),
    ensures
        next is Frame <==> old(queue)@.frames.len() > 0,
        next matches NextFrame::Frame(bytes) ==> bytes@ == old(queue)@.frames[0]
            && final(queue)@.frames == old(queue)@.frames.skip(1),
        next is Closed <==> old(queue)@.frames.len() == 0 && old(queue)@.producer_closed,
        !(next is Frame) ==> final(queue)@ == old(queue)@,
        final(closing)@.consumer_closed && final(closing)@.frames.len() == 0,
{
}

} // verus!

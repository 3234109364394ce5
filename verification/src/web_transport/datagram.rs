//! Input that travels in datagrams, which may be lost or overtake each other.
//!
//! Mouse motion is sent as a running sum, so that a later datagram makes up for
//! a lost one. Snapshots, such as the state of a controller, replace the one
//! before them. A reconnect of the browser starts a new epoch.

use crate::channel::{carries_snapshots, is_snapshot_channel, MOUSE_RELATIVE};
use crate::wire::{be_bytes, be_value, push_u16, read_u16, read_u32, slice_of};
use std::collections::HashMap;
use vstd::prelude::*;

verus! {

broadcast use vstd::std_specs::hash::group_hash_axioms;

pub const DATAGRAM_MAGIC: u8 = 0xf0;

pub const DATAGRAM_RELATIVE_MOTION: u8 = 0;

pub const DATAGRAM_HIGH_RES_SCROLL: u8 = 1;

pub const DATAGRAM_SNAPSHOT: u8 = 2;

pub const MAX_DATAGRAM_BYTES: usize = 65_536;

/// How many packets one motion may be split into.
pub const MAX_SPLIT_PACKETS: usize = 64;

pub open spec fn newer_u32(current: u32, previous: u32) -> bool {
    let distance = (current - previous) % 0x1_0000_0000;
    0 < distance < 0x8000_0000
}

pub open spec fn newer_u16(current: u16, previous: u16) -> bool {
    let distance = (current - previous) % 0x1_0000;
    0 < distance < 0x8000
}

/// Whether a number follows another, on a circle of 32 bits.
pub fn is_newer_u32(current: u32, previous: u32) -> (newer: bool)
    ensures
        newer == newer_u32(current, previous),
{
    let distance: u32 = current.wrapping_sub(previous);
    distance != 0 && distance < 0x8000_0000
}

/// Whether a number follows another, on a circle of 16 bits.
pub fn is_newer_u16(current: u16, previous: u16) -> (newer: bool)
    ensures
        newer == newer_u16(current, previous),
{
    let distance: u16 = current.wrapping_sub(previous);
    distance != 0 && distance < 0x8000
}

/// A running sum at one moment.
#[derive(Clone, Copy, Debug, PartialEq, Eq, Structural)]
pub struct CumulativePoint {
    pub epoch: u16,
    pub sequence: u32,
    pub x: i32,
    pub y: i32,
}

#[derive(Clone, Copy, Debug, PartialEq, Eq, Structural)]
pub struct SequencePoint {
    pub epoch: u16,
    pub sequence: u32,
}

/// Later in the same epoch, or in a later epoch.
pub open spec fn follows(
    epoch: u16,
    sequence: u32,
    previous_epoch: u16,
    previous_sequence: u32,
) -> bool {
    if epoch == previous_epoch {
        newer_u32(sequence, previous_sequence)
    } else {
        newer_u16(epoch, previous_epoch)
    }
}

/// The motion since `previous`: the growth of the sums within an epoch, all of
/// them where a new epoch began. Nothing, where the point is no newer.
pub open spec fn motion_since(
    previous: Option<CumulativePoint>,
    current: CumulativePoint,
) -> Option<(i32, i32)> {
    match previous {
        None => Some((current.x, current.y)),
        Some(old) => if !follows(current.epoch, current.sequence, old.epoch, old.sequence) {
            None
        } else if current.epoch == old.epoch {
            Some((current.x.wrapping_sub(old.x), current.y.wrapping_sub(old.y)))
        } else {
            Some((current.x, current.y))
        },
    }
}

pub fn advance_cumulative(
    previous: &mut Option<CumulativePoint>,
    current: CumulativePoint,
) -> (delta: Option<(i32, i32)>)
    ensures
        delta == motion_since(*old(previous), current),
        *final(previous) == (if delta is Some {
            Some(current)
        } else {
            *old(previous)
        }),
{
    let delta: (i32, i32) = match *previous {
        None => (current.x, current.y),
        Some(old) => if current.epoch == old.epoch {
            if !is_newer_u32(current.sequence, old.sequence) {
                return None;
            }
            (current.x.wrapping_sub(old.x), current.y.wrapping_sub(old.y))
        } else {
            if !is_newer_u16(current.epoch, old.epoch) {
                return None;
            }
            (current.x, current.y)
        },
    };
    *previous = Some(current);
    Some(delta)
}

pub fn advance_sequence(previous: &mut SequencePoint, current: SequencePoint) -> (advanced: bool)
    ensures
        advanced == follows(
            current.epoch,
            current.sequence,
            old(previous).epoch,
            old(previous).sequence,
        ),
        *final(previous) == (if advanced {
            current
        } else {
            *old(previous)
        }),
{
    if previous.epoch == current.epoch {
        if !is_newer_u32(current.sequence, previous.sequence) {
            return false;
        }
    } else if !is_newer_u16(current.epoch, previous.epoch) {
        return false;
    }
    *previous = current;
    true
}

/// The nearest number to `value` that fits in 16 bits.
pub open spec fn clamp16(value: int) -> int {
    if value < i16::MIN {
        i16::MIN as int
    } else if value > i16::MAX {
        i16::MAX as int
    } else {
        value
    }
}

/// The nearest motion that [`MAX_SPLIT_PACKETS`] packets can carry.
pub open spec fn clamp_motion(value: int) -> int {
    if value < i16::MIN * MAX_SPLIT_PACKETS {
        i16::MIN * MAX_SPLIT_PACKETS
    } else if value > i16::MAX * MAX_SPLIT_PACKETS {
        i16::MAX * MAX_SPLIT_PACKETS
    } else {
        value
    }
}

/// A motion in at most `count` steps of 16 bits each.
pub open spec fn steps(x: int, y: int, count: nat) -> Seq<(i16, i16)>
    decreases count,
{
    if (x == 0 && y == 0) || count == 0 {
        Seq::empty()
    } else {
        seq![(clamp16(x) as i16, clamp16(y) as i16)] + steps(
            x - clamp16(x),
            y - clamp16(y),
            (count - 1) as nat,
        )
    }
}

/// A motion packet: channel, kind, and the two distances in two bytes each.
pub open spec fn motion_packet(packet_type: u8, step: (i16, i16)) -> Seq<u8> {
    seq![MOUSE_RELATIVE, packet_type] + be_bytes((step.0 as u16) as nat, 2) + be_bytes(
        (step.1 as u16) as nat,
        2,
    )
}

/// The packets for a motion.
pub open spec fn motion_packets(packet_type: u8, delta_x: i32, delta_y: i32) -> Seq<Seq<u8>> {
    steps(
        clamp_motion(delta_x as int),
        clamp_motion(delta_y as int),
        MAX_SPLIT_PACKETS as nat,
    ).map_values(|step: (i16, i16)| motion_packet(packet_type, step))
}

/// The contents of some frames.
pub open spec fn contents(frames: Seq<Vec<u8>>) -> Seq<Seq<u8>> {
    frames.map_values(|frame: Vec<u8>| frame@)
}

fn clamp_to_i16(value: i32) -> (clamped: i16)
    ensures
        clamped == clamp16(value as int),
{
    if value < -32_768 {
        -32_768
    } else if value > 32_767 {
        32_767
    } else {
        value as i16
    }
}

fn clamp_to_motion(value: i32) -> (clamped: i32)
    ensures
        clamped == clamp_motion(value as int),
{
    if value < -32_768 * 64 {
        -32_768 * 64
    } else if value > 32_767 * 64 {
        32_767 * 64
    } else {
        value
    }
}

/// Splits a motion into packets that each fit their fields.
pub fn split_mouse_delta(packet_type: u8, delta_x: i32, delta_y: i32) -> (frames: Vec<Vec<u8>>)
    ensures
        contents(frames@) == motion_packets(packet_type, delta_x, delta_y),
{
    let mut remaining_x: i32 = clamp_to_motion(delta_x);
    let mut remaining_y: i32 = clamp_to_motion(delta_y);
    let mut frames: Vec<Vec<u8>> = Vec::new();
    let ghost packet = |step: (i16, i16)| motion_packet(packet_type, step);
    let ghost all = steps(remaining_x as int, remaining_y as int, MAX_SPLIT_PACKETS as nat);
    let mut count: usize = 0;
    assert(contents(frames@) + all.map_values(packet) =~= all.map_values(packet));
    while (remaining_x != 0 || remaining_y != 0) && count < MAX_SPLIT_PACKETS
        invariant
            count <= MAX_SPLIT_PACKETS,
            packet == (|step: (i16, i16)| motion_packet(packet_type, step)),
            all.map_values(packet) == contents(frames@) + steps(
                remaining_x as int,
                remaining_y as int,
                (MAX_SPLIT_PACKETS - count) as nat,
            ).map_values(packet),
        decreases MAX_SPLIT_PACKETS - count,
    {
        let x: i16 = clamp_to_i16(remaining_x);
        let y: i16 = clamp_to_i16(remaining_y);
        let mut frame: Vec<u8> = Vec::new();
        frame.push(MOUSE_RELATIVE);
        frame.push(packet_type);
        push_u16(&mut frame, x as u16);
        push_u16(&mut frame, y as u16);
        let ghost left = steps(
            remaining_x - x,
            remaining_y - y,
            (MAX_SPLIT_PACKETS - count - 1) as nat,
        );
        proof {
            assert(frame@ =~= motion_packet(packet_type, (x, y)));
            let now = steps(
                remaining_x as int,
                remaining_y as int,
                (MAX_SPLIT_PACKETS - count) as nat,
            );
            assert(now =~= seq![(x, y)] + left);
            assert(now.map_values(packet) =~= seq![frame@] + left.map_values(packet));
        }
        let ghost before = frames@;
        frames.push(frame);
        assert(contents(frames@) =~= contents(before).push(frame@));
        remaining_x = remaining_x - x as i32;
        remaining_y = remaining_y - y as i32;
        count = count + 1;
        assert(all.map_values(packet) =~= contents(frames@) + left.map_values(packet));
    }
    assert(steps(
        remaining_x as int,
        remaining_y as int,
        (MAX_SPLIT_PACKETS - count) as nat,
    ).map_values(packet) =~= Seq::<Seq<u8>>::empty());
    assert(contents(frames@) =~= all.map_values(packet));
    frames
}

/// What was seen of each kind of datagram.
#[derive(Debug)]
pub struct DatagramState {
    pub relative: Option<CumulativePoint>,
    pub scroll: Option<CumulativePoint>,
    pub snapshots: HashMap<u8, SequencePoint>,
}

/// [`DatagramState`] as a mathematical value.
#[verifier::ext_equal]
pub struct Seen {
    pub relative: Option<CumulativePoint>,
    pub scroll: Option<CumulativePoint>,
    pub snapshots: Map<u8, SequencePoint>,
}

impl View for DatagramState {
    type V = Seen;

    open spec fn view(&self) -> Seen {
        Seen { relative: self.relative, scroll: self.scroll, snapshots: self.snapshots@ }
    }
}

/// The frames in a datagram, and what was seen with it.
pub struct Decoded {
    pub frames: Seq<Seq<u8>>,
    pub seen: Seen,
}

/// The running sum in a motion datagram.
pub open spec fn point_in(bytes: Seq<u8>) -> CumulativePoint {
    CumulativePoint {
        epoch: be_value(bytes.subrange(2, 4)) as u16,
        sequence: be_value(bytes.subrange(4, 8)) as u32,
        x: (be_value(bytes.subrange(8, 12)) as u32) as i32,
        y: (be_value(bytes.subrange(12, 16)) as u32) as i32,
    }
}

/// The number of a snapshot datagram.
pub open spec fn snapshot_point_in(bytes: Seq<u8>) -> SequencePoint {
    SequencePoint {
        epoch: be_value(bytes.subrange(3, 5)) as u16,
        sequence: be_value(bytes.subrange(5, 9)) as u32,
    }
}

/// What a datagram means, given what was seen. It means nothing where it is
/// malformed, or no newer than what was seen.
pub open spec fn decoded(seen: Seen, bytes: Seq<u8>) -> Option<Decoded> {
    if bytes.len() < 2 || bytes[0] != DATAGRAM_MAGIC {
        None
    } else if bytes[1] == DATAGRAM_RELATIVE_MOTION && bytes.len() == 16 {
        match motion_since(seen.relative, point_in(bytes)) {
            Some(delta) => Some(
                Decoded {
                    frames: motion_packets(0, delta.0, delta.1),
                    seen: Seen { relative: Some(point_in(bytes)), ..seen },
                },
            ),
            None => None,
        }
    } else if bytes[1] == DATAGRAM_HIGH_RES_SCROLL && bytes.len() == 16 {
        match motion_since(seen.scroll, point_in(bytes)) {
            Some(delta) => Some(
                Decoded {
                    frames: motion_packets(3, delta.0, delta.1),
                    seen: Seen { scroll: Some(point_in(bytes)), ..seen },
                },
            ),
            None => None,
        }
    } else if bytes[1] == DATAGRAM_SNAPSHOT && bytes.len() >= 10 && carries_snapshots(bytes[2]) {
        let point = snapshot_point_in(bytes);
        let known = seen.snapshots.contains_key(bytes[2]);
        let last = seen.snapshots[bytes[2]];
        if known && !follows(point.epoch, point.sequence, last.epoch, last.sequence) {
            None
        } else {
            Some(
                Decoded {
                    frames: seq![seq![bytes[2]] + bytes.skip(9)],
                    seen: Seen { snapshots: seen.snapshots.insert(bytes[2], point), ..seen },
                },
            )
        }
    } else {
        None
    }
}

/// The start of a snapshot datagram, which may also come on the reliable lane.
pub open spec fn snapshot_envelope(bytes: Seq<u8>) -> bool {
    bytes.len() >= 2 && bytes[0] == DATAGRAM_MAGIC && bytes[1] == DATAGRAM_SNAPSHOT
}

pub fn is_snapshot_envelope(bytes: &[u8]) -> (envelope: bool)
    ensures
        envelope == snapshot_envelope(bytes@),
{
    bytes.len() >= 2 && bytes[0] == DATAGRAM_MAGIC && bytes[1] == DATAGRAM_SNAPSHOT
}

impl Default for DatagramState {
    fn default() -> (state: Self)
        ensures
            state@ == (Seen { relative: None, scroll: None, snapshots: Map::empty() }),
    {
        DatagramState { relative: None, scroll: None, snapshots: HashMap::new() }
    }
}

impl DatagramState {
    /// The frames that a datagram stands for.
    pub fn decode(&mut self, bytes: &[u8]) -> (frames: Option<Vec<Vec<u8>>>)
        ensures
            match decoded(old(self)@, bytes@) {
                Some(result) => frames is Some && contents(frames->0@) == result.frames && final(self)@ == result.seen,
                None => frames is None && final(self)@ == old(self)@,
            },
    {
        if bytes.len() < 2 || bytes[0] != DATAGRAM_MAGIC {
            return None;
        }
        let kind: u8 = bytes[1];
        if (kind == DATAGRAM_RELATIVE_MOTION || kind == DATAGRAM_HIGH_RES_SCROLL) && bytes.len()
            == 16 {
            let point = CumulativePoint {
                epoch: read_u16(bytes, 2),
                sequence: read_u32(bytes, 4),
                x: read_u32(bytes, 8) as i32,
                y: read_u32(bytes, 12) as i32,
            };
            assert(point == point_in(bytes@));
            if kind == DATAGRAM_RELATIVE_MOTION {
                match advance_cumulative(&mut self.relative, point) {
                    Some((delta_x, delta_y)) => Some(split_mouse_delta(0, delta_x, delta_y)),
                    None => None,
                }
            } else {
                match advance_cumulative(&mut self.scroll, point) {
                    Some((delta_x, delta_y)) => Some(split_mouse_delta(3, delta_x, delta_y)),
                    None => None,
                }
            }
        } else if kind == DATAGRAM_SNAPSHOT && bytes.len() >= 10 {
            let channel: u8 = bytes[2];
            if !is_snapshot_channel(channel) {
                return None;
            }
            let point = SequencePoint { epoch: read_u16(bytes, 3), sequence: read_u32(bytes, 5) };
            let last: Option<SequencePoint> = match self.snapshots.get(&channel) {
                Some(last) => Some(*last),
                None => None,
            };
            if let Some(last) = last {
                let mut last: SequencePoint = last;
                if !advance_sequence(&mut last, point) {
                    return None;
                }
            }
            self.snapshots.insert(channel, point);
            let mut frame: Vec<u8> = Vec::new();
            frame.push(channel);
            let payload: Vec<u8> = slice_of(bytes, 9, bytes.len());
            frame.extend_from_slice(payload.as_slice());
            let mut frames: Vec<Vec<u8>> = Vec::new();
            frames.push(frame);
            proof {
                assert(frame@ =~= seq![bytes@[2]] + bytes@.skip(9));
                assert(contents(frames@) =~= seq![seq![bytes@[2]] + bytes@.skip(9)]);
            }
            Some(frames)
        } else {
            None
        }
    }

    /// Takes a datagram while there is room for `room` frames. Where its frames
    /// find no room, it counts as lost, so that the next running sum makes up
    /// for it.
    pub fn receive(&mut self, bytes: &[u8], room: usize) -> (frames: Vec<Vec<u8>>)
        ensures
            ({
                let result = decoded(old(self)@, bytes@);
                if bytes@.len() <= MAX_DATAGRAM_BYTES && result is Some && result->0.frames.len()
                    <= room {
                    contents(frames@) == result->0.frames && final(self)@ == result->0.seen
                } else {
                    frames@.len() == 0 && final(self)@ == old(self)@
                }
            }),
    {
        if bytes.len() > MAX_DATAGRAM_BYTES {
            return Vec::new();
        }
        let relative = self.relative;
        let scroll = self.scroll;
        let snapshots: HashMap<u8, SequencePoint> = self.snapshots.clone();
        match self.decode(bytes) {
            Some(frames) => {
                assert(contents(frames@).len() == frames@.len());
                if frames.len() <= room {
                    frames
                } else {
                    self.relative = relative;
                    self.scroll = scroll;
                    self.snapshots = snapshots;
                    assert(self@ =~= old(self)@);
                    Vec::new()
                }
            },
            None => Vec::new(),
        }
    }

    /// Takes a frame of the reliable lane. A snapshot that a newer datagram
    /// overtook is dropped; any other frame passes as it is.
    pub fn receive_reliable(&mut self, frame: Vec<u8>) -> (delivered: Option<Vec<u8>>)
        ensures
            if snapshot_envelope(frame@) {
                match decoded(old(self)@, frame@) {
                    Some(result) => delivered is Some && seq![delivered->0@] == result.frames
                        && final(self)@ == result.seen,
                    None => delivered is None && final(self)@ == old(self)@,
                }
            } else {
                delivered == Some(frame) && final(self)@ == old(self)@
            },
    {
        if !is_snapshot_envelope(frame.as_slice()) {
            return Some(frame);
        }
        match self.decode(frame.as_slice()) {
            Some(frames) => {
                let mut frames: Vec<Vec<u8>> = frames;
                proof {
                    assert(contents(frames@).len() == 1);
                    assert(contents(frames@)[0] == frames@[0]@);
                    assert(seq![frames@[0]@] =~= contents(frames@));
                }
                Some(frames.remove(0))
            },
            None => None,
        }
    }
}

/// Of two numbers at most one is newer than the other, and none is newer than itself.
pub proof fn law_newer_is_one_way(a: u32, b: u32, c: u16, d: u16)
    ensures
        !(newer_u32(a, b) && newer_u32(b, a)),
        !newer_u32(a, a),
        !(newer_u16(c, d) && newer_u16(d, c)),
        !newer_u16(c, c),
{
}

/// The number after the largest one counts as newer.
pub proof fn law_wrapped_numbers_are_newer()
    ensures
        newer_u32(0, u32::MAX),
        newer_u16(0, u16::MAX),
{
}

pub open spec fn sum_x(packets: Seq<(i16, i16)>) -> int
    decreases packets.len(),
{
    if packets.len() == 0 {
        0
    } else {
        packets[0].0 + sum_x(packets.skip(1))
    }
}

pub open spec fn sum_y(packets: Seq<(i16, i16)>) -> int
    decreases packets.len(),
{
    if packets.len() == 0 {
        0
    } else {
        packets[0].1 + sum_y(packets.skip(1))
    }
}

/// The packets of a motion add up to the motion, as far as so many packets can carry it.
pub proof fn law_split_motion_adds_up(delta_x: i32, delta_y: i32)
    ensures
        ({
            let packets = steps(
                clamp_motion(delta_x as int),
                clamp_motion(delta_y as int),
                MAX_SPLIT_PACKETS as nat,
            );
            &&& packets.len() <= MAX_SPLIT_PACKETS
            &&& sum_x(packets) == clamp_motion(delta_x as int)
            &&& sum_y(packets) == clamp_motion(delta_y as int)
        }),
{
    lemma_steps_add_up(
        clamp_motion(delta_x as int),
        clamp_motion(delta_y as int),
        MAX_SPLIT_PACKETS as nat,
    );
}

proof fn lemma_steps_add_up(x: int, y: int, count: nat)
    requires
        i16::MIN * count <= x <= i16::MAX * count,
        i16::MIN * count <= y <= i16::MAX * count,
    ensures
        steps(x, y, count).len() <= count,
        sum_x(steps(x, y, count)) == x,
        sum_y(steps(x, y, count)) == y,
    decreases count,
{
    if !(x == 0 && y == 0) && count > 0 {
        let rest = (count - 1) as nat;
        assert(i16::MIN * count == i16::MIN * rest + i16::MIN) by (nonlinear_arith)
            requires
                count == rest + 1,
        ;
        assert(i16::MAX * count == i16::MAX * rest + i16::MAX) by (nonlinear_arith)
            requires
                count == rest + 1,
        ;
        assert(i16::MIN * rest <= 0 <= i16::MAX * rest) by (nonlinear_arith)
            requires
                rest >= 0,
        ;
        lemma_steps_add_up(x - clamp16(x), y - clamp16(y), rest);
        assert(steps(x, y, count).skip(1) =~= steps(x - clamp16(x), y - clamp16(y), rest));
    }
}

/// A motion that is lost is made up for: the packets of two points in a row add
/// up to what the later one alone would have given.
pub proof fn law_lost_motion_is_recovered(
    before: CumulativePoint,
    lost: CumulativePoint,
    after: CumulativePoint,
)
    requires
        before.epoch == lost.epoch,
        lost.epoch == after.epoch,
        follows(lost.epoch, lost.sequence, before.epoch, before.sequence),
        follows(after.epoch, after.sequence, lost.epoch, lost.sequence),
        follows(after.epoch, after.sequence, before.epoch, before.sequence),
    ensures
        ({
            let first = motion_since(Some(before), lost)->0;
            let second = motion_since(Some(lost), after)->0;
            let both = motion_since(Some(before), after)->0;
            &&& (first.0 + second.0 - both.0) % 0x1_0000_0000 == 0
            &&& (first.1 + second.1 - both.1) % 0x1_0000_0000 == 0
        }),
{
}

/// A motion datagram that comes twice moves nothing the second time.
pub proof fn law_repeated_datagram_is_ignored(seen: Seen, bytes: Seq<u8>)
    requires
        decoded(seen, bytes) is Some,
    ensures
        decoded(decoded(seen, bytes)->0.seen, bytes) is None,
{
}

/// The distances in a frame of motion, in two bytes each behind its two first ones.
pub open spec fn distances(frame: Seq<u8>) -> (int, int) {
    (
        signed16(frame[2] as int * 256 + frame[3] as int),
        signed16(frame[4] as int * 256 + frame[5] as int),
    )
}

/// A number of 16 bits in two's complement.
pub open spec fn signed16(n: int) -> int {
    if n >= 0x8000 {
        n - 0x1_0000
    } else {
        n
    }
}

/// How far frames of motion go altogether.
pub open spec fn total(frames: Seq<Seq<u8>>) -> (int, int)
    decreases frames.len(),
{
    if frames.len() == 0 {
        (0, 0)
    } else {
        let rest = total(frames.skip(1));
        (distances(frames[0]).0 + rest.0, distances(frames[0]).1 + rest.1)
    }
}

/// All frames are six bytes for the relative mouse, of this type.
pub open spec fn are_motions(frames: Seq<Seq<u8>>, packet_type: u8) -> bool {
    forall|i: int|
        0 <= i < frames.len() ==> (#[trigger] frames[i]).len() == 6 && frames[i][0] == 6
            && frames[i][1] == packet_type
}

/// What sixty-four steps of 16 bits can carry of a distance.
pub open spec fn carried(distance: int) -> int {
    if distance < -2_097_152 {
        -2_097_152
    } else if distance > 2_097_088 {
        2_097_088
    } else {
        distance
    }
}

proof fn lemma_motion_packet(packet_type: u8, step: (i16, i16))
    ensures
        motion_packet(packet_type, step).len() == 6,
        motion_packet(packet_type, step)[0] == 6,
        motion_packet(packet_type, step)[1] == packet_type,
        distances(motion_packet(packet_type, step)) == (step.0 as int, step.1 as int),
{
    reveal_with_fuel(be_bytes, 3);
    let x = step.0;
    let y = step.1;
    let a = x as u16;
    let b = y as u16;
    assert(x >= 0 ==> x as u16 == x) by (bit_vector);
    assert(x < 0 ==> x as u16 == x + 0x1_0000) by (bit_vector);
    assert(y >= 0 ==> y as u16 == y) by (bit_vector);
    assert(y < 0 ==> y as u16 == y + 0x1_0000) by (bit_vector);
    let first = be_bytes(a as nat, 2);
    let second = be_bytes(b as nat, 2);
    assert(first =~= seq![((a as nat) / 256 % 256) as u8, ((a as nat) % 256) as u8]);
    assert(second =~= seq![((b as nat) / 256 % 256) as u8, ((b as nat) % 256) as u8]);
    let frame = motion_packet(packet_type, step);
    assert(frame[2] == first[0] && frame[3] == first[1]);
    assert(frame[4] == second[0] && frame[5] == second[1]);
}

proof fn lemma_total(packet_type: u8, all: Seq<(i16, i16)>)
    ensures
        ({
            let frames = all.map_values(|step: (i16, i16)| motion_packet(packet_type, step));
            &&& are_motions(frames, packet_type)
            &&& total(frames) == (sum_x(all), sum_y(all))
            &&& frames.len() == all.len()
        }),
    decreases all.len(),
{
    let frames = all.map_values(|step: (i16, i16)| motion_packet(packet_type, step));
    assert forall|i: int| 0 <= i < frames.len() implies (#[trigger] frames[i]).len() == 6
        && frames[i][0] == 6 && frames[i][1] == packet_type by {
        lemma_motion_packet(packet_type, all[i]);
    }
    if all.len() > 0 {
        lemma_motion_packet(packet_type, all[0]);
        lemma_total(packet_type, all.skip(1));
        assert(frames.skip(1) =~= all.skip(1).map_values(
            |step: (i16, i16)| motion_packet(packet_type, step),
        ));
    }
}

/// The frames of a motion go as far as it does, as far as sixty-four of them can,
/// and a motion of nothing has none.
pub proof fn law_frames_go_as_far_as_the_motion(packet_type: u8, delta_x: i32, delta_y: i32)
    ensures
        ({
            let frames = motion_packets(packet_type, delta_x, delta_y);
            &&& are_motions(frames, packet_type)
            &&& total(frames) == (carried(delta_x as int), carried(delta_y as int))
            &&& frames.len() <= 64
            &&& delta_x == 0 && delta_y == 0 ==> frames.len() == 0
        }),
{
    law_split_motion_adds_up(delta_x, delta_y);
    lemma_total(
        packet_type,
        steps(
            clamp_motion(delta_x as int),
            clamp_motion(delta_y as int),
            MAX_SPLIT_PACKETS as nat,
        ),
    );
}

/// The number in the four bytes from `at` on.
pub open spec fn number_at(bytes: Seq<u8>, at: int) -> int {
    bytes[at] * 0x100_0000 + bytes[at + 1] * 0x1_0000 + bytes[at + 2] * 0x100 + bytes[at + 3]
}

/// A datagram with a running sum: the mark, the kind, an epoch of two bytes, a
/// sequence number and the two sums of four bytes each.
pub open spec fn is_motion_datagram(bytes: Seq<u8>, kind: u8) -> bool {
    bytes.len() == 16 && bytes[0] == 0xf0 && bytes[1] == kind
}

/// The datagram is newer than the point that was seen last: later in its epoch, or
/// of a later epoch. Both are counted on a circle, of which half lies ahead.
pub open spec fn overtakes(epoch: int, sequence: int, seen_epoch: int, seen_sequence: int) -> bool {
    if epoch == seen_epoch {
        0 < (sequence - seen_sequence) % 0x1_0000_0000 < 0x8000_0000
    } else {
        0 < (epoch - seen_epoch) % 0x1_0000 < 0x8000
    }
}

proof fn lemma_point_in(bytes: Seq<u8>)
    requires
        bytes.len() == 16,
    ensures
        point_in(bytes).epoch == bytes[2] * 256 + bytes[3],
        point_in(bytes).sequence == number_at(bytes, 4),
        point_in(bytes).x as u32 == number_at(bytes, 8),
        point_in(bytes).y as u32 == number_at(bytes, 12),
{
    lemma_number(bytes, 2, 2);
    lemma_number(bytes, 4, 4);
    lemma_number(bytes, 8, 4);
    lemma_number(bytes, 12, 4);
    let x = be_value(bytes.subrange(8, 12)) as u32;
    let y = be_value(bytes.subrange(12, 16)) as u32;
    assert((x as i32) as u32 == x) by (bit_vector);
    assert((y as i32) as u32 == y) by (bit_vector);
}

proof fn lemma_number(bytes: Seq<u8>, at: int, count: nat)
    requires
        0 <= at,
        at + count <= bytes.len(),
        count == 2 || count == 4,
    ensures
        count == 2 ==> be_value(bytes.subrange(at, at + count)) == bytes[at] * 256 + bytes[at + 1],
        count == 4 ==> be_value(bytes.subrange(at, at + count)) == number_at(bytes, at),
{
    reveal_with_fuel(be_value, 5);
    let part = bytes.subrange(at, at + count);
    if count == 2 {
        assert(part.drop_last().drop_last() =~= Seq::<u8>::empty());
    } else {
        assert(part.drop_last().drop_last().drop_last().drop_last() =~= Seq::<u8>::empty());
    }
}

/// The two numbers differ by as much as the wrapped difference says, on a circle
/// of 32 bits.
proof fn lemma_wrapped(new: i32, old: i32)
    ensures
        ((new as u32) - (old as u32) - new.wrapping_sub(old)) % 0x1_0000_0000 == 0,
{
    assert(new >= 0 ==> new as u32 == new) by (bit_vector);
    assert(new < 0 ==> new as u32 == new + 0x1_0000_0000) by (bit_vector);
    assert(old >= 0 ==> old as u32 == old) by (bit_vector);
    assert(old < 0 ==> old as u32 == old + 0x1_0000_0000) by (bit_vector);
}

/// What a datagram of mouse motion (kind 0) is read as: frames that the host reads
/// as motion (type 0), which go as far as the running sums grew since the last
/// such datagram, or as far as the sums themselves where there was none, or one of
/// an earlier epoch. A datagram that was overtaken is read as nothing. High
/// resolution scrolling (kind 1) is read alike, as frames of type 3, and neither
/// has a say in the other.
pub proof fn law_motion_datagrams_move_by_the_growth(seen: Seen, bytes: Seq<u8>, kind: u8)
    requires
        kind == 0 || kind == 1,
        is_motion_datagram(bytes, kind),
    ensures
        ({
            let last = if kind == 0 {
                seen.relative
            } else {
                seen.scroll
            };
            let epoch = bytes[2] * 256 + bytes[3];
            let sequence = number_at(bytes, 4);
            let newer = last matches Some(old) ==> overtakes(
                epoch,
                sequence,
                old.epoch as int,
                old.sequence as int,
            );
            &&& decoded(seen, bytes) is Some <==> newer
            &&& decoded(seen, bytes) matches Some(result) ==> {
                let noted = if kind == 0 {
                    result.seen.relative
                } else {
                    result.seen.scroll
                };
                let grown = if last is Some && last->0.epoch == epoch {
                    (last->0.x as u32 as int, last->0.y as u32 as int)
                } else {
                    (0, 0)
                };
                &&& are_motions(
                    result.frames,
                    if kind == 0 {
                        0
                    } else {
                        3
                    },
                )
                &&& exists|x: i32, y: i32|
                    #![trigger carried(x as int), carried(y as int)]
                    total(result.frames) == (carried(x as int), carried(y as int)) && (number_at(
                        bytes,
                        8,
                    ) - grown.0 - x) % 0x1_0000_0000 == 0 && (number_at(bytes, 12) - grown.1 - y)
                        % 0x1_0000_0000 == 0
                &&& noted matches Some(point) && point.epoch == epoch && point.sequence
                    == sequence && point.x as u32 == number_at(bytes, 8) && point.y as u32
                    == number_at(bytes, 12)
                &&& result.seen.snapshots == seen.snapshots
                &&& kind == 0 ==> result.seen.scroll == seen.scroll
                &&& kind == 1 ==> result.seen.relative == seen.relative
            }
        }),
{
    lemma_point_in(bytes);
    let last = if kind == 0 {
        seen.relative
    } else {
        seen.scroll
    };
    let point = point_in(bytes);
    if let Some(delta) = motion_since(last, point) {
        let packet_type: u8 = if kind == 0 {
            0
        } else {
            3
        };
        law_frames_go_as_far_as_the_motion(packet_type, delta.0, delta.1);
        if last is Some {
            lemma_wrapped(point.x, last->0.x);
            lemma_wrapped(point.y, last->0.y);
        }
        lemma_wrapped(point.x, 0);
        lemma_wrapped(point.y, 0);
        assert(total(decoded(seen, bytes)->0.frames) == (
            carried(delta.0 as int),
            carried(delta.1 as int),
        ));
    }
}

/// A snapshot datagram (kind 2) carries a frame of the pointer's position or of
/// the state of one controller, behind a number of its own for each channel. The
/// frame comes out as it went in, unless a newer one of its channel came before
/// it. Nothing else is a snapshot, and other channels have no say.
pub proof fn law_snapshots_come_out_as_they_went_in(seen: Seen, bytes: Seq<u8>)
    requires
        bytes.len() >= 10,
        bytes[0] == 0xf0,
        bytes[1] == 2,
    ensures
        ({
            let channel = bytes[2];
            let epoch = bytes[3] * 256 + bytes[4];
            let sequence = number_at(bytes, 5);
            let newer = seen.snapshots.contains_key(channel) ==> overtakes(
                epoch,
                sequence,
                seen.snapshots[channel].epoch as int,
                seen.snapshots[channel].sequence as int,
            );
            &&& decoded(seen, bytes) is Some <==> (channel == 5 || 10 <= channel <= 25) && newer
            &&& decoded(seen, bytes) matches Some(result) ==> {
                &&& result.frames.len() == 1
                &&& result.frames[0].len() == bytes.len() - 8
                &&& result.frames[0][0] == channel
                &&& forall|i: int|
                    1 <= i < result.frames[0].len() ==> #[trigger] result.frames[0][i] == bytes[i
                        + 8]
                &&& result.seen.snapshots.contains_key(channel)
                &&& result.seen.snapshots[channel].epoch == epoch
                &&& result.seen.snapshots[channel].sequence == sequence
                &&& forall|other: u8|
                    other != channel ==> (#[trigger] result.seen.snapshots.contains_key(other)
                        == seen.snapshots.contains_key(other)) && result.seen.snapshots[other]
                        == seen.snapshots[other]
                &&& result.seen.relative == seen.relative
                &&& result.seen.scroll == seen.scroll
            }
        }),
{
    lemma_number(bytes, 3, 2);
    lemma_number(bytes, 5, 4);
}

/// Anything else is no datagram that is understood.
pub proof fn law_other_datagrams_are_not_read(seen: Seen, bytes: Seq<u8>)
    ensures
        decoded(seen, bytes) is Some ==> bytes[0] == 0xf0 && (bytes.len() == 16 && (bytes[1] == 0
            || bytes[1] == 1) || bytes.len() >= 10 && bytes[1] == 2),
{
}

/// A datagram of more than sixty-four kibibytes, one that says nothing and one whose
/// frames find no room are dropped, and it is as if they had not come.
pub proof fn law_which_datagrams_are_dropped(
    state: &mut DatagramState,
    bytes: &[u8],
    room: usize,
    frames: Vec<Vec<u8>>,
)
    requires
        call_ensures(DatagramState::receive, (state, bytes, room), frames),
    ensures
        ({
            let result = decoded(old(state)@, bytes@);
            let taken = bytes@.len() <= 65_536 && result is Some && result->0.frames.len() <= room;
            &&& taken ==> contents(frames@) == result->0.frames && final(state)@ == result->0.seen
            &&& !taken ==> frames@.len() == 0 && final(state)@ == old(state)@
        }),
{
}

/// On the reliable lane a frame is delivered as it is, unless it is a snapshot: then it
/// is held against what came before, like a datagram.
pub proof fn law_what_the_reliable_lane_delivers(
    state: &mut DatagramState,
    frame: Vec<u8>,
    delivered: Option<Vec<u8>>,
)
    requires
        call_ensures(DatagramState::receive_reliable, (state, frame), delivered),
    ensures
        !snapshot_envelope(frame@) ==> delivered == Some(frame) && final(state)@ == old(state)@,
        snapshot_envelope(frame@) && decoded(old(state)@, frame@) is None ==> delivered is None
            && final(state)@ == old(state)@,
        snapshot_envelope(frame@) && decoded(old(state)@, frame@) is Some ==> delivered is Some
            && final(state)@ == decoded(old(state)@, frame@)->0.seen,
{
}

/// A snapshot on the reliable lane is told by its first two bytes: the mark of
/// datagrams and the kind of snapshots.
pub proof fn law_how_snapshots_are_told(bytes: Seq<u8>)
    ensures
        snapshot_envelope(bytes) <==> bytes.len() >= 2 && bytes[0] == 0xf0 && bytes[1] == 2,
{
}

} // verus!

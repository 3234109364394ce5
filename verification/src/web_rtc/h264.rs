//! The units of H.264 and H.265 video.

use crate::web_rtc::annexb::{
    code_at, lemma_code_is_next, lemma_no_code, lemma_unit_place, next_code, unit_from, AnnexB,
    AnnexBSplitter, Span, StartCode,
};
use crate::wire::slice_of;
use vstd::prelude::*;

verus! {

/// The type of units that only fill up the stream.
pub const FILLER_DATA: u8 = 12;

/// The length of the header of a unit.
pub const H264_HEADER_SIZE: usize = 1;

pub const H265_HEADER_SIZE: usize = 2;

#[derive(Clone, Copy, Debug, PartialEq, Eq, Structural)]
pub enum ErrorKind {
    InvalidData,
}

/// A unit that is shorter than its header.
#[derive(Clone, Copy, Debug, PartialEq, Eq, Structural)]
pub struct NalError {
    pub kind: ErrorKind,
}

impl NalError {
    pub fn kind(&self) -> (kind: ErrorKind)
        ensures
            kind == self.kind,
    {
        self.kind
    }
}

#[derive(Clone, Copy, Debug, PartialEq, Eq, Structural)]
pub struct NalHeader {
    pub forbidden_zero_bit: bool,
    pub nal_ref_idc: u8,
    pub nal_unit_type: u8,
}

/// The header of an H.264 unit: one bit, two bits and five bits.
pub open spec fn header_of(byte: u8) -> NalHeader {
    NalHeader {
        forbidden_zero_bit: byte >= 128,
        nal_ref_idc: (byte as int / 32 % 4) as u8,
        nal_unit_type: (byte as int % 32) as u8,
    }
}

impl NalHeader {
    pub fn parse(byte: u8) -> (header: NalHeader)
        ensures
            header == header_of(byte),
    {
        NalHeader {
            forbidden_zero_bit: byte >= 128,
            nal_ref_idc: byte / 32 % 4,
            nal_unit_type: byte % 32,
        }
    }
}

/// A unit of H.264 video with its start code.
#[derive(Debug, PartialEq, Eq)]
pub struct Nal {
    pub payload_range: Span,
    pub header: NalHeader,
    pub header_range: Span,
    pub start_code: StartCode,
    pub start_code_range: Span,
    pub full: Vec<u8>,
}

/// Reads the units of H.264 video.
#[derive(Debug)]
pub struct H264Reader {
    pub annex_b: AnnexBSplitter,
}

impl H264Reader {
    pub open spec fn well_formed(&self) -> bool {
        self.annex_b.well_formed()
    }

    pub fn new(bytes: Vec<u8>, capacity: usize) -> (reader: Self)
        ensures
            reader.well_formed(),
            reader.annex_b == (AnnexBSplitter { bytes, at: 0, capacity }),
    {
        H264Reader { annex_b: AnnexBSplitter::new(bytes, capacity) }
    }

    /// The next unit. One that is empty has no header and is refused.
    pub fn next_nal(&mut self) -> (nal: Result<Option<Nal>, NalError>)
        requires
            old(self).well_formed(),
        ensures
            final(self).well_formed(),
            final(self).annex_b.bytes == old(self).annex_b.bytes,
            final(self).annex_b.capacity == old(self).annex_b.capacity,
            match unit_from(old(self).annex_b.bytes@, old(self).annex_b.at as int) {
                Some(place) => {
                    let bytes = old(self).annex_b.bytes@;
                    let offset = place.payload - place.start;
                    &&& final(self).annex_b.at == place.end
                    &&& if place.end == place.payload {
                        nal == Err::<Option<Nal>, _>(NalError { kind: ErrorKind::InvalidData })
                    } else {
                        &&& nal is Ok
                        &&& nal->Ok_0 matches Some(nal)
                        &&& nal.full@ == bytes.subrange(place.start, place.end)
                        &&& nal.header == header_of(bytes[place.payload])
                        &&& nal.start_code_range == (Span { start: 0, end: offset as usize })
                        &&& nal.header_range == (Span {
                            start: offset as usize,
                            end: (offset + 1) as usize,
                        })
                        &&& nal.payload_range == (Span {
                            start: (offset + 1) as usize,
                            end: (place.end - place.start) as usize,
                        })
                        &&& nal.start_code is Long <==> offset == 4
                    }
                },
                None => nal == Ok::<Option<Nal>, NalError>(None) && final(self).annex_b.at
                    == old(self).annex_b.bytes@.len(),
            },
    {
        proof {
            if unit_from(self.annex_b.bytes@, self.annex_b.at as int) is Some {
                lemma_unit_place(self.annex_b.bytes@, self.annex_b.at as int);
            }
        }
        let unit: AnnexB = match self.annex_b.next() {
            Some(unit) => unit,
            None => {
                return Ok(None);
            },
        };
        let start: usize = unit.payload_range.start;
        let end: usize = unit.payload_range.end;
        if end - start < H264_HEADER_SIZE {
            return Err(NalError { kind: ErrorKind::InvalidData });
        }
        let header: NalHeader = NalHeader::parse(unit.full[start]);
        Ok(
            Some(
                Nal {
                    payload_range: Span { start: start + H264_HEADER_SIZE, end },
                    header,
                    header_range: Span { start, end: start + H264_HEADER_SIZE },
                    start_code: unit.start_code,
                    start_code_range: unit.start_code_range,
                    full: unit.full,
                },
            ),
        )
    }

    /// Begins with other bytes.
    pub fn reset(&mut self, bytes: Vec<u8>)
        ensures
            final(self).well_formed(),
            final(self).annex_b == (AnnexBSplitter { bytes, at: 0, ..old(self).annex_b }),
    {
        self.annex_b.reset(bytes);
    }
}

/// The units of a frame, without their start codes, from `from` on. A unit that
/// is shorter than its header spoils the frame. Units that only fill up the
/// stream are left out of H.264 video.
pub open spec fn samples_from(bytes: Seq<u8>, from: int, header_size: nat) -> Option<Seq<Seq<u8>>>
    decreases bytes.len() - from,
{
    if !(0 <= from <= bytes.len()) {
        None
    } else {
        match unit_from(bytes, from) {
            None => Some(Seq::empty()),
            Some(place) => if !(from < place.end <= bytes.len()) || place.end - place.payload
                < header_size {
                None
            } else {
                let sample = bytes.subrange(place.payload, place.end);
                let filler = header_size == 1 && header_of(sample[0]).nal_unit_type == FILLER_DATA;
                match samples_from(bytes, place.end, header_size) {
                    None => None,
                    Some(rest) => Some(
                        if filler {
                            rest
                        } else {
                            seq![sample] + rest
                        },
                    ),
                }
            },
        }
    }
}

pub open spec fn bytes_of(samples: Seq<Vec<u8>>) -> Seq<Seq<u8>> {
    samples.map_values(|sample: Vec<u8>| sample@)
}

/// What a frame with these first samples is, given the rest of it.
spec fn joined(first: Seq<Seq<u8>>, rest: Option<Seq<Seq<u8>>>) -> Option<Seq<Seq<u8>>> {
    match rest {
        Some(rest) => Some(first + rest),
        None => None,
    }
}

/// Takes a frame of H.264 video (with headers of one byte) or H.265 video (with
/// headers of two bytes) apart.
pub fn frame_samples(frame: Vec<u8>, header_size: usize) -> (samples: Option<Vec<Vec<u8>>>)
    ensures
        match samples {
            Some(samples) => samples_from(frame@, 0, header_size as nat) == Some(
                bytes_of(samples@),
            ),
            None => samples_from(frame@, 0, header_size as nat) is None,
        },
{
    let ghost bytes = frame@;
    let ghost all = samples_from(bytes, 0, header_size as nat);
    let mut splitter: AnnexBSplitter = AnnexBSplitter::new(frame, 0);
    let mut samples: Vec<Vec<u8>> = Vec::new();
    assert(joined(bytes_of(samples@), all) == all) by {
        if all is Some {
            assert(bytes_of(samples@) + all->0 =~= all->0);
        }
    }
    loop
        invariant_except_break
            splitter.well_formed(),
            splitter.bytes@ == bytes,
            all == joined(
                bytes_of(samples@),
                samples_from(bytes, splitter.at as int, header_size as nat),
            ),
        invariant
            bytes == frame@,
            all == samples_from(bytes, 0, header_size as nat),
        ensures
            all == Some(bytes_of(samples@)),
        decreases bytes.len() - splitter.at,
    {
        let ghost from = splitter.at as int;
        let ghost before = bytes_of(samples@);
        proof {
            if unit_from(bytes, from) is Some {
                lemma_unit_place(bytes, from);
            }
        }
        let unit: AnnexB = match splitter.next() {
            Some(unit) => unit,
            None => {
                assert(before + Seq::<Seq<u8>>::empty() =~= before);
                break;
            },
        };
        let start: usize = unit.payload_range.start;
        let end: usize = unit.payload_range.end;
        if end - start < header_size {
            return None;
        }
        let ghost place = unit_from(bytes, from)->0;
        let ghost rest = samples_from(bytes, place.end, header_size as nat);
        let sample: Vec<u8> = slice_of(unit.full.as_slice(), start, end);
        assert(sample@ =~= bytes.subrange(place.payload, place.end));
        let is_filler: bool = header_size == 1 && NalHeader::parse(sample[0]).nal_unit_type
            == FILLER_DATA;
        if !is_filler {
            let ghost content = sample@;
            let ghost held = samples@;
            samples.push(sample);
            assert(bytes_of(samples@) =~= before.push(content));
            assert(joined(bytes_of(samples@), rest) == joined(
                before,
                samples_from(bytes, from, header_size as nat),
            )) by {
                if rest is Some {
                    assert(before.push(content) + rest->0 =~= before + (seq![content] + rest->0));
                }
            }
        }
    }
    Some(samples)
}

/// Units one behind the other, each behind a start code.
pub open spec fn unit_stream(units: Seq<Seq<u8>>) -> Seq<u8>
    decreases units.len(),
{
    if units.len() == 0 {
        Seq::empty()
    } else {
        seq![0u8, 0u8, 0u8, 1u8] + units[0] + unit_stream(units.skip(1))
    }
}

/// A unit that a stream can hold: it has a header, nothing in it looks like a
/// start code or runs into the next one, and it does not only fill up the stream.
pub open spec fn can_be_streamed(unit: Seq<u8>, header_size: nat) -> bool {
    &&& 0 < header_size <= unit.len()
    &&& unit.last() != 0
    &&& forall|i: int| !code_at(unit, i)
    &&& header_size == 1 ==> header_of(unit[0]).nal_unit_type != FILLER_DATA
}

proof fn lemma_units_come_out(
    bytes: Seq<u8>,
    from: int,
    units: Seq<Seq<u8>>,
    header_size: nat,
)
    requires
        0 <= from <= bytes.len(),
        bytes.skip(from) == unit_stream(units),
        forall|k: int| 0 <= k < units.len() ==> can_be_streamed(#[trigger] units[k], header_size),
    ensures
        samples_from(bytes, from, header_size) == Some(units),
    decreases units.len(),
{
    if units.len() == 0 {
        assert(bytes.skip(from).len() == 0);
        assert(next_code(bytes, from) == bytes.len());
        assert(units =~= Seq::empty());
    } else {
        let unit = units[0];
        let rest = units.skip(1);
        let payload = from + 4;
        let end = payload + unit.len();
        let stream = bytes.skip(from);
        assert(can_be_streamed(unit, header_size));
        assert(stream.len() == 4 + unit.len() + unit_stream(rest).len());
        assert forall|i: int| 0 <= i < stream.len() implies bytes[from + i] == stream[i] by {}
        assert(bytes[from] == stream[0] && bytes[from + 1] == stream[1] && bytes[from + 2]
            == stream[2] && bytes[from + 3] == stream[3]);
        assert forall|i: int| 0 <= i < unit.len() implies bytes[payload + i] == unit[i] by {
            assert(bytes[from + (4 + i)] == stream[4 + i]);
        }
        assert forall|i: int| 0 <= i < unit_stream(rest).len() implies bytes.skip(end)[i]
            == unit_stream(rest)[i] by {
            assert(bytes[from + (4 + unit.len() + i)] == stream[4 + unit.len() + i]);
        }
        assert(bytes.skip(end) =~= unit_stream(rest));
        lemma_code_is_next(bytes, from, from + 1);
        if rest.len() > 0 {
            let behind = bytes.skip(end);
            assert(behind[0] == 0 && behind[1] == 0 && behind[2] == 0 && behind[3] == 1);
            assert(bytes[end] == behind[0] && bytes[end + 1] == behind[1] && bytes[end + 2]
                == behind[2] && bytes[end + 3] == behind[3]);
        } else {
            assert(bytes.skip(end).len() == 0);
        }
        assert forall|i: int| payload <= i < end implies !code_at(bytes, i) by {
            assert(!code_at(unit, i - payload));
            assert(bytes[payload + (i - payload)] == unit[i - payload]);
            if i + 3 <= end {
                assert(bytes[payload + (i + 1 - payload)] == unit[i + 1 - payload]);
                assert(bytes[payload + (i + 2 - payload)] == unit[i + 2 - payload]);
            } else {
                assert(bytes[payload + (unit.len() - 1)] == unit.last());
            }
        }
        if rest.len() > 0 {
            assert(!code_at(bytes, end));
            lemma_code_is_next(bytes, payload, end + 1);
        } else {
            assert forall|i: int| payload <= i implies !code_at(bytes, i) by {}
            lemma_no_code(bytes, payload);
        }
        assert(bytes.subrange(payload, end) =~= unit);
        assert forall|k: int| 0 <= k < rest.len() implies can_be_streamed(
            #[trigger] rest[k],
            header_size,
        ) by {
            assert(rest[k] == units[k + 1]);
        }
        lemma_units_come_out(bytes, end, rest, header_size);
        assert(seq![unit] + rest =~= units);
    }
}

/// A frame is taken apart into the units that it was made of, in their order.
pub proof fn law_units_come_out_in_order(units: Seq<Seq<u8>>, header_size: nat)
    requires
        forall|k: int| 0 <= k < units.len() ==> can_be_streamed(#[trigger] units[k], header_size),
    ensures
        samples_from(unit_stream(units), 0, header_size) == Some(units),
{
    assert(unit_stream(units).skip(0) =~= unit_stream(units));
    lemma_units_come_out(unit_stream(units), 0, units, header_size);
}

/// A unit that can stand in a stream: nothing in it looks like a start code or
/// runs into the next one. It may be empty.
pub open spec fn stands_alone(unit: Seq<u8>) -> bool {
    &&& unit.len() > 0 ==> unit.last() != 0
    &&& forall|i: int| !code_at(unit, i)
}

/// A unit of H.264 video that only fills up the stream, as the five low bits of
/// its first byte say.
pub open spec fn fills_up(unit: Seq<u8>) -> bool {
    unit.len() > 0 && unit[0] as int % 32 == 12
}

proof fn lemma_first_unit(bytes: Seq<u8>, from: int, units: Seq<Seq<u8>>)
    requires
        0 <= from <= bytes.len(),
        units.len() > 0,
        bytes.skip(from) == unit_stream(units),
        stands_alone(units[0]),
    ensures
        ({
            let end = from + 4 + units[0].len();
            &&& unit_from(bytes, from) matches Some(place)
            &&& place.payload == from + 4
            &&& place.end == end
            &&& end <= bytes.len()
            &&& bytes.subrange(place.payload, place.end) == units[0]
            &&& bytes.skip(end) == unit_stream(units.skip(1))
        }),
{
    let unit = units[0];
    let rest = units.skip(1);
    let payload = from + 4;
    let end = payload + unit.len();
    let stream = bytes.skip(from);
    assert(stream.len() == 4 + unit.len() + unit_stream(rest).len());
    assert forall|i: int| 0 <= i < stream.len() implies bytes[from + i] == stream[i] by {}
    assert(bytes[from] == stream[0] && bytes[from + 1] == stream[1] && bytes[from + 2] == stream[2]
        && bytes[from + 3] == stream[3]);
    assert forall|i: int| 0 <= i < unit.len() implies bytes[payload + i] == unit[i] by {
        assert(bytes[from + (4 + i)] == stream[4 + i]);
    }
    assert forall|i: int| 0 <= i < unit_stream(rest).len() implies bytes.skip(end)[i]
        == unit_stream(rest)[i] by {
        assert(bytes[from + (4 + unit.len() + i)] == stream[4 + unit.len() + i]);
    }
    assert(bytes.skip(end) =~= unit_stream(rest));
    lemma_code_is_next(bytes, from, from + 1);
    if rest.len() > 0 {
        let behind = bytes.skip(end);
        assert(behind[0] == 0 && behind[1] == 0 && behind[2] == 0 && behind[3] == 1);
        assert(bytes[end] == behind[0] && bytes[end + 1] == behind[1] && bytes[end + 2]
            == behind[2] && bytes[end + 3] == behind[3]);
    } else {
        assert(bytes.skip(end).len() == 0);
    }
    assert forall|i: int| payload <= i < end implies !code_at(bytes, i) by {
        assert(!code_at(unit, i - payload));
        assert(bytes[payload + (i - payload)] == unit[i - payload]);
        if i + 3 <= end {
            assert(bytes[payload + (i + 1 - payload)] == unit[i + 1 - payload]);
            assert(bytes[payload + (i + 2 - payload)] == unit[i + 2 - payload]);
        } else {
            assert(bytes[payload + (unit.len() - 1)] == unit.last());
        }
    }
    if rest.len() > 0 {
        assert(!code_at(bytes, end));
        lemma_code_is_next(bytes, payload, end + 1);
    } else {
        assert forall|i: int| payload <= i implies !code_at(bytes, i) by {}
        lemma_no_code(bytes, payload);
    }
    assert(bytes.subrange(payload, end) =~= unit);
}

proof fn lemma_kept_units(bytes: Seq<u8>, from: int, units: Seq<Seq<u8>>, header_size: nat)
    requires
        0 <= from <= bytes.len(),
        0 < header_size,
        bytes.skip(from) == unit_stream(units),
        forall|k: int| 0 <= k < units.len() ==> stands_alone(#[trigger] units[k]),
    ensures
        (exists|k: int| 0 <= k < units.len() && (#[trigger] units[k]).len() < header_size)
            ==> samples_from(bytes, from, header_size) is None,
        (forall|k: int| 0 <= k < units.len() ==> (#[trigger] units[k]).len() >= header_size)
            ==> samples_from(bytes, from, header_size) == Some(
            if header_size == 1 {
                units.filter(|unit: Seq<u8>| !fills_up(unit))
            } else {
                units
            },
        ),
    decreases units.len(),
{
    let keep = |unit: Seq<u8>| !fills_up(unit);
    if units.len() == 0 {
        assert(bytes.skip(from).len() == 0);
        assert(next_code(bytes, from) == bytes.len());
        reveal(Seq::filter);
        assert(units.filter(keep) =~= Seq::empty());
        assert(units =~= Seq::empty());
    } else {
        let unit = units[0];
        let rest = units.skip(1);
        let end = from + 4 + unit.len();
        lemma_first_unit(bytes, from, units);
        assert(stands_alone(unit));
        assert forall|k: int| 0 <= k < rest.len() implies stands_alone(#[trigger] rest[k]) by {
            assert(rest[k] == units[k + 1]);
        }
        lemma_kept_units(bytes, end, rest, header_size);
        if exists|k: int| 0 <= k < units.len() && (#[trigger] units[k]).len() < header_size {
            let k = choose|k: int| 0 <= k < units.len() && (#[trigger] units[k]).len()
                < header_size;
            if k > 0 {
                assert(rest[k - 1] == units[k]);
            }
        }
        if forall|k: int| 0 <= k < units.len() ==> (#[trigger] units[k]).len() >= header_size {
            assert(units[0].len() >= header_size);
            assert forall|k: int| 0 <= k < rest.len() implies (#[trigger] rest[k]).len()
                >= header_size by {
                assert(rest[k] == units[k + 1]);
            }
            assert(units =~= seq![unit] + rest);
            Seq::filter_distributes_over_add(seq![unit], rest, keep);
            assert(seq![unit].filter(keep) =~= (if keep(unit) {
                seq![unit]
            } else {
                Seq::empty()
            })) by {
                reveal(Seq::filter);
                assert(seq![unit].drop_last() =~= Seq::<Seq<u8>>::empty());
                assert(Seq::<Seq<u8>>::empty().filter(keep) =~= Seq::empty());
            }
            assert(Seq::<Seq<u8>>::empty() + rest.filter(keep) =~= rest.filter(keep));
        }
    }
}

/// A frame of units, each behind a start code, is taken apart into these units, in
/// their order. Of H.264 video, with headers of one byte, the units that only fill
/// up the stream are left out. A unit that is shorter than its header spoils the
/// frame.
pub proof fn law_what_becomes_of_the_units(units: Seq<Seq<u8>>, header_size: nat)
    requires
        0 < header_size,
        forall|k: int| 0 <= k < units.len() ==> stands_alone(#[trigger] units[k]),
    ensures
        (exists|k: int| 0 <= k < units.len() && (#[trigger] units[k]).len() < header_size)
            ==> samples_from(unit_stream(units), 0, header_size) is None,
        (forall|k: int| 0 <= k < units.len() ==> (#[trigger] units[k]).len() >= header_size)
            ==> samples_from(unit_stream(units), 0, header_size) == Some(
            if header_size == 1 {
                units.filter(|unit: Seq<u8>| !fills_up(unit))
            } else {
                units
            },
        ),
{
    assert(unit_stream(units).skip(0) =~= unit_stream(units));
    lemma_kept_units(unit_stream(units), 0, units, header_size);
}

/// The header of a unit says what its bits say: the highest one, the next two, and
/// the five lowest.
pub proof fn law_header_holds_the_bits(byte: u8)
    ensures
        ({
            let header = header_of(byte);
            &&& header.nal_ref_idc < 4
            &&& header.nal_unit_type < 32
            &&& byte == (if header.forbidden_zero_bit {
                128int
            } else {
                0
            }) + 32 * header.nal_ref_idc + header.nal_unit_type
        }),
{
}

} // verus!

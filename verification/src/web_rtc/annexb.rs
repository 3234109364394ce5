//! Takes a byte stream apart into units behind start codes.
//!
//! A unit begins behind three bytes 0, 0, 1. A zero byte right before them
//! belongs to the start code, and not to the unit before it.

use crate::wire::slice_of;
use vstd::prelude::*;

verus! {

/// A start code of three or four bytes.
#[derive(Clone, Copy, Debug, PartialEq, Eq, Structural)]
pub enum StartCode {
    Short,
    Long,
}

/// Where something stands in a unit.
#[derive(Clone, Copy, Debug, PartialEq, Eq, Structural)]
pub struct Span {
    pub start: usize,
    pub end: usize,
}

/// A unit with its start code.
#[derive(Debug)]
pub struct AnnexB {
    pub start_code: StartCode,
    pub start_code_range: Span,
    pub payload_range: Span,
    pub full: Vec<u8>,
}

pub open spec fn code_at(bytes: Seq<u8>, i: int) -> bool {
    0 <= i && i + 3 <= bytes.len() && bytes[i] == 0 && bytes[i + 1] == 0 && bytes[i + 2] == 1
}

/// The first start code at or behind `from`; the length where there is none.
pub open spec fn next_code(bytes: Seq<u8>, from: int) -> int
    decreases bytes.len() - from,
{
    if from >= bytes.len() {
        bytes.len() as int
    } else if code_at(bytes, from) {
        from
    } else {
        next_code(bytes, from + 1)
    }
}

/// Where a unit, its start code included, begins and ends, and where its
/// payload begins.
pub struct UnitPlace {
    pub start: int,
    pub payload: int,
    pub end: int,
}

/// The first unit at or behind `from`.
pub open spec fn unit_from(bytes: Seq<u8>, from: int) -> Option<UnitPlace> {
    let code = next_code(bytes, from);
    if code >= bytes.len() {
        None
    } else {
        let payload = code + 3;
        let next = next_code(bytes, payload);
        Some(
            UnitPlace {
                start: if code > from && bytes[code - 1] == 0 {
                    code - 1
                } else {
                    code
                },
                payload,
                end: if payload < next < bytes.len() && bytes[next - 1] == 0 {
                    next - 1
                } else {
                    next
                },
            },
        )
    }
}

proof fn lemma_next_code(bytes: Seq<u8>, from: int)
    requires
        0 <= from <= bytes.len(),
    ensures
        from <= next_code(bytes, from) <= bytes.len(),
        next_code(bytes, from) < bytes.len() ==> code_at(bytes, next_code(bytes, from)),
        forall|i: int| from <= i < next_code(bytes, from) ==> !#[trigger] code_at(bytes, i),
    decreases bytes.len() - from,
{
    if from < bytes.len() && !code_at(bytes, from) {
        lemma_next_code(bytes, from + 1);
    }
}

/// A unit lies within the bytes, behind its start code.
pub proof fn lemma_unit_place(bytes: Seq<u8>, from: int)
    requires
        0 <= from <= bytes.len(),
        unit_from(bytes, from) is Some,
    ensures
        ({
            let place = unit_from(bytes, from)->0;
            &&& from <= place.start < place.payload <= place.end <= bytes.len()
            &&& 3 <= place.payload - place.start <= 4
        }),
{
    lemma_next_code(bytes, from);
    let code = next_code(bytes, from);
    lemma_next_code(bytes, code + 3);
}

fn find_code(bytes: &Vec<u8>, from: usize) -> (at: usize)
    requires
        from <= bytes@.len(),
    ensures
        at == next_code(bytes@, from as int),
        from <= at <= bytes@.len(),
        at < bytes@.len() ==> at + 3 <= bytes@.len(),
{
    let mut at: usize = from;
    assert(bytes.len() == bytes@.len());
    while at < bytes.len()
        invariant
            from <= at <= bytes@.len(),
            bytes.len() == bytes@.len(),
            next_code(bytes@, from as int) == next_code(bytes@, at as int),
        decreases bytes@.len() - at,
    {
        if bytes.len() - at >= 3 && bytes[at] == 0 && bytes[at + 1] == 0 && bytes[at + 2] == 1 {
            return at;
        }
        at = at + 1;
    }
    at
}

/// Takes the units out of a byte stream, one after the other.
#[derive(Debug)]
pub struct AnnexBSplitter {
    pub bytes: Vec<u8>,
    /// How far the bytes are taken apart.
    pub at: usize,
    /// The room that a unit is first given.
    pub capacity: usize,
}

impl AnnexBSplitter {
    pub open spec fn well_formed(&self) -> bool {
        self.at <= self.bytes@.len()
    }

    pub fn new(bytes: Vec<u8>, capacity: usize) -> (splitter: Self)
        ensures
            splitter.well_formed(),
            splitter == (AnnexBSplitter { bytes, at: 0, capacity }),
    {
        AnnexBSplitter { bytes, at: 0, capacity }
    }

    /// Begins with other bytes.
    pub fn reset(&mut self, bytes: Vec<u8>)
        ensures
            final(self).well_formed(),
            *final(self) == (AnnexBSplitter { bytes, at: 0, ..*old(self) }),
    {
        self.bytes = bytes;
        self.at = 0;
    }

    /// The next unit.
    pub fn next(&mut self) -> (unit: Option<AnnexB>)
        requires
            old(self).well_formed(),
        ensures
            final(self).well_formed(),
            final(self).bytes == old(self).bytes,
            final(self).capacity == old(self).capacity,
            match unit_from(old(self).bytes@, old(self).at as int) {
                Some(place) => {
                    &&& unit is Some
                    &&& final(self).at == place.end
                    &&& unit->0.full@ == old(self).bytes@.subrange(place.start, place.end)
                    &&& unit->0.start_code_range.start == 0
                    &&& unit->0.start_code_range.end == place.payload - place.start
                    &&& unit->0.payload_range.start == place.payload - place.start
                    &&& unit->0.payload_range.end == place.end - place.start
                    &&& unit->0.start_code is Long <==> place.payload - place.start == 4
                },
                None => unit is None && final(self).at == old(self).bytes@.len(),
            },
    {
        let from: usize = self.at;
        let code: usize = find_code(&self.bytes, from);
        if code >= self.bytes.len() {
            self.at = self.bytes.len();
            return None;
        }
        proof {
            lemma_unit_place(self.bytes@, from as int);
        }
        let payload: usize = code + 3;
        let next: usize = find_code(&self.bytes, payload);
        let start: usize = if code > from && self.bytes[code - 1] == 0 {
            code - 1
        } else {
            code
        };
        let end: usize = if payload < next && next < self.bytes.len() && self.bytes[next - 1] == 0 {
            next - 1
        } else {
            next
        };
        let full: Vec<u8> = slice_of(self.bytes.as_slice(), start, end);
        self.at = end;
        Some(
            AnnexB {
                start_code: if start < code {
                    StartCode::Long
                } else {
                    StartCode::Short
                },
                start_code_range: Span { start: 0, end: payload - start },
                payload_range: Span { start: payload - start, end: end - start },
                full,
            },
        )
    }
}

/// A start code with none before it is the next one.
pub proof fn lemma_code_is_next(bytes: Seq<u8>, from: int, at: int)
    requires
        0 <= from <= at < bytes.len(),
        code_at(bytes, at),
        forall|i: int| from <= i < at ==> !code_at(bytes, i),
    ensures
        next_code(bytes, from) == at,
    decreases at - from,
{
    if from < at {
        assert(!code_at(bytes, from));
        lemma_code_is_next(bytes, from + 1, at);
    }
}

pub proof fn lemma_no_code(bytes: Seq<u8>, from: int)
    requires
        0 <= from <= bytes.len(),
        forall|i: int| from <= i ==> !code_at(bytes, i),
    ensures
        next_code(bytes, from) == bytes.len(),
    decreases bytes.len() - from,
{
    if from < bytes.len() {
        assert(!code_at(bytes, from));
        lemma_no_code(bytes, from + 1);
    }
}

/// What is put behind a start code comes out again, unless it looks like a
/// start code itself.
pub proof fn law_unit_comes_out_again(payload: Seq<u8>)
    requires
        forall|i: int| !code_at(payload, i),
    ensures
        ({
            let bytes = seq![0u8, 0u8, 0u8, 1u8] + payload;
            let place = unit_from(bytes, 0)->0;
            &&& unit_from(bytes, 0) is Some
            &&& place.start == 0
            &&& bytes.subrange(place.payload, place.end) == payload
            &&& unit_from(bytes, place.end) is None
        }),
{
    let bytes = seq![0u8, 0u8, 0u8, 1u8] + payload;
    assert(!code_at(bytes, 0));
    assert(code_at(bytes, 1));
    assert(next_code(bytes, 0) == next_code(bytes, 1));
    assert forall|i: int| 4 <= i implies !code_at(bytes, i) by {
        assert(!code_at(payload, i - 4));
        if i + 3 <= bytes.len() {
            assert(bytes[i] == payload[i - 4]);
            assert(bytes[i + 1] == payload[i - 3]);
            assert(bytes[i + 2] == payload[i - 2]);
        }
    }
    lemma_no_code(bytes, 4);
    lemma_no_code(bytes, bytes.len() as int);
    assert(bytes.subrange(4, bytes.len() as int) =~= payload);
}

/// Where a unit lies: its payload follows the first two zeros and a one, its start code
/// takes a zero before these with it, and it ends where the next start code begins, or
/// with the bytes. Without a start code there is no unit.
pub proof fn law_where_a_unit_lies(bytes: Seq<u8>, from: int)
    requires
        0 <= from <= bytes.len(),
    ensures
        unit_from(bytes, from) is None <==> forall|i: int|
            from <= i ==> !#[trigger] code_at(bytes, i),
        unit_from(bytes, from) matches Some(place) ==> {
            &&& code_at(bytes, place.payload - 3)
            &&& from <= place.payload - 3
            &&& forall|i: int| from <= i < place.payload - 3 ==> !#[trigger] code_at(bytes, i)
            &&& place.start == (if place.payload - 3 > from && bytes[place.payload - 4] == 0 {
                place.payload - 4
            } else {
                place.payload - 3
            })
            &&& place.payload <= place.end <= bytes.len()
            &&& forall|i: int| place.payload <= i < place.end ==> !#[trigger] code_at(bytes, i)
            &&& place.end == bytes.len() || code_at(bytes, place.end) || (bytes[place.end] == 0
                && code_at(bytes, place.end + 1))
            &&& place.end < bytes.len() && place.end > place.payload && code_at(bytes, place.end)
                ==> bytes[place.end - 1] != 0
        },
{
    lemma_next_code(bytes, from);
    let code = next_code(bytes, from);
    if code < bytes.len() {
        lemma_next_code(bytes, code + 3);
    } else {
        assert forall|i: int| from <= i implies !#[trigger] code_at(bytes, i) by {}
    }
}

/// The splitter hands out unit by unit: each with its start code and its payload, and
/// the next one begins where it ended.
pub proof fn law_units_are_handed_out(splitter: &mut AnnexBSplitter, unit: Option<AnnexB>)
    requires
        old(splitter).at <= old(splitter).bytes@.len(),
        call_ensures(AnnexBSplitter::next, (splitter,), unit),
    ensures
        final(splitter).bytes == old(splitter).bytes,
        unit is None <==> unit_from(old(splitter).bytes@, old(splitter).at as int) is None,
        unit is None ==> final(splitter).at == old(splitter).bytes@.len(),
        unit matches Some(unit) ==> {
            let place = unit_from(old(splitter).bytes@, old(splitter).at as int)->0;
            let code = unit.start_code_range;
            let rest = unit.payload_range;
            &&& code.start == 0 && code.end == rest.start && rest.end == unit.full@.len()
            &&& code.end == 3 || code.end == 4
            &&& unit.start_code is Long <==> code.end == 4
            &&& unit.start_code is Short <==> code.end == 3
            &&& unit.full@.subrange(rest.start as int, rest.end as int) == old(
                splitter,
            ).bytes@.subrange(place.payload, place.end)
            &&& final(splitter).at == place.end
        },
{
    if unit is Some {
        lemma_unit_place(old(splitter).bytes@, old(splitter).at as int);
        let place = unit_from(old(splitter).bytes@, old(splitter).at as int)->0;
        let rest = unit->0.payload_range;
        assert(unit->0.full@.subrange(rest.start as int, rest.end as int) =~= old(
            splitter,
        ).bytes@.subrange(place.payload, place.end));
    }
}

} // verus!

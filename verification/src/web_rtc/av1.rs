//! The units of AV1 video, as far as they must be known to pack them.

use vstd::prelude::*;

verus! {

/// The end of a number in bytes of seven bits at `from`: behind the first byte
/// without the continuation bit.
pub open spec fn number_end(bytes: Seq<u8>, from: int) -> Option<int>
    decreases bytes.len() - from,
{
    if from >= bytes.len() {
        None
    } else if bytes[from] < 128 {
        Some(from + 1)
    } else {
        number_end(bytes, from + 1)
    }
}

/// A number in bytes of seven bits, the lowest first, of which 32 bits count.
pub open spec fn number_value(bytes: Seq<u8>, from: int, end: int) -> int
    decreases end - from,
{
    if from >= end {
        0
    } else {
        (bytes[from] as int % 128 + 128 * number_value(bytes, from + 1, end)) % 0x1_0000_0000
    }
}

/// Of a longer number the last eight bytes count.
pub open spec fn number_start(from: int, end: int) -> int {
    if end - from > 8 {
        end - 8
    } else {
        from
    }
}

/// Where the header of the unit at `from` ends.
pub open spec fn header_end(bytes: Seq<u8>, from: int) -> int {
    if bytes[from] as int / 4 % 2 == 1 {
        from + 2
    } else {
        from + 1
    }
}

/// Whether every unit from `from` on that names its size fits in the bytes. A
/// header that is cut off ends the units.
pub open spec fn units_fit(bytes: Seq<u8>, from: int) -> bool
    decreases bytes.len() - from,
{
    if from >= bytes.len() {
        true
    } else {
        let body = header_end(bytes, from);
        if body >= bytes.len() || bytes[from] as int / 2 % 2 == 0 {
            true
        } else {
            match number_end(bytes, body) {
                None => units_fit(bytes, body),
                Some(end) => if end <= body {
                    false
                } else {
                    let size = number_value(bytes, number_start(body, end), end);
                    size >= 0 && end + size <= bytes.len() && units_fit(bytes, end + size)
                },
            }
        }
    }
}

fn find_number_end(bytes: &Vec<u8>, from: usize) -> (end: Option<usize>)
    requires
        from <= bytes@.len(),
    ensures
        match end {
            Some(end) => number_end(bytes@, from as int) == Some(end as int) && from < end
                <= bytes@.len(),
            None => number_end(bytes@, from as int) is None,
        },
{
    let mut at: usize = from;
    assert(bytes.len() == bytes@.len());
    while at < bytes.len()
        invariant
            from <= at <= bytes@.len(),
            bytes.len() == bytes@.len(),
            number_end(bytes@, from as int) == number_end(bytes@, at as int),
        decreases bytes@.len() - at,
    {
        if bytes[at] < 128 {
            return Some(at + 1);
        }
        at = at + 1;
    }
    None
}

fn read_number(bytes: &Vec<u8>, from: usize, end: usize) -> (value: u32)
    requires
        from <= end <= bytes@.len(),
    ensures
        value == number_value(bytes@, from as int, end as int),
{
    let mut value: u64 = 0;
    let mut at: usize = end;
    while at > from
        invariant
            from <= at <= end <= bytes@.len(),
            value == number_value(bytes@, at as int, end as int),
            value < 0x1_0000_0000,
        decreases at - from,
    {
        at = at - 1;
        value = (bytes[at] as u64 % 128 + 128 * value) % 0x1_0000_0000;
    }
    value as u32
}

/// Whether the units of a frame fit in it.
pub fn av1_units_fit(bytes: &Vec<u8>) -> (fit: bool)
    ensures
        fit == units_fit(bytes@, 0),
{
    let mut at: usize = 0;
    assert(bytes.len() == bytes@.len());
    while at < bytes.len()
        invariant
            at <= bytes@.len(),
            bytes.len() == bytes@.len(),
            units_fit(bytes@, 0) == units_fit(bytes@, at as int),
        decreases bytes@.len() - at,
    {
        let header: u8 = bytes[at];
        let header_size: usize = if header / 4 % 2 == 1 {
            2
        } else {
            1
        };
        if header_size >= bytes.len() - at || header / 2 % 2 == 0 {
            return true;
        }
        let body: usize = at + header_size;
        match find_number_end(bytes, body) {
            None => {
                at = body;
            },
            Some(end) => {
                let start: usize = if end - body > 8 {
                    end - 8
                } else {
                    body
                };
                let size: u32 = read_number(bytes, start, end);
                if size as usize > bytes.len() - end {
                    return false;
                }
                at = end + size as usize;
            },
        }
    }
    true
}

/// A unit that says how long it is must have that many bytes behind its length, and
/// what follows must fit as well. Its length is a number of seven bits to a byte, the
/// lowest first, where a high bit says that more follows.
pub proof fn law_units_have_the_length_they_say(bytes: Seq<u8>, from: int)
    requires
        0 <= from < bytes.len(),
        bytes[from] as int / 2 % 2 == 1,
    ensures
        ({
            let body = if bytes[from] as int / 4 % 2 == 1 {
                from + 2
            } else {
                from + 1
            };
            &&& body < bytes.len() && bytes[body] < 128 ==> (units_fit(bytes, from) <==> body + 1
                + bytes[body] <= bytes.len() && units_fit(bytes, body + 1 + bytes[body]))
            &&& body + 1 < bytes.len() && bytes[body] >= 128 && bytes[body + 1] < 128 ==> ({
                let size = bytes[body] - 128 + 128 * bytes[body + 1];
                units_fit(bytes, from) <==> body + 2 + size <= bytes.len() && units_fit(
                    bytes,
                    body + 2 + size,
                )
            })
        }),
{
    let body = header_end(bytes, from);
    reveal_with_fuel(number_end, 3);
    reveal_with_fuel(number_value, 4);
    if body < bytes.len() && bytes[body] < 128 {
        assert(number_end(bytes, body) == Some(body + 1));
        assert(number_value(bytes, body, body + 1) == bytes[body]);
    }
    if body + 1 < bytes.len() && bytes[body] >= 128 && bytes[body + 1] < 128 {
        assert(number_end(bytes, body) == Some(body + 2));
        assert(number_value(bytes, body + 1, body + 2) == bytes[body + 1]);
        assert(number_value(bytes, body, body + 2) == bytes[body] - 128 + 128 * bytes[body + 1]);
    }
}

/// A unit without a length runs to the end, so that it always fits, and so does nothing
/// at all.
pub proof fn law_last_unit_fits(bytes: Seq<u8>, from: int)
    ensures
        0 <= from < bytes.len() && bytes[from] as int / 2 % 2 == 0 ==> units_fit(bytes, from),
        from >= bytes.len() ==> units_fit(bytes, from),
{
}

} // verus!

//! Numbers as bytes, most significant byte first.

use vstd::prelude::*;

verus! {

/// The number that `bytes` stand for.
pub open spec fn be_value(bytes: Seq<u8>) -> nat
    decreases bytes.len(),
{
    if bytes.len() == 0 {
        0
    } else {
        be_value(bytes.drop_last()) * 256 + bytes.last() as nat
    }
}

/// `n` in `count` bytes; what does not fit is cut off.
pub open spec fn be_bytes(n: nat, count: nat) -> Seq<u8>
    decreases count,
{
    if count == 0 {
        Seq::empty()
    } else {
        be_bytes(n / 256, (count - 1) as nat).push((n % 256) as u8)
    }
}

pub open spec fn power_of_256(count: nat) -> nat
    decreases count,
{
    if count == 0 {
        1
    } else {
        256 * power_of_256((count - 1) as nat)
    }
}

pub broadcast proof fn lemma_be_bytes_len(n: nat, count: nat)
    ensures
        #[trigger] be_bytes(n, count).len() == count,
    decreases count,
{
    if count > 0 {
        lemma_be_bytes_len(n / 256, (count - 1) as nat);
    }
}

/// Reading what was written gives the number back, where it fits.
pub proof fn lemma_be_round_trip(n: nat, count: nat)
    requires
        n < power_of_256(count),
    ensures
        be_value(be_bytes(n, count)) == n,
    decreases count,
{
    if count > 0 {
        let front = be_bytes(n / 256, (count - 1) as nat);
        assert(n / 256 < power_of_256((count - 1) as nat));
        lemma_be_round_trip(n / 256, (count - 1) as nat);
        assert(be_bytes(n, count).drop_last() =~= front);
    }
}

/// Writing what was read gives the bytes back.
pub proof fn lemma_be_round_trip_bytes(bytes: Seq<u8>)
    ensures
        be_bytes(be_value(bytes), bytes.len()) == bytes,
        be_value(bytes) < power_of_256(bytes.len()),
    decreases bytes.len(),
{
    if bytes.len() > 0 {
        lemma_be_round_trip_bytes(bytes.drop_last());
        let high = be_value(bytes.drop_last());
        let n = be_value(bytes);
        assert(n / 256 == high);
        assert(n % 256 == bytes.last() as nat);
        assert(be_bytes(n, bytes.len()) =~= bytes);
    } else {
        assert(be_bytes(be_value(bytes), bytes.len()) =~= bytes);
    }
}

proof fn lemma_powers()
    ensures
        power_of_256(1) == 0x100,
        power_of_256(2) == 0x1_0000,
        power_of_256(4) == 0x1_0000_0000,
        power_of_256(8) == 0x1_0000_0000_0000_0000,
{
    reveal_with_fuel(power_of_256, 9);
}

/// The most significant byte first.
pub fn push_u16(out: &mut Vec<u8>, n: u16)
    ensures
        final(out)@ == old(out)@ + be_bytes(n as nat, 2),
{
    proof {
        reveal_with_fuel(be_bytes, 3);
        assert(be_bytes(n as nat, 2) =~= seq![((n / 256) % 256) as u8, (n % 256) as u8]);
    }
    out.push((n / 256) as u8);
    out.push((n % 256) as u8);
    assert(out@ =~= old(out)@ + be_bytes(n as nat, 2));
}

pub fn push_u32(out: &mut Vec<u8>, n: u32)
    ensures
        final(out)@ == old(out)@ + be_bytes(n as nat, 4),
{
    proof {
        reveal_with_fuel(be_bytes, 5);
        let m = n as nat;
        assert(m / 256 / 256 == m / 0x1_0000);
        assert(m / 256 / 256 / 256 == m / 0x100_0000);
    }
    out.push((n / 0x100_0000) as u8);
    out.push((n / 0x1_0000 % 256) as u8);
    out.push((n / 0x100 % 256) as u8);
    out.push((n % 256) as u8);
    assert(out@ =~= old(out)@ + be_bytes(n as nat, 4));
}

fn push_number(out: &mut Vec<u8>, n: u64, count: usize)
    ensures
        final(out)@ == old(out)@ + be_bytes(n as nat, count as nat),
    decreases count,
{
    if count > 0 {
        push_number(out, n / 256, count - 1);
        out.push((n % 256) as u8);
    }
    assert(out@ =~= old(out)@ + be_bytes(n as nat, count as nat));
}

/// The two bytes from `at` on.
pub fn read_u16(bytes: &[u8], at: usize) -> (n: u16)
    requires
        at + 2 <= bytes@.len(),
    ensures
        n == be_value(bytes@.subrange(at as int, at + 2)),
{
    proof {
        reveal_with_fuel(be_value, 3);
        let part = bytes@.subrange(at as int, at + 2);
        assert(part.drop_last().drop_last() =~= Seq::<u8>::empty());
    }
    bytes[at] as u16 * 256 + bytes[at + 1] as u16
}

pub fn read_u32(bytes: &[u8], at: usize) -> (n: u32)
    requires
        at + 4 <= bytes@.len(),
    ensures
        n == be_value(bytes@.subrange(at as int, at + 4)),
{
    proof {
        reveal_with_fuel(be_value, 5);
        let part = bytes@.subrange(at as int, at + 4);
        assert(part.drop_last().drop_last().drop_last().drop_last() =~= Seq::<u8>::empty());
    }
    bytes[at] as u32 * 0x100_0000 + bytes[at + 1] as u32 * 0x1_0000 + bytes[at + 2] as u32 * 0x100
        + bytes[at + 3] as u32
}

/// A copy of the bytes from `from` up to `to`.
pub fn slice_of(bytes: &[u8], from: usize, to: usize) -> (part: Vec<u8>)
    requires
        from <= to <= bytes@.len(),
    ensures
        part@ == bytes@.subrange(from as int, to as int),
{
    let mut part: Vec<u8> = Vec::with_capacity(to - from);
    part.extend_from_slice(&bytes[from..to]);
    assert(part@ =~= bytes@.subrange(from as int, to as int));
    part
}

/// A number in four bytes comes back as it was.
pub proof fn law_u32_round_trip(n: u32)
    ensures
        be_value(be_bytes(n as nat, 4)) == n,
        be_bytes(n as nat, 4).len() == 4,
{
    lemma_powers();
    lemma_be_round_trip(n as nat, 4);
    lemma_be_bytes_len(n as nat, 4);
}

/// A number in two bytes comes back as it was.
pub proof fn law_u16_round_trip(n: u16)
    ensures
        be_value(be_bytes(n as nat, 2)) == n,
        be_bytes(n as nat, 2).len() == 2,
{
    lemma_powers();
    lemma_be_round_trip(n as nat, 2);
    lemma_be_bytes_len(n as nat, 2);
}

/// Numbers travel with their highest byte first.
pub proof fn law_highest_byte_comes_first(bytes: Seq<u8>)
    ensures
        bytes.len() == 2 ==> be_value(bytes) == bytes[0] * 0x100 + bytes[1],
        bytes.len() == 4 ==> be_value(bytes) == bytes[0] * 0x100_0000 + bytes[1] * 0x1_0000
            + bytes[2] * 0x100 + bytes[3],
{
    reveal_with_fuel(be_value, 5);
    if bytes.len() == 4 {
        let three = bytes.drop_last();
        let two = three.drop_last();
        let one = two.drop_last();
        assert(one.drop_last().len() == 0);
        assert(be_value(one) == one.last());
        assert(be_value(two) == be_value(one) * 256 + two.last());
        assert(be_value(three) == be_value(two) * 256 + three.last());
        assert(be_value(bytes) == be_value(three) * 256 + bytes.last());
    }
    if bytes.len() == 2 {
        let one = bytes.drop_last();
        assert(one.drop_last().len() == 0);
        assert(be_value(one) == one.last());
    }
}

} // verus!

//! Frames of encoded video, as the host sends them.

use vstd::prelude::*;

verus! {

#[derive(Clone, Copy, Debug, PartialEq, Eq, Structural)]
pub enum FrameType {
    /// Builds on the frames before it.
    PFrame,
    /// Can be decoded alone.
    Idr,
}

/// The answer to a frame.
#[derive(Clone, Copy, Debug, PartialEq, Eq, Structural)]
pub enum DecodeResult {
    Accepted,
    /// The host must send a key frame.
    NeedIdr,
}

/// The buffers of a frame behind one another.
pub open spec fn joined(buffers: Seq<Vec<u8>>) -> Seq<u8>
    decreases buffers.len(),
{
    if buffers.len() == 0 {
        Seq::empty()
    } else {
        joined(buffers.drop_last()) + buffers.last()@
    }
}

pub fn join_buffers(buffers: &Vec<Vec<u8>>) -> (frame: Vec<u8>)
    ensures
        frame@ == joined(buffers@),
{
    let mut frame: Vec<u8> = Vec::new();
    let mut i: usize = 0;
    while i < buffers.len()
        invariant
            i <= buffers@.len(),
            frame@ == joined(buffers@.take(i as int)),
        decreases buffers@.len() - i,
    {
        let ghost before = frame@;
        frame.extend_from_slice(buffers[i].as_slice());
        assert(frame@ =~= before + buffers@[i as int]@);
        assert(buffers@.take(i + 1).drop_last() =~= buffers@.take(i as int));
        i = i + 1;
    }
    assert(buffers@.take(i as int) =~= buffers@);
    frame
}

/// Buffers are joined in their order, one behind the other, and nothing comes between
/// them.
pub proof fn law_buffers_are_joined_in_order(front: Seq<Vec<u8>>, back: Seq<Vec<u8>>, one: Vec<u8>)
    ensures
        joined(Seq::empty()) == Seq::<u8>::empty(),
        joined(seq![one]) == one@,
        joined(front + back) == joined(front) + joined(back),
    decreases back.len(),
{
    assert(seq![one].drop_last() =~= Seq::<Vec<u8>>::empty());
    assert(joined(Seq::<Vec<u8>>::empty()) =~= Seq::<u8>::empty());
    assert(joined(seq![one]) =~= one@) by {
        reveal_with_fuel(joined, 2);
    }
    if back.len() == 0 {
        assert(front + back =~= front);
        assert(joined(front) + joined(back) =~= joined(front));
    } else {
        law_buffers_are_joined_in_order(front, back.drop_last(), one);
        assert((front + back).drop_last() =~= front + back.drop_last());
        assert(joined(front) + (joined(back.drop_last()) + back.last()@) =~= joined(front)
            + joined(back.drop_last()) + back.last()@);
    }
}

} // verus!

//! The channels of a transport. The first byte of a frame names its channel.

use vstd::prelude::*;

verus! {

pub const GENERAL: u8 = 0;

pub const STATS: u8 = 1;

pub const HOST_VIDEO: u8 = 2;

pub const HOST_AUDIO: u8 = 3;

pub const MOUSE_RELIABLE: u8 = 4;

pub const MOUSE_ABSOLUTE: u8 = 5;

pub const MOUSE_RELATIVE: u8 = 6;

pub const TOUCH: u8 = 7;

pub const KEYBOARD: u8 = 8;

pub const CONTROLLERS: u8 = 9;

/// The channel of the first controller; the others follow it.
pub const CONTROLLER0: u8 = 10;

pub const CONTROLLER15: u8 = 25;

pub const RTT: u8 = 26;

pub const STREAM_CONTROL: u8 = 27;

/// A channel whose frames each replace the state that the one before them set.
pub open spec fn carries_snapshots(channel: u8) -> bool {
    channel == MOUSE_ABSOLUTE || CONTROLLER0 <= channel <= CONTROLLER15
}

pub fn is_snapshot_channel(channel: u8) -> (snapshots: bool)
    ensures
        snapshots == carries_snapshots(channel),
{
    channel == MOUSE_ABSOLUTE || (CONTROLLER0 <= channel && channel <= CONTROLLER15)
}

/// The newest state is all that counts on the channel of the absolute mouse and on
/// those of the sixteen controllers, and on no other channel.
pub proof fn law_channels_of_states(channel: u8)
    ensures
        carries_snapshots(channel) <==> channel == 5 || 10 <= channel <= 25,
{
}

} // verus!

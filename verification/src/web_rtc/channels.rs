//! The data channels of the WebRTC transport.

use crate::channel::{
    CONTROLLER0, CONTROLLERS, GENERAL, KEYBOARD, MOUSE_ABSOLUTE, MOUSE_RELATIVE, MOUSE_RELIABLE,
    STATS, TOUCH,
};
use crate::text::{chars_of, decimal, decimal_digits, parse_u16, parsed_u16, same_text};
use vstd::prelude::*;

verus! {

/// How many controllers have a channel.
pub const CONTROLLER_CHANNELS: usize = 16;

/// How many channels carry input.
pub const INPUT_CHANNELS: usize = 22;

/// A channel that the server opens for input.
#[derive(Clone, Debug)]
pub struct InputChannel {
    pub label: String,
    pub ordered: bool,
    /// `Some(0)` for a channel on which nothing is sent twice.
    pub max_retransmits: Option<u16>,
}

/// The label of an input channel.
pub open spec fn input_label(i: int) -> Seq<char> {
    if i == 0 {
        "mouse_reliable"@
    } else if i == 1 {
        "mouse_absolute"@
    } else if i == 2 {
        "mouse_relative"@
    } else if i == 3 {
        "keyboard"@
    } else if i == 4 {
        "touch"@
    } else if i == 5 {
        "controllers"@
    } else {
        "controller"@ + decimal_digits((i - 6) as nat)
    }
}

/// Channels for states lose what is late; the others do not.
pub open spec fn input_reliable(i: int) -> bool {
    i != 1 && i < 6
}

pub open spec fn input_ordered(i: int) -> bool {
    i != 1 && i != 2 && i < 6
}

pub open spec fn is_input_channel(i: int, channel: InputChannel) -> bool {
    &&& channel.label@ == input_label(i)
    &&& channel.ordered == input_ordered(i)
    &&& channel.max_retransmits == (if input_reliable(i) {
        None
    } else {
        Some(0u16)
    })
}

fn input_channel(label: String, reliable: bool, ordered: bool) -> (channel: InputChannel)
    ensures
        channel.label == label,
        channel.ordered == ordered,
        channel.max_retransmits == (if reliable {
            None
        } else {
            Some(0u16)
        }),
{
    InputChannel {
        label,
        ordered,
        max_retransmits: if reliable {
            None
        } else {
            Some(0)
        },
    }
}

/// The channels that the server opens for input.
pub fn input_channels() -> (channels: Vec<InputChannel>)
    ensures
        channels@.len() == INPUT_CHANNELS,
        forall|i: int| 0 <= i < channels@.len() ==> is_input_channel(i, #[trigger] channels@[i]),
{
    let mut channels: Vec<InputChannel> = Vec::new();
    channels.push(input_channel("mouse_reliable".to_owned(), true, true));
    channels.push(input_channel("mouse_absolute".to_owned(), false, false));
    channels.push(input_channel("mouse_relative".to_owned(), true, false));
    channels.push(input_channel("keyboard".to_owned(), true, true));
    channels.push(input_channel("touch".to_owned(), true, true));
    channels.push(input_channel("controllers".to_owned(), true, true));
    let mut id: usize = 0;
    while id < CONTROLLER_CHANNELS
        invariant
            id <= CONTROLLER_CHANNELS,
            channels@.len() == 6 + id,
            forall|i: int|
                0 <= i < channels@.len() ==> is_input_channel(i, #[trigger] channels@[i]),
        decreases CONTROLLER_CHANNELS - id,
    {
        let mut label: String = "controller".to_owned();
        label.append(decimal(id as u64).as_str());
        channels.push(input_channel(label, false, false));
        id = id + 1;
    }
    channels
}

/// The channel that a label stands for.
pub open spec fn labelled_channel(label: Seq<char>) -> Option<u8> {
    if label == "general"@ {
        Some(GENERAL)
    } else if label == "mouse_reliable"@ {
        Some(MOUSE_RELIABLE)
    } else if label == "mouse_absolute"@ {
        Some(MOUSE_ABSOLUTE)
    } else if label == "mouse_relative"@ {
        Some(MOUSE_RELATIVE)
    } else if label == "touch"@ {
        Some(TOUCH)
    } else if label == "keyboard"@ {
        Some(KEYBOARD)
    } else if label == "controllers"@ {
        Some(CONTROLLERS)
    } else {
        controller_channel(label)
    }
}

/// The channel of the controller whose number stands behind `controller`.
pub open spec fn controller_channel(label: Seq<char>) -> Option<u8> {
    let prefix = "controller"@;
    if label.len() < prefix.len() || label.take(prefix.len() as int) != prefix {
        None
    } else {
        match parsed_u16(label.skip(prefix.len() as int)) {
            Some(id) => if id < CONTROLLER_CHANNELS {
                Some((CONTROLLER0 + id) as u8)
            } else {
                None
            },
            None => None,
        }
    }
}

fn controller_channel_for_label(label: &str) -> (channel: Option<u8>)
    ensures
        channel == controller_channel(label@),
{
    let chars: Vec<char> = chars_of(label);
    let prefix: Vec<char> = chars_of("controller");
    if chars.len() < prefix.len() {
        return None;
    }
    let mut i: usize = 0;
    while i < prefix.len()
        invariant
            i <= prefix@.len() <= chars@.len(),
            chars@ == label@,
            prefix@ == "controller"@,
            forall|k: int| 0 <= k < i ==> chars@[k] == prefix@[k],
        decreases prefix@.len() - i,
    {
        if chars[i] != prefix[i] {
            assert(chars@.take(prefix@.len() as int)[i as int] != prefix@[i as int]);
            return None;
        }
        i = i + 1;
    }
    assert(chars@.take(prefix@.len() as int) =~= prefix@);
    match parse_u16(&chars, prefix.len()) {
        Some(id) => if (id as usize) < CONTROLLER_CHANNELS {
            Some(CONTROLLER0 + id as u8)
        } else {
            None
        },
        None => None,
    }
}

pub fn transport_channel_for_label(label: &str) -> (channel: Option<u8>)
    ensures
        channel == labelled_channel(label@),
{
    if same_text(label, "general") {
        Some(GENERAL)
    } else if same_text(label, "mouse_reliable") {
        Some(MOUSE_RELIABLE)
    } else if same_text(label, "mouse_absolute") {
        Some(MOUSE_ABSOLUTE)
    } else if same_text(label, "mouse_relative") {
        Some(MOUSE_RELATIVE)
    } else if same_text(label, "touch") {
        Some(TOUCH)
    } else if same_text(label, "keyboard") {
        Some(KEYBOARD)
    } else if same_text(label, "controllers") {
        Some(CONTROLLERS)
    } else {
        controller_channel_for_label(label)
    }
}

/// Where a packet to the browser goes.
#[derive(Clone, Copy, Debug, PartialEq, Eq, Structural)]
pub enum OutboundRoute {
    General,
    /// A failure is only logged.
    Stats,
    /// There is no such channel to the browser.
    Closed,
}

pub fn outbound_route(channel: u8) -> (route: OutboundRoute)
    ensures
        route == (if channel == GENERAL {
            OutboundRoute::General
        } else if channel == STATS {
            OutboundRoute::Stats
        } else {
            OutboundRoute::Closed
        }),
{
    if channel == GENERAL {
        OutboundRoute::General
    } else if channel == STATS {
        OutboundRoute::Stats
    } else {
        OutboundRoute::Closed
    }
}

/// Every input channel that is opened has a channel that its packets belong to,
/// and the controllers have theirs in a row.
pub proof fn law_every_input_channel_is_read(i: int)
    requires
        0 <= i < INPUT_CHANNELS,
    ensures
        labelled_channel(input_label(i)) is Some,
        i >= 6 ==> labelled_channel(input_label(i)) == Some((CONTROLLER0 + (i - 6)) as u8),
{
    reveal_strlit("general");
    reveal_strlit("mouse_reliable");
    reveal_strlit("mouse_absolute");
    reveal_strlit("mouse_relative");
    reveal_strlit("touch");
    reveal_strlit("keyboard");
    reveal_strlit("controllers");
    reveal_strlit("controller");
    if i >= 6 {
        let id = (i - 6) as nat;
        let label = input_label(i);
        let digits = decimal_digits(id);
        crate::text::law_decimal_round_trip(id as u16);
        assert(label.take(10) =~= "controller"@);
        assert(label.skip(10) =~= digits);
        assert(id < 10 ==> digits.len() == 1);
        assert(id >= 10 ==> digits.len() == 2 && digits[0] == crate::text::digit(id / 10)) by {
            if id >= 10 {
                assert(decimal_digits(id / 10) =~= seq![crate::text::digit(id / 10)]);
            }
        }
        assert(label[0] == 'c');
        assert(label[10] == digits[0]);
        assert(digits[0] != 's');
        assert("general"@[0] == 'g');
        assert("mouse_reliable"@[0] == 'm');
        assert("mouse_absolute"@[0] == 'm');
        assert("mouse_relative"@[0] == 'm');
        assert("touch"@[0] == 't');
        assert("keyboard"@[0] == 'k');
        assert("controllers"@[10] == 's');
    }
}

/// The channels that the browser's labels stand for: the input channels in the order in
/// which they are opened, sixteen of them for controllers, and the general one.
pub proof fn law_labels_stand_for_channels(i: int, label: Seq<char>)
    requires
        0 <= i < 22,
    ensures
        i < 6 ==> labelled_channel(input_label(i)) == Some(seq![4u8, 5, 6, 8, 7, 9][i]),
        i >= 6 ==> labelled_channel(input_label(i)) == Some((10 + (i - 6)) as u8),
        labelled_channel("general"@) == Some(0u8),
        labelled_channel(label) matches Some(channel) ==> channel == 0 || 4 <= channel <= 25,
        INPUT_CHANNELS == 22,
{
    law_every_input_channel_is_read(i);
    reveal_strlit("general");
    reveal_strlit("mouse_reliable");
    reveal_strlit("mouse_absolute");
    reveal_strlit("mouse_relative");
    reveal_strlit("keyboard");
    reveal_strlit("touch");
    reveal_strlit("controllers");
    assert("mouse_reliable"@.len() == 14 && "mouse_absolute"@.len() == 14);
    assert("mouse_relative"@.len() == 14 && "keyboard"@.len() == 8);
    assert("touch"@.len() == 5 && "controllers"@.len() == 11 && "general"@.len() == 7);
    assert("mouse_reliable"@[6] == 'r' && "mouse_absolute"@[6] == 'a');
    assert("mouse_relative"@[6] == 'r' && "mouse_relative"@[9] == 'a');
    assert("mouse_reliable"@[9] == 'i');
}

/// Positions and the states of controllers are sent once and in any order, because the
/// next one makes up for them. Relative motion is sent until it arrives, in any order.
/// All other input arrives, and in its order.
pub proof fn law_how_input_arrives(i: int, channel: InputChannel)
    requires
        0 <= i < 22,
        is_input_channel(i, channel),
    ensures
        ({
            let states = i == 1 || i >= 6;
            &&& channel.max_retransmits == Some(0u16) <==> states
            &&& channel.max_retransmits is None <==> !states
            &&& channel.ordered <==> !states && i != 2
        }),
{
}

/// Two channels lead to the browser: the general one and the one of statistics.
pub proof fn law_which_channels_lead_out(channel: u8, route: OutboundRoute)
    requires
        call_ensures(outbound_route, (channel,), route),
    ensures
        route is General <==> channel == 0,
        route is Stats <==> channel == 1,
        route is Closed <==> channel > 1,
{
}

} // verus!

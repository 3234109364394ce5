//! What is held after any history of packets.

use crate::input::{
    holds_key, keys_after, law_modifiers_are_current, law_press_order_is_kept, HeldInput, HeldKey,
    InboundPacket, KeyAction, KeyModifiers, MouseButton, MouseButtonAction, TouchEventType,
    CONTROLLER_COUNT,
};
use vstd::prelude::*;

verus! {

/// What is held after packets, one behind the other, from nothing on.
pub open spec fn held_after(packets: Seq<InboundPacket>) -> HeldInput
    decreases packets.len(),
{
    if packets.len() == 0 {
        HeldInput::nothing()
    } else {
        held_after(packets.drop_last()).after(packets.last())
    }
}

/// What a packet does to one key, button, finger or controller.
pub enum Stroke {
    Down,
    Up,
    Nothing,
}

pub open spec fn goes_down(strokes: Seq<Stroke>, at: int) -> bool {
    0 <= at < strokes.len() && strokes[at] is Down
}

pub open spec fn goes_up(strokes: Seq<Stroke>, at: int) -> bool {
    0 <= at < strokes.len() && strokes[at] is Up
}

/// No stroke behind `at` goes up.
pub open spec fn stays_down(strokes: Seq<Stroke>, at: int) -> bool {
    forall|i: int| #[trigger] goes_up(strokes, i) ==> i <= at
}

/// Some stroke goes up between two others.
pub open spec fn up_between(strokes: Seq<Stroke>, from: int, to: int) -> bool {
    exists|i: int| #[trigger] goes_up(strokes, i) && from < i < to
}

/// Some stroke went down, and none went up since.
pub open spec fn ends_down(strokes: Seq<Stroke>) -> bool {
    exists|at: int| #[trigger] goes_down(strokes, at) && stays_down(strokes, at)
}

/// It has been down since the stroke at `at`, which is the first one down since
/// the last one up.
pub open spec fn down_since(strokes: Seq<Stroke>, at: int) -> bool {
    &&& goes_down(strokes, at)
    &&& stays_down(strokes, at)
    &&& forall|j: int| #[trigger] goes_down(strokes, j) && j < at ==> up_between(strokes, j, at)
}

/// [`down_since`], stroke by stroke.
spec fn down_index(strokes: Seq<Stroke>) -> Option<int>
    decreases strokes.len(),
{
    if strokes.len() == 0 {
        None
    } else {
        let before = down_index(strokes.drop_last());
        match strokes.last() {
            Stroke::Down => if before is Some {
                before
            } else {
                Some(strokes.len() - 1)
            },
            Stroke::Up => None,
            Stroke::Nothing => before,
        }
    }
}

/// What the last stroke adds.
proof fn lemma_last_stroke(strokes: Seq<Stroke>)
    requires
        strokes.len() > 0,
    ensures
        forall|i: int| #[trigger]
            goes_down(strokes, i) <==> goes_down(strokes.drop_last(), i) || (i == strokes.len() - 1
                && strokes.last() is Down),
        forall|i: int| #[trigger]
            goes_up(strokes, i) <==> goes_up(strokes.drop_last(), i) || (i == strokes.len() - 1
                && strokes.last() is Up),
{
}

proof fn lemma_down_index(strokes: Seq<Stroke>)
    ensures
        down_index(strokes) is Some <==> ends_down(strokes),
        down_index(strokes) is Some ==> down_since(strokes, down_index(strokes)->0),
    decreases strokes.len(),
{
    if strokes.len() > 0 {
        let rest = strokes.drop_last();
        let end = strokes.len() - 1;
        lemma_down_index(rest);
        lemma_last_stroke(strokes);
        match strokes.last() {
            Stroke::Up => {
                assert(goes_up(strokes, end));
                assert(!ends_down(strokes));
            },
            Stroke::Down => {
                assert(goes_down(strokes, end));
                assert(stays_down(strokes, end));
                if down_index(rest) is None {
                    assert forall|j: int| #[trigger]
                        goes_down(strokes, j) && j < end implies up_between(strokes, j, end) by {
                        assert(goes_down(rest, j));
                        assert(!stays_down(rest, j));
                        let up = choose|up: int| #[trigger] goes_up(rest, up) && up > j;
                        assert(goes_up(strokes, up));
                    }
                } else {
                    lemma_down_longer(strokes, down_index(rest)->0);
                }
            },
            Stroke::Nothing => {
                if down_index(rest) is Some {
                    lemma_down_longer(strokes, down_index(rest)->0);
                } else if ends_down(strokes) {
                    let at = choose|at: int| #[trigger]
                        goes_down(strokes, at) && stays_down(strokes, at);
                    assert(goes_down(rest, at));
                    assert forall|i: int| #[trigger] goes_up(rest, i) implies i <= at by {
                        assert(goes_up(strokes, i));
                    }
                    assert(stays_down(rest, at));
                }
            },
        }
    } else {
        assert forall|at: int| !(#[trigger] goes_down(strokes, at)) by {}
    }
}

/// What is down stays down unless the last stroke goes up.
proof fn lemma_down_longer(strokes: Seq<Stroke>, at: int)
    requires
        strokes.len() > 0,
        !(strokes.last() is Up),
        down_since(strokes.drop_last(), at),
    ensures
        down_since(strokes, at),
        ends_down(strokes),
{
    let rest = strokes.drop_last();
    lemma_last_stroke(strokes);
    assert(goes_down(rest, at));
    assert(goes_down(strokes, at));
    assert forall|i: int| #[trigger] goes_up(strokes, i) implies i <= at by {
        assert(goes_up(rest, i));
    }
    assert forall|j: int| #[trigger] goes_down(strokes, j) && j < at implies up_between(
        strokes,
        j,
        at,
    ) by {
        assert(goes_down(rest, j));
        let up = choose|up: int| #[trigger] goes_up(rest, up) && j < up < at;
        assert(goes_up(strokes, up));
    }
}

proof fn lemma_down_since_is_unique(strokes: Seq<Stroke>, a: int, b: int)
    requires
        down_since(strokes, a),
        down_since(strokes, b),
    ensures
        a == b,
{
    if a < b {
        assert(up_between(strokes, a, b));
    } else if b < a {
        assert(up_between(strokes, b, a));
    }
}

/// Names of what is down, each once, in the order in which it went down.
pub open spec fn in_press_order<T>(names: Seq<T>, strokes: spec_fn(T) -> Seq<Stroke>) -> bool {
    &&& forall|name: T| #[trigger] names.contains(name) <==> ends_down(strokes(name))
    &&& names.no_duplicates()
    &&& forall|i: int, j: int, a: int, b: int|
        0 <= i < j < names.len() && #[trigger] down_since(strokes(names[i]), a)
            && #[trigger] down_since(strokes(names[j]), b) ==> a < b
}

/// [`in_press_order`], by the strokes' own numbers.
spec fn is_numbered<T>(names: Seq<T>, strokes: spec_fn(T) -> Seq<Stroke>, count: nat) -> bool {
    &&& forall|name: T| #[trigger] strokes(name).len() == count
    &&& forall|i: int|
        0 <= i < names.len() ==> down_index(strokes(#[trigger] names[i])) is Some
    &&& forall|name: T| down_index(#[trigger] strokes(name)) is Some ==> names.contains(name)
    &&& forall|i: int, j: int|
        0 <= i < j < names.len() ==> down_index(strokes(#[trigger] names[i]))->0 < down_index(
            strokes(#[trigger] names[j]),
        )->0
}

proof fn lemma_numbered_is_in_order<T>(
    names: Seq<T>,
    strokes: spec_fn(T) -> Seq<Stroke>,
    count: nat,
)
    requires
        is_numbered(names, strokes, count),
    ensures
        in_press_order(names, strokes),
{
    assert forall|name: T| #[trigger] names.contains(name) <==> ends_down(strokes(name)) by {
        lemma_down_index(strokes(name));
        if names.contains(name) {
            let i = choose|i: int| 0 <= i < names.len() && names[i] == name;
            assert(down_index(strokes(names[i])) is Some);
        }
    }
    assert forall|i: int, j: int|
        0 <= i < names.len() && 0 <= j < names.len() && i != j implies names[i] != names[j] by {
        if i < j {
            assert(down_index(strokes(names[i]))->0 < down_index(strokes(names[j]))->0);
        } else {
            assert(down_index(strokes(names[j]))->0 < down_index(strokes(names[i]))->0);
        }
    }
    assert forall|i: int, j: int, a: int, b: int|
        0 <= i < j < names.len() && #[trigger] down_since(strokes(names[i]), a)
            && #[trigger] down_since(strokes(names[j]), b) implies a < b by {
        lemma_down_index(strokes(names[i]));
        lemma_down_index(strokes(names[j]));
        lemma_down_since_is_unique(strokes(names[i]), a, down_index(strokes(names[i]))->0);
        lemma_down_since_is_unique(strokes(names[j]), b, down_index(strokes(names[j]))->0);
    }
}

proof fn lemma_index_is_inside(strokes: Seq<Stroke>)
    ensures
        down_index(strokes) is Some ==> 0 <= down_index(strokes)->0 < strokes.len(),
    decreases strokes.len(),
{
    if strokes.len() > 0 {
        lemma_index_is_inside(strokes.drop_last());
    }
}

/// One more stroke on `item`.
proof fn lemma_one_more_stroke<T>(
    names: Seq<T>,
    before: spec_fn(T) -> Seq<Stroke>,
    after: spec_fn(T) -> Seq<Stroke>,
    count: nat,
    item: T,
    stroke: Stroke,
    next: Seq<T>,
    keep: spec_fn(T) -> bool,
)
    requires
        is_numbered(names, before, count),
        forall|name: T| #[trigger]
            after(name) == before(name).push(
                if name == item {
                    stroke
                } else {
                    Stroke::Nothing
                },
            ),
        forall|name: T| #[trigger] keep(name) <==> name != item,
        match stroke {
            Stroke::Down => next == (if names.contains(item) {
                names
            } else {
                names.push(item)
            }),
            Stroke::Up => next == names.filter(keep),
            Stroke::Nothing => next == names,
        },
    ensures
        is_numbered(next, after, count + 1),
{
    assert forall|name: T| #[trigger] after(name).len() == count + 1 by {
        assert(before(name).len() == count);
    }
    assert forall|name: T| name != item || stroke is Nothing || (stroke is Down && names.contains(
        item,
    )) implies down_index(#[trigger] after(name)) == down_index(before(name)) by {
        assert(after(name).drop_last() =~= before(name));
        if name == item && stroke is Down {
            let i = choose|i: int| 0 <= i < names.len() && names[i] == item;
            assert(down_index(before(names[i])) is Some);
        }
    }
    assert(after(item).drop_last() =~= before(item));
    match stroke {
        Stroke::Down => {
            if !names.contains(item) {
                assert(down_index(before(item)) is None);
                assert(before(item).len() == count);
                assert(down_index(after(item)) == Some(count as int));
                assert forall|i: int| 0 <= i < names.len() implies #[trigger] next[i] == names[i]
                    && next[i] != item by {}
                assert forall|i: int| 0 <= i < next.len() implies down_index(
                    after(#[trigger] next[i]),
                ) is Some by {
                    if i < names.len() {
                        assert(down_index(before(names[i])) is Some);
                    }
                }
                assert forall|name: T| down_index(
                    #[trigger] after(name),
                ) is Some implies next.contains(name) by {
                    if name == item {
                        assert(next[names.len() as int] == item);
                    } else {
                        assert(down_index(before(name)) is Some);
                        let i = choose|i: int| 0 <= i < names.len() && names[i] == name;
                        assert(next[i] == name);
                    }
                }
                assert forall|i: int, j: int| 0 <= i < j < next.len() implies down_index(
                    after(#[trigger] next[i]),
                )->0 < down_index(after(#[trigger] next[j]))->0 by {
                    lemma_index_is_inside(before(next[i]));
                    assert(before(next[i]).len() == count);
                    assert(down_index(before(names[i])) is Some);
                    if j < names.len() {
                        assert(down_index(before(names[i]))->0 < down_index(before(names[j]))->0);
                    }
                }
            } else {
                assert forall|name: T| down_index(
                    #[trigger] after(name),
                ) is Some implies next.contains(name) by {
                    assert(down_index(before(name)) is Some);
                }
            }
        },
        Stroke::Up => {
            assert(down_index(after(item)) is None);
            assert forall|i: int| 0 <= i < next.len() implies down_index(
                after(#[trigger] next[i]),
            ) is Some && next[i] != item by {
                names.lemma_filter_pred(keep, i);
                names.lemma_filter_contains_rev(keep, next[i]);
                let k = choose|k: int| 0 <= k < names.len() && names[k] == next[i];
                assert(down_index(before(names[k])) is Some);
            }
            assert forall|name: T| down_index(
                #[trigger] after(name),
            ) is Some implies next.contains(name) by {
                assert(name != item);
                assert(down_index(before(name)) is Some);
                let i = choose|i: int| 0 <= i < names.len() && names[i] == name;
                names.lemma_filter_contains(keep, i);
            }
            crate::seqs::lemma_filter_keeps_order(
                names,
                keep,
                |name: T| down_index(before(name))->0,
            );
        },
        Stroke::Nothing => {
            assert forall|name: T| down_index(
                #[trigger] after(name),
            ) is Some implies next.contains(name) by {
                assert(down_index(before(name)) is Some);
            }
        },
    }
}

pub open spec fn key_stroke(packet: InboundPacket, name: u16) -> Stroke {
    match packet {
        InboundPacket::Key { action: KeyAction::Down, key, .. } if key == name => Stroke::Down,
        InboundPacket::Key { action: KeyAction::Up, key, .. } if key == name => Stroke::Up,
        _ => Stroke::Nothing,
    }
}

pub open spec fn button_stroke(packet: InboundPacket, name: MouseButton) -> Stroke {
    match packet {
        InboundPacket::MouseButton { action: MouseButtonAction::Press, button } if button
            == name => Stroke::Down,
        InboundPacket::MouseButton { action: MouseButtonAction::Release, button } if button
            == name => Stroke::Up,
        _ => Stroke::Nothing,
    }
}

/// A finger goes down by a touch that goes down, and by nothing else.
pub open spec fn touch_stroke(packet: InboundPacket, name: u32) -> Stroke {
    match packet {
        InboundPacket::Touch { event_type: TouchEventType::CancelAll, .. } => Stroke::Up,
        InboundPacket::Touch { event_type: TouchEventType::Down, pointer_id, .. } if pointer_id
            == name => Stroke::Down,
        InboundPacket::Touch { event_type: TouchEventType::Up, pointer_id, .. } if pointer_id
            == name => Stroke::Up,
        InboundPacket::Touch { event_type: TouchEventType::Cancel, pointer_id, .. } if pointer_id
            == name => Stroke::Up,
        _ => Stroke::Nothing,
    }
}

/// A controller tells what it is until it goes.
pub open spec fn arrival_stroke(packet: InboundPacket, name: u8) -> Stroke {
    match packet {
        InboundPacket::ControllerConnected { id, .. } if id == name => Stroke::Down,
        InboundPacket::ControllerDisconnected { id } if id == name => Stroke::Up,
        _ => Stroke::Nothing,
    }
}

/// A controller has a state from its first one until it goes.
pub open spec fn state_stroke(packet: InboundPacket, name: u8) -> Stroke {
    match packet {
        InboundPacket::ControllerState { id, .. } if id == name => Stroke::Down,
        InboundPacket::ControllerDisconnected { id } if id == name => Stroke::Up,
        _ => Stroke::Nothing,
    }
}

pub open spec fn key_strokes(packets: Seq<InboundPacket>) -> spec_fn(u16) -> Seq<Stroke> {
    |name: u16| packets.map_values(|packet: InboundPacket| key_stroke(packet, name))
}

pub open spec fn button_strokes(packets: Seq<InboundPacket>) -> spec_fn(
    MouseButton,
) -> Seq<Stroke> {
    |name: MouseButton| packets.map_values(|packet: InboundPacket| button_stroke(packet, name))
}

pub open spec fn touch_strokes(packets: Seq<InboundPacket>, name: u32) -> Seq<Stroke> {
    packets.map_values(|packet: InboundPacket| touch_stroke(packet, name))
}

pub open spec fn arrival_strokes(packets: Seq<InboundPacket>, name: u8) -> Seq<Stroke> {
    packets.map_values(|packet: InboundPacket| arrival_stroke(packet, name))
}

pub open spec fn state_strokes(packets: Seq<InboundPacket>, name: u8) -> Seq<Stroke> {
    packets.map_values(|packet: InboundPacket| state_stroke(packet, name))
}

pub open spec fn key_names(keys: Seq<HeldKey>) -> Seq<u16> {
    keys.map_values(|held: HeldKey| held.key)
}

/// Letting go of a key takes its name away.
proof fn lemma_names_after_release(held: HeldInput, packet: InboundPacket, keep: spec_fn(u16) -> bool)
    requires
        packet matches InboundPacket::Key { action, key, .. } && action is Up && forall|name: u16|
            #[trigger] keep(name) <==> name != key,
    ensures
        key_names(held.after(packet).keys) == key_names(held.keys).filter(keep),
{
    if let InboundPacket::Key { action, modifiers, key, flags } = packet {
        let of = |held: HeldKey| held.key;
        let left = |held: HeldKey| held.key != key;
        let pressed = HeldKey { key, modifiers, flags };
        let refreshed = held.keys.map_values(
            |held: HeldKey|
                if held.key == key && action == KeyAction::Down {
                    pressed
                } else {
                    HeldKey { modifiers, ..held }
                },
        );
        assert(keys_after(held.keys, action, modifiers, key, flags) == refreshed.filter(left));
        assert(refreshed.map_values(of) =~= key_names(held.keys));
        crate::seqs::lemma_filter_names(refreshed, left, of, keep);
    }
}

proof fn lemma_keys_are_numbered(packets: Seq<InboundPacket>)
    ensures
        is_numbered(key_names(held_after(packets).keys), key_strokes(packets), packets.len()),
    decreases packets.len(),
{
    let names = key_names(held_after(packets).keys);
    if packets.len() == 0 {
        assert(names =~= Seq::<u16>::empty());
    } else {
        let rest = packets.drop_last();
        let packet = packets.last();
        let held = held_after(rest);
        let before = key_strokes(rest);
        let after = key_strokes(packets);
        lemma_keys_are_numbered(rest);
        let (item, stroke) = match packet {
            InboundPacket::Key { action: KeyAction::Down, key, .. } => (key, Stroke::Down),
            InboundPacket::Key { action: KeyAction::Up, key, .. } => (key, Stroke::Up),
            _ => (0u16, Stroke::Nothing),
        };
        let keep = |name: u16| name != item;
        assert forall|name: u16| #[trigger]
            after(name) == before(name).push(
                if name == item {
                    stroke
                } else {
                    Stroke::Nothing
                },
            ) by {
            assert(key_stroke(packet, name) == (if name == item {
                stroke
            } else {
                Stroke::Nothing
            }));
            assert(after(name) =~= before(name).push(key_stroke(packet, name)));
        }
        if let InboundPacket::Key { action, modifiers, key, flags } = packet {
            match action {
                KeyAction::Down => {
                    law_press_order_is_kept(held.keys, modifiers, key, flags);
                    assert(holds_key(held.keys, key) == key_names(held.keys).contains(key)) by {
                        if holds_key(held.keys, key) {
                            let i = choose|i: int|
                                0 <= i < held.keys.len() && (#[trigger] held.keys[i]).key == key;
                            assert(key_names(held.keys)[i] == key);
                        }
                        if key_names(held.keys).contains(key) {
                            let i = choose|i: int|
                                0 <= i < held.keys.len() && key_names(held.keys)[i] == key;
                            assert(held.keys[i].key == key);
                        }
                    }
                },
                KeyAction::Up => {
                    lemma_names_after_release(held, packet, keep);
                },
            }
        }
        lemma_one_more_stroke(
            key_names(held.keys),
            before,
            after,
            rest.len(),
            item,
            stroke,
            names,
            keep,
        );
    }
}

proof fn lemma_buttons_are_numbered(packets: Seq<InboundPacket>)
    ensures
        is_numbered(held_after(packets).mouse_buttons, button_strokes(packets), packets.len()),
    decreases packets.len(),
{
    if packets.len() > 0 {
        let rest = packets.drop_last();
        let packet = packets.last();
        let before = button_strokes(rest);
        let after = button_strokes(packets);
        lemma_buttons_are_numbered(rest);
        let (item, stroke) = match packet {
            InboundPacket::MouseButton { action: MouseButtonAction::Press, button } => (
                button,
                Stroke::Down,
            ),
            InboundPacket::MouseButton { action: MouseButtonAction::Release, button } => (
                button,
                Stroke::Up,
            ),
            _ => (MouseButton::Left, Stroke::Nothing),
        };
        assert forall|name: MouseButton| #[trigger]
            after(name) == before(name).push(
                if name == item {
                    stroke
                } else {
                    Stroke::Nothing
                },
            ) by {
            assert(button_stroke(packet, name) == (if name == item {
                stroke
            } else {
                Stroke::Nothing
            }));
            assert(after(name) =~= before(name).push(button_stroke(packet, name)));
        }
        lemma_one_more_stroke(
            held_after(rest).mouse_buttons,
            before,
            after,
            rest.len(),
            item,
            stroke,
            held_after(packets).mouse_buttons,
            crate::input::other_than(item),
        );
    }
}

proof fn lemma_touches_are_numbered(packets: Seq<InboundPacket>, name: u32)
    ensures
        held_after(packets).touches.contains_key(name) <==> down_index(
            touch_strokes(packets, name),
        ) is Some,
    decreases packets.len(),
{
    if packets.len() > 0 {
        let rest = packets.drop_last();
        lemma_touches_are_numbered(rest, name);
        assert(touch_strokes(packets, name).drop_last() =~= touch_strokes(rest, name));
        assert(touch_strokes(packets, name).last() == touch_stroke(packets.last(), name));
    }
}

proof fn lemma_controllers_are_numbered(packets: Seq<InboundPacket>, name: u8)
    requires
        name < CONTROLLER_COUNT,
    ensures
        held_after(packets).controller_descriptors.len() == CONTROLLER_COUNT,
        held_after(packets).controllers.len() == CONTROLLER_COUNT,
        held_after(packets).controller_descriptors[name as int] is Some <==> down_index(
            arrival_strokes(packets, name),
        ) is Some,
        held_after(packets).controllers[name as int] is Some <==> down_index(
            state_strokes(packets, name),
        ) is Some,
    decreases packets.len(),
{
    if packets.len() > 0 {
        let rest = packets.drop_last();
        lemma_controllers_are_numbered(rest, name);
        assert(arrival_strokes(packets, name).drop_last() =~= arrival_strokes(rest, name));
        assert(state_strokes(packets, name).drop_last() =~= state_strokes(rest, name));
        assert(arrival_strokes(packets, name).last() == arrival_stroke(packets.last(), name));
        assert(state_strokes(packets, name).last() == state_stroke(packets.last(), name));
    }
}

/// The modifiers of the latest keyboard event.
pub open spec fn latest_modifiers(packets: Seq<InboundPacket>) -> Option<KeyModifiers>
    decreases packets.len(),
{
    if packets.len() == 0 {
        None
    } else {
        match packets.last() {
            InboundPacket::Key { modifiers, .. } => Some(modifiers),
            _ => latest_modifiers(packets.drop_last()),
        }
    }
}

proof fn lemma_modifiers_are_latest(packets: Seq<InboundPacket>)
    ensures
        forall|i: int|
            0 <= i < held_after(packets).keys.len() ==> Some(
                (#[trigger] held_after(packets).keys[i]).modifiers,
            ) == latest_modifiers(packets),
    decreases packets.len(),
{
    if packets.len() > 0 {
        lemma_modifiers_are_latest(packets.drop_last());
        let held = held_after(packets.drop_last());
        if let InboundPacket::Key { action, modifiers, key, flags } = packets.last() {
            law_modifiers_are_current(held.keys, action, modifiers, key, flags);
            assert(held_after(packets).keys == keys_after(held.keys, action, modifiers, key, flags));
        }
    }
}

/// After any history, the held keys are those whose last event went down, each
/// once, in the order of the first event down since the last one up, and all with
/// the modifiers of the latest keyboard event. Mouse buttons are held alike. The
/// touches are those that went down and neither went up nor were cancelled since:
/// a move or a hover adds none. A controller is known, and has a state, from the
/// packet that says so until it goes.
pub proof fn law_held_after_any_history(packets: Seq<InboundPacket>)
    ensures
        in_press_order(key_names(held_after(packets).keys), key_strokes(packets)),
        forall|i: int|
            0 <= i < held_after(packets).keys.len() ==> Some(
                (#[trigger] held_after(packets).keys[i]).modifiers,
            ) == latest_modifiers(packets),
        in_press_order(held_after(packets).mouse_buttons, button_strokes(packets)),
        forall|name: u32| #[trigger]
            held_after(packets).touches.contains_key(name) <==> ends_down(
                touch_strokes(packets, name),
            ),
        forall|name: u8|
            name < CONTROLLER_COUNT ==> (#[trigger] held_after(
                packets,
            ).controller_descriptors[name as int] is Some <==> ends_down(
                arrival_strokes(packets, name),
            )),
        forall|name: u8|
            name < CONTROLLER_COUNT ==> (#[trigger] held_after(packets).controllers[name as int]
                is Some <==> ends_down(state_strokes(packets, name))),
{
    lemma_keys_are_numbered(packets);
    lemma_numbered_is_in_order(
        key_names(held_after(packets).keys),
        key_strokes(packets),
        packets.len(),
    );
    lemma_modifiers_are_latest(packets);
    lemma_buttons_are_numbered(packets);
    lemma_numbered_is_in_order(
        held_after(packets).mouse_buttons,
        button_strokes(packets),
        packets.len(),
    );
    assert forall|name: u32| #[trigger]
        held_after(packets).touches.contains_key(name) <==> ends_down(
            touch_strokes(packets, name),
        ) by {
        lemma_touches_are_numbered(packets, name);
        lemma_down_index(touch_strokes(packets, name));
    }
    assert forall|name: u8| name < CONTROLLER_COUNT implies (#[trigger] held_after(
        packets,
    ).controller_descriptors[name as int] is Some <==> ends_down(
        arrival_strokes(packets, name),
    )) by {
        lemma_controllers_are_numbered(packets, name);
        lemma_down_index(arrival_strokes(packets, name));
    }
    assert forall|name: u8| name < CONTROLLER_COUNT implies (#[trigger] held_after(
        packets,
    ).controllers[name as int] is Some <==> ends_down(state_strokes(packets, name))) by {
        lemma_controllers_are_numbered(packets, name);
        lemma_down_index(state_strokes(packets, name));
    }
}

/// A packet of a controller that cannot be there changes nothing.
pub proof fn law_unknown_controllers_change_nothing(
    packets: Seq<InboundPacket>,
    packet: InboundPacket,
)
    requires
        match packet {
            InboundPacket::ControllerConnected { id, .. } => id >= CONTROLLER_COUNT,
            InboundPacket::ControllerDisconnected { id } => id >= CONTROLLER_COUNT,
            InboundPacket::ControllerState { id, .. } => id >= CONTROLLER_COUNT,
            _ => false,
        },
    ensures
        held_after(packets).after(packet) == held_after(packets),
{
    lemma_controllers_are_numbered(packets, 0);
    assert(held_after(packets).after(packet) =~= held_after(packets));
}

} // verus!

//! What the user holds down, and what the host has to be told about it.
//!
//! Packets from the browser are recorded here before they go to the native
//! stream. When the native stream is replaced, the recorded state is replayed
//! on the new one, so that a held key stays held and a released one does not
//! come back.

use crate::seqs::{lemma_filter_keeps_distinct, lemma_filter_step};
use std::collections::BTreeMap;
use vstd::prelude::*;

verus! {

broadcast use vstd::std_specs::btree::group_btree_axioms;

/// The number of controllers that the host protocol can address.
pub const CONTROLLER_COUNT: usize = 16;

#[derive(Clone, Copy, Debug, PartialEq, Eq, Structural)]
pub enum KeyAction {
    Down,
    Up,
}

#[derive(Clone, Copy, Debug, PartialEq, Eq, Structural)]
pub enum MouseButtonAction {
    Press,
    Release,
}

#[derive(Clone, Copy, Debug, PartialEq, Eq, Structural)]
pub enum MouseButton {
    Left,
    Middle,
    Right,
    X1,
    X2,
}

#[derive(Clone, Copy, Debug, PartialEq, Eq, Structural)]
pub enum TouchEventType {
    Hover,
    Down,
    Up,
    Move,
    Cancel,
    ButtonOnly,
    HoverLeave,
    CancelAll,
}

#[derive(Clone, Copy, Debug, PartialEq, Eq, Structural)]
pub enum ControllerType {
    Unknown,
    Xbox,
    PlayStation,
    Nintendo,
}

/// The modifier keys of a keyboard event, one bit each.
#[derive(Clone, Copy, Debug, PartialEq, Eq, Structural)]
pub struct KeyModifiers {
    pub bits: u8,
}

#[derive(Clone, Copy, Debug, PartialEq, Eq, Structural)]
pub struct KeyFlags {
    pub bits: u8,
}

#[derive(Clone, Copy, Debug, PartialEq, Eq, Structural)]
pub struct ControllerButtons {
    pub bits: u32,
}

#[derive(Clone, Copy, Debug, PartialEq, Eq, Structural)]
pub struct ControllerCapabilities {
    pub bits: u16,
}

/// A set of controllers, bit `n` for controller `n`.
#[derive(Clone, Copy, Debug, PartialEq, Eq, Structural)]
pub struct ActiveGamepads {
    pub bits: u16,
}

pub open spec fn gamepad_bit(id: u8) -> u16 {
    1u16 << id
}

impl ActiveGamepads {
    /// Whether the set holds controller `id`.
    pub open spec fn has(self, id: u8) -> bool {
        self.bits & gamepad_bit(id) != 0
    }

    pub fn empty() -> (gamepads: ActiveGamepads)
        ensures
            gamepads.bits == 0,
            forall|id: u8| id < CONTROLLER_COUNT ==> !#[trigger] gamepads.has(id),
    {
        assert forall|id: u8| id < CONTROLLER_COUNT implies 0u16 & #[trigger] gamepad_bit(id)
            == 0 by {
            assert(0u16 & (1u16 << id) == 0) by (bit_vector);
        }
        ActiveGamepads { bits: 0 }
    }

    pub fn contains(&self, id: u8) -> (held: bool)
        requires
            id < CONTROLLER_COUNT,
        ensures
            held == self.has(id),
    {
        self.bits & (1u16 << id) != 0
    }

    pub fn insert(&mut self, id: u8)
        requires
            id < CONTROLLER_COUNT,
        ensures
            final(self).bits == old(self).bits | gamepad_bit(id),
            forall|other: u8|
                other < CONTROLLER_COUNT ==> #[trigger] final(self).has(other) == (other == id
                    || old(self).has(other)),
    {
        let before: u16 = self.bits;
        self.bits = self.bits | (1u16 << id);
        assert forall|other: u8| other < CONTROLLER_COUNT implies #[trigger] self.has(other) == (
        other == id || old(self).has(other)) by {
            assert(((before | (1u16 << id)) & (1u16 << other) != 0) == (other == id || before & (
            1u16 << other) != 0)) by (bit_vector)
                requires
                    id < 16,
                    other < 16,
            ;
        }
    }

    pub fn remove(&mut self, id: u8)
        requires
            id < CONTROLLER_COUNT,
        ensures
            final(self).bits == old(self).bits & !gamepad_bit(id),
            forall|other: u8|
                other < CONTROLLER_COUNT ==> #[trigger] final(self).has(other) == (other != id
                    && old(self).has(other)),
    {
        let before: u16 = self.bits;
        self.bits = self.bits & !(1u16 << id);
        assert forall|other: u8| other < CONTROLLER_COUNT implies #[trigger] self.has(other) == (
        other != id && old(self).has(other)) by {
            assert(((before & !(1u16 << id)) & (1u16 << other) != 0) == (other != id && before & (
            1u16 << other) != 0)) by (bit_vector)
                requires
                    id < 16,
                    other < 16,
            ;
        }
    }
}

/// Where and how a finger touches the surface. The coordinates are the IEEE-754
/// bit patterns that the browser sent: they are passed on, never computed with.
#[derive(Clone, Copy, Debug, PartialEq, Eq, Structural)]
pub struct TouchContact {
    pub x: u32,
    pub y: u32,
    pub pressure_or_distance: u32,
    pub contact_area_major: u32,
    pub contact_area_minor: u32,
    pub rotation: Option<u16>,
}

#[derive(Clone, Copy, Debug, PartialEq, Eq, Structural)]
pub enum GeneralClientMessage {
    Stop,
}

/// What the browser sends.
#[allow(inconsistent_fields)]
#[derive(Clone, Debug, PartialEq, Eq)]
pub enum InboundPacket {
    General { message: GeneralClientMessage },
    MousePosition { x: i16, y: i16, reference_width: i16, reference_height: i16 },
    MouseButton { action: MouseButtonAction, button: MouseButton },
    MouseMove { delta_x: i16, delta_y: i16 },
    HighResScroll { delta_x: i16, delta_y: i16 },
    Scroll { delta_x: i8, delta_y: i8 },
    Key { action: KeyAction, modifiers: KeyModifiers, key: u16, flags: KeyFlags },
    Text { text: String },
    Touch { pointer_id: u32, contact: TouchContact, event_type: TouchEventType },
    ControllerConnected {
        id: u8,
        ty: ControllerType,
        supported_buttons: ControllerButtons,
        capabilities: ControllerCapabilities,
    },
    ControllerDisconnected { id: u8 },
    ControllerState { id: u8, state: ControllerInputState },
    Rtt { sequence_number: u16 },
    RequestVideoIdr,
}

#[derive(Clone, Copy, Debug, PartialEq, Eq, Structural)]
pub struct HeldKey {
    pub key: u16,
    pub modifiers: KeyModifiers,
    pub flags: KeyFlags,
}

#[derive(Clone, Copy, Debug, PartialEq, Eq, Structural)]
pub struct HeldTouch {
    pub pointer_id: u32,
    pub contact: TouchContact,
}

#[derive(Clone, Copy, Debug, PartialEq, Eq, Structural)]
pub struct ControllerInputState {
    pub buttons: ControllerButtons,
    pub left_trigger: u8,
    pub right_trigger: u8,
    pub left_stick_x: i16,
    pub left_stick_y: i16,
    pub right_stick_x: i16,
    pub right_stick_y: i16,
}

#[derive(Clone, Copy, Debug, PartialEq, Eq, Structural)]
pub struct ControllerDescriptor {
    pub ty: ControllerType,
    pub supported_buttons: ControllerButtons,
    pub capabilities: ControllerCapabilities,
}

/// The held state at one moment. Keys and mouse buttons stand in the order in
/// which they were pressed, which matters for combinations such as Ctrl and a click.
#[derive(Clone, Debug, PartialEq)]
pub struct HeldInputSnapshot {
    pub keys: Vec<HeldKey>,
    pub mouse_buttons: Vec<MouseButton>,
    pub touches: BTreeMap<u32, HeldTouch>,
    pub controller_descriptors: [Option<ControllerDescriptor>; 16],
    pub controllers: [Option<ControllerInputState>; 16],
}

/// The held state as a mathematical value.
#[verifier::ext_equal]
pub struct HeldInput {
    pub keys: Seq<HeldKey>,
    pub mouse_buttons: Seq<MouseButton>,
    pub touches: Map<u32, HeldTouch>,
    pub controller_descriptors: Seq<Option<ControllerDescriptor>>,
    pub controllers: Seq<Option<ControllerInputState>>,
}

impl View for HeldInputSnapshot {
    type V = HeldInput;

    open spec fn view(&self) -> HeldInput {
        HeldInput {
            keys: self.keys@,
            mouse_buttons: self.mouse_buttons@,
            touches: self.touches@,
            controller_descriptors: self.controller_descriptors@,
            controllers: self.controllers@,
        }
    }
}

pub open spec fn no_controllers<T>() -> Seq<Option<T>> {
    Seq::new(CONTROLLER_COUNT as nat, |id: int| None)
}

pub open spec fn holds_key(keys: Seq<HeldKey>, key: u16) -> bool {
    exists|i: int| 0 <= i < keys.len() && (#[trigger] keys[i]).key == key
}

/// The held keys after a keyboard event. Every event carries the modifiers in
/// force, so all held keys take them; a key that goes down again keeps its place.
pub open spec fn keys_after(
    keys: Seq<HeldKey>,
    action: KeyAction,
    modifiers: KeyModifiers,
    key: u16,
    flags: KeyFlags,
) -> Seq<HeldKey> {
    let pressed = HeldKey { key, modifiers, flags };
    let refreshed = keys.map_values(
        |held: HeldKey|
            if held.key == key && action == KeyAction::Down {
                pressed
            } else {
                HeldKey { modifiers, ..held }
            },
    );
    match action {
        KeyAction::Down => if holds_key(keys, key) {
            refreshed
        } else {
            refreshed.push(pressed)
        },
        KeyAction::Up => refreshed.filter(|held: HeldKey| held.key != key),
    }
}

pub open spec fn other_than(button: MouseButton) -> spec_fn(MouseButton) -> bool {
    |held: MouseButton| held != button
}

/// The held mouse buttons after a press or a release.
pub open spec fn buttons_after(
    buttons: Seq<MouseButton>,
    action: MouseButtonAction,
    button: MouseButton,
) -> Seq<MouseButton> {
    match action {
        MouseButtonAction::Press => if buttons.contains(button) {
            buttons
        } else {
            buttons.push(button)
        },
        MouseButtonAction::Release => buttons.filter(other_than(button)),
    }
}

/// The touches after a touch event. A move of a finger that is not down is no touch.
pub open spec fn touches_after(
    touches: Map<u32, HeldTouch>,
    pointer_id: u32,
    contact: TouchContact,
    event_type: TouchEventType,
) -> Map<u32, HeldTouch> {
    let touch = HeldTouch { pointer_id, contact };
    match event_type {
        TouchEventType::Down => touches.insert(pointer_id, touch),
        TouchEventType::Up | TouchEventType::Cancel => touches.remove(pointer_id),
        TouchEventType::CancelAll => Map::empty(),
        TouchEventType::Move | TouchEventType::ButtonOnly => if touches.contains_key(pointer_id) {
            touches.insert(pointer_id, touch)
        } else {
            touches
        },
        TouchEventType::Hover | TouchEventType::HoverLeave => touches,
    }
}

/// `slots` with `value` at `id`, unchanged where there is no such controller.
pub open spec fn slot_set<T>(slots: Seq<Option<T>>, id: u8, value: Option<T>) -> Seq<Option<T>> {
    if id < slots.len() {
        slots.update(id as int, value)
    } else {
        slots
    }
}

impl HeldInput {
    /// Nothing is held.
    pub open spec fn nothing() -> HeldInput {
        HeldInput {
            keys: Seq::empty(),
            mouse_buttons: Seq::empty(),
            touches: Map::empty(),
            controller_descriptors: no_controllers(),
            controllers: no_controllers(),
        }
    }

    /// No key and no button is held twice, each touch stands under its own
    /// pointer, and there is one slot for each controller.
    pub open spec fn wf(self) -> bool {
        &&& self.keys.map_values(|held: HeldKey| held.key).no_duplicates()
        &&& self.mouse_buttons.no_duplicates()
        &&& forall|id: u32| #[trigger]
            self.touches.contains_key(id) ==> self.touches[id].pointer_id == id
        &&& self.touches.dom().finite()
        &&& self.controller_descriptors.len() == CONTROLLER_COUNT
        &&& self.controllers.len() == CONTROLLER_COUNT
    }

    /// All held keys have the modifiers in force.
    pub open spec fn same_modifiers(self) -> bool {
        forall|i: int, j: int|
            0 <= i < self.keys.len() && 0 <= j < self.keys.len() ==> (
            #[trigger] self.keys[i]).modifiers == (#[trigger] self.keys[j]).modifiers
    }

    /// The held state after a packet.
    pub open spec fn after(self, packet: InboundPacket) -> HeldInput {
        match packet {
            InboundPacket::Key { action, modifiers, key, flags } => HeldInput {
                keys: keys_after(self.keys, action, modifiers, key, flags),
                ..self
            },
            InboundPacket::MouseButton { action, button } => HeldInput {
                mouse_buttons: buttons_after(self.mouse_buttons, action, button),
                ..self
            },
            InboundPacket::Touch { pointer_id, contact, event_type } => HeldInput {
                touches: touches_after(self.touches, pointer_id, contact, event_type),
                ..self
            },
            InboundPacket::ControllerState { id, state } => HeldInput {
                controllers: slot_set(self.controllers, id, Some(state)),
                ..self
            },
            InboundPacket::ControllerConnected { id, ty, supported_buttons, capabilities } => {
                HeldInput {
                    controller_descriptors: slot_set(
                        self.controller_descriptors,
                        id,
                        Some(ControllerDescriptor { ty, supported_buttons, capabilities }),
                    ),
                    ..self
                }
            },
            InboundPacket::ControllerDisconnected { id } => HeldInput {
                controller_descriptors: slot_set(self.controller_descriptors, id, None),
                controllers: slot_set(self.controllers, id, None),
                ..self
            },
            _ => self,
        }
    }
}

impl HeldInputSnapshot {
    pub fn is_empty(&self) -> (empty: bool)
        ensures
            empty == (self@ =~= HeldInput::nothing()),
    {
        if !self.keys.is_empty() || !self.mouse_buttons.is_empty() || !self.touches.is_empty() {
            assert(!self.touches@.is_empty() ==> self.touches@ != Map::<u32, HeldTouch>::empty());
            return false;
        }
        assert(self.touches@ =~= Map::<u32, HeldTouch>::empty());
        let mut id: usize = 0;
        while id < CONTROLLER_COUNT
            invariant
                id <= CONTROLLER_COUNT,
                forall|i: int|
                    0 <= i < id ==> self.controller_descriptors@[i] is None && self.controllers@[i]
                        is None,
            decreases CONTROLLER_COUNT - id,
        {
            if self.controller_descriptors[id].is_some() || self.controllers[id].is_some() {
                assert(no_controllers::<ControllerDescriptor>()[id as int] is None);
                assert(no_controllers::<ControllerInputState>()[id as int] is None);
                return false;
            }
            id = id + 1;
        }
        assert(self.controller_descriptors@ =~= no_controllers());
        assert(self.controllers@ =~= no_controllers());
        true
    }
}

/// Keeps track of what the user holds.
#[derive(Debug)]
pub struct InputActivityState {
    held: HeldInputSnapshot,
}

impl View for InputActivityState {
    type V = HeldInput;

    closed spec fn view(&self) -> HeldInput {
        self.held@
    }
}

impl Default for InputActivityState {
    fn default() -> (state: Self)
        ensures
            state@ == HeldInput::nothing(),
            state@.wf(),
    {
        let state = InputActivityState {
            held: HeldInputSnapshot {
                keys: Vec::new(),
                mouse_buttons: Vec::new(),
                touches: BTreeMap::new(),
                controller_descriptors: [None; 16],
                controllers: [None; 16],
            },
        };
        assert(state@ =~= HeldInput::nothing());
        state
    }
}

impl InputActivityState {
    /// Takes note of a packet.
    pub fn record(&mut self, packet: &InboundPacket)
        requires
            old(self)@.wf(),
        ensures
            final(self)@ == old(self)@.after(*packet),
            final(self)@.wf(),
    {
        match packet {
            InboundPacket::Key { action, modifiers, key, flags } => {
                self.record_key(*action, *modifiers, *key, *flags);
            },
            InboundPacket::MouseButton { action, button } => {
                self.record_mouse_button(*action, *button);
            },
            InboundPacket::Touch { pointer_id, contact, event_type } => {
                let touch = HeldTouch { pointer_id: *pointer_id, contact: *contact };
                match event_type {
                    TouchEventType::Down => {
                        self.held.touches.insert(*pointer_id, touch);
                    },
                    TouchEventType::Up | TouchEventType::Cancel => {
                        self.held.touches.remove(pointer_id);
                    },
                    TouchEventType::CancelAll => {
                        self.held.touches.clear();
                    },
                    TouchEventType::Move | TouchEventType::ButtonOnly => {
                        if self.held.touches.contains_key(pointer_id) {
                            self.held.touches.insert(*pointer_id, touch);
                        }
                    },
                    TouchEventType::Hover | TouchEventType::HoverLeave => {},
                }
            },
            InboundPacket::ControllerState { id, state } => {
                if (*id as usize) < CONTROLLER_COUNT {
                    self.held.controllers[*id as usize] = Some(*state);
                }
            },
            InboundPacket::ControllerConnected { id, ty, supported_buttons, capabilities } => {
                if (*id as usize) < CONTROLLER_COUNT {
                    self.held.controller_descriptors[*id as usize] =
                    Some(
                        ControllerDescriptor {
                            ty: *ty,
                            supported_buttons: *supported_buttons,
                            capabilities: *capabilities,
                        },
                    );
                }
            },
            InboundPacket::ControllerDisconnected { id } => {
                if (*id as usize) < CONTROLLER_COUNT {
                    self.held.controller_descriptors[*id as usize] = None;
                    self.held.controllers[*id as usize] = None;
                }
            },
            _ => {},
        }
        assert(self@ =~= old(self)@.after(*packet));
    }

    fn record_key(&mut self, action: KeyAction, modifiers: KeyModifiers, key: u16, flags: KeyFlags)
        requires
            old(self)@.wf(),
        ensures
            final(self)@ == (HeldInput {
                keys: keys_after(old(self)@.keys, action, modifiers, key, flags),
                ..old(self)@
            }),
            final(self)@.wf(),
    {
        let ghost before = self.held.keys@;
        let pressed = HeldKey { key, modifiers, flags };
        let mut found: bool = false;
        let mut keys: Vec<HeldKey> = Vec::new();
        let mut i: usize = 0;
        let ghost refresh = |held: HeldKey|
            if held.key == key && action == KeyAction::Down {
                pressed
            } else {
                HeldKey { modifiers, ..held }
            };
        let ghost keep = |held: HeldKey| held.key != key;
        while i < self.held.keys.len()
            invariant
                i <= self.held.keys@.len(),
                self.held == old(self).held,
                before == self.held.keys@,
                pressed == (HeldKey { key, modifiers, flags }),
                refresh == (|held: HeldKey|
                    if held.key == key && action == KeyAction::Down {
                        pressed
                    } else {
                        HeldKey { modifiers, ..held }
                    }),
                keep == (|held: HeldKey| held.key != key),
                found == exists|k: int| 0 <= k < i && (#[trigger] before[k]).key == key,
                action == KeyAction::Down ==> keys@ == before.take(i as int).map_values(refresh),
                action == KeyAction::Up ==> keys@ == before.take(i as int).map_values(
                    refresh,
                ).filter(keep),
            decreases self.held.keys.len() - i,
        {
            let held: HeldKey = self.held.keys[i];
            let same: bool = held.key == key;
            let next = match action {
                KeyAction::Down => if same {
                    pressed
                } else {
                    HeldKey { key: held.key, modifiers, flags: held.flags }
                },
                KeyAction::Up => HeldKey { key: held.key, modifiers, flags: held.flags },
            };
            proof {
                let shorter = before.take(i as int).map_values(refresh);
                let longer = before.take(i + 1).map_values(refresh);
                assert(next == refresh(held));
                assert(longer =~= shorter.push(next));
                let all = before.map_values(refresh);
                assert(all.take(i as int) =~= shorter);
                assert(all.take(i + 1) =~= longer);
                lemma_filter_step(all, keep, i as int);
                assert(before[i as int] == held);
            }
            match action {
                KeyAction::Down => {
                    keys.push(next);
                },
                KeyAction::Up => {
                    if !same {
                        keys.push(next);
                    }
                },
            }
            if same {
                found = true;
            }
            i = i + 1;
        }
        assert(before.take(i as int) =~= before);
        assert(found == holds_key(before, key));
        match action {
            KeyAction::Down => {
                if !found {
                    keys.push(pressed);
                }
            },
            KeyAction::Up => {},
        }
        self.held.keys = keys;
        proof {
            let after = keys_after(before, action, modifiers, key, flags);
            assert(self.held.keys@ =~= after);
            assert(self@ =~= HeldInput { keys: after, ..old(self)@ });
            lemma_keys_stay_distinct(before, action, modifiers, key, flags);
        }
    }

    fn record_mouse_button(&mut self, action: MouseButtonAction, button: MouseButton)
        requires
            old(self)@.wf(),
        ensures
            final(self)@ == (HeldInput {
                mouse_buttons: buttons_after(old(self)@.mouse_buttons, action, button),
                ..old(self)@
            }),
            final(self)@.wf(),
    {
        let ghost before = self.held.mouse_buttons@;
        let ghost keep = other_than(button);
        let mut found: bool = false;
        let mut others: Vec<MouseButton> = Vec::new();
        let mut i: usize = 0;
        while i < self.held.mouse_buttons.len()
            invariant
                i <= self.held.mouse_buttons@.len(),
                self.held == old(self).held,
                before == self.held.mouse_buttons@,
                keep == other_than(button),
                found == before.take(i as int).contains(button),
                others@ == before.take(i as int).filter(keep),
            decreases self.held.mouse_buttons.len() - i,
        {
            let held: MouseButton = self.held.mouse_buttons[i];
            proof {
                let shorter = before.take(i as int);
                let longer = before.take(i + 1);
                lemma_filter_step(before, keep, i as int);
                assert(longer =~= shorter.push(held));
                assert(longer[i as int] == held);
                assert forall|b: MouseButton| shorter.contains(b) implies longer.contains(b) by {
                    let k = choose|k: int| 0 <= k < shorter.len() && shorter[k] == b;
                    assert(longer[k] == b);
                }
            }
            if held == button {
                found = true;
            } else {
                others.push(held);
            }
            i = i + 1;
        }
        assert(before.take(i as int) =~= before);
        match action {
            MouseButtonAction::Press => {
                if !found {
                    self.held.mouse_buttons.push(button);
                }
            },
            MouseButtonAction::Release => {
                self.held.mouse_buttons = others;
            },
        }
        proof {
            let after = buttons_after(before, action, button);
            assert(self.held.mouse_buttons@ =~= after);
            assert(self@ =~= HeldInput { mouse_buttons: after, ..old(self)@ });
            let same = |held: MouseButton| held;
            assert(before.map_values(same) =~= before);
            lemma_filter_keeps_distinct(before, keep, same);
            assert(before.filter(keep).map_values(same) =~= before.filter(keep));
        }
    }

    /// The held state, free of what is recorded later.
    pub fn snapshot(&self) -> (snapshot: HeldInputSnapshot)
        ensures
            snapshot@ == self@,
    {
        let keys: Vec<HeldKey> = self.held.keys.clone();
        let mouse_buttons: Vec<MouseButton> = self.held.mouse_buttons.clone();
        assert(keys@ =~= self.held.keys@);
        assert(mouse_buttons@ =~= self.held.mouse_buttons@);
        HeldInputSnapshot {
            keys,
            mouse_buttons,
            touches: self.held.touches.clone(),
            controller_descriptors: self.held.controller_descriptors,
            controllers: self.held.controllers,
        }
    }
}

/// Keyboard events never make a key held twice.
proof fn lemma_keys_stay_distinct(
    keys: Seq<HeldKey>,
    action: KeyAction,
    modifiers: KeyModifiers,
    key: u16,
    flags: KeyFlags,
)
    requires
        keys.map_values(|held: HeldKey| held.key).no_duplicates(),
    ensures
        keys_after(keys, action, modifiers, key, flags).map_values(
            |held: HeldKey| held.key,
        ).no_duplicates(),
{
    let of = |held: HeldKey| held.key;
    let pressed = HeldKey { key, modifiers, flags };
    let refreshed = keys.map_values(
        |held: HeldKey|
            if held.key == key && action == KeyAction::Down {
                pressed
            } else {
                HeldKey { modifiers, ..held }
            },
    );
    assert(refreshed.map_values(of) =~= keys.map_values(of));
    match action {
        KeyAction::Down => {
            if !holds_key(keys, key) {
                let after = refreshed.push(pressed).map_values(of);
                assert(after =~= keys.map_values(of).push(key));
                assert forall|i: int| 0 <= i < keys.len() implies #[trigger] keys[i].key != key by {
                    assert(!(0 <= i < keys.len() && keys[i].key == key));
                }
            }
        },
        KeyAction::Up => {
            lemma_filter_keeps_distinct(refreshed, |held: HeldKey| held.key != key, of);
        },
    }
}

/// A key that was released is held no longer.
pub proof fn law_released_key_is_forgotten(
    keys: Seq<HeldKey>,
    modifiers: KeyModifiers,
    key: u16,
    flags: KeyFlags,
)
    ensures
        !holds_key(keys_after(keys, KeyAction::Up, modifiers, key, flags), key),
{
    let after = keys_after(keys, KeyAction::Up, modifiers, key, flags);
    let refreshed = keys.map_values(
        |held: HeldKey|
            if held.key == key && KeyAction::Up == KeyAction::Down {
                HeldKey { key, modifiers, flags }
            } else {
                HeldKey { modifiers, ..held }
            },
    );
    let keep = |held: HeldKey| held.key != key;
    assert(after == refreshed.filter(keep));
    assert forall|i: int| 0 <= i < after.len() implies (#[trigger] after[i]).key != key by {
        refreshed.lemma_filter_pred(keep, i);
    }
}

/// After a key went down it is held, with the modifiers and flags of that event.
pub proof fn law_pressed_key_is_held(
    keys: Seq<HeldKey>,
    modifiers: KeyModifiers,
    key: u16,
    flags: KeyFlags,
)
    ensures
        keys_after(keys, KeyAction::Down, modifiers, key, flags).contains(
            HeldKey { key, modifiers, flags },
        ),
{
    let after = keys_after(keys, KeyAction::Down, modifiers, key, flags);
    if holds_key(keys, key) {
        let i = choose|i: int| 0 <= i < keys.len() && (#[trigger] keys[i]).key == key;
        assert(after[i] == HeldKey { key, modifiers, flags });
    } else {
        assert(after[keys.len() as int] == HeldKey { key, modifiers, flags });
    }
}

/// All held keys carry the modifiers of the newest keyboard event, so that a
/// released modifier is not replayed with a key that is still down.
pub proof fn law_modifiers_are_current(
    keys: Seq<HeldKey>,
    action: KeyAction,
    modifiers: KeyModifiers,
    key: u16,
    flags: KeyFlags,
)
    ensures
        forall|i: int|
            #![trigger keys_after(keys, action, modifiers, key, flags)[i]]
            0 <= i < keys_after(keys, action, modifiers, key, flags).len() ==> keys_after(
                keys,
                action,
                modifiers,
                key,
                flags,
            )[i].modifiers == modifiers,
{
    let after = keys_after(keys, action, modifiers, key, flags);
    let pressed = HeldKey { key, modifiers, flags };
    let refreshed = keys.map_values(
        |held: HeldKey|
            if held.key == key && action == KeyAction::Down {
                pressed
            } else {
                HeldKey { modifiers, ..held }
            },
    );
    if action == KeyAction::Up {
        let keep = |held: HeldKey| held.key != key;
        assert(after == refreshed.filter(keep));
        assert forall|i: int| 0 <= i < after.len() implies (#[trigger] after[i]).modifiers
            == modifiers by {
            refreshed.lemma_filter_contains_rev(keep, after[i]);
        }
    }
}

/// No packet makes held keys differ in their modifiers.
pub proof fn law_held_keys_share_modifiers(held: HeldInput, packet: InboundPacket)
    ensures
        HeldInput::nothing().same_modifiers(),
        held.same_modifiers() ==> held.after(packet).same_modifiers(),
{
    if let InboundPacket::Key { action, modifiers, key, flags } = packet {
        law_modifiers_are_current(held.keys, action, modifiers, key, flags);
    }
}

/// A key that is pressed again keeps its place, and a newly pressed one comes last.
pub proof fn law_press_order_is_kept(
    keys: Seq<HeldKey>,
    modifiers: KeyModifiers,
    key: u16,
    flags: KeyFlags,
)
    ensures
        keys_after(keys, KeyAction::Down, modifiers, key, flags).map_values(
            |held: HeldKey| held.key,
        ) == (if holds_key(keys, key) {
            keys.map_values(|held: HeldKey| held.key)
        } else {
            keys.map_values(|held: HeldKey| held.key).push(key)
        }),
{
    let of = |held: HeldKey| held.key;
    let after = keys_after(keys, KeyAction::Down, modifiers, key, flags);
    if holds_key(keys, key) {
        assert(after.map_values(of) =~= keys.map_values(of));
    } else {
        assert(after.map_values(of) =~= keys.map_values(of).push(key));
    }
}

/// A touch that is down is held with its latest contact, under its own pointer, until it
/// goes up or is cancelled. A pointer that hovers touches nothing, one that moves
/// without being down begins nothing, and no pointer disturbs another.
pub proof fn law_touches_are_held_as_they_are(
    touches: Map<u32, HeldTouch>,
    pointer_id: u32,
    contact: TouchContact,
    other: u32,
)
    requires
        other != pointer_id,
    ensures
        ({
            let after = |event_type: TouchEventType|
                touches_after(touches, pointer_id, contact, event_type);
            let held = touches.contains_key(pointer_id);
            let touch = HeldTouch { pointer_id, contact };
            &&& after(TouchEventType::Down).contains_key(pointer_id) && after(
                TouchEventType::Down,
            )[pointer_id] == touch
            &&& held ==> after(TouchEventType::Move)[pointer_id] == touch && after(
                TouchEventType::ButtonOnly,
            )[pointer_id] == touch
            &&& after(TouchEventType::Move).contains_key(pointer_id) == held
            &&& after(TouchEventType::ButtonOnly).contains_key(pointer_id) == held
            &&& !after(TouchEventType::Up).contains_key(pointer_id)
            &&& !after(TouchEventType::Cancel).contains_key(pointer_id)
            &&& after(TouchEventType::Hover) == touches
            &&& after(TouchEventType::HoverLeave) == touches
            &&& !after(TouchEventType::CancelAll).contains_key(pointer_id)
            &&& !after(TouchEventType::CancelAll).contains_key(other)
            &&& forall|event_type: TouchEventType| #[trigger]
                touches_after(touches, pointer_id, contact, event_type).contains_key(other) == (
                touches.contains_key(other) && !(event_type is CancelAll))
            &&& forall|event_type: TouchEventType|
                #![trigger touches_after(touches, pointer_id, contact, event_type)]
                touches.contains_key(other) && !(event_type is CancelAll) ==> touches_after(
                    touches,
                    pointer_id,
                    contact,
                    event_type,
                )[other] == touches[other]
        }),
{
}

/// A controller is held with its latest state, apart from what it said of itself when it
/// came, and loses both when it goes. No controller disturbs another.
pub proof fn law_controllers_are_held_as_they_are(
    held: HeldInput,
    id: u8,
    other: u8,
    state: ControllerInputState,
    ty: ControllerType,
    supported_buttons: ControllerButtons,
    capabilities: ControllerCapabilities,
)
    requires
        held.wf(),
        id < 16,
        other < 16,
        other != id,
    ensures
        ({
            let at = id as int;
            let moved = held.after(InboundPacket::ControllerState { id, state });
            let came = held.after(
                InboundPacket::ControllerConnected { id, ty, supported_buttons, capabilities },
            );
            let gone = held.after(InboundPacket::ControllerDisconnected { id });
            &&& moved.controllers[at] == Some(state)
            &&& moved.controller_descriptors == held.controller_descriptors
            &&& came.controller_descriptors[at] == Some(
                ControllerDescriptor { ty, supported_buttons, capabilities },
            )
            &&& came.controllers == held.controllers
            &&& gone.controllers[at] is None && gone.controller_descriptors[at] is None
            &&& moved.controllers[other as int] == held.controllers[other as int]
            &&& came.controller_descriptors[other as int] == held.controller_descriptors[
                other as int
            ]
            &&& gone.controllers[other as int] == held.controllers[other as int]
            &&& gone.controller_descriptors[other as int] == held.controller_descriptors[
                other as int
            ]
        }),
{
}

/// A key keeps its name and its flags while other keys are pressed and released.
pub proof fn law_held_keys_keep_their_flags(
    keys: Seq<HeldKey>,
    action: KeyAction,
    modifiers: KeyModifiers,
    key: u16,
    flags: KeyFlags,
    i: int,
)
    requires
        0 <= i < keys.len(),
        keys[i].key != key,
    ensures
        keys_after(keys, action, modifiers, key, flags).contains(
            HeldKey { key: keys[i].key, modifiers, flags: keys[i].flags },
        ),
{
    let pressed = HeldKey { key, modifiers, flags };
    let refreshed = keys.map_values(
        |held: HeldKey|
            if held.key == key && action == KeyAction::Down {
                pressed
            } else {
                HeldKey { modifiers, ..held }
            },
    );
    let kept = HeldKey { key: keys[i].key, modifiers, flags: keys[i].flags };
    assert(refreshed[i] == kept);
    match action {
        KeyAction::Down => {
            let after = keys_after(keys, action, modifiers, key, flags);
            assert(after[i] == kept);
        },
        KeyAction::Up => {
            refreshed.lemma_filter_contains(|held: HeldKey| held.key != key, i);
        },
    }
}

/// Only keys, mouse buttons, touches and controllers are held. Everything else passes
/// by, and each of these leaves the others alone.
pub proof fn law_what_is_held(held: HeldInput, packet: InboundPacket)
    ensures
        ({
            let after = held.after(packet);
            &&& !(packet is Key) ==> after.keys == held.keys
            &&& !(packet is MouseButton) ==> after.mouse_buttons == held.mouse_buttons
            &&& !(packet is Touch) ==> after.touches == held.touches
            &&& !(packet is ControllerConnected) && !(packet is ControllerDisconnected)
                ==> after.controller_descriptors == held.controller_descriptors
            &&& !(packet is ControllerState) && !(packet is ControllerDisconnected)
                ==> after.controllers == held.controllers
        }),
        ({
            let nothing = HeldInput::nothing();
            &&& nothing.keys.len() == 0 && nothing.mouse_buttons.len() == 0
            &&& nothing.touches == Map::<u32, HeldTouch>::empty()
            &&& nothing.controllers.len() == 16 && nothing.controller_descriptors.len() == 16
            &&& forall|id: int|
                0 <= id < 16 ==> #[trigger] nothing.controllers[id] is None
                    && nothing.controller_descriptors[id] is None
        }),
{
}

/// Every controller has a bit of its own: a set with only that bit holds that controller
/// alone, and the empty set holds none.
pub proof fn law_controllers_have_bits_of_their_own(id: u8, other: u8)
    requires
        id < 16,
        other < 16,
    ensures
        (ActiveGamepads { bits: gamepad_bit(id) }).has(other) <==> id == other,
        !(ActiveGamepads { bits: 0 }).has(id),
        (ActiveGamepads { bits: 0xffff }).has(id),
        gamepad_bit(0) == 1,
        id < 15 ==> gamepad_bit((id + 1) as u8) == 2 * gamepad_bit(id),
{
    assert((1u16 << id) & (1u16 << other) != 0 <==> id == other) by (bit_vector)
        requires
            id < 16,
            other < 16,
    ;
    assert(0u16 & (1u16 << id) == 0) by (bit_vector);
    assert(0xffffu16 & (1u16 << id) != 0) by (bit_vector)
        requires
            id < 16,
    ;
    assert(1u16 << 0u8 == 1) by (bit_vector);
    if id < 15 {
        let next = (id + 1) as u8;
        assert(1u16 << next == 2 * (1u16 << id)) by (bit_vector)
            requires
                id < 15,
                next == id + 1,
        ;
    }
}

} // verus!

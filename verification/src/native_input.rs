//! Turns browser packets, and the held state after a reconnect, into commands
//! for the native stream.

use crate::input::{
    holds_key, keys_after, no_controllers, ActiveGamepads, ControllerButtons,
    ControllerDescriptor, ControllerInputState, GeneralClientMessage, HeldInput,
    HeldInputSnapshot, HeldKey, HeldTouch, InboundPacket, InputActivityState, KeyAction,
    KeyFlags, KeyModifiers, MouseButton, MouseButtonAction, TouchEventType, CONTROLLER_COUNT,
};
use vstd::prelude::*;

verus! {

broadcast use vstd::std_specs::btree::group_btree_axioms;

/// One call on the native stream.
#[allow(inconsistent_fields)]
#[derive(Clone, Debug, PartialEq, Eq)]
pub enum NativeCommand {
    MousePosition { x: i16, y: i16, reference_width: i16, reference_height: i16 },
    MouseButton { action: MouseButtonAction, button: MouseButton },
    MouseMove { delta_x: i16, delta_y: i16 },
    HighResScroll { delta: i16 },
    HighResHorizontalScroll { delta: i16 },
    Scroll { delta: i8 },
    HorizontalScroll { delta: i8 },
    Key { code: i16, action: KeyAction, modifiers: KeyModifiers, flags: KeyFlags },
    Text { text: String },
    Touch { touch: HeldTouch, event_type: TouchEventType },
    ControllerArrival { id: u8, active_gamepads: ActiveGamepads, descriptor: ControllerDescriptor },
    ControllerState { id: u8, active_gamepads: ActiveGamepads, state: ControllerInputState },
}

/// Why a packet reached no native stream.
#[derive(Clone, Copy, Debug, PartialEq, Eq, Structural)]
pub enum DropReason {
    GamepadOutOfRange,
    ReplayPending,
    MissingStream,
    GamepadNotRegistered,
}

/// What to do about a packet.
#[derive(Clone, Debug, PartialEq, Eq)]
pub enum Dispatch {
    Stop,
    Dropped(DropReason),
    Send(Vec<NativeCommand>),
}

/// [`Dispatch`] as a mathematical value.
#[verifier::ext_equal]
pub enum Routing {
    Stop,
    Dropped(DropReason),
    Send(Seq<NativeCommand>),
}

impl View for Dispatch {
    type V = Routing;

    open spec fn view(&self) -> Routing {
        match self {
            Dispatch::Stop => Routing::Stop,
            Dispatch::Dropped(reason) => Routing::Dropped(*reason),
            Dispatch::Send(commands) => Routing::Send(commands@),
        }
    }
}

/// A controller with every button and axis at rest.
pub open spec fn neutral() -> ControllerInputState {
    ControllerInputState {
        buttons: ControllerButtons { bits: 0 },
        left_trigger: 0,
        right_trigger: 0,
        left_stick_x: 0,
        left_stick_y: 0,
        right_stick_x: 0,
        right_stick_y: 0,
    }
}

fn neutral_state() -> (state: ControllerInputState)
    ensures
        state == neutral(),
{
    ControllerInputState {
        buttons: ControllerButtons { bits: 0 },
        left_trigger: 0,
        right_trigger: 0,
        left_stick_x: 0,
        left_stick_y: 0,
        right_stick_x: 0,
        right_stick_y: 0,
    }
}

/// The controllers attached after a packet.
pub open spec fn gamepads_after(
    gamepads: ActiveGamepads,
    packet: InboundPacket,
) -> ActiveGamepads {
    match packet {
        InboundPacket::ControllerConnected { id, .. } if id < CONTROLLER_COUNT => ActiveGamepads {
            bits: gamepads.bits | crate::input::gamepad_bit(id),
        },
        InboundPacket::ControllerDisconnected { id } if id < CONTROLLER_COUNT => ActiveGamepads {
            bits: gamepads.bits & !crate::input::gamepad_bit(id),
        },
        _ => gamepads,
    }
}

/// `command` as the only one, or none at all.
pub open spec fn only_if(condition: bool, command: NativeCommand) -> Seq<NativeCommand> {
    if condition {
        seq![command]
    } else {
        Seq::empty()
    }
}

/// The commands that a packet stands for. A scroll goes out by axis, vertical
/// first, and only along an axis that moved.
pub open spec fn commands_for(packet: InboundPacket, gamepads: ActiveGamepads) -> Seq<
    NativeCommand,
> {
    match packet {
        InboundPacket::MousePosition { x, y, reference_width, reference_height } => seq![
            NativeCommand::MousePosition { x, y, reference_width, reference_height },
        ],
        InboundPacket::MouseButton { action, button } => seq![
            NativeCommand::MouseButton { action, button },
        ],
        InboundPacket::MouseMove { delta_x, delta_y } => seq![
            NativeCommand::MouseMove { delta_x, delta_y },
        ],
        InboundPacket::HighResScroll { delta_x, delta_y } => only_if(
            delta_y != 0,
            NativeCommand::HighResScroll { delta: delta_y },
        ) + only_if(delta_x != 0, NativeCommand::HighResHorizontalScroll { delta: delta_x }),
        InboundPacket::Scroll { delta_x, delta_y } => only_if(
            delta_y != 0,
            NativeCommand::Scroll { delta: delta_y },
        ) + only_if(delta_x != 0, NativeCommand::HorizontalScroll { delta: delta_x }),
        InboundPacket::Key { action, modifiers, key, flags } => seq![
            NativeCommand::Key { code: key as i16, action, modifiers, flags },
        ],
        InboundPacket::Text { text } => seq![NativeCommand::Text { text }],
        InboundPacket::Touch { pointer_id, contact, event_type } => seq![
            NativeCommand::Touch { touch: HeldTouch { pointer_id, contact }, event_type },
        ],
        InboundPacket::ControllerConnected { id, ty, supported_buttons, capabilities } => seq![
            NativeCommand::ControllerArrival {
                id,
                active_gamepads: gamepads,
                descriptor: ControllerDescriptor { ty, supported_buttons, capabilities },
            },
        ],
        InboundPacket::ControllerDisconnected { id } => seq![
            NativeCommand::ControllerState { id, active_gamepads: gamepads, state: neutral() },
        ],
        InboundPacket::ControllerState { id, state } => seq![
            NativeCommand::ControllerState { id, active_gamepads: gamepads, state },
        ],
        InboundPacket::General { .. }
        | InboundPacket::Rtt { .. }
        | InboundPacket::RequestVideoIdr => Seq::empty(),
    }
}

/// Attaches or detaches a controller that the protocol cannot address.
pub open spec fn names_no_gamepad(packet: InboundPacket) -> bool {
    match packet {
        InboundPacket::ControllerConnected { id, .. } => id >= CONTROLLER_COUNT,
        InboundPacket::ControllerDisconnected { id } => id >= CONTROLLER_COUNT,
        _ => false,
    }
}

/// Where a packet goes, given the controllers attached after it.
pub open spec fn routing(
    packet: InboundPacket,
    gamepads: ActiveGamepads,
    replay_pending: bool,
    stream_present: bool,
) -> Routing {
    if packet is General {
        Routing::Stop
    } else if names_no_gamepad(packet) {
        Routing::Dropped(DropReason::GamepadOutOfRange)
    } else if replay_pending {
        Routing::Dropped(DropReason::ReplayPending)
    } else if !stream_present {
        Routing::Dropped(DropReason::MissingStream)
    } else {
        match packet {
            InboundPacket::ControllerState { id, .. } if id >= CONTROLLER_COUNT => Routing::Dropped(
                DropReason::GamepadOutOfRange,
            ),
            InboundPacket::ControllerState { id, .. } if !gamepads.has(id) => Routing::Dropped(
                DropReason::GamepadNotRegistered,
            ),
            _ => Routing::Send(commands_for(packet, gamepads)),
        }
    }
}

/// The input side of a stream: what is held, which controllers are attached,
/// and whether a replay on a new native stream is still due.
#[derive(Debug)]
pub struct StreamInput {
    pub activity: InputActivityState,
    pub active_gamepads: ActiveGamepads,
    pub replay_pending: bool,
}

impl StreamInput {
    pub fn new() -> (input: StreamInput)
        ensures
            input.activity@ == HeldInput::nothing(),
            input.activity@.wf(),
            input.active_gamepads.bits == 0,
            !input.replay_pending,
    {
        StreamInput {
            activity: InputActivityState::default(),
            active_gamepads: ActiveGamepads::empty(),
            replay_pending: false,
        }
    }

    /// Takes a packet in. Held state and attached controllers follow it even
    /// where it goes no further, so that a replay knows about it.
    pub fn on_packet(&mut self, packet: InboundPacket, stream_present: bool) -> (dispatch: Dispatch)
        requires
            old(self).activity@.wf(),
        ensures
            final(self).activity@.wf(),
            final(self).replay_pending == old(self).replay_pending,
            final(self).active_gamepads == gamepads_after(old(self).active_gamepads, packet),
            final(self).activity@ == (if packet is General {
                old(self).activity@
            } else {
                old(self).activity@.after(packet)
            }),
            dispatch@ == routing(
                packet,
                final(self).active_gamepads,
                old(self).replay_pending,
                stream_present,
            ),
    {
        if let InboundPacket::General { message } = &packet {
            match message {
                GeneralClientMessage::Stop => {
                    return Dispatch::Stop;
                },
            }
        }
        self.activity.record(&packet);
        match &packet {
            InboundPacket::ControllerConnected { id, .. } => {
                if *id as usize >= CONTROLLER_COUNT {
                    return Dispatch::Dropped(DropReason::GamepadOutOfRange);
                }
                self.active_gamepads.insert(*id);
            },
            InboundPacket::ControllerDisconnected { id } => {
                if *id as usize >= CONTROLLER_COUNT {
                    return Dispatch::Dropped(DropReason::GamepadOutOfRange);
                }
                self.active_gamepads.remove(*id);
            },
            _ => {},
        }
        // The new stream is visible before its replay is through. Nothing newer
        // may overtake the replay, and what is held is noted above.

        if self.replay_pending {
            return Dispatch::Dropped(DropReason::ReplayPending);
        }
        if !stream_present {
            return Dispatch::Dropped(DropReason::MissingStream);
        }
        if let InboundPacket::ControllerState { id, .. } = &packet {
            if *id as usize >= CONTROLLER_COUNT {
                return Dispatch::Dropped(DropReason::GamepadOutOfRange);
            }
            if !self.active_gamepads.contains(*id) {
                return Dispatch::Dropped(DropReason::GamepadNotRegistered);
            }
        }
        Dispatch::Send(packet_commands(packet, self.active_gamepads))
    }
}

fn packet_commands(packet: InboundPacket, active_gamepads: ActiveGamepads) -> (commands: Vec<
    NativeCommand,
>)
    ensures
        commands@ == commands_for(packet, active_gamepads),
{
    let mut commands: Vec<NativeCommand> = Vec::new();
    match packet {
        InboundPacket::MousePosition { x, y, reference_width, reference_height } => {
            commands.push(NativeCommand::MousePosition { x, y, reference_width, reference_height });
        },
        InboundPacket::MouseButton { action, button } => {
            commands.push(NativeCommand::MouseButton { action, button });
        },
        InboundPacket::MouseMove { delta_x, delta_y } => {
            commands.push(NativeCommand::MouseMove { delta_x, delta_y });
        },
        InboundPacket::HighResScroll { delta_x, delta_y } => {
            if delta_y != 0 {
                commands.push(NativeCommand::HighResScroll { delta: delta_y });
            }
            if delta_x != 0 {
                commands.push(NativeCommand::HighResHorizontalScroll { delta: delta_x });
            }
        },
        InboundPacket::Scroll { delta_x, delta_y } => {
            if delta_y != 0 {
                commands.push(NativeCommand::Scroll { delta: delta_y });
            }
            if delta_x != 0 {
                commands.push(NativeCommand::HorizontalScroll { delta: delta_x });
            }
        },
        InboundPacket::Key { action, modifiers, key, flags } => {
            commands.push(NativeCommand::Key { code: key as i16, action, modifiers, flags });
        },
        InboundPacket::Text { text } => {
            commands.push(NativeCommand::Text { text });
        },
        InboundPacket::Touch { pointer_id, contact, event_type } => {
            commands.push(
                NativeCommand::Touch { touch: HeldTouch { pointer_id, contact }, event_type },
            );
        },
        InboundPacket::ControllerConnected { id, ty, supported_buttons, capabilities } => {
            commands.push(
                NativeCommand::ControllerArrival {
                    id,
                    active_gamepads,
                    descriptor: ControllerDescriptor { ty, supported_buttons, capabilities },
                },
            );
        },
        InboundPacket::ControllerDisconnected { id } => {
            commands.push(
                NativeCommand::ControllerState { id, active_gamepads, state: neutral_state() },
            );
        },
        InboundPacket::ControllerState { id, state } => {
            commands.push(NativeCommand::ControllerState { id, active_gamepads, state });
        },
        InboundPacket::General { .. }
        | InboundPacket::Rtt { .. }
        | InboundPacket::RequestVideoIdr => {},
    }
    commands
}

/// Resting states for the first `count` controllers that the new stream was
/// set up with and that have gone since.
pub open spec fn departures(
    active: ActiveGamepads,
    configured: ActiveGamepads,
    count: nat,
) -> Seq<NativeCommand>
    decreases count,
{
    if count == 0 {
        Seq::empty()
    } else {
        let id = (count - 1) as u8;
        departures(active, configured, (count - 1) as nat) + only_if(
            configured.has(id) && !active.has(id),
            NativeCommand::ControllerState { id, active_gamepads: active, state: neutral() },
        )
    }
}

/// Announcements of the first `count` controllers that are attached and have
/// told what they are.
pub open spec fn arrivals(
    descriptors: Seq<Option<ControllerDescriptor>>,
    active: ActiveGamepads,
    count: nat,
) -> Seq<NativeCommand>
    decreases count,
{
    if count == 0 {
        Seq::empty()
    } else {
        let id = (count - 1) as u8;
        arrivals(descriptors, active, (count - 1) as nat) + only_if(
            descriptors[count - 1] is Some && active.has(id),
            NativeCommand::ControllerArrival {
                id,
                active_gamepads: active,
                descriptor: descriptors[count - 1]->0,
            },
        )
    }
}

/// The last states of the first `count` controllers that are attached and have sent one.
pub open spec fn states(
    controllers: Seq<Option<ControllerInputState>>,
    active: ActiveGamepads,
    count: nat,
) -> Seq<NativeCommand>
    decreases count,
{
    if count == 0 {
        Seq::empty()
    } else {
        let id = (count - 1) as u8;
        states(controllers, active, (count - 1) as nat) + only_if(
            controllers[count - 1] is Some && active.has(id),
            NativeCommand::ControllerState {
                id,
                active_gamepads: active,
                state: controllers[count - 1]->0,
            },
        )
    }
}

pub open spec fn key_down(held: HeldKey) -> NativeCommand {
    NativeCommand::Key {
        code: held.key as i16,
        action: KeyAction::Down,
        modifiers: held.modifiers,
        flags: held.flags,
    }
}

pub open spec fn button_press(button: MouseButton) -> NativeCommand {
    NativeCommand::MouseButton { action: MouseButtonAction::Press, button }
}

pub open spec fn touch_down(touch: HeldTouch) -> NativeCommand {
    NativeCommand::Touch { touch, event_type: TouchEventType::Down }
}

/// `ids` are the pointers of `touches`, in ascending order.
pub open spec fn ascending_pointers(ids: Seq<u32>, touches: Map<u32, HeldTouch>) -> bool {
    &&& forall|i: int, j: int| 0 <= i < j < ids.len() ==> ids[i] < ids[j]
    &&& ids.to_set() == touches.dom()
}

/// The replay of `held`, with its touches in the order `ids`: controllers that
/// left, keys and buttons in the order of their presses, touches, then the
/// attached controllers, announced before their states.
pub open spec fn replay_in_order(
    held: HeldInput,
    active: ActiveGamepads,
    configured: ActiveGamepads,
    ids: Seq<u32>,
) -> Seq<NativeCommand> {
    departures(active, configured, CONTROLLER_COUNT as nat) + held.keys.map_values(
        |key: HeldKey| key_down(key),
    ) + held.mouse_buttons.map_values(|button: MouseButton| button_press(button)) + ids.map_values(
        |id: u32| touch_down(held.touches[id]),
    ) + arrivals(held.controller_descriptors, active, CONTROLLER_COUNT as nat) + states(
        held.controllers,
        active,
        CONTROLLER_COUNT as nat,
    )
}

/// Whether a new native stream has anything to be told.
pub open spec fn replay_needed(
    held: HeldInput,
    active: ActiveGamepads,
    configured: ActiveGamepads,
) -> bool {
    !(held =~= HeldInput::nothing()) || active != configured
}

/// [`replay_needed`], computed.
pub fn needs_replay(
    held: &HeldInputSnapshot,
    active: ActiveGamepads,
    configured: ActiveGamepads,
) -> (needed: bool)
    ensures
        needed == replay_needed(held@, active, configured),
{
    !held.is_empty() || active != configured
}

/// The commands that bring a new native stream, set up with the controllers
/// `configured`, to the held state.
pub fn replay_commands(
    held: &HeldInputSnapshot,
    active: ActiveGamepads,
    configured: ActiveGamepads,
) -> (commands: Vec<NativeCommand>)
    ensures
        exists|ids: Seq<u32>|
            #![trigger ascending_pointers(ids, held@.touches)]
            ascending_pointers(ids, held@.touches) && commands@ == replay_in_order(
                held@,
                active,
                configured,
                ids,
            ),
{
    let mut commands: Vec<NativeCommand> = Vec::new();
    let mut id: u8 = 0;
    while (id as usize) < CONTROLLER_COUNT
        invariant
            id <= CONTROLLER_COUNT,
            commands@ == departures(active, configured, id as nat),
        decreases CONTROLLER_COUNT - id,
    {
        if configured.contains(id) && !active.contains(id) {
            commands.push(
                NativeCommand::ControllerState {
                    id,
                    active_gamepads: active,
                    state: neutral_state(),
                },
            );
        }
        assert(commands@ =~= departures(active, configured, (id + 1) as nat));
        id = id + 1;
    }
    let ghost left = commands@;
    let ghost down = |key: HeldKey| key_down(key);
    let mut i: usize = 0;
    while i < held.keys.len()
        invariant
            i <= held.keys@.len(),
            down == (|key: HeldKey| key_down(key)),
            commands@ == left + held.keys@.take(i as int).map_values(down),
        decreases held.keys.len() - i,
    {
        let key: HeldKey = held.keys[i];
        assert(held.keys@.take(i + 1).map_values(down) =~= held.keys@.take(i as int).map_values(
            down,
        ).push(key_down(key)));
        commands.push(
            NativeCommand::Key {
                code: key.key as i16,
                action: KeyAction::Down,
                modifiers: key.modifiers,
                flags: key.flags,
            },
        );
        i = i + 1;
    }
    assert(held.keys@.take(i as int) =~= held.keys@);
    let ghost pressed = commands@;
    let ghost press = |button: MouseButton| button_press(button);
    let mut i: usize = 0;
    while i < held.mouse_buttons.len()
        invariant
            i <= held.mouse_buttons@.len(),
            press == (|button: MouseButton| button_press(button)),
            commands@ == pressed + held.mouse_buttons@.take(i as int).map_values(press),
        decreases held.mouse_buttons.len() - i,
    {
        let button: MouseButton = held.mouse_buttons[i];
        assert(held.mouse_buttons@.take(i + 1).map_values(press) =~= held.mouse_buttons@.take(
            i as int,
        ).map_values(press).push(button_press(button)));
        commands.push(NativeCommand::MouseButton { action: MouseButtonAction::Press, button });
        i = i + 1;
    }
    assert(held.mouse_buttons@.take(i as int) =~= held.mouse_buttons@);
    let ghost clicked = commands@;
    let ids: Vec<u32> = sorted_pointers(held);
    let ghost touch = |id: u32| touch_down(held@.touches[id]);
    let mut i: usize = 0;
    while i < ids.len()
        invariant
            i <= ids@.len(),
            touch == (|id: u32| touch_down(held@.touches[id])),
            ids@.to_set() == held.touches@.dom(),
            commands@ == clicked + ids@.take(i as int).map_values(touch),
        decreases ids.len() - i,
    {
        let pointer_id: u32 = ids[i];
        assert(ids@.contains(pointer_id));
        assert(held.touches@.dom().contains(pointer_id));
        if let Some(contact) = held.touches.get(&pointer_id) {
            assert(ids@.take(i + 1).map_values(touch) =~= ids@.take(i as int).map_values(
                touch,
            ).push(touch_down(*contact)));
            commands.push(
                NativeCommand::Touch { touch: *contact, event_type: TouchEventType::Down },
            );
        }
        i = i + 1;
    }
    assert(ids@.take(i as int) =~= ids@);
    let ghost touched = commands@;
    let mut id: u8 = 0;
    while (id as usize) < CONTROLLER_COUNT
        invariant
            id <= CONTROLLER_COUNT,
            commands@ == touched + arrivals(held@.controller_descriptors, active, id as nat),
        decreases CONTROLLER_COUNT - id,
    {
        if let Some(descriptor) = held.controller_descriptors[id as usize] {
            if active.contains(id) {
                commands.push(
                    NativeCommand::ControllerArrival { id, active_gamepads: active, descriptor },
                );
            }
        }
        assert(commands@ =~= touched + arrivals(
            held@.controller_descriptors,
            active,
            (id + 1) as nat,
        ));
        id = id + 1;
    }
    let ghost arrived = commands@;
    let mut id: u8 = 0;
    while (id as usize) < CONTROLLER_COUNT
        invariant
            id <= CONTROLLER_COUNT,
            commands@ == arrived + states(held@.controllers, active, id as nat),
        decreases CONTROLLER_COUNT - id,
    {
        if let Some(state) = held.controllers[id as usize] {
            if active.contains(id) {
                commands.push(NativeCommand::ControllerState { id, active_gamepads: active, state });
            }
        }
        assert(commands@ =~= arrived + states(held@.controllers, active, (id + 1) as nat));
        id = id + 1;
    }
    assert(ascending_pointers(ids@, held@.touches));
    commands
}

fn sorted_pointers(held: &HeldInputSnapshot) -> (ids: Vec<u32>)
    ensures
        ascending_pointers(ids@, held@.touches),
{
    broadcast use vstd::laws_cmp::group_laws_cmp;

    let mut ids: Vec<u32> = Vec::new();
    let entries = held.touches.iter();
    let ghost pairs = vstd::std_specs::iter::IteratorSpec::remaining(&entries);
    let ghost first = |pair: (&u32, &HeldTouch)| *pair.0;
    assert(vstd::std_specs::btree::increasing_seq(pairs.map_values(first)));
    for pair in it: entries
        invariant
            it.seq() == pairs,
            first == (|pair: (&u32, &HeldTouch)| *pair.0),
            ids@ == pairs.take(it.index()).map_values(first),
    {
        assert(pairs.take(it.index() + 1).map_values(first) =~= pairs.take(
            it.index(),
        ).map_values(first).push(*pair.0));
        ids.push(*pair.0);
    }
    assert(ids@ =~= pairs.map_values(first));
    assert(vstd::laws_cmp::obeys_cmp::<u32>());
    assert(vstd::std_specs::btree::increasing_seq(ids@));
    assert forall|i: int, j: int| 0 <= i < j < ids@.len() implies ids@[i] < ids@[j] by {
        assert(vstd::std_specs::cmp::OrdSpec::cmp_spec(&ids@[i], &ids@[j]) is Less);
    }
    assert forall|id: u32| held.touches@.dom().contains(id) implies ids@.to_set().contains(id) by {
        assert(held.touches@.contains_key(id));
        assert(pairs.contains((&id, &held.touches@[id])));
        let k = choose|k: int| 0 <= k < pairs.len() && pairs[k] == (&id, &held.touches@[id]);
        assert(ids@[k] == id);
    }
    assert forall|id: u32| ids@.to_set().contains(id) implies held.touches@.dom().contains(id) by {
        let k = choose|k: int| 0 <= k < ids@.len() && ids@[k] == id;
        assert(held.touches@.contains_key(*pairs[k].0));
    }
    assert(ids@.to_set() =~= held.touches@.dom());
    ids
}

/// While nothing is held and the attached controllers are those that the new
/// stream was set up with, the replay is empty.
pub proof fn law_nothing_held_replays_nothing(
    held: HeldInput,
    active: ActiveGamepads,
    configured: ActiveGamepads,
    ids: Seq<u32>,
)
    requires
        !replay_needed(held, active, configured),
        ascending_pointers(ids, held.touches),
    ensures
        replay_in_order(held, active, configured, ids) == Seq::<NativeCommand>::empty(),
{
    assert forall|count: nat| count <= CONTROLLER_COUNT implies #[trigger] departures(
        active,
        configured,
        count,
    ) == Seq::<NativeCommand>::empty() && arrivals(held.controller_descriptors, active, count)
        == Seq::<NativeCommand>::empty() && states(held.controllers, active, count) == Seq::<
        NativeCommand,
    >::empty() by {
        lemma_silent_controllers(held, active, count);
    }
    if ids.len() > 0 {
        assert(ids.to_set().contains(ids[0]));
    }
    assert(replay_in_order(held, active, configured, ids) =~= Seq::<NativeCommand>::empty());
}

proof fn lemma_silent_controllers(held: HeldInput, active: ActiveGamepads, count: nat)
    requires
        held =~= HeldInput::nothing(),
        count <= CONTROLLER_COUNT,
    ensures
        departures(active, active, count) == Seq::<NativeCommand>::empty(),
        arrivals(held.controller_descriptors, active, count) == Seq::<NativeCommand>::empty(),
        states(held.controllers, active, count) == Seq::<NativeCommand>::empty(),
    decreases count,
{
    if count > 0 {
        lemma_silent_controllers(held, active, (count - 1) as nat);
        assert(held.controller_descriptors[count - 1] is None);
        assert(held.controllers[count - 1] is None);
        assert(departures(active, active, count) =~= Seq::<NativeCommand>::empty());
        assert(arrivals(held.controller_descriptors, active, count) =~= Seq::<
            NativeCommand,
        >::empty());
        assert(states(held.controllers, active, count) =~= Seq::<NativeCommand>::empty());
    }
}

/// A replay announces and updates attached controllers only.
pub proof fn law_replay_leaves_detached_controllers_alone(
    held: HeldInput,
    active: ActiveGamepads,
    count: nat,
)
    requires
        count <= CONTROLLER_COUNT,
    ensures
        forall|i: int|
            #![trigger arrivals(held.controller_descriptors, active, count)[i]]
            0 <= i < arrivals(held.controller_descriptors, active, count).len() ==> (arrivals(
                held.controller_descriptors,
                active,
                count,
            )[i] matches NativeCommand::ControllerArrival { id, .. } && active.has(id)),
        forall|i: int|
            #![trigger states(held.controllers, active, count)[i]]
            0 <= i < states(held.controllers, active, count).len() ==> (states(
                held.controllers,
                active,
                count,
            )[i] matches NativeCommand::ControllerState { id, .. } && active.has(id)),
    decreases count,
{
    if count > 0 {
        law_replay_leaves_detached_controllers_alone(held, active, (count - 1) as nat);
    }
}

/// No packet that arrives while a replay is due reaches the native stream,
/// unless it asks to stop.
pub proof fn law_nothing_overtakes_a_replay(
    packet: InboundPacket,
    gamepads: ActiveGamepads,
    stream_present: bool,
)
    ensures
        !(routing(packet, gamepads, true, stream_present) is Send),
        routing(packet, gamepads, true, stream_present) is Stop <==> packet is General,
{
}

/// The packet that the host takes a command of a replay for. A state of a
/// controller that is not attached says that the controller has gone.
pub open spec fn packet_behind(command: NativeCommand) -> InboundPacket {
    match command {
        NativeCommand::Key { code, action, modifiers, flags } => InboundPacket::Key {
            action,
            modifiers,
            key: code as u16,
            flags,
        },
        NativeCommand::MouseButton { action, button } => InboundPacket::MouseButton {
            action,
            button,
        },
        NativeCommand::Touch { touch, event_type } => InboundPacket::Touch {
            pointer_id: touch.pointer_id,
            contact: touch.contact,
            event_type,
        },
        NativeCommand::ControllerArrival { id, descriptor, .. } => {
            InboundPacket::ControllerConnected {
                id,
                ty: descriptor.ty,
                supported_buttons: descriptor.supported_buttons,
                capabilities: descriptor.capabilities,
            }
        },
        NativeCommand::ControllerState { id, active_gamepads, state } => if active_gamepads.has(
            id,
        ) {
            InboundPacket::ControllerState { id, state }
        } else {
            InboundPacket::ControllerDisconnected { id }
        },
        _ => InboundPacket::RequestVideoIdr,
    }
}

/// What the host holds down after commands.
pub open spec fn heard(held: HeldInput, commands: Seq<NativeCommand>) -> HeldInput
    decreases commands.len(),
{
    if commands.len() == 0 {
        held
    } else {
        heard(held, commands.drop_last()).after(packet_behind(commands.last()))
    }
}

/// The slots of the controllers that are attached.
pub open spec fn attached<T>(slots: Seq<Option<T>>, active: ActiveGamepads, count: nat) -> Seq<
    Option<T>,
> {
    Seq::new(
        CONTROLLER_COUNT as nat,
        |id: int|
            if id < count && active.has(id as u8) {
                slots[id]
            } else {
                None
            },
    )
}

proof fn lemma_heard_one_after_another(
    held: HeldInput,
    first: Seq<NativeCommand>,
    second: Seq<NativeCommand>,
)
    ensures
        heard(held, first + second) == heard(heard(held, first), second),
    decreases second.len(),
{
    if second.len() == 0 {
        assert(first + second =~= first);
    } else {
        lemma_heard_one_after_another(held, first, second.drop_last());
        assert((first + second).drop_last() =~= first + second.drop_last());
        assert((first + second).last() == second.last());
    }
}

proof fn lemma_heard_push(held: HeldInput, commands: Seq<NativeCommand>, command: NativeCommand)
    ensures
        heard(held, commands.push(command)) == heard(held, commands).after(packet_behind(command)),
{
    assert(commands.push(command).drop_last() =~= commands);
}

proof fn lemma_departures_heard(active: ActiveGamepads, configured: ActiveGamepads, count: nat)
    requires
        count <= CONTROLLER_COUNT,
    ensures
        heard(HeldInput::nothing(), departures(active, configured, count)) == HeldInput::nothing(),
    decreases count,
{
    if count > 0 {
        let before = departures(active, configured, (count - 1) as nat);
        lemma_departures_heard(active, configured, (count - 1) as nat);
        let id = (count - 1) as u8;
        let command = NativeCommand::ControllerState {
            id,
            active_gamepads: active,
            state: neutral(),
        };
        if configured.has(id) && !active.has(id) {
            assert(departures(active, configured, count) =~= before.push(command));
            lemma_heard_push(HeldInput::nothing(), before, command);
            assert(HeldInput::nothing().after(packet_behind(command)) =~= HeldInput::nothing());
        } else {
            assert(departures(active, configured, count) =~= before);
        }
    }
}

proof fn lemma_keys_heard(held: HeldInput, keys: Seq<HeldKey>, count: nat)
    requires
        held.keys.len() == 0,
        keys.map_values(|held: HeldKey| held.key).no_duplicates(),
        forall|i: int, j: int|
            0 <= i < keys.len() && 0 <= j < keys.len() ==> (#[trigger] keys[i]).modifiers == (
            #[trigger] keys[j]).modifiers,
        count <= keys.len(),
    ensures
        heard(held, keys.take(count as int).map_values(|key: HeldKey| key_down(key))) == (
        HeldInput { keys: keys.take(count as int), ..held }),
    decreases count,
{
    let commands = keys.take(count as int).map_values(|key: HeldKey| key_down(key));
    if count == 0 {
        assert(keys.take(0) =~= held.keys);
        assert(commands.len() == 0);
    } else {
        let last = (count - 1) as nat;
        let key = keys[last as int];
        lemma_keys_heard(held, keys, last);
        let earlier = keys.take(last as int);
        assert(commands.drop_last() =~= earlier.map_values(|key: HeldKey| key_down(key)));
        assert(commands.last() == key_down(key));
        let number = key.key;
        assert((number as i16) as u16 == number) by (bit_vector);
        assert forall|i: int| 0 <= i < earlier.len() implies (#[trigger] earlier[i]).key
            != key.key by {
            let names = keys.map_values(|held: HeldKey| held.key);
            assert(names[i] == earlier[i].key);
            assert(names[last as int] == key.key);
        }
        assert(!holds_key(earlier, key.key));
        assert(keys_after(earlier, KeyAction::Down, key.modifiers, key.key, key.flags)
            =~= keys.take(count as int)) by {
            assert forall|i: int| 0 <= i < earlier.len() implies (HeldKey {
                modifiers: key.modifiers,
                ..#[trigger] earlier[i]
            }) == earlier[i] by {
                assert(earlier[i] == keys[i]);
                assert(keys[i].modifiers == keys[last as int].modifiers);
            }
        }
    }
}

proof fn lemma_buttons_heard(held: HeldInput, buttons: Seq<MouseButton>, count: nat)
    requires
        held.mouse_buttons.len() == 0,
        buttons.no_duplicates(),
        count <= buttons.len(),
    ensures
        heard(held, buttons.take(count as int).map_values(|button: MouseButton| button_press(button)))
            == (HeldInput { mouse_buttons: buttons.take(count as int), ..held }),
    decreases count,
{
    let commands = buttons.take(count as int).map_values(
        |button: MouseButton| button_press(button),
    );
    if count == 0 {
        assert(buttons.take(0) =~= held.mouse_buttons);
        assert(commands.len() == 0);
    } else {
        let last = (count - 1) as nat;
        let earlier = buttons.take(last as int);
        lemma_buttons_heard(held, buttons, last);
        assert(commands.drop_last() =~= earlier.map_values(
            |button: MouseButton| button_press(button),
        ));
        assert(commands.last() == button_press(buttons[last as int]));
        assert(!earlier.contains(buttons[last as int]));
        assert(earlier.push(buttons[last as int]) =~= buttons.take(count as int));
    }
}

proof fn lemma_touches_heard(
    held: HeldInput,
    touches: Map<u32, HeldTouch>,
    ids: Seq<u32>,
    count: nat,
)
    requires
        held.touches == Map::<u32, HeldTouch>::empty(),
        forall|id: u32| #[trigger] touches.contains_key(id) ==> touches[id].pointer_id == id,
        forall|i: int| 0 <= i < ids.len() ==> touches.contains_key(#[trigger] ids[i]),
        count <= ids.len(),
    ensures
        heard(held, ids.take(count as int).map_values(|id: u32| touch_down(touches[id]))) == (
        HeldInput { touches: touches.restrict(ids.take(count as int).to_set()), ..held }),
    decreases count,
{
    let commands = ids.take(count as int).map_values(|id: u32| touch_down(touches[id]));
    if count == 0 {
        assert(touches.restrict(ids.take(0).to_set()) =~= held.touches);
        assert(commands.len() == 0);
    } else {
        let last = (count - 1) as nat;
        let id = ids[last as int];
        let earlier = ids.take(last as int);
        let all = ids.take(count as int);
        lemma_touches_heard(held, touches, ids, last);
        assert(commands.drop_last() =~= earlier.map_values(|id: u32| touch_down(touches[id])));
        assert(commands.last() == touch_down(touches[id]));
        assert(touches.contains_key(ids[last as int]));
        assert(all =~= earlier.push(id));
        assert forall|other: u32| all.to_set().contains(other) <==> earlier.to_set().contains(other)
            || other == id by {
            if earlier.contains(other) {
                let k = choose|k: int| 0 <= k < earlier.len() && earlier[k] == other;
                assert(all[k] == other);
            }
            if other == id {
                assert(all[last as int] == other);
            }
            if all.contains(other) && other != id {
                let k = choose|k: int| 0 <= k < all.len() && all[k] == other;
                assert(earlier[k] == other);
            }
        }
        assert(touches.restrict(earlier.to_set()).insert(id, touches[id]) =~= touches.restrict(
            all.to_set(),
        ));
    }
}

proof fn lemma_arrivals_heard(
    held: HeldInput,
    descriptors: Seq<Option<ControllerDescriptor>>,
    active: ActiveGamepads,
    count: nat,
)
    requires
        held.controller_descriptors == no_controllers::<ControllerDescriptor>(),
        descriptors.len() == CONTROLLER_COUNT,
        count <= CONTROLLER_COUNT,
    ensures
        heard(held, arrivals(descriptors, active, count)) == (HeldInput {
            controller_descriptors: attached(descriptors, active, count),
            ..held
        }),
    decreases count,
{
    if count == 0 {
        assert(attached(descriptors, active, 0) =~= no_controllers());
    } else {
        let last = (count - 1) as nat;
        let before = arrivals(descriptors, active, last);
        lemma_arrivals_heard(held, descriptors, active, last);
        let id = last as u8;
        if descriptors[last as int] is Some && active.has(id) {
            let command = NativeCommand::ControllerArrival {
                id,
                active_gamepads: active,
                descriptor: descriptors[last as int]->0,
            };
            assert(arrivals(descriptors, active, count) =~= before.push(command));
            lemma_heard_push(held, before, command);
            assert(attached(descriptors, active, last).update(last as int, descriptors[last as int])
                =~= attached(descriptors, active, count));
        } else {
            assert(arrivals(descriptors, active, count) =~= before);
            assert(attached(descriptors, active, last) =~= attached(descriptors, active, count));
        }
    }
}

proof fn lemma_states_heard(
    held: HeldInput,
    controllers: Seq<Option<ControllerInputState>>,
    active: ActiveGamepads,
    count: nat,
)
    requires
        held.controllers == no_controllers::<ControllerInputState>(),
        controllers.len() == CONTROLLER_COUNT,
        count <= CONTROLLER_COUNT,
    ensures
        heard(held, states(controllers, active, count)) == (HeldInput {
            controllers: attached(controllers, active, count),
            ..held
        }),
    decreases count,
{
    if count == 0 {
        assert(attached(controllers, active, 0) =~= no_controllers());
    } else {
        let last = (count - 1) as nat;
        let before = states(controllers, active, last);
        lemma_states_heard(held, controllers, active, last);
        let id = last as u8;
        if controllers[last as int] is Some && active.has(id) {
            let command = NativeCommand::ControllerState {
                id,
                active_gamepads: active,
                state: controllers[last as int]->0,
            };
            assert(states(controllers, active, count) =~= before.push(command));
            lemma_heard_push(held, before, command);
            assert(attached(controllers, active, last).update(last as int, controllers[last as int])
                =~= attached(controllers, active, count));
        } else {
            assert(states(controllers, active, count) =~= before);
            assert(attached(controllers, active, last) =~= attached(controllers, active, count));
        }
    }
}

/// A replay brings a host that holds nothing down to exactly what the user
/// holds: the keys and buttons in the order of their presses, the touches, and
/// the controllers that are attached.
pub proof fn law_replay_restores_what_is_held(
    held: HeldInput,
    active: ActiveGamepads,
    configured: ActiveGamepads,
    ids: Seq<u32>,
)
    requires
        held.wf(),
        held.same_modifiers(),
        ascending_pointers(ids, held.touches),
    ensures
        heard(HeldInput::nothing(), replay_in_order(held, active, configured, ids)) == (HeldInput {
            controller_descriptors: attached(
                held.controller_descriptors,
                active,
                CONTROLLER_COUNT as nat,
            ),
            controllers: attached(held.controllers, active, CONTROLLER_COUNT as nat),
            ..held
        }),
{
    let count = CONTROLLER_COUNT as nat;
    let keys = held.keys.map_values(|key: HeldKey| key_down(key));
    let buttons = held.mouse_buttons.map_values(|button: MouseButton| button_press(button));
    let touches = ids.map_values(|id: u32| touch_down(held.touches[id]));
    let gone = departures(active, configured, count);
    let come = arrivals(held.controller_descriptors, active, count);
    let moved = states(held.controllers, active, count);
    let nothing = HeldInput::nothing();
    lemma_departures_heard(active, configured, count);
    lemma_heard_one_after_another(nothing, gone, keys);
    assert(held.keys.take(held.keys.len() as int) =~= held.keys);
    lemma_keys_heard(nothing, held.keys, held.keys.len());
    let typed = HeldInput { keys: held.keys, ..nothing };
    lemma_heard_one_after_another(nothing, gone + keys, buttons);
    assert(held.mouse_buttons.take(held.mouse_buttons.len() as int) =~= held.mouse_buttons);
    lemma_buttons_heard(typed, held.mouse_buttons, held.mouse_buttons.len());
    let pressed = HeldInput { mouse_buttons: held.mouse_buttons, ..typed };
    lemma_heard_one_after_another(nothing, gone + keys + buttons, touches);
    assert forall|i: int| 0 <= i < ids.len() implies held.touches.contains_key(
        #[trigger] ids[i],
    ) by {
        assert(ids.to_set().contains(ids[i]));
    }
    assert(ids.take(ids.len() as int) =~= ids);
    lemma_touches_heard(pressed, held.touches, ids, ids.len());
    assert(held.touches.restrict(ids.to_set()) =~= held.touches);
    let touched = HeldInput { touches: held.touches, ..pressed };
    lemma_heard_one_after_another(nothing, gone + keys + buttons + touches, come);
    lemma_arrivals_heard(touched, held.controller_descriptors, active, count);
    let announced = HeldInput {
        controller_descriptors: attached(held.controller_descriptors, active, count),
        ..touched
    };
    lemma_heard_one_after_another(nothing, gone + keys + buttons + touches + come, moved);
    lemma_states_heard(announced, held.controllers, active, count);
}

proof fn lemma_gamepad_bits(bits: u16, id: u8, other: u8)
    requires
        id < 16,
        other < 16,
    ensures
        (bits | (1u16 << id)) & (1u16 << other) != 0 <==> other == id || bits & (1u16 << other) != 0,
        (bits & !(1u16 << id)) & (1u16 << other) != 0 <==> other != id && bits & (1u16 << other)
            != 0,
{
    assert((bits | (1u16 << id)) & (1u16 << other) != 0 <==> other == id || bits & (1u16 << other)
        != 0) by (bit_vector)
        requires
            id < 16,
            other < 16,
    ;
    assert((bits & !(1u16 << id)) & (1u16 << other) != 0 <==> other != id && bits & (1u16 << other)
        != 0) by (bit_vector)
        requires
            id < 16,
            other < 16,
    ;
}

/// A controller is attached from the packet that says that it came to the one
/// that says that it left. No other packet, and no packet of another controller,
/// has a say in that.
pub proof fn law_controllers_come_and_go(gamepads: ActiveGamepads, packet: InboundPacket, id: u8)
    requires
        id < CONTROLLER_COUNT,
    ensures
        ({
            let after = gamepads_after(gamepads, packet);
            match packet {
                InboundPacket::ControllerConnected { id: came, .. } if came == id => after.has(id),
                InboundPacket::ControllerDisconnected { id: left } if left == id => !after.has(id),
                _ => after.has(id) == gamepads.has(id),
            }
        }),
{
    match packet {
        InboundPacket::ControllerConnected { id: came, .. } => {
            if came < CONTROLLER_COUNT {
                lemma_gamepad_bits(gamepads.bits, came, id);
            }
        },
        InboundPacket::ControllerDisconnected { id: left } => {
            if left < CONTROLLER_COUNT {
                lemma_gamepad_bits(gamepads.bits, left, id);
            }
        },
        _ => {},
    }
}

/// What the host holds follows what the user holds: a host that held the same as
/// the user, and hears what a packet is forwarded as, holds the same again.
pub proof fn law_host_follows_the_user(
    held: HeldInput,
    gamepads: ActiveGamepads,
    packet: InboundPacket,
)
    requires
        held.wf(),
        routing(packet, gamepads_after(gamepads, packet), false, true) is Send,
    ensures
        ({
            let after = gamepads_after(gamepads, packet);
            let commands = routing(packet, after, false, true)->Send_0;
            heard(held, commands) == held.after(packet)
        }),
{
    let after = gamepads_after(gamepads, packet);
    let commands = routing(packet, after, false, true)->Send_0;
    reveal_with_fuel(heard, 3);
    match packet {
        InboundPacket::Key { key, .. } => {
            assert((key as i16) as u16 == key) by (bit_vector);
            assert(commands.drop_last() =~= Seq::empty());
        },
        InboundPacket::ControllerConnected { id, .. } => {
            law_controllers_come_and_go(gamepads, packet, id);
            assert(commands.drop_last() =~= Seq::empty());
        },
        InboundPacket::ControllerDisconnected { id } => {
            law_controllers_come_and_go(gamepads, packet, id);
            assert(commands.drop_last() =~= Seq::empty());
        },
        InboundPacket::HighResScroll { .. } | InboundPacket::Scroll { .. } => {
            if commands.len() == 2 {
                assert(commands.drop_last().drop_last() =~= Seq::empty());
            }
        },
        _ => {
            if commands.len() > 0 {
                assert(commands.drop_last() =~= Seq::empty());
            }
        },
    }
}

/// Which way a packet goes: one that asks to stop stops the stream. Every other
/// one goes to the stream, unless there is none, a replay is due, or it speaks of
/// a controller that cannot be there or, in the case of a state, is not.
pub proof fn law_which_packets_are_forwarded(
    packet: InboundPacket,
    gamepads: ActiveGamepads,
    replay_pending: bool,
    stream_present: bool,
)
    ensures
        ({
            let way = routing(packet, gamepads, replay_pending, stream_present);
            let known = match packet {
                InboundPacket::ControllerConnected { id, .. } => id < 16,
                InboundPacket::ControllerDisconnected { id } => id < 16,
                InboundPacket::ControllerState { id, .. } => id < 16 && gamepads.has(id),
                _ => true,
            };
            &&& way is Stop <==> packet is General
            &&& way is Send <==> !(packet is General) && stream_present && !replay_pending && known
        }),
{
}

/// How far commands move the pointer and turn the wheels.
pub struct Motion {
    pub pointer_x: int,
    pub pointer_y: int,
    pub fine_vertical: int,
    pub fine_horizontal: int,
    pub vertical: int,
    pub horizontal: int,
}

pub open spec fn motion_of(commands: Seq<NativeCommand>) -> Motion
    decreases commands.len(),
{
    if commands.len() == 0 {
        Motion {
            pointer_x: 0,
            pointer_y: 0,
            fine_vertical: 0,
            fine_horizontal: 0,
            vertical: 0,
            horizontal: 0,
        }
    } else {
        let before = motion_of(commands.drop_last());
        match commands.last() {
            NativeCommand::MouseMove { delta_x, delta_y } => Motion {
                pointer_x: before.pointer_x + delta_x,
                pointer_y: before.pointer_y + delta_y,
                ..before
            },
            NativeCommand::HighResScroll { delta } => Motion {
                fine_vertical: before.fine_vertical + delta,
                ..before
            },
            NativeCommand::HighResHorizontalScroll { delta } => Motion {
                fine_horizontal: before.fine_horizontal + delta,
                ..before
            },
            NativeCommand::Scroll { delta } => Motion {
                vertical: before.vertical + delta,
                ..before
            },
            NativeCommand::HorizontalScroll { delta } => Motion {
                horizontal: before.horizontal + delta,
                ..before
            },
            _ => before,
        }
    }
}

/// The pointer and the wheels of the host move by what the packet says, each along
/// its own axis, and by nothing for any other packet. No command stands for a
/// wheel that did not turn.
pub proof fn law_host_moves_as_the_user_does(packet: InboundPacket, gamepads: ActiveGamepads)
    ensures
        ({
            let commands = commands_for(packet, gamepads);
            let moved = motion_of(commands);
            &&& moved.pointer_x == (if let InboundPacket::MouseMove { delta_x, .. } = packet {
                delta_x as int
            } else {
                0
            })
            &&& moved.pointer_y == (if let InboundPacket::MouseMove { delta_y, .. } = packet {
                delta_y as int
            } else {
                0
            })
            &&& moved.fine_vertical == (if let InboundPacket::HighResScroll { delta_y, .. } = packet {
                delta_y as int
            } else {
                0
            })
            &&& moved.fine_horizontal == (if let InboundPacket::HighResScroll { delta_x, .. } =
                packet {
                delta_x as int
            } else {
                0
            })
            &&& moved.vertical == (if let InboundPacket::Scroll { delta_y, .. } = packet {
                delta_y as int
            } else {
                0
            })
            &&& moved.horizontal == (if let InboundPacket::Scroll { delta_x, .. } = packet {
                delta_x as int
            } else {
                0
            })
            &&& forall|i: int|
                0 <= i < commands.len() ==> match #[trigger] commands[i] {
                    NativeCommand::HighResScroll { delta } => delta != 0,
                    NativeCommand::HighResHorizontalScroll { delta } => delta != 0,
                    NativeCommand::Scroll { delta } => delta != 0,
                    NativeCommand::HorizontalScroll { delta } => delta != 0,
                    _ => true,
                }
        }),
{
    reveal_with_fuel(motion_of, 3);
    let commands = commands_for(packet, gamepads);
    if commands.len() == 1 {
        assert(commands.drop_last() =~= Seq::empty());
    } else if commands.len() == 2 {
        assert(commands.drop_last().drop_last() =~= Seq::empty());
        assert(commands.drop_last().last() == commands[0]);
    }
}

/// What is typed, pressed, touched or pointed at reaches the host as it is: one
/// command, with all that the packet says. A text and a position come through
/// unchanged.
pub proof fn law_packets_come_through_unchanged(packet: InboundPacket, gamepads: ActiveGamepads)
    ensures
        ({
            let commands = commands_for(packet, gamepads);
            match packet {
                InboundPacket::Key { action, modifiers, key, flags } => {
                    &&& commands.len() == 1
                    &&& commands[0] matches NativeCommand::Key {
                        code,
                        action: sent,
                        modifiers: held,
                        flags: marked,
                    }
                    &&& code as u16 == key
                    &&& sent == action
                    &&& held == modifiers
                    &&& marked == flags
                },
                InboundPacket::Text { text } => commands.len() == 1 && (
                commands[0] matches NativeCommand::Text { text: sent } && sent == text),
                InboundPacket::MousePosition { x, y, reference_width, reference_height } => {
                    &&& commands.len() == 1
                    &&& commands[0] matches NativeCommand::MousePosition {
                        x: at_x,
                        y: at_y,
                        reference_width: width,
                        reference_height: height,
                    }
                    &&& at_x == x && at_y == y && width == reference_width && height
                        == reference_height
                },
                InboundPacket::Touch { pointer_id, contact, event_type } => {
                    &&& commands.len() == 1
                    &&& commands[0] matches NativeCommand::Touch { touch, event_type: sent }
                    &&& touch.pointer_id == pointer_id && touch.contact == contact && sent
                        == event_type
                },
                InboundPacket::ControllerState { id, state } => {
                    &&& commands.len() == 1
                    &&& commands[0] matches NativeCommand::ControllerState {
                        id: of,
                        active_gamepads,
                        state: sent,
                    }
                    &&& of == id && sent == state && active_gamepads == gamepads
                },
                InboundPacket::ControllerConnected { id, ty, supported_buttons, capabilities } => {
                    &&& commands.len() == 1
                    &&& commands[0] matches NativeCommand::ControllerArrival {
                        id: of,
                        active_gamepads,
                        descriptor,
                    }
                    &&& of == id && active_gamepads == gamepads && descriptor.ty == ty
                        && descriptor.supported_buttons == supported_buttons
                        && descriptor.capabilities == capabilities
                },
                InboundPacket::ControllerDisconnected { id } => {
                    &&& commands.len() == 1
                    &&& commands[0] matches NativeCommand::ControllerState {
                        id: of,
                        active_gamepads,
                        state,
                    }
                    &&& of == id && active_gamepads == gamepads && is_at_rest(state)
                },
                InboundPacket::Rtt { .. } | InboundPacket::RequestVideoIdr => commands.len() == 0,
                _ => true,
            }
        }),
{
    if let InboundPacket::Key { key, .. } = packet {
        assert((key as i16) as u16 == key) by (bit_vector);
    }
}

/// No button is pressed, no trigger pulled and no stick moved.
pub open spec fn is_at_rest(state: ControllerInputState) -> bool {
    &&& state.buttons.bits == 0
    &&& state.left_trigger == 0 && state.right_trigger == 0
    &&& state.left_stick_x == 0 && state.left_stick_y == 0
    &&& state.right_stick_x == 0 && state.right_stick_y == 0
}

/// Every controller that the new stream was set up with and that has gone since is
/// told to the host, at rest, and no other one is.
pub proof fn law_gone_controllers_are_told(
    active: ActiveGamepads,
    configured: ActiveGamepads,
    count: nat,
    id: u8,
)
    requires
        count <= CONTROLLER_COUNT,
    ensures
        ({
            let commands = departures(active, configured, count);
            &&& (id < count && configured.has(id) && !active.has(id)) <==> exists|i: int|
                0 <= i < commands.len() && (
                #[trigger] commands[i] matches NativeCommand::ControllerState { id: of, .. } && of
                    == id)
            &&& forall|i: int|
                0 <= i < commands.len() ==> (
                #[trigger] commands[i] matches NativeCommand::ControllerState {
                    active_gamepads,
                    state,
                    ..
                } && active_gamepads == active && is_at_rest(state))
        }),
    decreases count,
{
    if count > 0 {
        law_gone_controllers_are_told(active, configured, (count - 1) as nat, id);
        let before = departures(active, configured, (count - 1) as nat);
        let commands = departures(active, configured, count);
        let last = (count - 1) as u8;
        assert forall|i: int| 0 <= i < before.len() implies #[trigger] commands[i]
            == before[i] by {}
        if configured.has(last) && !active.has(last) {
            assert(commands[before.len() as int] matches NativeCommand::ControllerState {
                id: of,
                ..
            } && of == last);
        }
        if id < count - 1 && configured.has(id) && !active.has(id) {
            let i = choose|i: int|
                0 <= i < before.len() && (
                #[trigger] before[i] matches NativeCommand::ControllerState { id: of, .. } && of
                    == id);
            assert(commands[i] == before[i]);
        }
    }
}

/// A new stream is told of what is held whenever anything is held, or other
/// controllers are attached than it was set up with.
pub proof fn law_when_a_replay_is_due(
    held: HeldInput,
    active: ActiveGamepads,
    configured: ActiveGamepads,
)
    requires
        held.wf(),
    ensures
        replay_needed(held, active, configured) <==> (held.keys.len() > 0
            || held.mouse_buttons.len() > 0 || (exists|id: u32| #[trigger]
            held.touches.contains_key(id)) || (exists|id: int|
            0 <= id < 16 && #[trigger] held.controller_descriptors[id] is Some) || (exists|id: int|
            0 <= id < 16 && #[trigger] held.controllers[id] is Some) || active.bits
            != configured.bits),
{
    if !replay_needed(held, active, configured) {
        let nothing = HeldInput::nothing();
        assert(held.controller_descriptors == nothing.controller_descriptors);
        assert(held.controllers == nothing.controllers);
        assert forall|id: int| 0 <= id < 16 implies held.controller_descriptors[id] is None
            && held.controllers[id] is None by {}
    } else if active.bits == configured.bits && held.keys.len() == 0 && held.mouse_buttons.len()
        == 0 && !(exists|id: u32| #[trigger] held.touches.contains_key(id)) && !(exists|id: int|
        0 <= id < 16 && #[trigger] held.controller_descriptors[id] is Some) && !(exists|id: int|
        0 <= id < 16 && #[trigger] held.controllers[id] is Some) {
        assert(held.keys =~= Seq::empty());
        assert(held.mouse_buttons =~= Seq::empty());
        assert(held.touches =~= Map::empty());
        assert(held.controller_descriptors =~= no_controllers());
        assert(held.controllers =~= no_controllers());
        assert(held =~= HeldInput::nothing());
    }
}

} // verus!

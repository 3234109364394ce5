//! What is held, and what a new stream has to be told of it.

use moonlight_web::input::{
    ActiveGamepads, ControllerButtons, ControllerCapabilities, ControllerDescriptor,
    ControllerInputState, ControllerType, GeneralClientMessage, HeldKey, HeldTouch, InboundPacket,
    InputActivityState, KeyAction, KeyFlags, KeyModifiers, MouseButton, MouseButtonAction,
    TouchContact, TouchEventType,
};
use moonlight_web::native_input::{
    needs_replay, replay_commands, Dispatch, DropReason, NativeCommand, StreamInput,
};

const SHIFT: u8 = 1;
const CTRL: u8 = 2;
const NON_NORMALIZED: u8 = 1;
const A: u32 = 0x1000;
const LB: u32 = 0x0100;
const TOUCHPAD: u32 = 0x10_0000;
const RUMBLE: u16 = 0x02;
const GYRO: u16 = 0x20;

fn modifiers(bits: u8) -> KeyModifiers {
    KeyModifiers { bits }
}

fn flags(bits: u8) -> KeyFlags {
    KeyFlags { bits }
}

fn buttons(bits: u32) -> ControllerButtons {
    ControllerButtons { bits }
}

fn capabilities(bits: u16) -> ControllerCapabilities {
    ControllerCapabilities { bits }
}

fn contact(
    x: f32,
    y: f32,
    pressure_or_distance: f32,
    contact_area_major: f32,
    contact_area_minor: f32,
    rotation: Option<u16>,
) -> TouchContact {
    TouchContact {
        x: x.to_bits(),
        y: y.to_bits(),
        pressure_or_distance: pressure_or_distance.to_bits(),
        contact_area_major: contact_area_major.to_bits(),
        contact_area_minor: contact_area_minor.to_bits(),
        rotation,
    }
}

fn key(action: KeyAction, key: u16) -> InboundPacket {
    InboundPacket::Key { action, modifiers: modifiers(0), key, flags: flags(0) }
}

fn connected(id: u8) -> InboundPacket {
    InboundPacket::ControllerConnected {
        id,
        ty: ControllerType::Xbox,
        supported_buttons: buttons(A),
        capabilities: capabilities(RUMBLE),
    }
}

fn at_rest() -> ControllerInputState {
    ControllerInputState {
        buttons: buttons(0),
        left_trigger: 0,
        right_trigger: 0,
        left_stick_x: 0,
        left_stick_y: 0,
        right_stick_x: 0,
        right_stick_y: 0,
    }
}

#[test]
fn held_keys_preserve_press_order_and_latest_metadata() {
    let mut activity = InputActivityState::default();
    activity.record(&InboundPacket::Key {
        action: KeyAction::Down,
        modifiers: modifiers(CTRL),
        key: 0x11,
        flags: flags(0),
    });
    activity.record(&InboundPacket::Key {
        action: KeyAction::Down,
        modifiers: modifiers(CTRL),
        key: 0x43,
        flags: flags(0),
    });
    // A repeated Down updates metadata without moving the key later in the
    // replay order.
    activity.record(&InboundPacket::Key {
        action: KeyAction::Down,
        modifiers: modifiers(CTRL | SHIFT),
        key: 0x43,
        flags: flags(NON_NORMALIZED),
    });

    assert_eq!(
        activity.snapshot().keys,
        vec![
            HeldKey {
                key: 0x11,
                modifiers: modifiers(CTRL | SHIFT),
                flags: flags(0),
            },
            HeldKey {
                key: 0x43,
                modifiers: modifiers(CTRL | SHIFT),
                flags: flags(NON_NORMALIZED),
            },
        ]
    );

    activity.record(&InboundPacket::Key {
        action: KeyAction::Up,
        modifiers: modifiers(0),
        key: 0x11,
        flags: flags(0),
    });
    assert_eq!(activity.snapshot().keys.len(), 1);
    assert_eq!(activity.snapshot().keys[0].key, 0x43);
    assert_eq!(activity.snapshot().keys[0].modifiers, modifiers(0));
}

#[test]
fn snapshot_retains_mouse_and_latest_active_touch_state() {
    let mut activity = InputActivityState::default();
    activity.record(&InboundPacket::MouseButton {
        action: MouseButtonAction::Press,
        button: MouseButton::Left,
    });
    activity.record(&InboundPacket::MouseButton {
        action: MouseButtonAction::Press,
        button: MouseButton::Left,
    });
    activity.record(&InboundPacket::MouseButton {
        action: MouseButtonAction::Press,
        button: MouseButton::Right,
    });
    activity.record(&InboundPacket::MouseButton {
        action: MouseButtonAction::Release,
        button: MouseButton::Left,
    });
    activity.record(&InboundPacket::Touch { pointer_id: 7, contact: contact(0.25, 0.5, 0.5, 0.1, 0.2, Some(10)), event_type: TouchEventType::Down, });
    activity.record(&InboundPacket::Touch { pointer_id: 7, contact: contact(0.75, 0.8, 0.9, 0.3, 0.4, Some(20)), event_type: TouchEventType::Move, });

    let snapshot = activity.snapshot();
    assert_eq!(snapshot.mouse_buttons, vec![MouseButton::Right]);
    assert_eq!(
        snapshot.touches.get(&7),
        Some(&HeldTouch { pointer_id: 7, contact: contact(0.75, 0.8, 0.9, 0.3, 0.4, Some(20)), })
    );

    activity.record(&InboundPacket::Touch { pointer_id: 7, contact: contact(0.75, 0.8, 0.0, 0.0, 0.0, None), event_type: TouchEventType::Up, });
    assert!(activity.snapshot().touches.is_empty());
}

#[test]
fn controller_snapshot_retains_descriptor_and_full_neutral_state() {
    let mut activity = InputActivityState::default();
    activity.record(&InboundPacket::ControllerConnected {
        id: 3,
        ty: ControllerType::PlayStation,
        supported_buttons: buttons(A | TOUCHPAD),
        capabilities: capabilities(RUMBLE | GYRO),
    });
    assert_eq!(
        activity.snapshot().controller_descriptors[3],
        Some(ControllerDescriptor {
            ty: ControllerType::PlayStation,
            supported_buttons: buttons(A | TOUCHPAD),
            capabilities: capabilities(RUMBLE | GYRO),
        })
    );

    activity.record(&InboundPacket::ControllerState {
        id: 3,
        state: ControllerInputState {
            buttons: buttons(A | LB),
            left_trigger: 17,
            right_trigger: 23,
            left_stick_x: -1234,
            left_stick_y: 2345,
            right_stick_x: -3456,
            right_stick_y: 4567,
        },
    });
    assert_eq!(
        activity.snapshot().controllers[3],
        Some(ControllerInputState {
            buttons: buttons(A | LB),
            left_trigger: 17,
            right_trigger: 23,
            left_stick_x: -1234,
            left_stick_y: 2345,
            right_stick_x: -3456,
            right_stick_y: 4567,
        })
    );

    activity.record(&InboundPacket::ControllerState {
        id: 3,
        state: ControllerInputState {
            buttons: buttons(0),
            left_trigger: 0,
            right_trigger: 0,
            left_stick_x: 0,
            left_stick_y: 0,
            right_stick_x: 0,
            right_stick_y: 0,
        },
    });
    assert_eq!(
        activity.snapshot().controllers[3],
        Some(ControllerInputState {
            buttons: buttons(0),
            left_trigger: 0,
            right_trigger: 0,
            left_stick_x: 0,
            left_stick_y: 0,
            right_stick_x: 0,
            right_stick_y: 0,
        })
    );

    activity.record(&InboundPacket::ControllerDisconnected { id: 3 });
    assert_eq!(activity.snapshot().controller_descriptors[3], None);
    assert_eq!(activity.snapshot().controllers[3], None);
}

#[test]
fn captured_snapshot_is_immutable_while_newer_releases_update_live_state() {
    let mut activity = InputActivityState::default();
    activity.record(&InboundPacket::Key {
        action: KeyAction::Down,
        modifiers: modifiers(0),
        key: 0x57,
        flags: flags(0),
    });
    let captured = activity.snapshot();
    activity.record(&InboundPacket::Key {
        action: KeyAction::Up,
        modifiers: modifiers(0),
        key: 0x57,
        flags: flags(0),
    });

    assert_eq!(captured.keys.len(), 1);
    assert_eq!(captured.keys[0].key, 0x57);
    assert!(activity.snapshot().keys.is_empty());
}

#[test]
fn every_key_takes_the_latest_modifiers() {
    let mut activity = InputActivityState::default();
    activity.record(&key(KeyAction::Down, 0x41));
    activity.record(&InboundPacket::Key {
        action: KeyAction::Down,
        modifiers: modifiers(SHIFT),
        key: 0x42,
        flags: flags(0),
    });
    let keys = activity.snapshot().keys;
    assert_eq!(keys.len(), 2);
    assert!(keys.iter().all(|held| held.modifiers == modifiers(SHIFT)));
}

#[test]
fn touch_that_was_never_pressed_is_not_held() {
    let mut activity = InputActivityState::default();
    activity.record(&InboundPacket::Touch {
        pointer_id: 1,
        contact: contact(0.5, 0.5, 1.0, 0.0, 0.0, None),
        event_type: TouchEventType::Hover,
    });
    assert!(activity.snapshot().touches.is_empty());
    assert!(activity.snapshot().is_empty());
}

#[test]
fn cancel_all_forgets_every_touch() {
    let mut activity = InputActivityState::default();
    for pointer_id in 1..=2 {
        activity.record(&InboundPacket::Touch {
            pointer_id,
            contact: contact(0.5, 0.5, 1.0, 0.0, 0.0, None),
            event_type: TouchEventType::Down,
        });
    }
    assert_eq!(activity.snapshot().touches.len(), 2);
    activity.record(&InboundPacket::Touch {
        pointer_id: 9,
        contact: contact(0.0, 0.0, 0.0, 0.0, 0.0, None),
        event_type: TouchEventType::CancelAll,
    });
    assert!(activity.snapshot().touches.is_empty());
}

#[test]
fn order_to_stop_is_not_recorded() {
    let mut input = StreamInput::new();
    let packet = InboundPacket::General { message: GeneralClientMessage::Stop };
    assert_eq!(input.on_packet(packet, true), Dispatch::Stop);
    assert!(input.activity.snapshot().is_empty());
}

#[test]
fn input_waits_for_the_replay_and_for_the_stream() {
    let mut input = StreamInput::new();
    assert_eq!(
        input.on_packet(key(KeyAction::Down, 0x41), false),
        Dispatch::Dropped(DropReason::MissingStream)
    );
    input.replay_pending = true;
    assert_eq!(
        input.on_packet(key(KeyAction::Down, 0x42), true),
        Dispatch::Dropped(DropReason::ReplayPending)
    );
    assert_eq!(input.activity.snapshot().keys.len(), 2);
}

#[test]
fn controllers_beyond_the_last_are_dropped() {
    let mut input = StreamInput::new();
    assert_eq!(
        input.on_packet(connected(16), true),
        Dispatch::Dropped(DropReason::GamepadOutOfRange)
    );
    assert_eq!(input.active_gamepads, ActiveGamepads::empty());
    assert_eq!(
        input.on_packet(InboundPacket::ControllerState { id: 2, state: at_rest() }, true),
        Dispatch::Dropped(DropReason::GamepadNotRegistered)
    );
}

#[test]
fn mouse_motion_is_passed_on_unchanged() {
    let mut input = StreamInput::new();
    assert_eq!(
        input.on_packet(InboundPacket::MouseMove { delta_x: 3, delta_y: -4 }, true),
        Dispatch::Send(vec![NativeCommand::MouseMove { delta_x: 3, delta_y: -4 }])
    );
}

#[test]
fn nothing_held_needs_no_replay() {
    let held = InputActivityState::default().snapshot();
    let none = ActiveGamepads::empty();
    assert!(!needs_replay(&held, none, none));
    assert!(replay_commands(&held, none, none).is_empty());
}

#[test]
fn replay_presses_keys_in_their_order() {
    let mut activity = InputActivityState::default();
    activity.record(&key(KeyAction::Down, 0x41));
    activity.record(&key(KeyAction::Down, 0x42));
    let none = ActiveGamepads::empty();
    assert!(needs_replay(&activity.snapshot(), none, none));
    let commands = replay_commands(&activity.snapshot(), none, none);
    let codes: Vec<i16> = commands
        .iter()
        .map(|command| match command {
            NativeCommand::Key { code, action: KeyAction::Down, .. } => *code,
            other => panic!("unexpected command: {other:?}"),
        })
        .collect();
    assert_eq!(codes, vec![0x41, 0x42]);
}

#[test]
fn replay_announces_attached_controllers() {
    let mut input = StreamInput::new();
    input.on_packet(connected(3), true);
    let held = input.activity.snapshot();
    let commands = replay_commands(&held, input.active_gamepads, ActiveGamepads::empty());
    assert!(commands.iter().any(
        |command| matches!(command, NativeCommand::ControllerArrival { id: 3, .. })
    ));
}

#[test]
fn replay_restores_what_is_held() {
    let mut input = StreamInput::new();
    let state = ControllerInputState {
        buttons: buttons(A),
        left_trigger: 1,
        right_trigger: 2,
        left_stick_x: 3,
        left_stick_y: 4,
        right_stick_x: 5,
        right_stick_y: 6,
    };
    input.on_packet(key(KeyAction::Down, 0x41), true);
    input.on_packet(
        InboundPacket::MouseButton { action: MouseButtonAction::Press, button: MouseButton::Left },
        true,
    );
    input.on_packet(
        InboundPacket::Touch {
            pointer_id: 9,
            contact: contact(0.25, 0.5, 1.0, 0.0, 0.0, None),
            event_type: TouchEventType::Down,
        },
        true,
    );
    input.on_packet(connected(3), true);
    input.on_packet(InboundPacket::ControllerState { id: 3, state }, true);
    let held = input.activity.snapshot();

    let mut host = InputActivityState::default();
    for command in replay_commands(&held, input.active_gamepads, ActiveGamepads::empty()) {
        host.record(&match command {
            NativeCommand::Key { code, action, modifiers, flags } => {
                InboundPacket::Key { action, modifiers, key: code as u16, flags }
            }
            NativeCommand::MouseButton { action, button } => {
                InboundPacket::MouseButton { action, button }
            }
            NativeCommand::Touch { touch, event_type } => InboundPacket::Touch {
                pointer_id: touch.pointer_id,
                contact: touch.contact,
                event_type,
            },
            NativeCommand::ControllerArrival { id, descriptor, .. } => {
                InboundPacket::ControllerConnected {
                    id,
                    ty: descriptor.ty,
                    supported_buttons: descriptor.supported_buttons,
                    capabilities: descriptor.capabilities,
                }
            }
            NativeCommand::ControllerState { id, state, .. } => {
                InboundPacket::ControllerState { id, state }
            }
            other => panic!("unexpected command: {other:?}"),
        });
    }
    assert!(host.snapshot() == held);
}

#[test]
fn history_decides_what_is_held() {
    let mut activity = InputActivityState::default();
    let down = |key: u16, bits: u8| InboundPacket::Key {
        action: KeyAction::Down,
        modifiers: modifiers(bits),
        key,
        flags: flags(0),
    };
    let touch = |pointer_id: u32, event_type: TouchEventType| InboundPacket::Touch {
        pointer_id,
        contact: contact(0.0, 0.0, 0.0, 0.0, 0.0, None),
        event_type,
    };
    for packet in [
        down(1, 0),
        down(2, SHIFT),
        down(1, SHIFT),
        key(KeyAction::Up, 2),
        down(3, 0),
        down(2, CTRL),
        touch(1, TouchEventType::Move),
        touch(2, TouchEventType::Down),
        touch(3, TouchEventType::Down),
        touch(2, TouchEventType::Cancel),
        InboundPacket::ControllerDisconnected { id: 16 },
    ] {
        activity.record(&packet);
    }
    let held = activity.snapshot();
    let keys: Vec<u16> = held.keys.iter().map(|held| held.key).collect();
    assert_eq!(keys, vec![1, 3, 2]);
    assert!(held.keys.iter().all(|held| held.modifiers == modifiers(CTRL)));
    assert_eq!(held.touches.keys().copied().collect::<Vec<u32>>(), vec![3]);
}

use punktfunk_webos::keyboard::{
    key_event, raw_key_event, vk_code, vk_from_evdev, InputEvent, InputKind,
};
use punktfunk_webos::scancode::Scancode;

#[test]
fn modifiers_and_letters_match_windows_vks() {
    assert_eq!(vk_from_evdev(29), Some(0xA2)); // KEY_LEFTCTRL → VK_LCONTROL
    assert_eq!(vk_from_evdev(42), Some(0xA0)); // KEY_LEFTSHIFT
    assert_eq!(vk_from_evdev(56), Some(0xA4)); // KEY_LEFTALT
    assert_eq!(vk_from_evdev(97), Some(0xA3)); // KEY_RIGHTCTRL
    assert_eq!(vk_from_evdev(30), Some(0x41)); // KEY_A
    assert_eq!(vk_from_evdev(57), Some(0x20)); // KEY_SPACE
    assert_eq!(vk_from_evdev(1), Some(0x1B)); // KEY_ESC
    assert_eq!(vk_from_evdev(0x110), None); // BTN_LEFT is not a key
}

#[test]
fn scancodes_map_to_vks() {
    assert_eq!(vk_code(Scancode::Escape), Some(0x1B));
    assert_eq!(vk_code(Scancode::A), Some(0x41));
    assert_eq!(vk_code(Scancode::Z), Some(0x5A));
    assert_eq!(vk_code(Scancode::Num0), Some(0x30));
    assert_eq!(vk_code(Scancode::Num9), Some(0x39));
    assert_eq!(vk_code(Scancode::F12), Some(0x7B));
    assert_eq!(vk_code(Scancode::LGui), Some(0x5B));
    assert_eq!(vk_code(Scancode::RGui), Some(0x5C));
    assert_eq!(vk_code(Scancode::Unmapped), None);
}

#[test]
fn raw_scancodes_are_usb_usages() {
    assert_eq!(Scancode::from_raw(4), Scancode::A);
    assert_eq!(Scancode::from_raw(41), Scancode::Escape);
    assert_eq!(Scancode::from_raw(224), Scancode::LCtrl);
    assert_eq!(Scancode::from_raw(505), Scancode::Unmapped);
    assert_eq!(Scancode::from_raw(-1), Scancode::Unmapped);
    assert_eq!(Scancode::from_raw(0), Scancode::Unmapped);
}

#[test]
fn both_tables_agree_on_a_key() {
    assert_eq!(vk_code(Scancode::from_raw(4)), vk_from_evdev(30));
    assert_eq!(vk_code(Scancode::from_raw(229)), vk_from_evdev(54));
}

#[test]
fn wire_events_carry_the_vk_and_the_direction() {
    let down = InputEvent {
        kind: InputKind::KeyDown,
        _pad: [0; 3],
        code: 0x41,
        x: 0,
        y: 0,
        flags: 0,
    };
    assert_eq!(key_event(Scancode::A, true), Some(down));
    assert_eq!(raw_key_event(0x41, true), down);
    assert_eq!(
        key_event(Scancode::A, false),
        Some(InputEvent {
            kind: InputKind::KeyUp,
            ..down
        })
    );
    assert_eq!(key_event(Scancode::Unmapped, true), None);
}

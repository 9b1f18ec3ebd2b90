//! Keys on their way to the host: from a scancode or an evdev code to the Windows virtual-key
//! code ("VK") that the wire carries.
use vstd::prelude::*;
use crate::scancode::Scancode;

verus! {

/// What a wire event says happened.
#[derive(Clone, Copy, Debug, PartialEq, Eq, Structural)]
pub enum InputKind {
    KeyDown,
    KeyUp,
}

/// One input event as the host receives it.
#[derive(Clone, Copy, Debug, PartialEq, Eq)]
pub struct InputEvent {
    pub kind: InputKind,
    pub _pad: [u8; 3],
    pub code: u32,
    pub x: i32,
    pub y: i32,
    pub flags: u32,
}

/// The entry of `row` for `n`, where the row starts at `first`.
pub open spec fn row_entry(row: Seq<int>, first: int, n: int) -> int {
    row[n - first]
}

/// The VK of the key with the given USB usage. Letters, digits, function keys and the keypad run
/// in step with the usage page; the rest is listed row by row, in the order of the page.
pub open spec fn usage_vk(u: int) -> Option<int> {
    if 4 <= u <= 29 {
        Some(0x41 + (u - 4))  // A to Z
    } else if 30 <= u <= 38 {
        Some(0x31 + (u - 30))  // 1 to 9
    } else if u == 39 {
        Some(0x30)  // 0
    } else if 40 <= u <= 49 {
        // Return Escape Backspace Tab Space - = [ ] backslash
        Some(row_entry(seq![0x0D, 0x1B, 0x08, 0x09, 0x20, 0xBD, 0xBB, 0xDB, 0xDD, 0xDC], 40, u))
    } else if 51 <= u <= 57 {
        // ; ' ` , . / CapsLock
        Some(row_entry(seq![0xBA, 0xDE, 0xC0, 0xBC, 0xBE, 0xBF, 0x14], 51, u))
    } else if 58 <= u <= 69 {
        Some(0x70 + (u - 58))  // F1 to F12
    } else if 70 <= u <= 78 {
        // PrintScreen ScrollLock Pause Insert Home PageUp Delete End PageDown
        Some(row_entry(seq![0x2C, 0x91, 0x13, 0x2D, 0x24, 0x21, 0x2E, 0x23, 0x22], 70, u))
    } else if 79 <= u <= 82 {
        // Right Left Down Up
        Some(row_entry(seq![0x27, 0x25, 0x28, 0x26], 79, u))
    } else if 83 <= u <= 88 {
        // NumLock, then keypad / * - + Enter
        Some(row_entry(seq![0x90, 0x6F, 0x6A, 0x6D, 0x6B, 0x0D], 83, u))
    } else if 89 <= u <= 97 {
        Some(0x61 + (u - 89))  // keypad 1 to 9
    } else if 98 <= u <= 101 {
        // keypad 0, keypad ., the extra ISO key, the context-menu key
        Some(row_entry(seq![0x60, 0x6E, 0xE2, 0x5D], 98, u))
    } else if 224 <= u <= 231 {
        // Ctrl Shift Alt Gui, left then right
        Some(row_entry(seq![0xA2, 0xA0, 0xA4, 0x5B, 0xA3, 0xA1, 0xA5, 0x5C], 224, u))
    } else {
        None
    }
}

/// The VK of a key.
pub open spec fn key_vk(sc: Scancode) -> Option<int> {
    match sc.usage() {
        Some(u) => usage_vk(u),
        None => None,
    }
}

/// The USB usage of the key that the kernel reports under an evdev `KEY_*` code, for the keys
/// that the host knows. The codes follow the rows of a PC keyboard.
pub open spec fn evdev_usage(code: int) -> Option<int> {
    if code == 1 {
        Some(41)  // Escape
    } else if 2 <= code <= 11 {
        Some(30 + (code - 2))  // 1 to 9, then 0
    } else if 12 <= code <= 15 {
        Some(row_entry(seq![45, 46, 42, 43], 12, code))  // - = Backspace Tab
    } else if 16 <= code <= 25 {
        Some(row_entry(seq![20, 26, 8, 21, 23, 28, 24, 12, 18, 19], 16, code))  // Q to P
    } else if 26 <= code <= 29 {
        Some(row_entry(seq![47, 48, 40, 224], 26, code))  // [ ] Enter LeftCtrl
    } else if 30 <= code <= 38 {
        Some(row_entry(seq![4, 22, 7, 9, 10, 11, 13, 14, 15], 30, code))  // A to L
    } else if 39 <= code <= 43 {
        Some(row_entry(seq![51, 52, 53, 225, 49], 39, code))  // ; ' ` LeftShift backslash
    } else if 44 <= code <= 50 {
        Some(row_entry(seq![29, 27, 6, 25, 5, 17, 16], 44, code))  // Z to M
    } else if 51 <= code <= 58 {
        // , . / RightShift keypad-* LeftAlt Space CapsLock
        Some(row_entry(seq![54, 55, 56, 229, 85, 226, 44, 57], 51, code))
    } else if 59 <= code <= 68 {
        Some(58 + (code - 59))  // F1 to F10
    } else if 69 <= code <= 83 {
        // NumLock ScrollLock, then the keypad from 7 to .
        Some(
            row_entry(
                seq![83, 71, 95, 96, 97, 86, 92, 93, 94, 87, 89, 90, 91, 98, 99],
                69,
                code,
            ),
        )
    } else if 86 <= code <= 88 {
        Some(row_entry(seq![100, 68, 69], 86, code))  // the extra ISO key, F11, F12
    } else if 96 <= code <= 100 {
        // keypad Enter, RightCtrl, keypad /, PrintScreen, RightAlt
        Some(row_entry(seq![88, 228, 84, 70, 230], 96, code))
    } else if 102 <= code <= 111 {
        // Home Up PageUp Left Right End Down PageDown Insert Delete
        Some(row_entry(seq![74, 82, 75, 80, 79, 77, 81, 78, 73, 76], 102, code))
    } else if code == 119 {
        Some(72)  // Pause
    } else if 125 <= code <= 127 {
        Some(row_entry(seq![227, 231, 101], 125, code))  // LeftMeta RightMeta Compose
    } else {
        None
    }
}

/// The VK of the key that the kernel reports under an evdev code.
pub open spec fn evdev_vk(code: int) -> Option<int> {
    match evdev_usage(code) {
        Some(u) => usage_vk(u),
        None => None,
    }
}

/// What `found` says as an exact answer to a lookup.
pub open spec fn answers(found: Option<u32>, wanted: Option<int>) -> bool {
    match wanted {
        Some(vk) => found is Some && found->0 == vk,
        None => found is None,
    }
}

/// SDL scancode to Windows VK code. `None` for keys that the host has no mapping for.
pub fn vk_code(sc: Scancode) -> (vk: Option<u32>)
    ensures
        answers(vk, key_vk(sc)),
{
    let code: u32 = match sc {
        // Navigation / editing / whitespace
        Scancode::Backspace => 0x08, // VK_BACK
        Scancode::Tab => 0x09, // VK_TAB
        Scancode::Return | Scancode::KpEnter => 0x0D, // VK_RETURN (numpad enter too)
        Scancode::Pause => 0x13, // VK_PAUSE
        Scancode::CapsLock => 0x14, // VK_CAPITAL
        Scancode::Escape => 0x1B, // VK_ESCAPE
        Scancode::Space => 0x20, // VK_SPACE
        Scancode::PageUp => 0x21, // VK_PRIOR
        Scancode::PageDown => 0x22, // VK_NEXT
        Scancode::End => 0x23, // VK_END
        Scancode::Home => 0x24, // VK_HOME
        Scancode::Left => 0x25, // VK_LEFT
        Scancode::Up => 0x26, // VK_UP
        Scancode::Right => 0x27, // VK_RIGHT
        Scancode::Down => 0x28, // VK_DOWN
        Scancode::PrintScreen => 0x2C, // VK_SNAPSHOT
        Scancode::Insert => 0x2D, // VK_INSERT
        Scancode::Delete => 0x2E, // VK_DELETE
        // Digit row
        Scancode::Num0 => 0x30, // VK_0
        Scancode::Num1 => 0x31, // VK_1
        Scancode::Num2 => 0x32, // VK_2
        Scancode::Num3 => 0x33, // VK_3
        Scancode::Num4 => 0x34, // VK_4
        Scancode::Num5 => 0x35, // VK_5
        Scancode::Num6 => 0x36, // VK_6
        Scancode::Num7 => 0x37, // VK_7
        Scancode::Num8 => 0x38, // VK_8
        Scancode::Num9 => 0x39, // VK_9
        // Letters A-Z (QWERTY positional)
        Scancode::A => 0x41,
        Scancode::B => 0x42,
        Scancode::C => 0x43,
        Scancode::D => 0x44,
        Scancode::E => 0x45,
        Scancode::F => 0x46,
        Scancode::G => 0x47,
        Scancode::H => 0x48,
        Scancode::I => 0x49,
        Scancode::J => 0x4A,
        Scancode::K => 0x4B,
        Scancode::L => 0x4C,
        Scancode::M => 0x4D,
        Scancode::N => 0x4E,
        Scancode::O => 0x4F,
        Scancode::P => 0x50,
        Scancode::Q => 0x51,
        Scancode::R => 0x52,
        Scancode::S => 0x53,
        Scancode::T => 0x54,
        Scancode::U => 0x55,
        Scancode::V => 0x56,
        Scancode::W => 0x57,
        Scancode::X => 0x58,
        Scancode::Y => 0x59,
        Scancode::Z => 0x5A,
        // Meta / context-menu
        Scancode::LGui => 0x5B, // VK_LWIN
        Scancode::RGui => 0x5C, // VK_RWIN
        Scancode::Application => 0x5D, // VK_APPS
        // Numpad
        Scancode::Kp0 => 0x60, // VK_NUMPAD0
        Scancode::Kp1 => 0x61, // VK_NUMPAD1
        Scancode::Kp2 => 0x62, // VK_NUMPAD2
        Scancode::Kp3 => 0x63, // VK_NUMPAD3
        Scancode::Kp4 => 0x64, // VK_NUMPAD4
        Scancode::Kp5 => 0x65, // VK_NUMPAD5
        Scancode::Kp6 => 0x66, // VK_NUMPAD6
        Scancode::Kp7 => 0x67, // VK_NUMPAD7
        Scancode::Kp8 => 0x68, // VK_NUMPAD8
        Scancode::Kp9 => 0x69, // VK_NUMPAD9
        Scancode::KpMultiply => 0x6A, // VK_MULTIPLY
        Scancode::KpPlus => 0x6B, // VK_ADD
        Scancode::KpMinus => 0x6D, // VK_SUBTRACT
        Scancode::KpPeriod => 0x6E, // VK_DECIMAL
        Scancode::KpDivide => 0x6F, // VK_DIVIDE
        // Function keys
        Scancode::F1 => 0x70,
        Scancode::F2 => 0x71,
        Scancode::F3 => 0x72,
        Scancode::F4 => 0x73,
        Scancode::F5 => 0x74,
        Scancode::F6 => 0x75,
        Scancode::F7 => 0x76,
        Scancode::F8 => 0x77,
        Scancode::F9 => 0x78,
        Scancode::F10 => 0x79,
        Scancode::F11 => 0x7A,
        Scancode::F12 => 0x7B,
        // Lock keys
        Scancode::NumLockClear => 0x90, // VK_NUMLOCK
        Scancode::ScrollLock => 0x91, // VK_SCROLL
        // Sided modifiers
        Scancode::LShift => 0xA0, // VK_LSHIFT
        Scancode::RShift => 0xA1, // VK_RSHIFT
        Scancode::LCtrl => 0xA2, // VK_LCONTROL
        Scancode::RCtrl => 0xA3, // VK_RCONTROL
        Scancode::LAlt => 0xA4, // VK_LMENU
        Scancode::RAlt => 0xA5, // VK_RMENU
        // OEM punctuation (US layout positions)
        Scancode::Semicolon => 0xBA, // VK_OEM_1      ;:
        Scancode::Equals => 0xBB, // VK_OEM_PLUS   =+
        Scancode::Comma => 0xBC, // VK_OEM_COMMA  ,<
        Scancode::Minus => 0xBD, // VK_OEM_MINUS  -_
        Scancode::Period => 0xBE, // VK_OEM_PERIOD .>
        Scancode::Slash => 0xBF, // VK_OEM_2      /?
        Scancode::Grave => 0xC0, // VK_OEM_3      `~
        Scancode::LeftBracket => 0xDB, // VK_OEM_4      [{
        Scancode::Backslash => 0xDC, // VK_OEM_5      \|
        Scancode::RightBracket => 0xDD, // VK_OEM_6      ]}
        Scancode::Apostrophe => 0xDE, // VK_OEM_7      '"
        Scancode::NonUsBackslash => 0xE2, // VK_OEM_102    ISO extra key
        Scancode::Unmapped => return None,
    };
    Some(code)
}

/// Linux evdev `KEY_*` to the same Windows VK that `vk_code` gives for the key's scancode.
/// `None` for keys that the host has no mapping for (media-only, TV-remote, mouse buttons).
pub fn vk_from_evdev(code: u16) -> (vk: Option<u32>)
    ensures
        answers(vk, evdev_vk(code as int)),
{
    let found: u32 = match code {
        1 => 0x1B, // KEY_ESC
        2 => 0x31, // KEY_1
        3 => 0x32, // KEY_2
        4 => 0x33, // KEY_3
        5 => 0x34, // KEY_4
        6 => 0x35, // KEY_5
        7 => 0x36, // KEY_6
        8 => 0x37, // KEY_7
        9 => 0x38, // KEY_8
        10 => 0x39, // KEY_9
        11 => 0x30, // KEY_0
        12 => 0xBD, // KEY_MINUS
        13 => 0xBB, // KEY_EQUAL
        14 => 0x08, // KEY_BACKSPACE
        15 => 0x09, // KEY_TAB
        16 => 0x51, // KEY_Q
        17 => 0x57, // KEY_W
        18 => 0x45, // KEY_E
        19 => 0x52, // KEY_R
        20 => 0x54, // KEY_T
        21 => 0x59, // KEY_Y
        22 => 0x55, // KEY_U
        23 => 0x49, // KEY_I
        24 => 0x4F, // KEY_O
        25 => 0x50, // KEY_P
        26 => 0xDB, // KEY_LEFTBRACE
        27 => 0xDD, // KEY_RIGHTBRACE
        28 | 96 => 0x0D, // KEY_ENTER / KEY_KPENTER
        29 => 0xA2, // KEY_LEFTCTRL
        30 => 0x41, // KEY_A
        31 => 0x53, // KEY_S
        32 => 0x44, // KEY_D
        33 => 0x46, // KEY_F
        34 => 0x47, // KEY_G
        35 => 0x48, // KEY_H
        36 => 0x4A, // KEY_J
        37 => 0x4B, // KEY_K
        38 => 0x4C, // KEY_L
        39 => 0xBA, // KEY_SEMICOLON
        40 => 0xDE, // KEY_APOSTROPHE
        41 => 0xC0, // KEY_GRAVE
        42 => 0xA0, // KEY_LEFTSHIFT
        43 => 0xDC, // KEY_BACKSLASH
        44 => 0x5A, // KEY_Z
        45 => 0x58, // KEY_X
        46 => 0x43, // KEY_C
        47 => 0x56, // KEY_V
        48 => 0x42, // KEY_B
        49 => 0x4E, // KEY_N
        50 => 0x4D, // KEY_M
        51 => 0xBC, // KEY_COMMA
        52 => 0xBE, // KEY_DOT
        53 => 0xBF, // KEY_SLASH
        54 => 0xA1, // KEY_RIGHTSHIFT
        55 => 0x6A, // KEY_KPASTERISK
        56 => 0xA4, // KEY_LEFTALT
        57 => 0x20, // KEY_SPACE
        58 => 0x14, // KEY_CAPSLOCK
        59 => 0x70, // KEY_F1
        60 => 0x71, // KEY_F2
        61 => 0x72, // KEY_F3
        62 => 0x73, // KEY_F4
        63 => 0x74, // KEY_F5
        64 => 0x75, // KEY_F6
        65 => 0x76, // KEY_F7
        66 => 0x77, // KEY_F8
        67 => 0x78, // KEY_F9
        68 => 0x79, // KEY_F10
        69 => 0x90, // KEY_NUMLOCK
        70 => 0x91, // KEY_SCROLLLOCK
        71 => 0x67, // KEY_KP7
        72 => 0x68, // KEY_KP8
        73 => 0x69, // KEY_KP9
        74 => 0x6D, // KEY_KPMINUS
        75 => 0x64, // KEY_KP4
        76 => 0x65, // KEY_KP5
        77 => 0x66, // KEY_KP6
        78 => 0x6B, // KEY_KPPLUS
        79 => 0x61, // KEY_KP1
        80 => 0x62, // KEY_KP2
        81 => 0x63, // KEY_KP3
        82 => 0x60, // KEY_KP0
        83 => 0x6E, // KEY_KPDOT
        86 => 0xE2, // KEY_102ND
        87 => 0x7A, // KEY_F11
        88 => 0x7B, // KEY_F12
        97 => 0xA3, // KEY_RIGHTCTRL
        98 => 0x6F, // KEY_KPSLASH
        99 => 0x2C, // KEY_SYSRQ
        100 => 0xA5, // KEY_RIGHTALT
        102 => 0x24, // KEY_HOME
        103 => 0x26, // KEY_UP
        104 => 0x21, // KEY_PAGEUP
        105 => 0x25, // KEY_LEFT
        106 => 0x27, // KEY_RIGHT
        107 => 0x23, // KEY_END
        108 => 0x28, // KEY_DOWN
        109 => 0x22, // KEY_PAGEDOWN
        110 => 0x2D, // KEY_INSERT
        111 => 0x2E, // KEY_DELETE
        119 => 0x13, // KEY_PAUSE
        125 => 0x5B, // KEY_LEFTMETA
        126 => 0x5C, // KEY_RIGHTMETA
        127 => 0x5D, // KEY_COMPOSE / KEY_MENU
        _ => return None,
    };
    Some(found)
}

/// The wire event for a key given by its VK: pressed or released, with every other field zero.
pub open spec fn wire_key(code: u32, pressed: bool) -> InputEvent {
    InputEvent {
        kind: if pressed {
            InputKind::KeyDown
        } else {
            InputKind::KeyUp
        },
        _pad: [0u8, 0u8, 0u8],
        code,
        x: 0,
        y: 0,
        flags: 0,
    }
}

/// The wire event for a key of an SDL keyboard, where the host has a mapping for it.
pub fn key_event(scancode: Scancode, pressed: bool) -> (ev: Option<InputEvent>)
    ensures
        ev is Some <==> key_vk(scancode) is Some,
        ev is Some ==> ev->0 == wire_key(key_vk(scancode)->0 as u32, pressed),
{
    match vk_code(scancode) {
        Some(code) => Some(raw_key_event(code, pressed)),
        None => None,
    }
}

/// The wire event for an already mapped VK, for keys that come off evdev and never pass through
/// a scancode.
pub fn raw_key_event(code: u32, pressed: bool) -> (ev: InputEvent)
    ensures
        ev == wire_key(code, pressed),
{
    InputEvent {
        kind: if pressed { InputKind::KeyDown } else { InputKind::KeyUp },
        _pad: [0, 0, 0],
        code,
        x: 0,
        y: 0,
        flags: 0,
    }
}

/// Every evdev code that the host knows is some key's code.
proof fn key_of_evdev(code: int) -> (sc: Scancode)
    requires
        evdev_usage(code) is Some,
    ensures
        sc.usage() == evdev_usage(code),
{
    if code == 1 {
        seq![Scancode::Escape][code - 1]
    } else if code <= 11 {
        seq![Scancode::Num1, Scancode::Num2, Scancode::Num3, Scancode::Num4, Scancode::Num5, Scancode::Num6, Scancode::Num7, Scancode::Num8, Scancode::Num9, Scancode::Num0][code - 2]
    } else if code <= 15 {
        seq![Scancode::Minus, Scancode::Equals, Scancode::Backspace, Scancode::Tab][code - 12]
    } else if code <= 25 {
        seq![Scancode::Q, Scancode::W, Scancode::E, Scancode::R, Scancode::T, Scancode::Y, Scancode::U, Scancode::I, Scancode::O, Scancode::P][code - 16]
    } else if code <= 29 {
        seq![Scancode::LeftBracket, Scancode::RightBracket, Scancode::Return, Scancode::LCtrl][code - 26]
    } else if code <= 38 {
        seq![Scancode::A, Scancode::S, Scancode::D, Scancode::F, Scancode::G, Scancode::H, Scancode::J, Scancode::K, Scancode::L][code - 30]
    } else if code <= 43 {
        seq![Scancode::Semicolon, Scancode::Apostrophe, Scancode::Grave, Scancode::LShift, Scancode::Backslash][code - 39]
    } else if code <= 50 {
        seq![Scancode::Z, Scancode::X, Scancode::C, Scancode::V, Scancode::B, Scancode::N, Scancode::M][code - 44]
    } else if code <= 58 {
        seq![Scancode::Comma, Scancode::Period, Scancode::Slash, Scancode::RShift, Scancode::KpMultiply, Scancode::LAlt, Scancode::Space, Scancode::CapsLock][code - 51]
    } else if code <= 68 {
        seq![Scancode::F1, Scancode::F2, Scancode::F3, Scancode::F4, Scancode::F5, Scancode::F6, Scancode::F7, Scancode::F8, Scancode::F9, Scancode::F10][code - 59]
    } else if code <= 83 {
        seq![Scancode::NumLockClear, Scancode::ScrollLock, Scancode::Kp7, Scancode::Kp8, Scancode::Kp9, Scancode::KpMinus, Scancode::Kp4, Scancode::Kp5, Scancode::Kp6, Scancode::KpPlus, Scancode::Kp1, Scancode::Kp2, Scancode::Kp3, Scancode::Kp0, Scancode::KpPeriod][code - 69]
    } else if code <= 88 {
        seq![Scancode::NonUsBackslash, Scancode::F11, Scancode::F12][code - 86]
    } else if code <= 100 {
        seq![Scancode::KpEnter, Scancode::RCtrl, Scancode::KpDivide, Scancode::PrintScreen, Scancode::RAlt][code - 96]
    } else if code <= 111 {
        seq![Scancode::Home, Scancode::Up, Scancode::PageUp, Scancode::Left, Scancode::Right, Scancode::End, Scancode::Down, Scancode::PageDown, Scancode::Insert, Scancode::Delete][code - 102]
    } else if code == 119 {
        seq![Scancode::Pause][code - 119]
    } else {
        seq![Scancode::LGui, Scancode::RGui, Scancode::Application][code - 125]
    }
}

/// Every key that the host knows has an evdev code.
proof fn evdev_of_key(sc: Scancode) -> (code: u16)
    requires
        sc !is Unmapped,
    ensures
        evdev_usage(code as int) == sc.usage(),
{
    let u = sc.usage()->0;
    if u <= 29 {
        seq![30u16, 48u16, 46u16, 32u16, 18u16, 33u16, 34u16, 35u16, 23u16, 36u16, 37u16, 38u16, 50u16, 49u16, 24u16, 25u16, 16u16, 19u16, 31u16, 20u16, 22u16, 47u16, 17u16, 45u16, 21u16, 44u16][u - 4]
    } else if u <= 49 {
        seq![2u16, 3u16, 4u16, 5u16, 6u16, 7u16, 8u16, 9u16, 10u16, 11u16, 28u16, 1u16, 14u16, 15u16, 57u16, 12u16, 13u16, 26u16, 27u16, 43u16][u - 30]
    } else if u <= 57 {
        seq![39u16, 40u16, 41u16, 51u16, 52u16, 53u16, 58u16][u - 51]
    } else if u <= 69 {
        seq![59u16, 60u16, 61u16, 62u16, 63u16, 64u16, 65u16, 66u16, 67u16, 68u16, 87u16, 88u16][u - 58]
    } else if u <= 78 {
        seq![99u16, 70u16, 119u16, 110u16, 102u16, 104u16, 111u16, 107u16, 109u16][u - 70]
    } else if u <= 82 {
        seq![106u16, 105u16, 108u16, 103u16][u - 79]
    } else if u <= 88 {
        seq![69u16, 98u16, 55u16, 74u16, 78u16, 96u16][u - 83]
    } else if u <= 101 {
        seq![79u16, 80u16, 81u16, 75u16, 76u16, 77u16, 71u16, 72u16, 73u16, 82u16, 83u16, 86u16, 127u16][u - 89]
    } else {
        seq![29u16, 42u16, 56u16, 125u16, 97u16, 54u16, 100u16, 126u16][u - 224]
    }
}

/// An evdev code that the host knows belongs to exactly one key, and reading that key through
/// evdev or through its scancode gives the host the same VK.
pub proof fn lemma_evdev_agrees_with_scancodes(code: u16)
    ensures
        evdev_vk(code as int) is Some <==> evdev_usage(code as int) is Some,
        evdev_vk(code as int) is Some ==> exists|sc: Scancode|
            #[trigger] sc.usage() == evdev_usage(code as int) && key_vk(sc) == evdev_vk(code as int),
        forall|other: u16|
            evdev_usage(code as int) is Some && #[trigger] evdev_usage(other as int)
                == evdev_usage(code as int) ==> other == code,
{
    if evdev_usage(code as int) is Some {
        let sc = key_of_evdev(code as int);
        assert(key_vk(sc) == evdev_vk(code as int));
    }
}

/// Every key that has a VK by its scancode has the same VK through evdev.
pub proof fn lemma_scancodes_agree_with_evdev(sc: Scancode)
    ensures
        key_vk(sc) is Some <==> sc !is Unmapped,
        key_vk(sc) is Some ==> exists|code: u16|
            #[trigger] evdev_usage(code as int) == sc.usage() && evdev_vk(code as int) == key_vk(sc),
{
    if sc !is Unmapped {
        let code = evdev_of_key(sc);
        assert(evdev_vk(code as int) == key_vk(sc));
    }
}

/// The host can tell any two keys apart by their VK, but for Return and the keypad's Enter.
pub proof fn lemma_vk_tells_keys_apart(a: Scancode, b: Scancode)
    requires
        key_vk(a) is Some,
        key_vk(a) == key_vk(b),
        a != b,
    ensures
        a is Return && b is KpEnter || a is KpEnter && b is Return,
{
}

/// A release names the same key as its press and differs from it in the kind alone.
pub proof fn lemma_release_matches_press(code: u32)
    ensures
        wire_key(code, true).kind is KeyDown,
        wire_key(code, false).kind is KeyUp,
        (InputEvent { kind: InputKind::KeyUp, ..wire_key(code, true) }) == wire_key(code, false),
{
}

/// What the host is sent for a key: its scancode has the number `usage`, the kernel reports it under
/// the code `evdev`, and both ways in, its press and its release carry `vk`.
pub open spec fn sent_as(key: Scancode, usage: i32, evdev: u16, vk: u32) -> bool {
    &&& forall|k: Scancode| #[trigger] call_ensures(Scancode::from_raw, (usage,), k) ==> k == key
    &&& forall|found: Option<u32>| #[trigger] call_ensures(vk_code, (key,), found) ==> found == Some(
        vk,
    )
    &&& forall|found: Option<u32>| #[trigger]
        call_ensures(vk_from_evdev, (evdev,), found) ==> found == Some(vk)
    &&& forall|pressed: bool, ev: Option<InputEvent>| #[trigger]
        call_ensures(key_event, (key, pressed), ev) ==> ev is Some && carries(ev->0, vk, pressed)
}

/// A wire event that carries a VK and nothing else.
pub open spec fn carries(ev: InputEvent, vk: u32, pressed: bool) -> bool {
    &&& ev.code == vk
    &&& pressed <==> ev.kind is KeyDown
    &&& !pressed <==> ev.kind is KeyUp
    &&& ev.x == 0 && ev.y == 0 && ev.flags == 0
    &&& forall|i: int| 0 <= i < 3 ==> #[trigger] ev._pad@[i] == 0
}

proof fn sent_as_listed(key: Scancode, usage: i32, evdev: u16, vk: u32)
    requires
        key.usage() == Some(usage as int),
        key_vk(key) == Some(vk as int),
        evdev_vk(evdev as int) == Some(vk as int),
    ensures
        sent_as(key, usage, evdev, vk),
{
    assert forall|k: Scancode| #[trigger]
        call_ensures(Scancode::from_raw, (usage,), k) implies k == key by {
        crate::scancode::lemma_usage_is_injective(k, key);
    }
    assert forall|pressed: bool, ev: Option<InputEvent>| #[trigger]
        call_ensures(key_event, (key, pressed), ev) implies ev is Some && carries(
        ev->0,
        vk,
        pressed,
    ) by {
        lemma_wire_keys_carry_their_vk(vk, pressed);
    }
}

proof fn lemma_wire_keys_carry_their_vk(vk: u32, pressed: bool)
    ensures
        carries(wire_key(vk, pressed), vk, pressed),
{
    let pad = wire_key(vk, pressed)._pad@;
    assert(pad =~= seq![0u8, 0u8, 0u8]);
}

/// The letters, by their place on a QWERTY keyboard.
pub proof fn lemma_host_gets_letters()
    ensures
        sent_as(Scancode::A, 4, 30, 0x41),
        sent_as(Scancode::B, 5, 48, 0x42),
        sent_as(Scancode::C, 6, 46, 0x43),
        sent_as(Scancode::D, 7, 32, 0x44),
        sent_as(Scancode::E, 8, 18, 0x45),
        sent_as(Scancode::F, 9, 33, 0x46),
        sent_as(Scancode::G, 10, 34, 0x47),
        sent_as(Scancode::H, 11, 35, 0x48),
        sent_as(Scancode::I, 12, 23, 0x49),
        sent_as(Scancode::J, 13, 36, 0x4A),
        sent_as(Scancode::K, 14, 37, 0x4B),
        sent_as(Scancode::L, 15, 38, 0x4C),
        sent_as(Scancode::M, 16, 50, 0x4D),
        sent_as(Scancode::N, 17, 49, 0x4E),
        sent_as(Scancode::O, 18, 24, 0x4F),
        sent_as(Scancode::P, 19, 25, 0x50),
        sent_as(Scancode::Q, 20, 16, 0x51),
        sent_as(Scancode::R, 21, 19, 0x52),
        sent_as(Scancode::S, 22, 31, 0x53),
        sent_as(Scancode::T, 23, 20, 0x54),
        sent_as(Scancode::U, 24, 22, 0x55),
        sent_as(Scancode::V, 25, 47, 0x56),
        sent_as(Scancode::W, 26, 17, 0x57),
        sent_as(Scancode::X, 27, 45, 0x58),
        sent_as(Scancode::Y, 28, 21, 0x59),
        sent_as(Scancode::Z, 29, 44, 0x5A),
{
    sent_as_listed(Scancode::A, 4, 30, 0x41);
    sent_as_listed(Scancode::B, 5, 48, 0x42);
    sent_as_listed(Scancode::C, 6, 46, 0x43);
    sent_as_listed(Scancode::D, 7, 32, 0x44);
    sent_as_listed(Scancode::E, 8, 18, 0x45);
    sent_as_listed(Scancode::F, 9, 33, 0x46);
    sent_as_listed(Scancode::G, 10, 34, 0x47);
    sent_as_listed(Scancode::H, 11, 35, 0x48);
    sent_as_listed(Scancode::I, 12, 23, 0x49);
    sent_as_listed(Scancode::J, 13, 36, 0x4A);
    sent_as_listed(Scancode::K, 14, 37, 0x4B);
    sent_as_listed(Scancode::L, 15, 38, 0x4C);
    sent_as_listed(Scancode::M, 16, 50, 0x4D);
    sent_as_listed(Scancode::N, 17, 49, 0x4E);
    sent_as_listed(Scancode::O, 18, 24, 0x4F);
    sent_as_listed(Scancode::P, 19, 25, 0x50);
    sent_as_listed(Scancode::Q, 20, 16, 0x51);
    sent_as_listed(Scancode::R, 21, 19, 0x52);
    sent_as_listed(Scancode::S, 22, 31, 0x53);
    sent_as_listed(Scancode::T, 23, 20, 0x54);
    sent_as_listed(Scancode::U, 24, 22, 0x55);
    sent_as_listed(Scancode::V, 25, 47, 0x56);
    sent_as_listed(Scancode::W, 26, 17, 0x57);
    sent_as_listed(Scancode::X, 27, 45, 0x58);
    sent_as_listed(Scancode::Y, 28, 21, 0x59);
    sent_as_listed(Scancode::Z, 29, 44, 0x5A);
}

/// The digits above the letters.
pub proof fn lemma_host_gets_digits()
    ensures
        sent_as(Scancode::Num0, 39, 11, 0x30),
        sent_as(Scancode::Num1, 30, 2, 0x31),
        sent_as(Scancode::Num2, 31, 3, 0x32),
        sent_as(Scancode::Num3, 32, 4, 0x33),
        sent_as(Scancode::Num4, 33, 5, 0x34),
        sent_as(Scancode::Num5, 34, 6, 0x35),
        sent_as(Scancode::Num6, 35, 7, 0x36),
        sent_as(Scancode::Num7, 36, 8, 0x37),
        sent_as(Scancode::Num8, 37, 9, 0x38),
        sent_as(Scancode::Num9, 38, 10, 0x39),
{
    sent_as_listed(Scancode::Num0, 39, 11, 0x30);
    sent_as_listed(Scancode::Num1, 30, 2, 0x31);
    sent_as_listed(Scancode::Num2, 31, 3, 0x32);
    sent_as_listed(Scancode::Num3, 32, 4, 0x33);
    sent_as_listed(Scancode::Num4, 33, 5, 0x34);
    sent_as_listed(Scancode::Num5, 34, 6, 0x35);
    sent_as_listed(Scancode::Num6, 35, 7, 0x36);
    sent_as_listed(Scancode::Num7, 36, 8, 0x37);
    sent_as_listed(Scancode::Num8, 37, 9, 0x38);
    sent_as_listed(Scancode::Num9, 38, 10, 0x39);
}

/// The function keys.
pub proof fn lemma_host_gets_function_keys()
    ensures
        sent_as(Scancode::F1, 58, 59, 0x70),
        sent_as(Scancode::F2, 59, 60, 0x71),
        sent_as(Scancode::F3, 60, 61, 0x72),
        sent_as(Scancode::F4, 61, 62, 0x73),
        sent_as(Scancode::F5, 62, 63, 0x74),
        sent_as(Scancode::F6, 63, 64, 0x75),
        sent_as(Scancode::F7, 64, 65, 0x76),
        sent_as(Scancode::F8, 65, 66, 0x77),
        sent_as(Scancode::F9, 66, 67, 0x78),
        sent_as(Scancode::F10, 67, 68, 0x79),
        sent_as(Scancode::F11, 68, 87, 0x7A),
        sent_as(Scancode::F12, 69, 88, 0x7B),
{
    sent_as_listed(Scancode::F1, 58, 59, 0x70);
    sent_as_listed(Scancode::F2, 59, 60, 0x71);
    sent_as_listed(Scancode::F3, 60, 61, 0x72);
    sent_as_listed(Scancode::F4, 61, 62, 0x73);
    sent_as_listed(Scancode::F5, 62, 63, 0x74);
    sent_as_listed(Scancode::F6, 63, 64, 0x75);
    sent_as_listed(Scancode::F7, 64, 65, 0x76);
    sent_as_listed(Scancode::F8, 65, 66, 0x77);
    sent_as_listed(Scancode::F9, 66, 67, 0x78);
    sent_as_listed(Scancode::F10, 67, 68, 0x79);
    sent_as_listed(Scancode::F11, 68, 87, 0x7A);
    sent_as_listed(Scancode::F12, 69, 88, 0x7B);
}

/// The arrows and the keys around them.
pub proof fn lemma_host_gets_arrows()
    ensures
        sent_as(Scancode::Left, 80, 105, 0x25),
        sent_as(Scancode::Up, 82, 103, 0x26),
        sent_as(Scancode::Right, 79, 106, 0x27),
        sent_as(Scancode::Down, 81, 108, 0x28),
        sent_as(Scancode::PageUp, 75, 104, 0x21),
        sent_as(Scancode::PageDown, 78, 109, 0x22),
        sent_as(Scancode::End, 77, 107, 0x23),
        sent_as(Scancode::Home, 74, 102, 0x24),
        sent_as(Scancode::Insert, 73, 110, 0x2D),
        sent_as(Scancode::Delete, 76, 111, 0x2E),
        sent_as(Scancode::PrintScreen, 70, 99, 0x2C),
        sent_as(Scancode::ScrollLock, 71, 70, 0x91),
        sent_as(Scancode::Pause, 72, 119, 0x13),
{
    sent_as_listed(Scancode::Left, 80, 105, 0x25);
    sent_as_listed(Scancode::Up, 82, 103, 0x26);
    sent_as_listed(Scancode::Right, 79, 106, 0x27);
    sent_as_listed(Scancode::Down, 81, 108, 0x28);
    sent_as_listed(Scancode::PageUp, 75, 104, 0x21);
    sent_as_listed(Scancode::PageDown, 78, 109, 0x22);
    sent_as_listed(Scancode::End, 77, 107, 0x23);
    sent_as_listed(Scancode::Home, 74, 102, 0x24);
    sent_as_listed(Scancode::Insert, 73, 110, 0x2D);
    sent_as_listed(Scancode::Delete, 76, 111, 0x2E);
    sent_as_listed(Scancode::PrintScreen, 70, 99, 0x2C);
    sent_as_listed(Scancode::ScrollLock, 71, 70, 0x91);
    sent_as_listed(Scancode::Pause, 72, 119, 0x13);
}

/// The keypad.
pub proof fn lemma_host_gets_keypad()
    ensures
        sent_as(Scancode::Kp0, 98, 82, 0x60),
        sent_as(Scancode::Kp1, 89, 79, 0x61),
        sent_as(Scancode::Kp2, 90, 80, 0x62),
        sent_as(Scancode::Kp3, 91, 81, 0x63),
        sent_as(Scancode::Kp4, 92, 75, 0x64),
        sent_as(Scancode::Kp5, 93, 76, 0x65),
        sent_as(Scancode::Kp6, 94, 77, 0x66),
        sent_as(Scancode::Kp7, 95, 71, 0x67),
        sent_as(Scancode::Kp8, 96, 72, 0x68),
        sent_as(Scancode::Kp9, 97, 73, 0x69),
        sent_as(Scancode::KpMultiply, 85, 55, 0x6A),
        sent_as(Scancode::KpPlus, 87, 78, 0x6B),
        sent_as(Scancode::KpMinus, 86, 74, 0x6D),
        sent_as(Scancode::KpPeriod, 99, 83, 0x6E),
        sent_as(Scancode::KpDivide, 84, 98, 0x6F),
        sent_as(Scancode::KpEnter, 88, 96, 0x0D),
        sent_as(Scancode::NumLockClear, 83, 69, 0x90),
{
    sent_as_listed(Scancode::Kp0, 98, 82, 0x60);
    sent_as_listed(Scancode::Kp1, 89, 79, 0x61);
    sent_as_listed(Scancode::Kp2, 90, 80, 0x62);
    sent_as_listed(Scancode::Kp3, 91, 81, 0x63);
    sent_as_listed(Scancode::Kp4, 92, 75, 0x64);
    sent_as_listed(Scancode::Kp5, 93, 76, 0x65);
    sent_as_listed(Scancode::Kp6, 94, 77, 0x66);
    sent_as_listed(Scancode::Kp7, 95, 71, 0x67);
    sent_as_listed(Scancode::Kp8, 96, 72, 0x68);
    sent_as_listed(Scancode::Kp9, 97, 73, 0x69);
    sent_as_listed(Scancode::KpMultiply, 85, 55, 0x6A);
    sent_as_listed(Scancode::KpPlus, 87, 78, 0x6B);
    sent_as_listed(Scancode::KpMinus, 86, 74, 0x6D);
    sent_as_listed(Scancode::KpPeriod, 99, 83, 0x6E);
    sent_as_listed(Scancode::KpDivide, 84, 98, 0x6F);
    sent_as_listed(Scancode::KpEnter, 88, 96, 0x0D);
    sent_as_listed(Scancode::NumLockClear, 83, 69, 0x90);
}

/// The modifiers, left and right, and the context-menu key.
pub proof fn lemma_host_gets_modifiers()
    ensures
        sent_as(Scancode::LShift, 225, 42, 0xA0),
        sent_as(Scancode::RShift, 229, 54, 0xA1),
        sent_as(Scancode::LCtrl, 224, 29, 0xA2),
        sent_as(Scancode::RCtrl, 228, 97, 0xA3),
        sent_as(Scancode::LAlt, 226, 56, 0xA4),
        sent_as(Scancode::RAlt, 230, 100, 0xA5),
        sent_as(Scancode::LGui, 227, 125, 0x5B),
        sent_as(Scancode::RGui, 231, 126, 0x5C),
        sent_as(Scancode::Application, 101, 127, 0x5D),
        sent_as(Scancode::CapsLock, 57, 58, 0x14),
{
    sent_as_listed(Scancode::LShift, 225, 42, 0xA0);
    sent_as_listed(Scancode::RShift, 229, 54, 0xA1);
    sent_as_listed(Scancode::LCtrl, 224, 29, 0xA2);
    sent_as_listed(Scancode::RCtrl, 228, 97, 0xA3);
    sent_as_listed(Scancode::LAlt, 226, 56, 0xA4);
    sent_as_listed(Scancode::RAlt, 230, 100, 0xA5);
    sent_as_listed(Scancode::LGui, 227, 125, 0x5B);
    sent_as_listed(Scancode::RGui, 231, 126, 0x5C);
    sent_as_listed(Scancode::Application, 101, 127, 0x5D);
    sent_as_listed(Scancode::CapsLock, 57, 58, 0x14);
}

/// The keys that edit, and white space.
pub proof fn lemma_host_gets_editing_keys()
    ensures
        sent_as(Scancode::Backspace, 42, 14, 0x08),
        sent_as(Scancode::Tab, 43, 15, 0x09),
        sent_as(Scancode::Return, 40, 28, 0x0D),
        sent_as(Scancode::Escape, 41, 1, 0x1B),
        sent_as(Scancode::Space, 44, 57, 0x20),
{
    sent_as_listed(Scancode::Backspace, 42, 14, 0x08);
    sent_as_listed(Scancode::Tab, 43, 15, 0x09);
    sent_as_listed(Scancode::Return, 40, 28, 0x0D);
    sent_as_listed(Scancode::Escape, 41, 1, 0x1B);
    sent_as_listed(Scancode::Space, 44, 57, 0x20);
}

/// Punctuation, by its place on a US keyboard.
pub proof fn lemma_host_gets_punctuation()
    ensures
        sent_as(Scancode::Semicolon, 51, 39, 0xBA),
        sent_as(Scancode::Equals, 46, 13, 0xBB),
        sent_as(Scancode::Comma, 54, 51, 0xBC),
        sent_as(Scancode::Minus, 45, 12, 0xBD),
        sent_as(Scancode::Period, 55, 52, 0xBE),
        sent_as(Scancode::Slash, 56, 53, 0xBF),
        sent_as(Scancode::Grave, 53, 41, 0xC0),
        sent_as(Scancode::LeftBracket, 47, 26, 0xDB),
        sent_as(Scancode::Backslash, 49, 43, 0xDC),
        sent_as(Scancode::RightBracket, 48, 27, 0xDD),
        sent_as(Scancode::Apostrophe, 52, 40, 0xDE),
        sent_as(Scancode::NonUsBackslash, 100, 86, 0xE2),
{
    sent_as_listed(Scancode::Semicolon, 51, 39, 0xBA);
    sent_as_listed(Scancode::Equals, 46, 13, 0xBB);
    sent_as_listed(Scancode::Comma, 54, 51, 0xBC);
    sent_as_listed(Scancode::Minus, 45, 12, 0xBD);
    sent_as_listed(Scancode::Period, 55, 52, 0xBE);
    sent_as_listed(Scancode::Slash, 56, 53, 0xBF);
    sent_as_listed(Scancode::Grave, 53, 41, 0xC0);
    sent_as_listed(Scancode::LeftBracket, 47, 26, 0xDB);
    sent_as_listed(Scancode::Backslash, 49, 43, 0xDC);
    sent_as_listed(Scancode::RightBracket, 48, 27, 0xDD);
    sent_as_listed(Scancode::Apostrophe, 52, 40, 0xDE);
    sent_as_listed(Scancode::NonUsBackslash, 100, 86, 0xE2);
}

/// A wire event for a mapped VK carries it.
pub proof fn lemma_raw_events_carry_their_vk(vk: u32, pressed: bool, ev: InputEvent)
    requires
        call_ensures(raw_key_event, (vk, pressed), ev),
    ensures
        carries(ev, vk, pressed),
{
    lemma_wire_keys_carry_their_vk(vk, pressed);
}

/// The host gets nothing for any other key.
pub proof fn lemma_host_gets_no_other_keys(
    usage: i32,
    code: u16,
    key: Scancode,
    found: Option<u32>,
    by_code: Option<u32>,
    pressed: bool,
    ev: Option<InputEvent>,
)
    requires
        call_ensures(Scancode::from_raw, (usage,), key),
        call_ensures(vk_code, (key,), found),
        call_ensures(key_event, (key, pressed), ev),
        call_ensures(vk_from_evdev, (code,), by_code),
    ensures
        found is Some <==> 4 <= usage <= 49 || 51 <= usage <= 101 || 224 <= usage <= 231,
        ev is Some <==> found is Some,
        by_code is Some <==> 1 <= code <= 83 || 86 <= code <= 88 || 96 <= code <= 100 || 102 <= code
            <= 111 || code == 119 || 125 <= code <= 127,
{
    key_with_usage(usage);
}

/// Every number in the known ranges is some key's.
proof fn key_with_usage(usage: i32)
    ensures
        4 <= usage <= 49 || 51 <= usage <= 101 || 224 <= usage <= 231 ==> exists|k: Scancode|
            #[trigger] k.usage() == Some(usage as int),
{
    if 4 <= usage <= 49 || 51 <= usage <= 101 || 224 <= usage <= 231 {
        let k: Scancode = if usage == 4 {
            Scancode::A
        } else if usage == 5 {
            Scancode::B
        } else if usage == 6 {
            Scancode::C
        } else if usage == 7 {
            Scancode::D
        } else if usage == 8 {
            Scancode::E
        } else if usage == 9 {
            Scancode::F
        } else if usage == 10 {
            Scancode::G
        } else if usage == 11 {
            Scancode::H
        } else if usage == 12 {
            Scancode::I
        } else if usage == 13 {
            Scancode::J
        } else if usage == 14 {
            Scancode::K
        } else if usage == 15 {
            Scancode::L
        } else if usage == 16 {
            Scancode::M
        } else if usage == 17 {
            Scancode::N
        } else if usage == 18 {
            Scancode::O
        } else if usage == 19 {
            Scancode::P
        } else if usage == 20 {
            Scancode::Q
        } else if usage == 21 {
            Scancode::R
        } else if usage == 22 {
            Scancode::S
        } else if usage == 23 {
            Scancode::T
        } else if usage == 24 {
            Scancode::U
        } else if usage == 25 {
            Scancode::V
        } else if usage == 26 {
            Scancode::W
        } else if usage == 27 {
            Scancode::X
        } else if usage == 28 {
            Scancode::Y
        } else if usage == 29 {
            Scancode::Z
        } else if usage == 30 {
            Scancode::Num1
        } else if usage == 31 {
            Scancode::Num2
        } else if usage == 32 {
            Scancode::Num3
        } else if usage == 33 {
            Scancode::Num4
        } else if usage == 34 {
            Scancode::Num5
        } else if usage == 35 {
            Scancode::Num6
        } else if usage == 36 {
            Scancode::Num7
        } else if usage == 37 {
            Scancode::Num8
        } else if usage == 38 {
            Scancode::Num9
        } else if usage == 39 {
            Scancode::Num0
        } else if usage == 40 {
            Scancode::Return
        } else if usage == 41 {
            Scancode::Escape
        } else if usage == 42 {
            Scancode::Backspace
        } else if usage == 43 {
            Scancode::Tab
        } else if usage == 44 {
            Scancode::Space
        } else if usage == 45 {
            Scancode::Minus
        } else if usage == 46 {
            Scancode::Equals
        } else if usage == 47 {
            Scancode::LeftBracket
        } else if usage == 48 {
            Scancode::RightBracket
        } else if usage == 49 {
            Scancode::Backslash
        } else if usage == 51 {
            Scancode::Semicolon
        } else if usage == 52 {
            Scancode::Apostrophe
        } else if usage == 53 {
            Scancode::Grave
        } else if usage == 54 {
            Scancode::Comma
        } else if usage == 55 {
            Scancode::Period
        } else if usage == 56 {
            Scancode::Slash
        } else if usage == 57 {
            Scancode::CapsLock
        } else if usage == 58 {
            Scancode::F1
        } else if usage == 59 {
            Scancode::F2
        } else if usage == 60 {
            Scancode::F3
        } else if usage == 61 {
            Scancode::F4
        } else if usage == 62 {
            Scancode::F5
        } else if usage == 63 {
            Scancode::F6
        } else if usage == 64 {
            Scancode::F7
        } else if usage == 65 {
            Scancode::F8
        } else if usage == 66 {
            Scancode::F9
        } else if usage == 67 {
            Scancode::F10
        } else if usage == 68 {
            Scancode::F11
        } else if usage == 69 {
            Scancode::F12
        } else if usage == 70 {
            Scancode::PrintScreen
        } else if usage == 71 {
            Scancode::ScrollLock
        } else if usage == 72 {
            Scancode::Pause
        } else if usage == 73 {
            Scancode::Insert
        } else if usage == 74 {
            Scancode::Home
        } else if usage == 75 {
            Scancode::PageUp
        } else if usage == 76 {
            Scancode::Delete
        } else if usage == 77 {
            Scancode::End
        } else if usage == 78 {
            Scancode::PageDown
        } else if usage == 79 {
            Scancode::Right
        } else if usage == 80 {
            Scancode::Left
        } else if usage == 81 {
            Scancode::Down
        } else if usage == 82 {
            Scancode::Up
        } else if usage == 83 {
            Scancode::NumLockClear
        } else if usage == 84 {
            Scancode::KpDivide
        } else if usage == 85 {
            Scancode::KpMultiply
        } else if usage == 86 {
            Scancode::KpMinus
        } else if usage == 87 {
            Scancode::KpPlus
        } else if usage == 88 {
            Scancode::KpEnter
        } else if usage == 89 {
            Scancode::Kp1
        } else if usage == 90 {
            Scancode::Kp2
        } else if usage == 91 {
            Scancode::Kp3
        } else if usage == 92 {
            Scancode::Kp4
        } else if usage == 93 {
            Scancode::Kp5
        } else if usage == 94 {
            Scancode::Kp6
        } else if usage == 95 {
            Scancode::Kp7
        } else if usage == 96 {
            Scancode::Kp8
        } else if usage == 97 {
            Scancode::Kp9
        } else if usage == 98 {
            Scancode::Kp0
        } else if usage == 99 {
            Scancode::KpPeriod
        } else if usage == 100 {
            Scancode::NonUsBackslash
        } else if usage == 101 {
            Scancode::Application
        } else if usage == 224 {
            Scancode::LCtrl
        } else if usage == 225 {
            Scancode::LShift
        } else if usage == 226 {
            Scancode::LAlt
        } else if usage == 227 {
            Scancode::LGui
        } else if usage == 228 {
            Scancode::RCtrl
        } else if usage == 229 {
            Scancode::RShift
        } else if usage == 230 {
            Scancode::RAlt
        } else {
            Scancode::RGui
        };
        assert(k.usage() == Some(usage as int));
    }
}

} // verus!

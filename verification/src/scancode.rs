//! Physical keys, named as SDL names its scancodes and numbered by their USB usage.
use vstd::prelude::*;

verus! {

/// A physical key of a QWERTY keyboard that the host can be told about. `Unmapped` stands for
/// every other key.
#[derive(Clone, Copy, Debug, PartialEq, Eq, Structural)]
pub enum Scancode {
    Backspace,
    Tab,
    Return,
    KpEnter,
    Pause,
    CapsLock,
    Escape,
    Space,
    PageUp,
    PageDown,
    End,
    Home,
    Left,
    Up,
    Right,
    Down,
    PrintScreen,
    Insert,
    Delete,
    Num0,
    Num1,
    Num2,
    Num3,
    Num4,
    Num5,
    Num6,
    Num7,
    Num8,
    Num9,
    A,
    B,
    C,
    D,
    E,
    F,
    G,
    H,
    I,
    J,
    K,
    L,
    M,
    N,
    O,
    P,
    Q,
    R,
    S,
    T,
    U,
    V,
    W,
    X,
    Y,
    Z,
    LGui,
    RGui,
    Application,
    Kp0,
    Kp1,
    Kp2,
    Kp3,
    Kp4,
    Kp5,
    Kp6,
    Kp7,
    Kp8,
    Kp9,
    KpMultiply,
    KpPlus,
    KpMinus,
    KpPeriod,
    KpDivide,
    F1,
    F2,
    F3,
    F4,
    F5,
    F6,
    F7,
    F8,
    F9,
    F10,
    F11,
    F12,
    NumLockClear,
    ScrollLock,
    LShift,
    RShift,
    LCtrl,
    RCtrl,
    LAlt,
    RAlt,
    Semicolon,
    Equals,
    Comma,
    Minus,
    Period,
    Slash,
    Grave,
    LeftBracket,
    Backslash,
    RightBracket,
    Apostrophe,
    NonUsBackslash,
    Unmapped,
}

impl Scancode {
    /// The number of the key on the USB keyboard usage page, which is also the number of its SDL
    /// scancode.
    pub open spec fn usage(self) -> Option<int> {
        match self {
            Scancode::Backspace => Some(42),
            Scancode::Tab => Some(43),
            Scancode::Return => Some(40),
            Scancode::KpEnter => Some(88),
            Scancode::Pause => Some(72),
            Scancode::CapsLock => Some(57),
            Scancode::Escape => Some(41),
            Scancode::Space => Some(44),
            Scancode::PageUp => Some(75),
            Scancode::PageDown => Some(78),
            Scancode::End => Some(77),
            Scancode::Home => Some(74),
            Scancode::Left => Some(80),
            Scancode::Up => Some(82),
            Scancode::Right => Some(79),
            Scancode::Down => Some(81),
            Scancode::PrintScreen => Some(70),
            Scancode::Insert => Some(73),
            Scancode::Delete => Some(76),
            Scancode::Num0 => Some(39),
            Scancode::Num1 => Some(30),
            Scancode::Num2 => Some(31),
            Scancode::Num3 => Some(32),
            Scancode::Num4 => Some(33),
            Scancode::Num5 => Some(34),
            Scancode::Num6 => Some(35),
            Scancode::Num7 => Some(36),
            Scancode::Num8 => Some(37),
            Scancode::Num9 => Some(38),
            Scancode::A => Some(4),
            Scancode::B => Some(5),
            Scancode::C => Some(6),
            Scancode::D => Some(7),
            Scancode::E => Some(8),
            Scancode::F => Some(9),
            Scancode::G => Some(10),
            Scancode::H => Some(11),
            Scancode::I => Some(12),
            Scancode::J => Some(13),
            Scancode::K => Some(14),
            Scancode::L => Some(15),
            Scancode::M => Some(16),
            Scancode::N => Some(17),
            Scancode::O => Some(18),
            Scancode::P => Some(19),
            Scancode::Q => Some(20),
            Scancode::R => Some(21),
            Scancode::S => Some(22),
            Scancode::T => Some(23),
            Scancode::U => Some(24),
            Scancode::V => Some(25),
            Scancode::W => Some(26),
            Scancode::X => Some(27),
            Scancode::Y => Some(28),
            Scancode::Z => Some(29),
            Scancode::LGui => Some(227),
            Scancode::RGui => Some(231),
            Scancode::Application => Some(101),
            Scancode::Kp0 => Some(98),
            Scancode::Kp1 => Some(89),
            Scancode::Kp2 => Some(90),
            Scancode::Kp3 => Some(91),
            Scancode::Kp4 => Some(92),
            Scancode::Kp5 => Some(93),
            Scancode::Kp6 => Some(94),
            Scancode::Kp7 => Some(95),
            Scancode::Kp8 => Some(96),
            Scancode::Kp9 => Some(97),
            Scancode::KpMultiply => Some(85),
            Scancode::KpPlus => Some(87),
            Scancode::KpMinus => Some(86),
            Scancode::KpPeriod => Some(99),
            Scancode::KpDivide => Some(84),
            Scancode::F1 => Some(58),
            Scancode::F2 => Some(59),
            Scancode::F3 => Some(60),
            Scancode::F4 => Some(61),
            Scancode::F5 => Some(62),
            Scancode::F6 => Some(63),
            Scancode::F7 => Some(64),
            Scancode::F8 => Some(65),
            Scancode::F9 => Some(66),
            Scancode::F10 => Some(67),
            Scancode::F11 => Some(68),
            Scancode::F12 => Some(69),
            Scancode::NumLockClear => Some(83),
            Scancode::ScrollLock => Some(71),
            Scancode::LShift => Some(225),
            Scancode::RShift => Some(229),
            Scancode::LCtrl => Some(224),
            Scancode::RCtrl => Some(228),
            Scancode::LAlt => Some(226),
            Scancode::RAlt => Some(230),
            Scancode::Semicolon => Some(51),
            Scancode::Equals => Some(46),
            Scancode::Comma => Some(54),
            Scancode::Minus => Some(45),
            Scancode::Period => Some(55),
            Scancode::Slash => Some(56),
            Scancode::Grave => Some(53),
            Scancode::LeftBracket => Some(47),
            Scancode::Backslash => Some(49),
            Scancode::RightBracket => Some(48),
            Scancode::Apostrophe => Some(52),
            Scancode::NonUsBackslash => Some(100),
            Scancode::Unmapped => None,
        }
    }

    /// The key with scancode number `raw`; `Unmapped` where the host has no such key.
    pub fn from_raw(raw: i32) -> (key: Scancode)
        ensures
            key is Unmapped <==> (forall|k: Scancode| #[trigger] k.usage() != Some(raw as int)),
            key !is Unmapped ==> key.usage() == Some(raw as int),
    {
        match raw {
            4 => Scancode::A,
            5 => Scancode::B,
            6 => Scancode::C,
            7 => Scancode::D,
            8 => Scancode::E,
            9 => Scancode::F,
            10 => Scancode::G,
            11 => Scancode::H,
            12 => Scancode::I,
            13 => Scancode::J,
            14 => Scancode::K,
            15 => Scancode::L,
            16 => Scancode::M,
            17 => Scancode::N,
            18 => Scancode::O,
            19 => Scancode::P,
            20 => Scancode::Q,
            21 => Scancode::R,
            22 => Scancode::S,
            23 => Scancode::T,
            24 => Scancode::U,
            25 => Scancode::V,
            26 => Scancode::W,
            27 => Scancode::X,
            28 => Scancode::Y,
            29 => Scancode::Z,
            30 => Scancode::Num1,
            31 => Scancode::Num2,
            32 => Scancode::Num3,
            33 => Scancode::Num4,
            34 => Scancode::Num5,
            35 => Scancode::Num6,
            36 => Scancode::Num7,
            37 => Scancode::Num8,
            38 => Scancode::Num9,
            39 => Scancode::Num0,
            40 => Scancode::Return,
            41 => Scancode::Escape,
            42 => Scancode::Backspace,
            43 => Scancode::Tab,
            44 => Scancode::Space,
            45 => Scancode::Minus,
            46 => Scancode::Equals,
            47 => Scancode::LeftBracket,
            48 => Scancode::RightBracket,
            49 => Scancode::Backslash,
            51 => Scancode::Semicolon,
            52 => Scancode::Apostrophe,
            53 => Scancode::Grave,
            54 => Scancode::Comma,
            55 => Scancode::Period,
            56 => Scancode::Slash,
            57 => Scancode::CapsLock,
            58 => Scancode::F1,
            59 => Scancode::F2,
            60 => Scancode::F3,
            61 => Scancode::F4,
            62 => Scancode::F5,
            63 => Scancode::F6,
            64 => Scancode::F7,
            65 => Scancode::F8,
            66 => Scancode::F9,
            67 => Scancode::F10,
            68 => Scancode::F11,
            69 => Scancode::F12,
            70 => Scancode::PrintScreen,
            71 => Scancode::ScrollLock,
            72 => Scancode::Pause,
            73 => Scancode::Insert,
            74 => Scancode::Home,
            75 => Scancode::PageUp,
            76 => Scancode::Delete,
            77 => Scancode::End,
            78 => Scancode::PageDown,
            79 => Scancode::Right,
            80 => Scancode::Left,
            81 => Scancode::Down,
            82 => Scancode::Up,
            83 => Scancode::NumLockClear,
            84 => Scancode::KpDivide,
            85 => Scancode::KpMultiply,
            86 => Scancode::KpMinus,
            87 => Scancode::KpPlus,
            88 => Scancode::KpEnter,
            89 => Scancode::Kp1,
            90 => Scancode::Kp2,
            91 => Scancode::Kp3,
            92 => Scancode::Kp4,
            93 => Scancode::Kp5,
            94 => Scancode::Kp6,
            95 => Scancode::Kp7,
            96 => Scancode::Kp8,
            97 => Scancode::Kp9,
            98 => Scancode::Kp0,
            99 => Scancode::KpPeriod,
            100 => Scancode::NonUsBackslash,
            101 => Scancode::Application,
            224 => Scancode::LCtrl,
            225 => Scancode::LShift,
            226 => Scancode::LAlt,
            227 => Scancode::LGui,
            228 => Scancode::RCtrl,
            229 => Scancode::RShift,
            230 => Scancode::RAlt,
            231 => Scancode::RGui,
            _ => Scancode::Unmapped,
        }
    }
}

/// Two different keys never share a usage number.
pub proof fn lemma_usage_is_injective(a: Scancode, b: Scancode)
    requires
        a.usage() == b.usage(),
    ensures
        a == b,
{
}

} // verus!

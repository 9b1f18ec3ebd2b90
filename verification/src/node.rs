//! Evdev nodes: what the kernel says of one, and whether it is a mouse or a keyboard to take.
use vstd::prelude::*;
use vstd::utf8::{decode_utf8, valid_utf8};
use crate::device::Device;
use crate::text::{chars_of, has_char, same_text, starts_with};

verus! {

pub const EV_KEY: u16 = 0x01;
pub const EV_REL: u16 = 0x02;
pub const EV_ABS: u16 = 0x03;

pub const ABS_X: u16 = 0x00;
pub const ABS_Y: u16 = 0x01;
pub const REL_X: u16 = 0x00;
pub const REL_Y: u16 = 0x01;
pub const REL_HWHEEL: u16 = 0x06;
pub const REL_WHEEL: u16 = 0x08;

pub const BTN_LEFT: u16 = 0x110;
pub const BTN_RIGHT: u16 = 0x111;
pub const BTN_MIDDLE: u16 = 0x112;
pub const BTN_SIDE: u16 = 0x113;
pub const BTN_EXTRA: u16 = 0x114;

pub const KEY_LEFTCTRL: u16 = 29;
pub const KEY_A: u16 = 30;

/// The names of the TV's own remotes and keypads. They advertise every key of a keyboard, so
/// only the name sets them apart.
pub open spec fn builtin_name(name: Seq<char>) -> bool {
    ||| "LGE"@.is_prefix_of(name)
    ||| name == "CHECK INPUT"@
    ||| name == "IoT keypad"@
    ||| "Bluetooth-audio"@.is_prefix_of(name)
}

/// Whether a node with this name belongs to the TV itself.
pub fn is_tv_builtin(name: &str) -> (yes: bool)
    ensures
        yes == builtin_name(name@),
{
    is_builtin_name(&chars_of(name))
}

/// Whether these characters are one of the TV's own names.
pub fn is_builtin_name(chars: &Vec<char>) -> (yes: bool)
    ensures
        yes == builtin_name(chars@),
{
    starts_with(chars, "LGE") || same_text(chars, "CHECK INPUT") || same_text(
        chars,
        "IoT keypad",
    ) || starts_with(chars, "Bluetooth-audio")
}

/// Whether a capability bitmap has the bit for `code`: bit `code % 8` of byte `code / 8`. Codes
/// beyond the bitmap are not supported.
pub open spec fn has_bit(bits: Seq<u8>, code: u16) -> bool {
    code / 8 < bits.len() && (bits[(code / 8) as int] >> ((code % 8) as u8)) & 1u8 == 1u8
}

/// Whether the bitmap has the bit for `code`.
pub fn bit(bits: &[u8; 128], code: u16) -> (yes: bool)
    ensures
        yes == has_bit(bits@, code),
{
    let idx: usize = (code / 8) as usize;
    if idx >= 128 {
        return false;
    }
    let byte: u8 = bits[idx];
    let shift: u8 = (code % 8) as u8;
    assert((byte & (1u8 << shift) != 0u8) == ((byte >> shift) & 1u8 == 1u8)) by (bit_vector)
        requires
            shift < 8,
    ;
    byte & (1u8 << shift) != 0
}

/// The capability bitmap that a request for it left behind: what it filled in, or no bits at all
/// where it failed with a negative `rc`.
pub fn event_bits(rc: i32, filled: [u8; 128]) -> (bits: [u8; 128])
    ensures
        rc >= 0 ==> bits@ == filled@,
        rc < 0 ==> bits@ == Seq::new(128, |i: int| 0u8),
{
    if rc < 0 {
        return [0u8; 128];
    }
    filled
}

/// What `String::from_utf8_lossy` makes of bytes.
pub uninterp spec fn lossy_text(bytes: Seq<u8>) -> Seq<char>;

/// Calls `String::from_utf8_lossy` and takes the text as its own. The contract claims that the
/// text depends on the bytes alone, and that bytes which are valid UTF-8 are decoded unchanged.
#[verifier::external_body]
fn utf8_lossy(bytes: &[u8]) -> (text: String)
    ensures
        text@ == lossy_text(bytes@),
        valid_utf8(bytes@) ==> text@ == decode_utf8(bytes@),
{
    String::from_utf8_lossy(bytes).into_owned()
}

/// The bytes in front of the first zero byte, or all of them.
pub open spec fn before_zero(bytes: Seq<u8>) -> Seq<u8>
    decreases bytes.len(),
{
    if bytes.len() == 0 || bytes[0] == 0 {
        seq![]
    } else {
        seq![bytes[0]] + before_zero(bytes.skip(1))
    }
}

proof fn before_zero_is_a_run(bytes: Seq<u8>, end: int)
    requires
        0 <= end <= bytes.len(),
        forall|k: int| 0 <= k < end ==> #[trigger] bytes[k] != 0,
        end < bytes.len() ==> bytes[end] == 0,
    ensures
        before_zero(bytes) == bytes.take(end),
    decreases end,
{
    if end > 0 {
        let rest = bytes.skip(1);
        assert forall|k: int| 0 <= k < end - 1 implies #[trigger] rest[k] != 0 by {
            assert(rest[k] == bytes[k + 1]);
        }
        before_zero_is_a_run(rest, end - 1);
        assert(seq![bytes[0]] + rest.take(end - 1) =~= bytes.take(end));
    } else {
        assert(bytes.take(0) =~= seq![]);
    }
}

/// The name that a request for it left in `buf`. There is none where the request failed or wrote
/// nothing (`rc` not positive).
pub fn device_name(rc: i32, buf: &[u8]) -> (name: Option<String>)
    ensures
        name is Some <==> rc > 0,
        name is Some ==> name->0@ == lossy_text(before_zero(buf@)),
        name is Some && valid_utf8(before_zero(buf@)) ==> name->0@ == decode_utf8(
            before_zero(buf@),
        ),
{
    if rc <= 0 {
        return None;
    }
    let mut len: usize = 0;
    while len < buf.len() && buf[len] != 0
        invariant
            len <= buf@.len(),
            forall|k: int| 0 <= k < len ==> #[trigger] buf@[k] != 0,
        decreases buf.len() - len,
    {
        len = len + 1;
    }
    proof {
        before_zero_is_a_run(buf@, len as int);
        assert(buf@.subrange(0, len as int) =~= buf@.take(len as int));
    }
    Some(utf8_lossy(vstd::slice::slice_subrange(buf, 0, len)))
}

/// The capability bitmaps of a node.
#[derive(Clone, Copy)]
pub struct NodeBits {
    pub rel: [u8; 128],
    pub abs: [u8; 128],
    pub key: [u8; 128],
}

impl NodeBits {
    /// A pointer that reports positions, as the Magic Remote does. Both axes are asked for: real
    /// mice advertise stray absolute axes.
    pub open spec fn absolute_pointer(self) -> bool {
        has_bit(self.abs@, ABS_X) && has_bit(self.abs@, ABS_Y)
    }

    /// A pointer that reports movement on both axes and no positions.
    pub open spec fn is_mouse(self) -> bool {
        has_bit(self.rel@, REL_X) && has_bit(self.rel@, REL_Y) && !self.absolute_pointer()
    }

    /// A node with the keys of a keyboard that is no absolute pointer.
    pub open spec fn is_keyboard(self) -> bool {
        !self.absolute_pointer() && (has_bit(self.key@, KEY_A) || has_bit(self.key@, KEY_LEFTCTRL))
    }
}

/// How the attempt to open a node went.
pub enum Opened {
    /// The path cannot be handed to the system.
    BadPath,
    /// The node did not open: nothing is attached to it, or it belongs to someone else.
    Refused,
    /// The node is open; its name, where it has one.
    Node { name: Option<String> },
}

/// What probing a node found. It decides whether a later scan tries the node again.
pub enum Probe {
    /// A mouse or keyboard to read.
    Hid(Device),
    /// Open, and not ours: settled.
    Skip,
    /// Not openable yet: it looks like a dongle that is not plugged in.
    Unopenable,
}

/// What to do with a node before its capabilities are known.
#[derive(Clone, Copy, Debug, PartialEq, Eq, Structural)]
pub enum Screened {
    Skip,
    Unopenable,
    /// Ask the node for its capabilities.
    ReadBits,
}

/// The name of a node as far as the TV's own names go: empty where it has none.
pub open spec fn name_or_empty(name: Option<String>) -> Seq<char> {
    match name {
        Some(n) => n@,
        None => seq![],
    }
}

/// What is decided by the opening and the name alone.
pub open spec fn screened(opened: Opened) -> Screened {
    match opened {
        Opened::BadPath => Screened::Skip,
        Opened::Refused => Screened::Unopenable,
        Opened::Node { name } => if builtin_name(name_or_empty(name)) {
            Screened::Skip
        } else {
            Screened::ReadBits
        },
    }
}

/// Decides by the opening and the name alone whether a node is worth asking for capabilities.
pub fn screen(opened: &Opened) -> (s: Screened)
    ensures
        s == screened(*opened),
{
    match opened {
        Opened::BadPath => Screened::Skip,
        Opened::Refused => Screened::Unopenable,
        Opened::Node { name } => {
            let builtin: bool = match name {
                Some(n) => is_tv_builtin(n.as_str()),
                None => {
                    let none: String = String::new();
                    is_tv_builtin(none.as_str())
                },
            };
            if builtin {
                Screened::Skip
            } else {
                Screened::ReadBits
            }
        },
    }
}

/// Whether a node with these capabilities is taken: keyboards always, mice only while the pointer
/// is captured. Without capture the compositor keeps the mouse, so that the TV pointer still
/// aims.
pub open spec fn takes(bits: NodeBits, grab_mouse: bool) -> bool {
    bits.is_keyboard() || (bits.is_mouse() && grab_mouse)
}

/// Decides what a node is, from how its opening went and from its capabilities (which matter only
/// where `screen` asks for them). A path with a zero character cannot be handed to the system, so it
/// is settled whatever is said of its opening.
pub fn open_hid(path: String, opened: &Opened, bits: &NodeBits, grab_mouse: bool) -> (probe: Probe)
    ensures
        path@.contains('\0') ==> probe is Skip,
        probe is Unopenable <==> screened(*opened) is Unopenable && !path@.contains('\0'),
        probe is Hid <==> screened(*opened) is ReadBits && takes(*bits, grab_mouse)
            && !path@.contains('\0'),
        match probe {
            Probe::Hid(dev) => dev.is_fresh(path@, bits.is_mouse(), bits.is_keyboard()),
            _ => true,
        },
{
    if has_char(&chars_of(path.as_str()), '\0') {
        return Probe::Skip;
    }
    match screen(opened) {
        Screened::Skip => return Probe::Skip,
        Screened::Unopenable => return Probe::Unopenable,
        Screened::ReadBits => {},
    }
    let has_axes: bool = bit(&bits.rel, REL_X) && bit(&bits.rel, REL_Y);
    let absolute_pointer: bool = bit(&bits.abs, ABS_X) && bit(&bits.abs, ABS_Y);
    let mouse: bool = has_axes && !absolute_pointer;
    let keyboard: bool = !absolute_pointer && (bit(&bits.key, KEY_A) || bit(
        &bits.key,
        KEY_LEFTCTRL,
    ));
    if mouse && !keyboard && !grab_mouse {
        return Probe::Skip;
    }
    if !mouse && !keyboard {
        return Probe::Skip;
    }
    Probe::Hid(Device::new(path, mouse, keyboard))
}

/// The wire number of an evdev button. The wire counts the middle button before the right one.
pub open spec fn wire_button(code: int) -> Option<int> {
    if code == BTN_LEFT {
        Some(1)
    } else if code == BTN_MIDDLE {
        Some(2)
    } else if code == BTN_RIGHT {
        Some(3)
    } else if code == BTN_SIDE {
        Some(4)
    } else if code == BTN_EXTRA {
        Some(5)
    } else {
        None
    }
}

/// Evdev button to wire numbering.
pub fn button_code(code: u16) -> (button: Option<u32>)
    ensures
        match wire_button(code as int) {
            Some(n) => button is Some && button->0 == n,
            None => button is None,
        },
{
    match code {
        BTN_LEFT => Some(1),
        BTN_MIDDLE => Some(2),
        BTN_RIGHT => Some(3),
        BTN_SIDE => Some(4),
        BTN_EXTRA => Some(5),
        _ => None,
    }
}

/// The TV's own remotes are left alone whatever capabilities they advertise, and whether or not
/// the pointer is captured.
pub proof fn lemma_builtins_are_never_taken(opened: Opened, name: String)
    requires
        opened == (Opened::Node { name: Some(name) }),
        builtin_name(name@),
    ensures
        screened(opened) is Skip,
{
}

/// The Magic Remote is an absolute pointer, and no absolute pointer is ever taken.
pub proof fn lemma_absolute_pointers_are_never_taken(bits: NodeBits, grab_mouse: bool)
    requires
        bits.absolute_pointer(),
    ensures
        !takes(bits, grab_mouse),
{
}

/// Different buttons keep different wire numbers, all from 1 to 5, and no button is a key that
/// the host knows.
pub proof fn lemma_buttons_stay_apart(a: u16, b: u16)
    requires
        wire_button(a as int) is Some,
    ensures
        1 <= wire_button(a as int)->0 <= 5,
        wire_button(a as int) == wire_button(b as int) ==> a == b,
        crate::keyboard::evdev_vk(a as int) is None,
{
}

/// The weight of bit `k` in a byte.
pub open spec fn bit_weight(k: int) -> int {
    seq![1int, 2, 4, 8, 16, 32, 64, 128][k]
}

/// Whether a number has bit `k` set.
pub open spec fn has_weight(byte: u8, k: int) -> bool {
    (byte as int / bit_weight(k)) % 2 == 1
}

proof fn bits_have_weights(byte: u8, shift: u8)
    requires
        shift < 8,
    ensures
        (byte >> shift) & 1u8 == 1u8 <==> has_weight(byte, shift as int),
{
    assert(((byte >> 0u8) & 1u8 == 1u8) == (byte % 2 == 1) && ((byte >> 1u8) & 1u8 == 1u8) == (byte
        / 2 % 2 == 1) && ((byte >> 2u8) & 1u8 == 1u8) == (byte / 4 % 2 == 1) && ((byte >> 3u8) & 1u8
        == 1u8) == (byte / 8 % 2 == 1)) by (bit_vector);
    assert(((byte >> 4u8) & 1u8 == 1u8) == (byte / 16 % 2 == 1) && ((byte >> 5u8) & 1u8 == 1u8) == (
    byte / 32 % 2 == 1) && ((byte >> 6u8) & 1u8 == 1u8) == (byte / 64 % 2 == 1) && ((byte >> 7u8)
        & 1u8 == 1u8) == (byte / 128 % 2 == 1)) by (bit_vector);
    if shift == 0 {
        assert(bit_weight(0) == 1);
        assert(has_weight(byte, 0) == (byte as int / 1 % 2 == 1));
    } else if shift == 1 {
        assert(bit_weight(1) == 2);
        assert(has_weight(byte, 1) == (byte as int / 2 % 2 == 1));
    } else if shift == 2 {
        assert(bit_weight(2) == 4);
        assert(has_weight(byte, 2) == (byte as int / 4 % 2 == 1));
    } else if shift == 3 {
        assert(bit_weight(3) == 8);
        assert(has_weight(byte, 3) == (byte as int / 8 % 2 == 1));
    } else if shift == 4 {
        assert(bit_weight(4) == 16);
        assert(has_weight(byte, 4) == (byte as int / 16 % 2 == 1));
    } else if shift == 5 {
        assert(bit_weight(5) == 32);
        assert(has_weight(byte, 5) == (byte as int / 32 % 2 == 1));
    } else if shift == 6 {
        assert(bit_weight(6) == 64);
        assert(has_weight(byte, 6) == (byte as int / 64 % 2 == 1));
    } else if shift == 7 {
        assert(bit_weight(7) == 128);
        assert(has_weight(byte, 7) == (byte as int / 128 % 2 == 1));
    }
}

/// A code is supported exactly where its bit is set, counted through the bytes from the lowest bit
/// of the first one; no code beyond the bitmap is.
pub proof fn lemma_codes_are_counted_bit_by_bit(bits: [u8; 128], code: u16, yes: bool)
    requires
        call_ensures(bit, (&bits, code), yes),
    ensures
        yes <==> code < 1024 && has_weight(bits@[code as int / 8], code as int % 8),
{
    if code < 1024 {
        bits_have_weights(bits@[code as int / 8], (code % 8) as u8);
    }
}

/// A bitmap that could not be read supports nothing, and one that could is taken as it is.
pub proof fn lemma_unread_bitmaps_are_empty(
    rc: i32,
    filled: [u8; 128],
    bits: [u8; 128],
    code: u16,
    yes: bool,
    before: bool,
)
    requires
        call_ensures(event_bits, (rc, filled), bits),
        call_ensures(bit, (&bits, code), yes),
        call_ensures(bit, (&filled, code), before),
    ensures
        rc < 0 ==> !yes,
        rc >= 0 ==> yes == before,
{
    lemma_codes_are_counted_bit_by_bit(bits, code, yes);
    if code < 1024 && rc < 0 {
        let k = code as int % 8;
        assert(bits@[code as int / 8] == 0);
        assert(0int / bit_weight(k) == 0) by {
            assert(bit_weight(k) > 0);
        }
    }
}

/// The node reports positions: X and Y are the two lowest bits of the absolute axes.
pub open spec fn positions(bits: NodeBits) -> bool {
    has_weight(bits.abs@[0], 0) && has_weight(bits.abs@[0], 1)
}

/// The node reports movement: X and Y are the two lowest bits of the relative axes.
pub open spec fn movements(bits: NodeBits) -> bool {
    has_weight(bits.rel@[0], 0) && has_weight(bits.rel@[0], 1)
}

/// The node has keys of a keyboard: A or the left Ctrl key, which stand in the fourth byte of the keys.
pub open spec fn types(bits: NodeBits) -> bool {
    has_weight(bits.key@[3], 6) || has_weight(bits.key@[3], 5)
}

proof fn bits_say(bits: NodeBits)
    ensures
        bits.absolute_pointer() == positions(bits),
        bits.is_mouse() == (movements(bits) && !positions(bits)),
        bits.is_keyboard() == (types(bits) && !positions(bits)),
{
    bits_have_weights(bits.abs@[0], 0);
    bits_have_weights(bits.abs@[0], 1);
    bits_have_weights(bits.rel@[0], 0);
    bits_have_weights(bits.rel@[0], 1);
    bits_have_weights(bits.key@[3], 6);
    bits_have_weights(bits.key@[3], 5);
}

/// A node with a name that is not the TV's own is taken as a mouse where it moves on both relative
/// axes, and as a keyboard where it has the keys of one, unless it reports positions on both axes; a
/// mouse alone only while the pointer is captured. What is taken starts out fresh, under its own
/// path; what is not is settled.
pub proof fn lemma_nodes_are_taken_for_what_they_are(
    path: String,
    opened: Opened,
    name: Option<String>,
    bits: NodeBits,
    grab_mouse: bool,
    probe: Probe,
)
    requires
        call_ensures(open_hid, (path, &opened, &bits, grab_mouse), probe),
        opened == (Opened::Node { name }),
        !builtin_name(name_or_empty(name)),
        !path@.contains('\0'),
    ensures
        positions(bits) ==> probe is Skip,
        types(bits) && !positions(bits) ==> probe is Hid,
        movements(bits) && !positions(bits) && grab_mouse ==> probe is Hid,
        !types(bits) && (!movements(bits) || !grab_mouse) ==> probe is Skip,
        probe matches Probe::Hid(dev) ==> {
            &&& dev.mouse == movements(bits)
            &&& dev.keyboard == types(bits)
            &&& dev.path@ == path@
            &&& dev.dx == 0 && dev.dy == 0 && !dev.grabbed && dev.grab_warned_for is None
        },
{
    bits_say(bits);
}

/// Of a node's bits only those of the two relative axes, the two absolute axes, A and the left Ctrl
/// key matter: nodes that agree on them are decided alike, whatever else they advertise.
pub proof fn lemma_other_bits_do_not_matter(
    path: String,
    opened: Opened,
    a: NodeBits,
    b: NodeBits,
    grab_mouse: bool,
    one: Probe,
    other: Probe,
)
    requires
        call_ensures(open_hid, (path, &opened, &a, grab_mouse), one),
        call_ensures(open_hid, (path, &opened, &b, grab_mouse), other),
        positions(a) == positions(b),
        movements(a) == movements(b),
        types(a) == types(b),
    ensures
        one is Skip <==> other is Skip,
        one is Unopenable <==> other is Unopenable,
        one matches Probe::Hid(dev) ==> (other matches Probe::Hid(twin) && dev.mouse == twin.mouse
            && dev.keyboard == twin.keyboard),
{
    bits_say(a);
    bits_say(b);
}

/// A node that refused to open is tried again; one of the TV's own, and one whose path the system
/// cannot take, are settled without a look at their bits.
pub proof fn lemma_nodes_are_settled_unless_refused(
    path: String,
    opened: Opened,
    bits: NodeBits,
    grab_mouse: bool,
    probe: Probe,
    screened: Screened,
)
    requires
        call_ensures(open_hid, (path, &opened, &bits, grab_mouse), probe),
        call_ensures(screen, (&opened,), screened),
    ensures
        opened is Refused && !path@.contains('\0') <==> probe is Unopenable,
        opened is Refused <==> screened is Unopenable,
        opened is BadPath ==> probe is Skip && screened is Skip,
        opened matches Opened::Node { name } ==> (screened is ReadBits <==> !builtin_name(
            name_or_empty(name),
        )),
        opened matches Opened::Node { name } && builtin_name(name_or_empty(name)) ==> probe is Skip,
        opened matches Opened::Node { name: None } ==> screened is ReadBits,
        path@.contains('\0') ==> probe is Skip,
{
    if opened matches Opened::Node { name: None } {
        names_of_the_tv(name_or_empty(None));
    }
}

proof fn names_of_the_tv(name: Seq<char>)
    ensures
        name.len() == 0 ==> !builtin_name(name),
        name.len() > 0 && name[0] == 'L' ==> (builtin_name(name) <==> name.len() >= 3 && name[1]
            == 'G' && name[2] == 'E'),
        name.len() > 0 && name[0] == 'B' ==> (builtin_name(name) <==> name.len() >= 15 && name.take(
            15,
        ) == "Bluetooth-audio"@),
        name.len() > 0 && name[0] == 'C' ==> (builtin_name(name) <==> name == "CHECK INPUT"@),
        name.len() > 0 && name[0] == 'I' ==> (builtin_name(name) <==> name == "IoT keypad"@),
        name.len() > 0 && name[0] != 'L' && name[0] != 'B' && name[0] != 'C' && name[0] != 'I'
            ==> !builtin_name(name),
{
    reveal_strlit("LGE");
    reveal_strlit("CHECK INPUT");
    reveal_strlit("IoT keypad");
    reveal_strlit("Bluetooth-audio");
    let lge = "LGE"@;
    let audio = "Bluetooth-audio"@;
    if lge.is_prefix_of(name) {
        assert(name.subrange(0, 3)[0] == 'L');
        assert(name[0] == 'L' && name[1] == name.subrange(0, 3)[1] && name[2] == name.subrange(
            0,
            3,
        )[2]);
    }
    if name.len() >= 3 && name[0] == 'L' && name[1] == 'G' && name[2] == 'E' {
        assert(name.subrange(0, 3) =~= lge);
    }
    if audio.is_prefix_of(name) {
        assert(name.subrange(0, 15)[0] == 'B');
        assert(name[0] == 'B');
        assert(name.take(15) =~= name.subrange(0, 15));
    }
    if name.len() >= 15 && name.take(15) == audio {
        assert(name.take(15) =~= name.subrange(0, 15));
    }
}

/// The TV's own nodes are told by their name: whatever starts with LGE or Bluetooth-audio, and the
/// two names CHECK INPUT and IoT keypad with nothing behind them. No other name is.
pub proof fn lemma_tv_nodes_are_told_by_name(name: &str, yes: bool)
    requires
        call_ensures(is_tv_builtin, (name,), yes),
    ensures
        name@.len() == 0 ==> !yes,
        name@.len() > 0 && name@[0] == 'L' ==> (yes <==> name@.len() >= 3 && name@[1] == 'G'
            && name@[2] == 'E'),
        name@.len() > 0 && name@[0] == 'B' ==> (yes <==> name@.len() >= 15 && name@.take(15)
            == "Bluetooth-audio"@),
        name@.len() > 0 && name@[0] == 'C' ==> (yes <==> name@ == "CHECK INPUT"@),
        name@.len() > 0 && name@[0] == 'I' ==> (yes <==> name@ == "IoT keypad"@),
        name@.len() > 0 && name@[0] != 'L' && name@[0] != 'B' && name@[0] != 'C' && name@[0] != 'I'
            ==> !yes,
{
    names_of_the_tv(name@);
}

/// A node's name is what stands before the first zero of the buffer, or all of it; there is none
/// where the request for it wrote nothing.
pub proof fn lemma_names_end_at_the_first_zero(
    rc: i32,
    buf: &[u8],
    end: int,
    name: Option<String>,
)
    requires
        call_ensures(device_name, (rc, buf), name),
        0 <= end <= buf@.len(),
        forall|k: int| 0 <= k < end ==> #[trigger] buf@[k] != 0,
        end < buf@.len() ==> buf@[end] == 0,
    ensures
        name is None <==> rc <= 0,
        name is Some ==> name->0@ == lossy_text(buf@.take(end)),
        name is Some && valid_utf8(buf@.take(end)) ==> name->0@ == decode_utf8(buf@.take(end)),
{
    before_zero_is_a_run(buf@, end);
}

/// The wire counts left, middle and right, then side and extra; the kernel counts right before
/// middle. Nothing else is a button.
pub proof fn lemma_buttons_are_numbered_for_the_wire(code: u16, button: Option<u32>)
    requires
        call_ensures(button_code, (code,), button),
    ensures
        button is Some <==> 0x110 <= code <= 0x114,
        code == 0x110 ==> button == Some(1u32),
        code == 0x112 ==> button == Some(2u32),
        code == 0x111 ==> button == Some(3u32),
        code == 0x113 ==> button == Some(4u32),
        code == 0x114 ==> button == Some(5u32),
{
}

} // verus!

use punktfunk_webos::activity::{Activity, Slot};
use punktfunk_webos::burst::{Effect, HidEvent, Meaning};
use punktfunk_webos::device::Device;
use punktfunk_webos::events::{decode_events, stamp_size, ByteOrder, InputEventRaw};
use punktfunk_webos::evmouse::{
    begin_pass, devices_to_read, end_pass, finish_grabs, finish_scan, pass_pause, presence, read_at,
    read_at_wrapping, HidMouse, Presence,
};
use punktfunk_webos::grab::{apply_grab, grab_requests};
use punktfunk_webos::ioctl::{eioc, eviocg, eviocgbit, eviocgname, eviocgrab};
use punktfunk_webos::keyboard::raw_key_event;
use punktfunk_webos::node::{
    bit, button_code, device_name, event_bits, is_tv_builtin, open_hid, screen, NodeBits, Opened,
    Probe, Screened,
};
use punktfunk_webos::pass::{Pass, Stage};
use punktfunk_webos::poll::{is_gone, is_readable};
use punktfunk_webos::procfs::{hex_word, proc_has_hid_mouse};
use punktfunk_webos::reader::{pause_after, Reader};
use punktfunk_webos::scan::{candidates, has_text};

const DEVICES: &str = r#"
I: Bus=0003 Vendor=0000 Product=0000 Version=0004
N: Name="LGE M-RCU - Builtin [0]"
B: REL=100
B: ABS=3

I: Bus=0005 Vendor=046d Product=b367 Version=0111
N: Name="MX MCHNCL M Keyboard"
B: REL=1040
B: ABS=1 0

I: Bus=0005 Vendor=046d Product=b015 Version=0111
N: Name="M720 Triathlon Mouse"
B: REL=1943
"#;

#[test]
fn m720_counts_as_a_hid_mouse_and_lg_remote_does_not() {
    assert!(proc_has_hid_mouse(DEVICES));
    assert!(!proc_has_hid_mouse(
        "N: Name=\"LGE M-RCU - Builtin [0]\"\nB: REL=100\nB: ABS=3\n\n"
    ));
    assert!(!proc_has_hid_mouse(
        "N: Name=\"MX MCHNCL M Keyboard\"\nB: REL=1040\nB: ABS=1 0\n\n"
    ));
}

#[test]
fn tv_builtins_are_skipped_by_name() {
    assert!(is_tv_builtin("LGE M-RCU - Builtin [0]"));
    assert!(is_tv_builtin("LGE RCU"));
    assert!(is_tv_builtin("CHECK INPUT"));
    assert!(!is_tv_builtin("M720 Triathlon Mouse"));
    assert!(!is_tv_builtin("MX MCHNCL M Keyboard"));
}

#[test]
fn hex_words_are_read_up_to_the_first_space() {
    assert_eq!(hex_word("1943"), 0x1943);
    assert_eq!(hex_word("  1 0"), 1);
    assert_eq!(hex_word("ffffffffffffffff"), u64::MAX);
    assert_eq!(hex_word("10000000000000000"), 0);
    assert_eq!(hex_word("+1F"), 0x1F);
    assert_eq!(hex_word(""), 0);
    assert_eq!(hex_word("xyz"), 0);
}

#[test]
fn builtin_mice_do_not_count_and_returns_are_dropped() {
    assert!(!proc_has_hid_mouse("N: Name=\"LGE RCU\"\nB: REL=3\n\n"));
    assert!(proc_has_hid_mouse("N: Name=\"M\"\r\nB: REL=3\r\n\r\n"));
    assert!(!proc_has_hid_mouse("N: Name=\"M\"\nB: REL=3\nB: ABS=3\n\n"));
    assert!(!proc_has_hid_mouse("N: Name=\"M\"\nB: REL=2\n\n"));
    assert!(!proc_has_hid_mouse(""));
}

#[test]
fn request_numbers_match_the_kernel() {
    assert_eq!(eviocgrab(), 0x4004_4590);
    assert_eq!(eviocgname(), 0x8100_4506);
    assert_eq!(eviocgbit(2), 0x8080_4522);
    assert_eq!(eviocgbit(0xDF), 0x8080_45FF);
    assert_eq!(eviocgbit(u16::MAX), eviocg(0x1_001F, 128));
    assert_eq!(eviocg(0x06, 256), eviocgname());
    assert_eq!(eioc(1, 0x90, 4), eviocgrab());
}

#[test]
fn capability_bits_are_found() {
    let mut bits = [0u8; 128];
    bits[0x110 / 8] = 1;
    assert!(bit(&bits, 0x110));
    assert!(!bit(&bits, 0x111));
    assert!(!bit(&bits, 1024));
    assert!(!bit(&bits, u16::MAX));
    assert_eq!(event_bits(128, bits)[0x22], 1);
    assert_eq!(event_bits(-1, bits), [0u8; 128]);
}

#[test]
fn names_end_at_the_first_zero() {
    let mut buf = [0u8; 256];
    buf[..5].copy_from_slice(b"Mouse");
    buf[6] = b'x';
    assert_eq!(device_name(6, &buf), Some("Mouse".to_string()));
    assert_eq!(device_name(0, &buf), None);
    assert_eq!(device_name(-1, &buf), None);
    assert_eq!(device_name(2, b"AB"), Some("AB".to_string()));
    assert_eq!(device_name(3, &[b'A', 0xFF, b'B']), Some("A\u{FFFD}B".to_string()));
}

fn bits_with(rel: &[u16], abs: &[u16], key: &[u16]) -> NodeBits {
    let set = |codes: &[u16]| {
        let mut bits = [0u8; 128];
        for code in codes {
            bits[*code as usize / 8] |= 1 << (code % 8);
        }
        bits
    };
    NodeBits {
        rel: set(rel),
        abs: set(abs),
        key: set(key),
    }
}

fn named(name: &str) -> Opened {
    Opened::Node {
        name: Some(name.to_string()),
    }
}

fn probe(opened: &Opened, bits: &NodeBits, grab_mouse: bool) -> Probe {
    open_hid("/dev/input/event3".to_string(), opened, bits, grab_mouse)
}

#[test]
fn mice_are_taken_only_with_capture() {
    let mouse = bits_with(&[0, 1, 8], &[], &[0x110]);
    match probe(&named("M720"), &mouse, true) {
        Probe::Hid(dev) => {
            assert_eq!(dev.path, "/dev/input/event3");
            assert!(dev.mouse && !dev.keyboard && !dev.grabbed);
            assert_eq!((dev.dx, dev.dy), (0, 0));
            assert_eq!(dev.grab_warned_for, None);
        }
        _ => panic!("a mouse is taken"),
    }
    assert!(matches!(probe(&named("M720"), &mouse, false), Probe::Skip));
}

#[test]
fn keyboards_are_taken_without_capture() {
    let keyboard = bits_with(&[], &[], &[30]);
    assert!(matches!(
        probe(&Opened::Node { name: None }, &keyboard, false),
        Probe::Hid(Device {
            keyboard: true,
            mouse: false,
            ..
        })
    ));
    let ctrl_only = bits_with(&[], &[], &[29]);
    assert!(matches!(probe(&named("K"), &ctrl_only, false), Probe::Hid(_)));
}

#[test]
fn other_nodes_are_left_alone() {
    let pointer = bits_with(&[0, 1], &[0, 1], &[30]);
    assert!(matches!(probe(&named("Pad"), &pointer, true), Probe::Skip));
    let one_axis = bits_with(&[0], &[], &[]);
    assert!(matches!(probe(&named("Wheel"), &one_axis, true), Probe::Skip));
    let mouse = bits_with(&[0, 1], &[], &[]);
    assert!(matches!(probe(&named("LGE RCU"), &mouse, true), Probe::Skip));
    assert!(matches!(probe(&Opened::BadPath, &mouse, true), Probe::Skip));
    assert!(matches!(
        probe(&Opened::Refused, &mouse, true),
        Probe::Unopenable
    ));
    assert_eq!(screen(&named("LGE RCU")), Screened::Skip);
    assert_eq!(screen(&Opened::BadPath), Screened::Skip);
    assert_eq!(screen(&Opened::Refused), Screened::Unopenable);
    assert_eq!(screen(&named("M720")), Screened::ReadBits);
}

#[test]
fn buttons_follow_the_wire_numbering() {
    assert_eq!(button_code(0x110), Some(1));
    assert_eq!(button_code(0x112), Some(2));
    assert_eq!(button_code(0x111), Some(3));
    assert_eq!(button_code(0x113), Some(4));
    assert_eq!(button_code(0x114), Some(5));
    assert_eq!(button_code(0x115), None);
}

#[test]
fn activity_lapses_after_the_window() {
    let mut activity = Activity::new();
    assert!(!activity.recent(Slot::Key, 100));
    activity.touch(Slot::Key, 100);
    assert_eq!(activity.last_ms(Slot::Key), Some(100));
    assert!(activity.recent(Slot::Key, 100));
    assert!(activity.recent(Slot::Key, 349));
    assert!(!activity.recent(Slot::Key, 350));
    assert!(!activity.recent(Slot::Motion, 100));
    assert!(!activity.recent(Slot::Discrete, 100));
}

fn report(kind: u16, code: u16, value: i32) -> InputEventRaw {
    InputEventRaw { kind, code, value }
}

fn bytes_of(events: &[InputEventRaw], stamp: usize) -> Vec<u8> {
    let mut bytes = Vec::new();
    for ev in events {
        bytes.extend(vec![0xEE; stamp]);
        bytes.extend(ev.kind.to_le_bytes());
        bytes.extend(ev.code.to_le_bytes());
        bytes.extend(ev.value.to_le_bytes());
    }
    bytes
}

#[test]
fn reports_are_decoded_in_both_byte_orders() {
    let events = vec![report(2, 0, -3), report(1, 30, 1)];
    let mut bytes = bytes_of(&events, 16);
    assert_eq!(decode_events(&bytes, 16, ByteOrder::Little), events);
    bytes.extend(vec![7; 23]);
    assert_eq!(decode_events(&bytes, 16, ByteOrder::Little), events);
    let big = [0, 0, 0, 0, 0, 0, 0, 0, 0, 2, 0, 1, 0xFF, 0xFF, 0xFF, 0xFE];
    assert_eq!(
        decode_events(&big, 8, ByteOrder::Big),
        vec![report(2, 1, -2)]
    );
    assert_eq!(decode_events(&[], 16, ByteOrder::Little), vec![]);
}

#[test]
fn the_stamp_is_two_machine_words() {
    assert_eq!(stamp_size(), 2 * std::mem::size_of::<usize>());
}

fn mouse() -> Device {
    Device::new("/dev/input/event3".to_string(), true, false)
}

fn keyboard() -> Device {
    Device::new("/dev/input/event4".to_string(), false, true)
}

fn motion(dx: i32, dy: i32) -> Effect {
    Effect::Send(HidEvent::Move { dx, dy })
}

#[test]
fn reports_mean_what_the_device_is() {
    assert_eq!(mouse().interpret(report(2, 0, 5), true), Meaning::MoveX(5));
    assert_eq!(mouse().interpret(report(2, 0, 5), false), Meaning::Nothing);
    assert_eq!(
        mouse().interpret(report(2, 6, -1), true),
        Meaning::Wheel {
            amount: -1,
            horizontal: true
        }
    );
    assert_eq!(
        mouse().interpret(report(1, 0x110, 1), true),
        Meaning::Button {
            button: 1,
            pressed: true
        }
    );
    assert_eq!(mouse().interpret(report(1, 30, 1), true), Meaning::Nothing);
    assert_eq!(
        keyboard().interpret(report(1, 30, 0), false),
        Meaning::Key {
            vk: 0x41,
            pressed: false
        }
    );
    assert_eq!(keyboard().interpret(report(1, 30, 2), false), Meaning::Nothing);
    assert_eq!(keyboard().interpret(report(0, 0, 0), false), Meaning::Nothing);
}

#[test]
fn a_click_lands_where_the_pointer_is() {
    let mut dev = mouse();
    let events = vec![
        report(2, 0, 3),
        report(2, 1, -2),
        report(2, 0, 4),
        report(1, 0x110, 1),
        report(2, 1, 1),
        report(2, 8, -1),
    ];
    let buf = bytes_of(&events, 16);
    let mut full = buf.clone();
    full.extend(vec![0; 1]);
    let drained = dev.read_device(buf.len() as isize, &full, 16, ByteOrder::Little, true);
    assert!(!drained.again);
    assert_eq!(
        drained.effects,
        vec![
            Effect::Touch(Slot::Motion),
            Effect::Touch(Slot::Motion),
            Effect::Touch(Slot::Motion),
            Effect::Touch(Slot::Discrete),
            motion(7, -2),
            Effect::Send(HidEvent::Button {
                button: 1,
                pressed: true
            }),
            Effect::Touch(Slot::Motion),
            Effect::Touch(Slot::Discrete),
            motion(0, 1),
            Effect::Send(HidEvent::Scroll {
                amount: -1,
                horizontal: false
            }),
        ]
    );
    assert_eq!((dev.dx, dev.dy), (0, 0));
}

#[test]
fn a_full_buffer_keeps_its_motion_for_the_next_read() {
    let mut dev = mouse();
    let buf = bytes_of(&[report(2, 0, 3)], 16);
    let drained = dev.read_device(24, &buf, 16, ByteOrder::Little, true);
    assert!(drained.again);
    assert_eq!(drained.effects, vec![Effect::Touch(Slot::Motion)]);
    assert_eq!(dev.dx, 3);
    let last = dev.read_device(-1, &buf, 16, ByteOrder::Little, true);
    assert!(!last.again);
    assert_eq!(last.effects, vec![motion(3, 0)]);
    assert_eq!(dev.dx, 0);
}

#[test]
fn keys_are_sent_as_vks() {
    let mut dev = keyboard();
    let mut buf = bytes_of(&[report(1, 30, 1), report(1, 30, 2)], 16);
    buf.push(0);
    let drained = dev.read_device(48, &buf, 16, ByteOrder::Little, false);
    assert_eq!(
        drained.effects,
        vec![
            Effect::Touch(Slot::Key),
            Effect::Send(HidEvent::Key {
                event: raw_key_event(0x41, true)
            }),
        ]
    );
}

#[test]
fn motion_that_does_not_fit_is_noticed() {
    let mut dev = mouse();
    dev.dx = i32::MAX;
    assert!(!dev.burst_fits(&vec![report(2, 0, 1)], true));
    assert!(dev.burst_fits(&vec![report(2, 0, -1), report(2, 0, 1)], true));
    assert!(dev.burst_fits(&vec![report(2, 0, 1)], false));
    let mut effects = Vec::new();
    dev.take_burst(&vec![report(2, 0, -1)], true, &mut effects);
    assert_eq!(dev.dx, i32::MAX - 1);
    dev.flush_motion(&mut effects);
    assert_eq!(
        effects,
        vec![Effect::Touch(Slot::Motion), motion(i32::MAX - 1, 0)]
    );
    dev.flush_motion(&mut effects);
    assert_eq!(effects.len(), 2);
}

#[test]
fn grabs_are_asked_for_once_and_refusals_warned_of_once() {
    let mut devices = vec![mouse(), keyboard()];
    assert_eq!(grab_requests(&devices, true, false), vec![None, Some(true)]);
    assert_eq!(
        grab_requests(&devices, true, true),
        vec![Some(true), Some(true)]
    );
    assert_eq!(grab_requests(&devices, false, true), vec![None, None]);
    let agreed = vec![false, true];
    assert_eq!(
        apply_grab(&mut devices, true, true, &agreed),
        vec![true, false]
    );
    assert!(!devices[0].grabbed && devices[1].grabbed);
    assert_eq!(devices[0].grab_warned_for, Some(true));
    assert_eq!(grab_requests(&devices, true, true), vec![Some(true), None]);
    assert_eq!(
        apply_grab(&mut devices, true, true, &agreed),
        vec![false, false]
    );
    assert_eq!(
        apply_grab(&mut devices, false, true, &vec![true, true]),
        vec![false, false]
    );
    assert!(!devices[0].grabbed && !devices[1].grabbed);
}

fn entries(names: &[&str]) -> Vec<Option<String>> {
    names.iter().map(|n| Some(n.to_string())).collect()
}

#[test]
fn unsettled_event_nodes_are_tried_in_order() {
    let mut list = entries(&["mouse0", "event2", "event10", "js0", "event1", "eventful"]);
    list.push(None);
    let seen = vec!["/dev/input/event2".to_string()];
    assert_eq!(
        candidates(&list, &seen),
        vec![
            "/dev/input/event1".to_string(),
            "/dev/input/event10".to_string(),
            "/dev/input/eventful".to_string(),
        ]
    );
    assert!(has_text(&seen, &"/dev/input/event2".to_string()));
    assert!(!has_text(&seen, &"/dev/input/event".to_string()));
}

#[test]
fn poll_answers_are_told_apart() {
    assert!(is_readable(0x1) && is_readable(0x11));
    assert!(!is_readable(0x10) && !is_readable(0));
    assert!(is_gone(0x8) && is_gone(0x10) && is_gone(0x20) && is_gone(0x11));
    assert!(!is_gone(0x1) && !is_gone(0));
}

#[test]
fn passes_are_paced() {
    assert_eq!(pause_after(0), Some(2_000_000));
    assert_eq!(pause_after(2_000_000), Some(0));
    assert_eq!(pause_after(2_000_001), None);
    assert_eq!(pass_pause(1, 500_000), Some(1_500_000));
    assert_eq!(pass_pause(0, 500_000), None);
    assert_eq!(pass_pause(-1, 500_000), None);
}

fn found(path: &str, probe: Probe) -> (String, Probe) {
    (path.to_string(), probe)
}

#[test]
fn a_reader_goes_through_its_passes() {
    let mut reader = Reader::new();
    let mut hid = HidMouse::start(true, true);
    assert!(!hid.has_device() && hid.grab && !hid.stop);
    assert!(!finish_scan(
        &mut reader,
        &mut hid,
        vec![found("/dev/input/event0", Probe::Skip)]
    ));
    assert!(!hid.has_device());
    assert!(finish_scan(
        &mut reader,
        &mut hid,
        vec![
            found("/dev/input/event3", Probe::Hid(mouse())),
            found("/dev/input/event4", Probe::Hid(keyboard())),
            found("/dev/input/event5", Probe::Unopenable),
        ]
    ));
    assert!(hid.has_device() && reader.has_mouse());
    assert_eq!(
        reader.seen,
        vec![
            "/dev/input/event0".to_string(),
            "/dev/input/event3".to_string(),
            "/dev/input/event4".to_string(),
        ]
    );
    assert_eq!(begin_pass(&reader, &hid), Some(vec![Some(true), Some(true)]));
    assert_eq!(
        finish_grabs(&mut reader, hid.grab, hid.grab_mouse, &vec![true, true]),
        vec![false, false]
    );
    assert_eq!(begin_pass(&reader, &hid), Some(vec![None, None]));
    let revents = vec![0x11, 0x1];
    assert_eq!(devices_to_read(&reader, 2, &revents), vec![0, 1]);
    assert_eq!(devices_to_read(&reader, 0, &revents), Vec::<usize>::new());
    let mut buf = bytes_of(&[report(2, 0, 3)], 16);
    buf.push(0);
    let drained = read_at(&mut reader, &hid, 0, 24, &buf, 16, ByteOrder::Little);
    assert_eq!(
        drained.effects,
        vec![Effect::Touch(Slot::Motion), motion(3, 0)]
    );
    assert_eq!(
        end_pass(&mut reader, &mut hid, 0, &revents),
        Vec::<String>::new()
    );
    assert_eq!(reader.devices.len(), 2);
    assert_eq!(
        end_pass(&mut reader, &mut hid, 2, &revents),
        vec!["/dev/input/event3".to_string()]
    );
    assert!(!hid.has_device());
    assert_eq!(reader.devices.len(), 1);
    assert_eq!(reader.devices[0].path, "/dev/input/event4");
    assert_eq!(
        candidates(&entries(&["event3", "event4"]), &reader.seen),
        vec!["/dev/input/event3".to_string()]
    );
    hid.set_active(false);
    assert_eq!(begin_pass(&reader, &hid), Some(vec![Some(false)]));
    hid.request_stop();
    assert_eq!(begin_pass(&reader, &hid), None);
}

#[test]
fn nodes_are_looked_for_again_only_where_the_directory_changed() {
    let mut reader = Reader::new();
    reader.started(1_000, Some(7));
    assert!(!reader.rescan_due(2_000_000_999));
    assert!(reader.rescan_due(2_000_001_000));
    assert!(!reader.rescan_due(2_000_001_001));
    assert!(!reader.dir_changed(Some(7)));
    assert!(reader.dir_changed(Some(8)));
    assert!(!reader.dir_changed(Some(8)));
    assert!(reader.dir_changed(None));
    assert!(!reader.dir_changed(None));
}

#[test]
fn one_flag_forwards_and_notes() {
    let mut hid = HidMouse::start(false, true);
    assert_eq!(hid.perform(motion(1, 1), 10), None);
    assert_eq!(hid.perform(Effect::Touch(Slot::Key), 10), None);
    assert!(hid.owns_sdl_keys(259));
    assert!(!hid.owns_sdl_keys(260));
    hid.set_active(true);
    assert_eq!(
        hid.perform(motion(1, 1), 10),
        Some(HidEvent::Move { dx: 1, dy: 1 })
    );
}

#[test]
fn a_key_in_the_first_millisecond_counts() {
    let mut hid = HidMouse::start(true, false);
    assert_eq!(hid.activity.last_ms(Slot::Key), None);
    assert!(!hid.owns_sdl_keys(0));
    hid.perform(Effect::Touch(Slot::Motion), 0);
    hid.perform(Effect::Touch(Slot::Discrete), 0);
    assert!(!hid.owns_sdl_keys(0));
    hid.perform(Effect::Touch(Slot::Key), 0);
    assert!(hid.owns_sdl_keys(0));
    assert!(hid.owns_sdl_keys(249));
    assert!(!hid.owns_sdl_keys(250));
}

#[test]
fn no_mouse_is_told_from_no_look_yet() {
    assert_eq!(presence(None), Presence::Absent);
    let mut reader = Reader::new();
    let mut hid = HidMouse::start(true, true);
    assert_eq!(presence(Some(&hid)), Presence::Unknown);
    finish_scan(&mut reader, &mut hid, vec![]);
    assert_eq!(presence(Some(&hid)), Presence::Absent);
    finish_scan(
        &mut reader,
        &mut hid,
        vec![found("/dev/input/event3", Probe::Hid(mouse()))],
    );
    assert_eq!(presence(Some(&hid)), Presence::Present);
    end_pass(&mut reader, &mut hid, 1, &vec![0x10]);
    assert_eq!(presence(Some(&hid)), Presence::Absent);
}

#[test]
fn records_count_one_by_one() {
    let mouse = "N: Name=\"M\"\nB: REL=3\n";
    let other = "N: Name=\"K\"\nB: REL=1040\n";
    assert!(proc_has_hid_mouse(&format!("{other}\n{mouse}")));
    assert!(proc_has_hid_mouse(&format!("{mouse}\n{other}")));
    assert!(!proc_has_hid_mouse(&format!("{other}\n{other}")));
}

#[test]
fn hex_words_undo_printing() {
    for n in [0, 9, 10, 0x1943, u64::MAX] {
        assert_eq!(hex_word(&format!("{n:x}")), n);
        assert_eq!(hex_word(&format!("{n:x} 0")), n);
    }
}

#[test]
fn a_path_with_a_zero_is_settled() {
    let mouse = bits_with(&[0, 1], &[], &[]);
    let bad = || "/dev/input/event\0".to_string();
    assert!(matches!(
        open_hid(bad(), &named("M720"), &mouse, true),
        Probe::Skip
    ));
    assert!(matches!(
        open_hid(bad(), &Opened::Refused, &mouse, true),
        Probe::Skip
    ));
    assert!(matches!(
        open_hid(bad(), &Opened::BadPath, &mouse, true),
        Probe::Skip
    ));
}

#[test]
fn motion_that_does_not_fit_wraps_round() {
    let mut reader = Reader::new();
    let mut hid = HidMouse::start(true, true);
    finish_scan(
        &mut reader,
        &mut hid,
        vec![found("/dev/input/event3", Probe::Hid(mouse()))],
    );
    let mut buf = bytes_of(&[report(2, 0, i32::MAX), report(2, 0, 2), report(2, 1, 5)], 16);
    buf.push(0);
    let drained = read_at_wrapping(&mut reader, &hid, 0, 72, &buf, 16, ByteOrder::Little);
    assert_eq!(drained.effects.len(), 4);
    assert_eq!(drained.effects[3], motion(i32::MIN + 1, 5));
    let mut dev = mouse();
    dev.dy = i32::MIN;
    let mut effects = Vec::new();
    dev.take_burst_wrapping(&vec![report(2, 1, -1)], true, &mut effects);
    assert_eq!(dev.dy, i32::MAX);
    assert_eq!(effects, vec![Effect::Touch(Slot::Motion)]);
}

fn polled_pass(hid: &mut HidMouse, rc: i32, revents: Vec<i16>) -> Pass {
    let mut pass = Pass::new();
    assert_eq!(pass.stage, Stage::Scan { first: true });
    assert!(pass.found(
        hid,
        vec![
            found("/dev/input/event3", Probe::Hid(mouse())),
            found("/dev/input/event4", Probe::Hid(keyboard())),
        ]
    ));
    assert_eq!(pass.stage, Stage::Start);
    pass.started(1_000, Some(7));
    assert_eq!(pass.stage, Stage::Begin);
    assert_eq!(pass.begin(hid), Some(vec![Some(true), Some(true)]));
    assert_eq!(pass.stage, Stage::Hold);
    assert_eq!(pass.held(&vec![true, false]), vec![false, true]);
    assert_eq!(pass.stage, Stage::Poll);
    pass.polled(rc, revents);
    pass
}

#[test]
fn waiting_reports_are_read_before_a_gone_node_is_dropped() {
    let mut hid = HidMouse::start(true, true);
    let mut pass = polled_pass(&mut hid, 2, vec![0x11, 0x1]);
    assert_eq!(pass.stage, Stage::Read { turn: 0 });
    assert_eq!(pass.turn(), 0);
    let full = bytes_of(&[report(2, 0, 3)], 16);
    let drained = pass.read(&hid, 24, &full, 16, ByteOrder::Little);
    assert!(drained.again);
    assert_eq!(pass.stage, Stage::Read { turn: 0 });
    let drained = pass.read(&hid, -1, &full, 16, ByteOrder::Little);
    assert_eq!(drained.effects, vec![motion(3, 0)]);
    assert_eq!(pass.stage, Stage::Read { turn: 1 });
    assert_eq!(pass.turn(), 1);
    pass.read_wrapping(&hid, 0, &full, 16, ByteOrder::Little);
    assert_eq!(pass.stage, Stage::Drop);
    assert!(hid.has_device());
    assert_eq!(
        pass.drop_gone(&mut hid),
        vec!["/dev/input/event3".to_string()]
    );
    assert!(!hid.has_device());
    assert_eq!(pass.stage, Stage::Rest);
    assert_eq!(pass.rest(500_000), Some(1_500_000));
    assert_eq!(pass.stage, Stage::Clock);
}

#[test]
fn nodes_are_looked_for_once_due_and_changed() {
    let mut hid = HidMouse::start(true, true);
    let mut pass = polled_pass(&mut hid, 0, vec![0x1, 0x10]);
    assert_eq!(pass.stage, Stage::Drop);
    assert_eq!(pass.drop_gone(&mut hid), Vec::<String>::new());
    assert_eq!(pass.rest(0), None);
    pass.clock(2_000_000_999);
    assert_eq!(pass.stage, Stage::Begin);
    pass.stage = Stage::Clock;
    pass.clock(2_000_001_000);
    assert_eq!(pass.stage, Stage::Look);
    pass.looked(Some(7));
    assert_eq!(pass.stage, Stage::Begin);
    pass.stage = Stage::Look;
    pass.looked(Some(8));
    assert_eq!(pass.stage, Stage::Scan { first: false });
    assert!(!pass.found(&mut hid, vec![]));
    assert_eq!(pass.stage, Stage::Begin);
    hid.request_stop();
    assert_eq!(pass.begin(&hid), None);
    assert_eq!(pass.stage, Stage::Stop);
}

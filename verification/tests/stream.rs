use punktfunk_webos::activity::Slot;
use punktfunk_webos::burst::Effect;
use punktfunk_webos::cursor::{Command, Cursor, Sentinel};
use punktfunk_webos::device::Device;
use punktfunk_webos::edge::Edge;
use punktfunk_webos::evmouse::{finish_scan, HidMouse, Presence};
use punktfunk_webos::keyboard::raw_key_event;
use punktfunk_webos::node::Probe;
use punktfunk_webos::overlay::{LogOverlayState, Overlay, Plan, Rect, Tile, Visible};
use punktfunk_webos::reader::Reader;
use punktfunk_webos::route::{
    sdl_filter, Action, Event, Filter, Key, MouseButton, Outcome, BACK_KEYCODE, RED_KEYCODE,
};
use punktfunk_webos::scancode::Scancode;
use punktfunk_webos::session::{
    after_failed_shutdown, after_shutdown, before_failed_shutdown, before_shutdown, keeps_waiting,
    Held, Notices, Teardown,
};
use punktfunk_webos::stream::{
    Answer, Control, DialogStep, Keys, Polled, Settings, Stream, Toast,
};

const OPEN: Filter = Filter {
    motion: false,
    clicks: false,
    keys: false,
};

const UP: Keys = Keys {
    exit: false,
    home: false,
    green: false,
    yellow: false,
    blue: false,
};

const IDLE: Polled = Polled {
    keys: UP,
    chord: false,
    pacing: false,
    holding: false,
    reader: true,
};

fn stream_with(settings: Settings, keys: Keys) -> Stream {
    Stream::begin(settings, true, false, false, keys, LogOverlayState::Off, 0).0
}

fn captured() -> Stream {
    stream_with(
        Settings {
            cursor_capture: true,
            cursor_gestures: true,
            stats_overlay: false,
        },
        UP,
    )
}

fn desktop() -> Stream {
    stream_with(
        Settings {
            cursor_capture: false,
            cursor_gestures: false,
            stats_overlay: true,
        },
        UP,
    )
}

fn key(scancode: Option<Scancode>, keycode: Option<i32>) -> Key {
    Key { scancode, keycode }
}

fn down(key: Key) -> Event {
    Event::KeyDown { key, repeat: false }
}

fn up(key: Key) -> Event {
    Event::KeyUp { key }
}

fn motion() -> Event {
    Event::Motion {
        x: 10,
        y: 20,
        xrel: 1,
        yrel: -2,
    }
}

fn button(button: MouseButton, pressed: bool) -> Event {
    Event::Button {
        button,
        pressed,
        x: 5,
        y: 6,
    }
}

fn reader_with_mouse() -> HidMouse {
    let mut reader = Reader::new();
    let mut hid = HidMouse::start(true, true);
    finish_scan(
        &mut reader,
        &mut hid,
        vec![(
            "/dev/input/event3".to_string(),
            Probe::Hid(Device::new("/dev/input/event3".to_string(), true, false)),
        )],
    );
    hid
}

#[test]
fn read_devices_decide_what_is_dropped() {
    assert_eq!(sdl_filter(None, true, 0), OPEN);
    let mut hid = reader_with_mouse();
    assert_eq!(
        sdl_filter(Some(&hid), true, 1000),
        Filter {
            motion: true,
            clicks: true,
            keys: false
        }
    );
    assert_eq!(sdl_filter(Some(&hid), false, 1000), OPEN);
    hid.perform(Effect::Touch(Slot::Key), 1000);
    let all = Filter {
        motion: true,
        clicks: true,
        keys: true,
    };
    assert_eq!(sdl_filter(Some(&hid), false, 1100), all);
    assert_eq!(sdl_filter(Some(&hid), true, 1100), all);
    assert_eq!(sdl_filter(Some(&hid), false, 1250), OPEN);
}

#[test]
fn keys_go_to_the_host() {
    let mut s = desktop();
    let a = key(Some(Scancode::A), Some(97));
    assert_eq!(
        s.route(down(a), OPEN),
        vec![Action::Send(raw_key_event(0x41, true))]
    );
    assert_eq!(
        s.route(up(a), OPEN),
        vec![Action::Send(raw_key_event(0x41, false))]
    );
    assert_eq!(
        s.route(Event::KeyDown { key: a, repeat: true }, OPEN),
        vec![Action::Send(raw_key_event(0x41, true))]
    );
    assert_eq!(
        s.route(down(key(Some(Scancode::Unmapped), None)), OPEN),
        vec![]
    );
    assert_eq!(s.route(down(key(None, None)), OPEN), vec![]);
}

#[test]
fn remote_buttons_without_a_scancode_are_told_by_their_code() {
    let mut s = desktop();
    let back = key(None, Some(BACK_KEYCODE));
    let red = key(None, Some(RED_KEYCODE));
    let busy = Filter {
        motion: true,
        clicks: true,
        keys: true,
    };
    for filter in [OPEN, busy] {
        assert_eq!(
            s.route(down(back), filter),
            vec![Action::Send(raw_key_event(0x1B, true))]
        );
        assert_eq!(
            s.route(up(back), filter),
            vec![Action::Send(raw_key_event(0x1B, false))]
        );
        assert_eq!(
            s.route(down(red), filter),
            vec![Action::Red { pressed: true }]
        );
        assert_eq!(
            s.route(up(red), filter),
            vec![Action::Red { pressed: false }]
        );
        assert_eq!(
            s.route(Event::KeyDown { key: red, repeat: true }, filter),
            vec![]
        );
        assert_eq!(
            s.route(Event::KeyDown { key: back, repeat: true }, filter),
            vec![]
        );
    }
    let a = key(Some(Scancode::A), Some(97));
    assert_eq!(s.route(down(a), busy), vec![]);
    assert_eq!(s.route(up(a), busy), vec![]);
    assert_eq!((BACK_KEYCODE, RED_KEYCODE), (2097155, 2097169));
}

#[test]
fn captured_motion_is_relative_until_a_mouse_is_found() {
    let mut s = captured();
    let blank = [
        Action::Cursor(Command::ShowCursor(true)),
        Action::Cursor(Command::SetSentinel(Sentinel::Blank)),
    ];
    let mut expected = blank.to_vec();
    expected.push(Action::GestureRelative { dx: 1, dy: -2 });
    expected.push(Action::MoveRelative { dx: 1, dy: -2 });
    assert_eq!(s.route(motion(), OPEN), expected);
    assert_eq!(s.notice_mouse(Presence::Absent), vec![]);
    assert_eq!(
        s.notice_mouse(Presence::Present),
        vec![
            Command::ShowCursor(true),
            Command::SetSentinel(Sentinel::Blank),
            Command::RelativeMode(false),
            Command::ShowCursor(true),
            Command::SetSentinel(Sentinel::Blank),
        ]
    );
    assert_eq!(s.notice_mouse(Presence::Present), vec![]);
    let mut expected = blank.to_vec();
    expected.push(Action::GestureAbsolute { x: 10, y: 20 });
    expected.push(Action::MoveAbsolute { x: 10, y: 20 });
    assert_eq!(s.route(motion(), OPEN), expected);
    let owned = sdl_filter(Some(&reader_with_mouse()), true, 0);
    assert_eq!(s.route(motion(), owned), blank.to_vec());
    assert_eq!(s.route(button(MouseButton::Right, true), owned), vec![]);
    assert_eq!(s.route(Event::Wheel { x: 1, y: 1 }, owned), vec![]);
}

#[test]
fn desktop_motion_is_absolute() {
    let mut s = desktop();
    assert_eq!(
        s.route(motion(), OPEN),
        vec![
            Action::GestureAbsolute { x: 10, y: 20 },
            Action::MoveAbsolute { x: 10, y: 20 },
        ]
    );
    assert_eq!(s.notice_mouse(Presence::Present), vec![]);
}

#[test]
fn the_left_button_carries_gestures_where_they_are_on() {
    let mut s = captured();
    assert_eq!(
        s.route(button(MouseButton::Left, true), OPEN),
        vec![Action::OkPress { x: 5, y: 6 }]
    );
    assert_eq!(
        s.route(button(MouseButton::Left, false), OPEN),
        vec![Action::OkRelease]
    );
    assert_eq!(
        s.route(button(MouseButton::Right, true), OPEN),
        vec![Action::Button {
            button: MouseButton::Right,
            pressed: true
        }]
    );
    assert_eq!(
        desktop().route(button(MouseButton::Left, false), OPEN),
        vec![Action::Button {
            button: MouseButton::Left,
            pressed: false
        }]
    );
}

#[test]
fn wheels_scroll_each_way_apart() {
    let mut s = desktop();
    let vertical = Action::Scroll {
        amount: -1,
        horizontal: false,
    };
    let horizontal = Action::Scroll {
        amount: 2,
        horizontal: true,
    };
    assert_eq!(
        s.route(Event::Wheel { x: 2, y: -1 }, OPEN),
        vec![vertical, horizontal]
    );
    assert_eq!(s.route(Event::Wheel { x: 0, y: -1 }, OPEN), vec![vertical]);
    assert_eq!(s.route(Event::Wheel { x: 2, y: 0 }, OPEN), vec![horizontal]);
    assert_eq!(s.route(Event::Wheel { x: 0, y: 0 }, OPEN), vec![]);
}

#[test]
fn one_pad_is_open_at_a_time() {
    let mut s = desktop();
    assert_eq!(
        s.route(Event::PadAdded { which: 3 }, OPEN),
        vec![Action::OpenPad { which: 3 }]
    );
    s.pad_opened(false);
    assert!(!s.pad);
    s.pad_opened(true);
    assert!(s.pad);
    assert_eq!(s.route(Event::PadAdded { which: 4 }, OPEN), vec![]);
    assert_eq!(
        s.route(
            Event::PadButton {
                pad_button: 5,
                pressed: true
            },
            OPEN
        ),
        vec![
            Action::SetChord {
                pad_button: 5,
                pressed: true
            },
            Action::PadButton {
                pad_button: 5,
                pressed: true
            },
        ]
    );
    assert_eq!(
        s.route(Event::PadAxis { axis: 1, value: -9 }, OPEN),
        vec![Action::PadAxis { axis: 1, value: -9 }]
    );
    assert_eq!(
        s.route(Event::PadRemoved, OPEN),
        vec![Action::ClosePad, Action::ClearChord]
    );
    assert!(!s.pad);
}

#[test]
fn an_open_dialog_gets_every_event_but_quit_and_pads() {
    let mut s = desktop();
    s.pad_opened(true);
    s.control(Polled { chord: true, ..IDLE });
    assert!(s.dialog_open);
    let asks = vec![Action::AskDialog];
    assert_eq!(s.route(down(key(Some(Scancode::A), None)), OPEN), asks);
    assert_eq!(s.route(motion(), OPEN), asks);
    assert_eq!(s.route(Event::Other, OPEN), asks);
    assert_eq!(s.route(Event::PadAdded { which: 1 }, OPEN), asks);
    assert_eq!(
        s.route(Event::PadRemoved, OPEN),
        vec![Action::ClosePad, Action::ClearChord]
    );
    assert_eq!(
        s.route(Event::PadAdded { which: 1 }, OPEN),
        vec![Action::OpenPad { which: 1 }]
    );
    assert_eq!(
        s.route(Event::Quit, OPEN),
        vec![Action::Disconnect, Action::Leave(Outcome::Quit)]
    );
    assert_eq!(desktop().route(Event::Other, OPEN), vec![]);
}

#[test]
fn being_asked_to_quit_tells_the_host() {
    let s = desktop();
    assert_eq!(
        s.quit_requested(true),
        vec![Action::Disconnect, Action::Leave(Outcome::Quit)]
    );
    assert_eq!(s.quit_requested(false), vec![]);
}

#[test]
fn a_stream_begins_as_its_settings_say() {
    let settings = Settings {
        cursor_capture: true,
        cursor_gestures: false,
        stats_overlay: true,
    };
    let (s, commands) = Stream::begin(settings, true, true, false, UP, LogOverlayState::Live, 9);
    assert_eq!(
        commands,
        vec![
            Command::ShowCursor(true),
            Command::SetSentinel(Sentinel::Blank),
            Command::RelativeMode(true),
        ]
    );
    assert!(s.pad && s.stats_on && s.cursor.captured && !s.dialog_open);
    assert_eq!(s.log, LogOverlayState::Live);
    assert_eq!(s.counters.at_ns, 9);
}

#[test]
fn keys_held_from_before_are_no_presses() {
    let all = Keys {
        exit: true,
        home: true,
        green: true,
        yellow: true,
        blue: true,
    };
    let mut s = stream_with(captured().settings, all);
    let held = Polled { keys: all, ..IDLE };
    assert_eq!(
        s.control(held),
        vec![Control::TickButtons, Control::HidActive(true)]
    );
    s.control(IDLE);
    assert!(s.control(held).contains(&Control::OpenDialog));
}

#[test]
fn a_held_shortcut_opens_the_dialog_once() {
    let mut s = captured();
    let chord = Polled { chord: true, ..IDLE };
    assert_eq!(
        s.control(chord),
        vec![
            Control::TickButtons,
            Control::ClearChord,
            Control::OpenDialog,
            Control::Cursor(Command::ShowCursor(true)),
            Control::Cursor(Command::SetSentinel(Sentinel::Arrow)),
            Control::Cursor(Command::RelativeMode(false)),
            Control::HidActive(false),
        ]
    );
    assert_eq!(
        s.control(chord),
        vec![Control::ReleaseButtons, Control::HidActive(false)]
    );
}

#[test]
fn the_exit_gesture_opens_the_dialog_once_per_press() {
    let mut s = desktop();
    let exit = Polled {
        keys: Keys { exit: true, ..UP },
        ..IDLE
    };
    assert_eq!(
        s.control(exit),
        vec![
            Control::TickButtons,
            Control::OpenDialog,
            Control::HidActive(false),
        ]
    );
    assert!(!s.answer(Some(Answer::Dismissed)));
    assert!(!s.dialog_open);
    assert_eq!(
        s.control(exit),
        vec![Control::TickButtons, Control::HidActive(true)]
    );
    s.control(IDLE);
    assert!(s.control(exit).contains(&Control::OpenDialog));
}

#[test]
fn coloured_buttons_toggle_the_overlays() {
    let mut s = desktop();
    let without_reader = Polled {
        reader: false,
        ..IDLE
    };
    let green = Polled {
        keys: Keys { green: true, ..UP },
        ..without_reader
    };
    s.overlay.drawn_ns = Some(5);
    assert_eq!(
        s.control(green),
        vec![Control::TickButtons, Control::FadeStats { show: false }]
    );
    assert!(!s.stats_on);
    assert_eq!(s.overlay.drawn_ns, None);
    assert_eq!(s.control(green), vec![Control::TickButtons]);
    let yellow = Polled {
        keys: Keys { yellow: true, ..UP },
        ..without_reader
    };
    assert_eq!(
        s.control(yellow),
        vec![
            Control::TickButtons,
            Control::Log(LogOverlayState::Live),
            Control::FadeLog { show: true },
        ]
    );
    s.control(without_reader);
    assert_eq!(
        s.control(yellow),
        vec![Control::TickButtons, Control::Log(LogOverlayState::Frozen)]
    );
    s.control(without_reader);
    assert_eq!(
        s.control(yellow),
        vec![
            Control::TickButtons,
            Control::Log(LogOverlayState::Off),
            Control::FadeLog { show: false },
        ]
    );
    let blue = Polled {
        keys: Keys { blue: true, ..UP },
        ..without_reader
    };
    assert_eq!(
        s.control(blue),
        vec![
            Control::TickButtons,
            Control::Pacing(true),
            Control::Show(Toast::PacingOn),
        ]
    );
    s.control(without_reader);
    assert_eq!(
        s.control(Polled {
            pacing: true,
            ..blue
        }),
        vec![
            Control::TickButtons,
            Control::Pacing(false),
            Control::Show(Toast::PacingOff),
        ]
    );
    let home = Polled {
        keys: Keys { home: true, ..UP },
        ..without_reader
    };
    assert_eq!(
        s.control(home),
        vec![Control::TickButtons, Control::LaunchHome]
    );
    assert_eq!(s.control(home), vec![Control::TickButtons]);
}

#[test]
fn an_open_dialog_keeps_coloured_buttons_quiet() {
    let mut s = desktop();
    s.control(Polled { chord: true, ..IDLE });
    let colours = Polled {
        keys: Keys {
            green: true,
            yellow: true,
            blue: true,
            ..UP
        },
        ..IDLE
    };
    assert_eq!(
        s.control(colours),
        vec![Control::ReleaseButtons, Control::HidActive(false)]
    );
    assert!(s.stats_on);
}

#[test]
fn trouble_is_told_once_per_hold() {
    let mut s = desktop();
    let holding = Polled {
        holding: true,
        ..IDLE
    };
    assert!(s
        .control(holding)
        .contains(&Control::Show(Toast::ConnectionIssues)));
    assert_eq!(s.control(holding).len(), 2);
    s.control(IDLE);
    assert_eq!(s.control(holding).len(), 3);
}

#[test]
fn messages_say_what_happened() {
    assert_eq!(Toast::PacingOn.text(), "Frame pacing enabled");
    assert_eq!(Toast::PacingOff.text(), "Frame pacing disabled");
    assert_eq!(
        Toast::ConnectionIssues.text(),
        "Connection issues — recovering..."
    );
}

#[test]
fn the_pointer_is_recaptured_after_the_dialog() {
    let mut s = captured();
    s.control(Polled { chord: true, ..IDLE });
    assert!(!s.cursor.is_captured());
    s.answer(Some(Answer::Navigated));
    s.answer(None);
    assert!(s.dialog_open);
    s.answer(Some(Answer::Dismissed));
    assert_eq!(
        s.control(IDLE),
        vec![
            Control::TickButtons,
            Control::Cursor(Command::ShowCursor(true)),
            Control::Cursor(Command::SetSentinel(Sentinel::Blank)),
            Control::Cursor(Command::RelativeMode(true)),
            Control::HidActive(true),
        ]
    );
    assert!(s.cursor.is_captured());
}

#[test]
fn a_confirmed_dialog_leaves_once_it_has_faded() {
    let mut s = desktop();
    s.control(Polled { chord: true, ..IDLE });
    assert_eq!(s.step_dialog(true, false), DialogStep::Draw);
    assert!(s.answer(Some(Answer::Confirmed)));
    assert_eq!(s.step_dialog(true, true), DialogStep::Draw);
    assert_eq!(s.step_dialog(false, false), DialogStep::Nothing);
    assert_eq!(
        s.step_dialog(false, true),
        DialogStep::Leave(Outcome::ReturnToMenu)
    );
    assert_eq!(s.step_dialog(false, true), DialogStep::Wipe);
}

#[test]
fn only_an_end_that_is_news_is_told() {
    let mut s = desktop();
    assert!(s.session_ended(false, "gone".to_string()).is_none());
    let end = s.session_ended(true, "gone".to_string()).unwrap();
    assert_eq!(end.outcome, Outcome::ReturnToMenu);
    assert_eq!(end.toast, Some("gone".to_string()));
    s.answer(Some(Answer::Confirmed));
    let end = s.session_ended(true, "gone".to_string()).unwrap();
    assert_eq!(end.outcome, Outcome::ReturnToMenu);
    assert_eq!(end.toast, None);
}

#[test]
fn edges_fire_on_the_way_down() {
    let mut edge = Edge::new(true);
    assert!(!edge.fired(true));
    assert!(!edge.fired(false));
    assert!(edge.fired(true));
    assert!(!edge.fired(true));
}

const NOTHING: Visible = Visible {
    dialog: false,
    message: false,
    stats: false,
    log: false,
    stats_fading: false,
    log_fading: false,
};

#[test]
fn the_overlay_keeps_its_pace() {
    let mut s = desktop();
    let stats = Visible {
        stats: true,
        ..NOTHING
    };
    let draws = Plan {
        wipe: false,
        draw: true,
        rebuild_stats: true,
    };
    let rests = Plan {
        wipe: false,
        draw: false,
        rebuild_stats: false,
    };
    assert_eq!(s.plan_overlay(NOTHING, 0), rests);
    assert_eq!(s.plan_overlay(stats, 1), draws);
    assert_eq!(s.plan_overlay(stats, 500_000_000), rests);
    assert_eq!(s.plan_overlay(stats, 500_000_001), draws);
    let fading = Visible {
        stats_fading: true,
        ..stats
    };
    assert_eq!(s.plan_overlay(fading, 533_000_000), rests);
    assert_eq!(
        s.plan_overlay(fading, 533_000_001),
        Plan {
            rebuild_stats: false,
            ..draws
        }
    );
    let message = Visible {
        message: true,
        ..NOTHING
    };
    assert!(s.plan_overlay(message, 566_000_001).draw);
    let covered = Visible {
        dialog: true,
        ..message
    };
    assert_eq!(
        s.plan_overlay(covered, 600_000_000),
        Plan {
            wipe: true,
            ..rests
        }
    );
    assert_eq!(s.plan_overlay(NOTHING, 600_000_001), rests);
}

#[test]
fn the_overlay_refreshes_at_once_when_told() {
    let mut overlay = Overlay::new();
    let log = Visible {
        log: true,
        ..NOTHING
    };
    assert!(overlay.plan(log, false, 10).draw);
    assert!(!overlay.plan(log, false, 11).draw);
    overlay.refresh();
    assert_eq!(
        overlay.plan(log, false, 12),
        Plan {
            wipe: false,
            draw: true,
            rebuild_stats: false
        }
    );
}

#[test]
fn tiles_are_drawn_where_they_were_placed() {
    let mut overlay = Overlay::new();
    let both = Visible {
        stats: true,
        log: true,
        ..NOTHING
    };
    assert_eq!(overlay.tiles(both), vec![]);
    overlay.place_stats(1920, 300, 200);
    overlay.place_log(1080, 1920, 400);
    let stats_at = Rect {
        x: 1596,
        y: 24,
        width: 300,
        height: 200,
    };
    let log_at = Rect {
        x: 0,
        y: 680,
        width: 1920,
        height: 400,
    };
    assert_eq!(
        overlay.tiles(both),
        vec![(Tile::Stats, stats_at), (Tile::Log, log_at)]
    );
    assert_eq!(
        overlay.tiles(Visible {
            stats: false,
            ..both
        }),
        vec![(Tile::Log, log_at)]
    );
    assert_eq!(overlay.tiles(NOTHING), vec![]);
}

#[test]
fn the_log_goes_round() {
    assert_eq!(LogOverlayState::Off.cycle(), LogOverlayState::Live);
    assert_eq!(LogOverlayState::Live.cycle(), LogOverlayState::Frozen);
    assert_eq!(LogOverlayState::Frozen.cycle(), LogOverlayState::Off);
    assert!(!LogOverlayState::Off.is_on());
    assert!(LogOverlayState::Live.is_on() && LogOverlayState::Frozen.is_on());
}

#[test]
fn waiting_ends_with_the_picture_or_the_time() {
    assert!(keeps_waiting(false, 9, 10));
    assert!(!keeps_waiting(false, 10, 10));
    assert!(!keeps_waiting(true, 0, 10));
}

#[test]
fn notices_are_shown_once() {
    let mut notices = Notices::new();
    notices.connect_failed("no route");
    notices.stream_ended(Some("host closed".to_string()));
    notices.stream_ended(None);
    let shown = notices.take();
    assert_eq!(shown.status, Some("Couldn't connect: no route".to_string()));
    assert_eq!(shown.toast, Some("host closed".to_string()));
    let shown = notices.take();
    assert_eq!((shown.status, shown.toast), (None, None));
    notices.audio_failed("no device");
    assert_eq!(
        notices.take().status,
        Some("Couldn't start audio: no device".to_string())
    );
}

#[test]
fn sessions_are_taken_down_in_order() {
    assert_eq!(
        before_shutdown(Held {
            triggers: true,
            pad: true,
            audio: true
        }),
        vec![
            Teardown::ReleaseTriggers,
            Teardown::StopRumble,
            Teardown::StopAudio,
            Teardown::Shutdown,
        ]
    );
    assert_eq!(
        before_shutdown(Held {
            triggers: false,
            pad: false,
            audio: false
        }),
        vec![Teardown::Shutdown]
    );
    let mut cursor = Cursor::new(true);
    cursor.set_captured(true);
    assert_eq!(
        after_shutdown(true, &mut cursor),
        vec![
            Teardown::UnloadVideo,
            Teardown::RestoreModes,
            Teardown::Cursor(Command::ShowCursor(true)),
            Teardown::Cursor(Command::SetSentinel(Sentinel::Arrow)),
            Teardown::Cursor(Command::RelativeMode(false)),
        ]
    );
    assert!(!cursor.is_captured());
    assert_eq!(after_shutdown(false, &mut cursor)[0], Teardown::KeepVideo);
}

#[test]
fn failed_audio_takes_the_session_down() {
    assert_eq!(
        before_failed_shutdown(),
        vec![Teardown::Disconnect, Teardown::Shutdown]
    );
    let mut cursor = Cursor::new(false);
    cursor.set_captured(true);
    assert_eq!(
        after_failed_shutdown(false, &mut cursor),
        vec![
            Teardown::KeepVideo,
            Teardown::Cursor(Command::ShowCursor(true)),
            Teardown::Cursor(Command::ShowCursor(true)),
            Teardown::Cursor(Command::RelativeMode(false)),
        ]
    );
    assert_eq!(
        after_failed_shutdown(true, &mut cursor)[0],
        Teardown::UnloadVideo
    );
}

#[test]
fn no_warping_beside_a_read_mouse() {
    let mut s = captured();
    s.notice_mouse(Presence::Present);
    s.control(Polled { chord: true, ..IDLE });
    s.answer(Some(Answer::Dismissed));
    let controls = s.control(IDLE);
    assert!(s.cursor.is_captured());
    assert!(controls.contains(&Control::Cursor(Command::RelativeMode(false))));
    assert!(!controls.contains(&Control::Cursor(Command::RelativeMode(true))));
}

#[test]
fn an_expected_mouse_keeps_relative_mode_off() {
    let settings = captured().settings;
    let (mut s, commands) = Stream::begin(settings, true, false, true, UP, LogOverlayState::Off, 0);
    assert_eq!(
        commands,
        vec![
            Command::ShowCursor(true),
            Command::SetSentinel(Sentinel::Arrow),
            Command::RelativeMode(false),
            Command::ShowCursor(true),
            Command::SetSentinel(Sentinel::Blank),
            Command::RelativeMode(false),
        ]
    );
    assert_eq!(s.notice_mouse(Presence::Unknown), vec![]);
    assert!(s
        .route(motion(), OPEN)
        .contains(&Action::MoveAbsolute { x: 10, y: 20 }));
    assert!(!s.cursor.sdl_relative);
    s.notice_mouse(Presence::Present);
    assert!(s.mouse_seen && !s.cursor.sdl_relative);
    assert_eq!(s.notice_mouse(Presence::Absent), vec![]);
    assert!(!s.cursor.sdl_relative);
}

#[test]
fn a_missing_mouse_brings_relative_mode_back() {
    let settings = captured().settings;
    let (mut s, _) = Stream::begin(settings, true, false, true, UP, LogOverlayState::Off, 0);
    assert_eq!(
        s.notice_mouse(Presence::Absent),
        vec![
            Command::ShowCursor(true),
            Command::SetSentinel(Sentinel::Blank),
            Command::RelativeMode(true),
        ]
    );
    assert_eq!(s.notice_mouse(Presence::Absent), vec![]);
    assert!(s
        .route(motion(), OPEN)
        .contains(&Action::MoveRelative { dx: 1, dy: -2 }));
    s.notice_mouse(Presence::Present);
    assert!(s.mouse_seen && !s.cursor.sdl_relative);
    let settings = desktop().settings;
    let (mut s, _) = Stream::begin(settings, true, false, true, UP, LogOverlayState::Off, 0);
    assert_eq!(s.notice_mouse(Presence::Absent), vec![]);
}

#[test]
fn keys_pressed_before_the_loop_are_no_presses() {
    let mut s = captured();
    let keys = Keys { exit: true, ..UP };
    s.enter_loop(keys, 77);
    assert_eq!(s.counters.at_ns, 77);
    assert_eq!(
        s.control(Polled { keys, ..IDLE }),
        vec![Control::TickButtons, Control::HidActive(true)]
    );
    assert!(!s.dialog_open);
}

#[test]
fn an_expected_mouse_changes_nothing_without_capture() {
    let settings = desktop().settings;
    let (s, commands) = Stream::begin(settings, true, false, true, UP, LogOverlayState::Off, 0);
    assert_eq!(
        commands,
        vec![
            Command::ShowCursor(true),
            Command::SetSentinel(Sentinel::Arrow),
            Command::RelativeMode(false),
        ]
    );
    assert!(s.cursor.sdl_relative);
}

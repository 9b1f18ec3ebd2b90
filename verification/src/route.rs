//! Where the events of the stream's window go: to the host, to the open dialog, or nowhere.
use vstd::prelude::*;
use crate::activity::Slot;
use crate::cursor::{Command, Cursor};
use crate::evmouse::HidMouse;
use crate::keyboard::{key_event, key_vk, wire_key, InputEvent};
use crate::scancode::Scancode;

verus! {

/// The key code of the remote's Back button. It has no scancode.
pub const BACK_KEYCODE: i32 = 2097155;

/// The key code of the remote's Red button. It has no scancode.
pub const RED_KEYCODE: i32 = 2097169;

/// The VK of Escape.
pub const VK_ESCAPE: u32 = 0x1B;

/// How a stream ends.
#[derive(Clone, Copy, Debug, PartialEq, Eq, Structural)]
pub enum Outcome {
    Quit,
    ReturnToMenu,
}

/// A button of a pointer.
#[derive(Clone, Copy, Debug, PartialEq, Eq, Structural)]
pub enum MouseButton {
    Left,
    Middle,
    Right,
    X1,
    X2,
    Unknown,
}

/// A key as the window reports it.
#[derive(Clone, Copy, Debug, PartialEq, Eq, Structural)]
pub struct Key {
    pub scancode: Option<Scancode>,
    pub keycode: Option<i32>,
}

/// An event of the stream's window.
#[derive(Clone, Copy, Debug, PartialEq, Eq, Structural)]
pub enum Event {
    Quit,
    PadAdded { which: u32 },
    PadRemoved,
    KeyDown { key: Key, repeat: bool },
    KeyUp { key: Key },
    PadButton { pad_button: i32, pressed: bool },
    PadAxis { axis: i32, value: i16 },
    Motion { x: i32, y: i32, xrel: i32, yrel: i32 },
    Button { button: MouseButton, pressed: bool, x: i32, y: i32 },
    Wheel { x: i32, y: i32 },
    Other,
}

/// Something to do about an event.
#[derive(Clone, Copy, Debug, PartialEq, Eq)]
pub enum Action {
    /// Tell the host that the client leaves.
    Disconnect,
    /// End the stream.
    Leave(Outcome),
    OpenPad { which: u32 },
    ClosePad,
    ClearChord,
    SetChord { pad_button: i32, pressed: bool },
    /// Hand the event to the open dialog.
    AskDialog,
    /// Do something to the local pointer.
    Cursor(Command),
    /// Send a key to the host.
    Send(InputEvent),
    /// The remote's Red button, which stands for a right click.
    Red { pressed: bool },
    PadButton { pad_button: i32, pressed: bool },
    PadAxis { axis: i32, value: i16 },
    /// Let a press of the remote's OK button see how the pointer travels.
    GestureRelative { dx: i32, dy: i32 },
    GestureAbsolute { x: i32, y: i32 },
    /// Move the host's pointer.
    MoveRelative { dx: i32, dy: i32 },
    MoveAbsolute { x: i32, y: i32 },
    /// The remote's OK button, which carries gestures.
    OkPress { x: i32, y: i32 },
    OkRelease,
    Button { button: MouseButton, pressed: bool },
    Scroll { amount: i32, horizontal: bool },
}

impl Action {
    /// Whether the host gets to see something of it, at once or later.
    pub open spec fn reaches_host(self) -> bool {
        self.is_key() || self.is_pointer() || self is PadButton || self is PadAxis
    }

    /// Whether it is about a key.
    pub open spec fn is_key(self) -> bool {
        self is Send || self is Red
    }

    /// Whether it is about the host's pointer, but for the Red button.
    pub open spec fn is_pointer(self) -> bool {
        ||| self is GestureRelative
        ||| self is GestureAbsolute
        ||| self is MoveRelative
        ||| self is MoveAbsolute
        ||| self is OkPress
        ||| self is OkRelease
        ||| self is Button
        ||| self is Scroll
    }
}

/// What of the window's events is dropped, because devices that are read past SDL own it.
#[derive(Clone, Copy, Debug, PartialEq, Eq, Structural)]
pub struct Filter {
    pub motion: bool,
    pub clicks: bool,
    pub keys: bool,
}

/// With the pointer captured and a mouse read, every pointer event of the window is dropped. Without
/// capture the compositor owns the mouse, and pointer events are dropped only while a read keyboard
/// is busy, so that an echo of a key cannot move the host's pointer. Keys are dropped while a read
/// keyboard is busy.
pub open spec fn filter_for(hid: Option<&HidMouse>, capture: bool, now_ms: u64) -> Filter {
    match hid {
        None => Filter { motion: false, clicks: false, keys: false },
        Some(hid) => {
            let busy = hid.activity.in_use(Slot::Key, now_ms);
            let owned = busy || (capture && hid.has_mouse);
            Filter { motion: owned, clicks: owned, keys: busy }
        },
    }
}

/// What of the window's events is to be dropped now.
pub fn sdl_filter(hid: Option<&HidMouse>, capture: bool, now_ms: u64) -> (filter: Filter)
    requires
        hid matches Some(hid) ==> hid.activity.up_to(Slot::Key, now_ms),
    ensures
        filter == filter_for(hid, capture, now_ms),
{
    match hid {
        Some(hid) => {
            let busy: bool = hid.owns_sdl_keys(now_ms);
            if capture && hid.has_device() {
                Filter { motion: true, clicks: true, keys: busy }
            } else {
                Filter { motion: busy, clicks: busy, keys: busy }
            }
        },
        None => Filter { motion: false, clicks: false, keys: false },
    }
}

/// The remote's Red button.
pub open spec fn is_red(key: Key) -> bool {
    key.keycode == Some(RED_KEYCODE)
}

/// The remote's Back button.
pub open spec fn is_back(key: Key) -> bool {
    key.keycode == Some(BACK_KEYCODE) && key.scancode is None
}

/// A key with a scancode, on its way to the host where the host has a mapping for it.
pub open spec fn sent_key(scancode: Scancode, pressed: bool) -> Seq<Action> {
    match key_vk(scancode) {
        Some(vk) => seq![Action::Send(wire_key(vk as u32, pressed))],
        None => seq![],
    }
}

/// What a press does. Keys with a scancode are game input; of those without one, Red is a click and
/// Back is Escape. Only the first press of a held button counts.
pub open spec fn pressed_key(key: Key, repeat: bool, filter: Filter) -> Seq<Action> {
    if key.scancode is Some && !filter.keys {
        sent_key(key.scancode->0, true)
    } else if is_red(key) && !repeat {
        seq![Action::Red { pressed: true }]
    } else if is_back(key) && !repeat {
        seq![Action::Send(wire_key(VK_ESCAPE, true))]
    } else {
        seq![]
    }
}

/// What a release does.
pub open spec fn released_key(key: Key, filter: Filter) -> Seq<Action> {
    if is_red(key) {
        seq![Action::Red { pressed: false }]
    } else if is_back(key) {
        seq![Action::Send(wire_key(VK_ESCAPE, false))]
    } else if key.scancode is Some && !filter.keys {
        sent_key(key.scancode->0, false)
    } else {
        seq![]
    }
}

fn take_key(key: Key, pressed: bool, repeat: bool, filter: Filter) -> (actions: Vec<Action>)
    ensures
        actions@ == (if pressed {
            pressed_key(key, repeat, filter)
        } else {
            released_key(key, filter)
        }),
{
    let red: bool = match key.keycode {
        Some(code) => code == RED_KEYCODE,
        None => false,
    };
    let back: bool = match key.keycode {
        Some(code) => code == BACK_KEYCODE && key.scancode.is_none(),
        None => false,
    };
    let counts: bool = !pressed || !repeat;
    let mut actions: Vec<Action> = Vec::new();
    if key.scancode.is_some() && !filter.keys && (pressed || !red) {
        if let Some(scancode) = key.scancode {
            if let Some(ev) = key_event(scancode, pressed) {
                actions.push(Action::Send(ev));
            }
            assert(actions@ =~= sent_key(scancode, pressed));
        }
    } else if red {
        if counts {
            actions.push(Action::Red { pressed });
        }
        assert(counts ==> actions@ =~= seq![Action::Red { pressed }]);
    } else if back && counts {
        if let Some(ev) = key_event(Scancode::Escape, pressed) {
            actions.push(Action::Send(ev));
        }
        assert(actions@ =~= seq![Action::Send(wire_key(VK_ESCAPE, pressed))]);
    }
    assert(actions@.len() == 0 ==> actions@ =~= seq![]);
    actions
}

/// What pointer motion sends. The OK press sees the motion before the host does: where this motion
/// makes a drag of it, the button has to go down at the point where it was pressed.
pub open spec fn sent_motion(x: i32, y: i32, xrel: i32, yrel: i32, relative: bool) -> Seq<Action> {
    if relative {
        seq![
            Action::GestureRelative { dx: xrel, dy: yrel },
            Action::MoveRelative { dx: xrel, dy: yrel },
        ]
    } else {
        seq![Action::GestureAbsolute { x, y }, Action::MoveAbsolute { x, y }]
    }
}

/// The commands for the local pointer, as actions.
pub open spec fn cursor_actions(commands: Seq<Command>) -> Seq<Action> {
    commands.map_values(|c: Command| Action::Cursor(c))
}

/// What turning the wheel sends: the two directions apart, and neither where it did not turn.
pub open spec fn sent_wheel(x: i32, y: i32) -> Seq<Action> {
    (if y != 0 {
        seq![Action::Scroll { amount: y, horizontal: false }]
    } else {
        seq![]
    }) + (if x != 0 {
        seq![Action::Scroll { amount: x, horizontal: true }]
    } else {
        seq![]
    })
}

/// What a button of a pointer sends. With gestures on, the left one is the remote's OK.
pub open spec fn sent_button(
    button: MouseButton,
    pressed: bool,
    x: i32,
    y: i32,
    gestures: bool,
) -> Seq<Action> {
    if button != MouseButton::Left || !gestures {
        seq![Action::Button { button, pressed }]
    } else if pressed {
        seq![Action::OkPress { x, y }]
    } else {
        seq![Action::OkRelease]
    }
}

/// What the routing of an event depends on, beside the event.
#[derive(Clone, Copy, Debug, PartialEq, Eq, Structural)]
pub struct Routing {
    /// A pad is open.
    pub pad: bool,
    pub dialog_open: bool,
    pub gestures: bool,
    /// Motion goes to the host as deltas.
    pub relative: bool,
    pub cursor: Cursor,
    pub filter: Filter,
}

impl Routing {
    /// What an event does.
    pub open spec fn actions(self, event: Event) -> Seq<Action> {
        match event {
            Event::Quit => seq![Action::Disconnect, Action::Leave(Outcome::Quit)],
            Event::PadRemoved => seq![Action::ClosePad, Action::ClearChord],
            Event::PadAdded { which } if !self.pad => seq![Action::OpenPad { which }],
            _ => if self.dialog_open {
                seq![Action::AskDialog]
            } else {
                self.forwarded(event)
            },
        }
    }

    /// What an event of an input device does while no dialog is open.
    pub open spec fn forwarded(self, event: Event) -> Seq<Action> {
        match event {
            Event::KeyDown { key, repeat } => pressed_key(key, repeat, self.filter),
            Event::KeyUp { key } => released_key(key, self.filter),
            Event::PadButton { pad_button, pressed } => seq![
                Action::SetChord { pad_button, pressed },
                Action::PadButton { pad_button, pressed },
            ],
            Event::PadAxis { axis, value } => seq![Action::PadAxis { axis, value }],
            Event::Motion { x, y, xrel, yrel } => cursor_actions(self.cursor.hide_again())
                + if self.filter.motion {
                seq![]
            } else {
                sent_motion(x, y, xrel, yrel, self.relative)
            },
            Event::Button { button, pressed, x, y } => if self.filter.clicks {
                seq![]
            } else {
                sent_button(button, pressed, x, y, self.gestures)
            },
            Event::Wheel { x, y } => if self.filter.clicks {
                seq![]
            } else {
                sent_wheel(x, y)
            },
            _ => seq![],
        }
    }

    /// What to do about an event.
    pub fn route(&self, event: Event) -> (actions: Vec<Action>)
        ensures
            actions@ == self.actions(event),
    {
        let mut actions: Vec<Action> = Vec::new();
        match event {
            Event::Quit => {
                actions.push(Action::Disconnect);
                actions.push(Action::Leave(Outcome::Quit));
            },
            Event::PadRemoved => {
                actions.push(Action::ClosePad);
                actions.push(Action::ClearChord);
            },
            Event::PadAdded { which } if !self.pad => {
                actions.push(Action::OpenPad { which });
            },
            _ => {
                if !self.dialog_open {
                    return self.forward(event);
                }
                actions.push(Action::AskDialog);
            },
        }
        assert(actions@ =~= self.actions(event));
        actions
    }

    fn forward(&self, event: Event) -> (actions: Vec<Action>)
        ensures
            actions@ == self.forwarded(event),
    {
        let mut actions: Vec<Action> = Vec::new();
        match event {
            Event::KeyDown { key, repeat } => {
                return take_key(key, true, repeat, self.filter);
            },
            Event::KeyUp { key } => {
                return take_key(key, false, false, self.filter);
            },
            Event::PadButton { pad_button, pressed } => {
                actions.push(Action::SetChord { pad_button, pressed });
                actions.push(Action::PadButton { pad_button, pressed });
            },
            Event::PadAxis { axis, value } => {
                actions.push(Action::PadAxis { axis, value });
            },
            Event::Motion { x, y, xrel, yrel } => {
                let commands: Vec<Command> = self.cursor.on_pointer_activity();
                push_cursor(&mut actions, &commands);
                if !self.filter.motion {
                    if self.relative {
                        actions.push(Action::GestureRelative { dx: xrel, dy: yrel });
                        actions.push(Action::MoveRelative { dx: xrel, dy: yrel });
                    } else {
                        actions.push(Action::GestureAbsolute { x, y });
                        actions.push(Action::MoveAbsolute { x, y });
                    }
                }
            },
            Event::Button { button, pressed, x, y } => {
                if !self.filter.clicks {
                    if button != MouseButton::Left || !self.gestures {
                        actions.push(Action::Button { button, pressed });
                    } else if pressed {
                        actions.push(Action::OkPress { x, y });
                    } else {
                        actions.push(Action::OkRelease);
                    }
                }
            },
            Event::Wheel { x, y } => {
                if !self.filter.clicks {
                    if y != 0 {
                        actions.push(Action::Scroll { amount: y, horizontal: false });
                    }
                    if x != 0 {
                        actions.push(Action::Scroll { amount: x, horizontal: true });
                    }
                }
            },
            _ => {},
        }
        assert(actions@ =~= self.forwarded(event));
        actions
    }
}

/// Appends commands for the local pointer to the actions.
pub(crate) fn push_cursor(actions: &mut Vec<Action>, commands: &Vec<Command>)
    ensures
        final(actions)@ == old(actions)@ + cursor_actions(commands@),
{
    let mut i: usize = 0;
    while i < commands.len()
        invariant
            i <= commands@.len(),
            actions@ == old(actions)@ + cursor_actions(commands@.take(i as int)),
        decreases commands@.len() - i,
    {
        actions.push(Action::Cursor(commands[i]));
        assert(cursor_actions(commands@.take(i + 1)) =~= cursor_actions(
            commands@.take(i as int),
        ).push(Action::Cursor(commands@[i as int])));
        assert(actions@ =~= old(actions)@ + cursor_actions(commands@.take(i + 1)));
        i = i + 1;
    }
    assert(commands@.take(i as int) =~= commands@);
}

/// While a dialog is open nothing reaches the host, and no shortcut of the pad builds up.
pub proof fn lemma_open_dialog_swallows_input(routing: Routing, event: Event)
    requires
        routing.dialog_open,
    ensures
        forall|i: int|
            0 <= i < routing.actions(event).len() ==> !(#[trigger] routing.actions(
                event,
            )[i]).reaches_host() && !(routing.actions(event)[i] is SetChord),
{
}

/// With the pointer captured and a mouse read past SDL, no pointer event of the window reaches the
/// host.
pub proof fn lemma_read_mouse_owns_the_pointer(
    routing: Routing,
    hid: &HidMouse,
    now_ms: u64,
    event: Event,
)
    requires
        hid.has_mouse,
        routing.filter == filter_for(Some(hid), true, now_ms),
    ensures
        forall|i: int|
            0 <= i < routing.actions(event).len() ==> !(#[trigger] routing.actions(
                event,
            )[i]).is_pointer(),
{
}

/// While a key of a read keyboard is fresh, neither a key with a scancode nor the pointer gets from
/// the window to the host, but the Red and Back buttons of the remote do.
pub proof fn lemma_busy_keyboard_leaves_the_remote(
    routing: Routing,
    hid: &HidMouse,
    capture: bool,
    now_ms: u64,
    event: Event,
)
    requires
        hid.activity.in_use(Slot::Key, now_ms),
        routing.filter == filter_for(Some(hid), capture, now_ms),
        !routing.dialog_open,
    ensures
        forall|i: int|
            0 <= i < routing.actions(event).len() ==> !(#[trigger] routing.actions(
                event,
            )[i]).is_pointer(),
        event matches Event::KeyDown { key, repeat } ==> {
            &&& key.scancode is Some && !is_red(key) ==> routing.actions(event).len() == 0
            &&& is_red(key) && !repeat ==> routing.actions(event) == seq![
                Action::Red { pressed: true },
            ]
            &&& is_back(key) && !repeat ==> routing.actions(event) == seq![
                Action::Send(wire_key(VK_ESCAPE, true)),
            ]
        },
        event matches Event::KeyUp { key } ==> {
            &&& key.scancode is Some && !is_red(key) ==> routing.actions(event).len() == 0
            &&& is_red(key) ==> routing.actions(event) == seq![Action::Red { pressed: false }]
            &&& is_back(key) ==> routing.actions(event) == seq![
                Action::Send(wire_key(VK_ESCAPE, false)),
            ]
        },
{
}

/// The release that belongs to an action of a press.
pub open spec fn release_of(action: Action) -> Action {
    match action {
        Action::Send(ev) => Action::Send(wire_key(ev.code, false)),
        Action::Red { .. } => Action::Red { pressed: false },
        other => other,
    }
}

/// What goes down comes up: under the same filter the release of a key does to the host what undoes
/// its press. The Red button has no scancode.
pub proof fn lemma_presses_come_up(key: Key, filter: Filter)
    requires
        is_red(key) ==> key.scancode is None,
    ensures
        released_key(key, filter) == pressed_key(key, false, filter).map_values(
            |a: Action| release_of(a),
        ),
{
    assert(released_key(key, filter) =~= pressed_key(key, false, filter).map_values(
        |a: Action| release_of(a),
    ));
}

/// A move of the host's pointer comes right behind the look that an OK press has at the same motion.
pub proof fn lemma_drags_start_before_they_travel(routing: Routing, event: Event, i: int)
    requires
        0 <= i < routing.actions(event).len(),
    ensures
        routing.actions(event)[i] matches Action::MoveRelative { dx, dy } ==> i > 0
            && routing.actions(event)[i - 1] == (Action::GestureRelative { dx, dy }),
        routing.actions(event)[i] matches Action::MoveAbsolute { x, y } ==> i > 0
            && routing.actions(event)[i - 1] == (Action::GestureAbsolute { x, y }),
{
}

/// A captured pointer is blanked again on every motion, even where the motion itself is dropped.
pub proof fn lemma_motion_keeps_the_pointer_blank(routing: Routing, event: Event)
    requires
        event is Motion,
        !routing.dialog_open,
        routing.cursor.captured,
    ensures
        cursor_actions(routing.cursor.hotspot_commands()).is_prefix_of(routing.actions(event)),
{
}

/// The host is told before the stream ends.
pub proof fn lemma_host_is_told_before_leaving(routing: Routing, event: Event, i: int)
    requires
        0 <= i < routing.actions(event).len(),
        routing.actions(event)[i] is Leave,
    ensures
        i > 0,
        routing.actions(event)[i - 1] == Action::Disconnect,
{
}

/// A key of a keyboard that is read past SDL was seen less than a quarter of a second ago.
pub open spec fn key_is_fresh(hid: &HidMouse, now_ms: u64) -> bool {
    hid.activity.key_ms matches Some(at) && now_ms - at < 250
}

/// What is dropped, and what still passes: without devices that are read past SDL nothing is
/// dropped; keys are dropped exactly while a read key is fresh; and pointer events are dropped then,
/// too, and beside it only where the pointer is captured and a mouse is read. So a remote on its own
/// always gets through, captured or not.
pub proof fn lemma_events_pass_unless_owned(
    hid: Option<&HidMouse>,
    capture: bool,
    now_ms: u64,
    filter: Filter,
)
    requires
        call_ensures(sdl_filter, (hid, capture, now_ms), filter),
    ensures
        hid is None ==> !filter.motion && !filter.clicks && !filter.keys,
        hid matches Some(h) ==> {
            &&& filter.keys <==> key_is_fresh(h, now_ms)
            &&& key_is_fresh(h, now_ms) ==> filter.motion && filter.clicks
            &&& capture && h.has_mouse ==> filter.motion && filter.clicks
            &&& !h.has_mouse && !key_is_fresh(h, now_ms) ==> !filter.motion && !filter.clicks
            &&& !capture && !key_is_fresh(h, now_ms) ==> !filter.motion && !filter.clicks
        },
{
}

/// Where nothing is owned elsewhere and no dialog is open, everything that a pointer does reaches the
/// host: motion as it was reported, in the one form or the other; each click once; each wheel turn
/// once for each direction that it has.
pub proof fn lemma_pointers_reach_the_host(
    hid: Option<&HidMouse>,
    capture: bool,
    now_ms: u64,
    routing: Routing,
    event: Event,
    actions: Vec<Action>,
)
    requires
        call_ensures(sdl_filter, (hid, capture, now_ms), routing.filter),
        call_ensures(Routing::route, (&routing, event), actions),
        !routing.dialog_open,
        hid matches Some(h) ==> !key_is_fresh(h, now_ms) && !(capture && h.has_mouse),
    ensures
        event matches Event::Motion { x, y, xrel, yrel } ==> {
            &&& actions@.contains(Action::MoveRelative { dx: xrel, dy: yrel }) <==> routing.relative
            &&& actions@.contains(Action::MoveAbsolute { x, y }) <==> !routing.relative
            &&& actions@.contains(Action::GestureRelative { dx: xrel, dy: yrel })
                <==> routing.relative
            &&& actions@.contains(Action::GestureAbsolute { x, y }) <==> !routing.relative
        },
        event matches Event::Button { button, pressed, x, y } ==> {
            &&& actions@.len() == 1
            &&& actions@[0] == (if button != MouseButton::Left || !routing.gestures {
                Action::Button { button, pressed }
            } else if pressed {
                Action::OkPress { x, y }
            } else {
                Action::OkRelease
            })
        },
        event matches Event::Wheel { x, y } ==> {
            &&& actions@.contains(Action::Scroll { amount: y, horizontal: false }) <==> y != 0
            &&& actions@.contains(Action::Scroll { amount: x, horizontal: true }) <==> x != 0
            &&& forall|i: int|
                0 <= i < actions@.len() ==> (#[trigger] actions@[i] matches Action::Scroll {
                    amount,
                    horizontal,
                } && amount != 0)
            &&& x != 0 && y != 0 ==> actions@.len() == 2 && actions@[0] == (Action::Scroll {
                amount: y,
                horizontal: false,
            })
        },
        event is Motion || event is Button ==> exists|i: int|
            0 <= i < actions@.len() && (#[trigger] actions@[i]).reaches_host(),
{
    lemma_events_pass_unless_owned(hid, capture, now_ms, routing.filter);
    match event {
        Event::Motion { x, y, xrel, yrel } => {
            let n = actions@.len() as int;
            let hidden = cursor_actions(routing.cursor.hide_again());
            assert(actions@ =~= hidden + sent_motion(x, y, xrel, yrel, routing.relative));
            assert(forall|i: int| 0 <= i < hidden.len() ==> #[trigger] hidden[i] is Cursor);
            assert(actions@[n - 1].reaches_host());
            assert(actions@[n - 2].reaches_host());
            assert(forall|i: int| 0 <= i < n - 2 ==> #[trigger] actions@[i] == hidden[i]);
        },
        Event::Wheel { x, y } => {
            if y != 0 {
                assert(actions@[0] == (Action::Scroll { amount: y, horizontal: false }));
            }
            if x != 0 {
                assert(actions@[actions@.len() - 1] == (Action::Scroll {
                    amount: x,
                    horizontal: true,
                }));
            }
        },
        Event::Button { button, pressed, x, y } => {
            assert(actions@[0].reaches_host());
        },
        _ => {},
    }
}

/// Pointer events that are owned elsewhere leave nothing behind but a pointer that is blanked again.
pub proof fn lemma_owned_pointers_do_nothing(routing: Routing, event: Event, actions: Vec<Action>)
    requires
        call_ensures(Routing::route, (&routing, event), actions),
        !routing.dialog_open,
    ensures
        event is Motion && routing.filter.motion ==> actions@.len() == (if routing.cursor.captured {
            2int
        } else {
            0
        }) && forall|i: int| 0 <= i < actions@.len() ==> #[trigger] actions@[i] is Cursor,
        event is Motion && !routing.filter.motion ==> actions@.len() == (if routing.cursor.captured {
            4int
        } else {
            2
        }),
        (event is Button || event is Wheel) && routing.filter.clicks ==> actions@.len() == 0,
        event is Other ==> actions@.len() == 0,
{
}

/// A key with a scancode is sent as its own press or release, repeated or not, unless read keyboards
/// own the keys; the remote's Red and Back buttons, which have codes of their own and no scancode,
/// are sent whoever owns the keys, but not when they repeat: Red as a click, Back as Escape.
pub proof fn lemma_keys_reach_the_host(
    routing: Routing,
    key: Key,
    repeat: bool,
    down: Vec<Action>,
    up: Vec<Action>,
)
    requires
        call_ensures(Routing::route, (&routing, Event::KeyDown { key, repeat }), down),
        call_ensures(Routing::route, (&routing, Event::KeyUp { key }), up),
        !routing.dialog_open,
    ensures
        key.scancode matches Some(scancode) ==> (!routing.filter.keys ==> {
            &&& forall|ev: Option<InputEvent>| #[trigger]
                call_ensures(key_event, (scancode, true), ev) ==> down@ == (match ev {
                    Some(ev) => seq![Action::Send(ev)],
                    None => seq![],
                })
            &&& key.keycode != Some(2097169i32) ==> forall|ev: Option<InputEvent>| #[trigger]
                call_ensures(key_event, (scancode, false), ev) ==> up@ == (match ev {
                    Some(ev) => seq![Action::Send(ev)],
                    None => seq![],
                })
        }),
        key.scancode is Some && routing.filter.keys && key.keycode != Some(2097169i32) ==> down@.len()
            == 0 && up@.len() == 0,
        key.keycode == Some(2097169i32) ==> up@ == seq![Action::Red { pressed: false }],
        key.keycode == Some(2097169i32) && (key.scancode is None || routing.filter.keys) ==> down@
            == (if repeat {
            seq![]
        } else {
            seq![Action::Red { pressed: true }]
        }),
        key.keycode == Some(2097155i32) && key.scancode is None ==> {
            &&& forall|ev: Option<InputEvent>| #[trigger]
                call_ensures(key_event, (Scancode::Escape, false), ev) ==> ev is Some && up@ == seq![
                    Action::Send(ev->0),
                ]
            &&& !repeat ==> forall|ev: Option<InputEvent>| #[trigger]
                call_ensures(key_event, (Scancode::Escape, true), ev) ==> ev is Some && down@
                    == seq![Action::Send(ev->0)]
            &&& repeat ==> down@.len() == 0
        },
        key.scancode is None && key.keycode != Some(2097169i32) && key.keycode != Some(2097155i32)
            ==> down@.len() == 0 && up@.len() == 0,
{
}

/// A pad's buttons and axes go to the host as they are, and its buttons to the shortcuts first.
pub proof fn lemma_pads_reach_the_host(routing: Routing, event: Event, actions: Vec<Action>)
    requires
        call_ensures(Routing::route, (&routing, event), actions),
        !routing.dialog_open,
    ensures
        event matches Event::PadButton { pad_button, pressed } ==> actions@ == seq![
            Action::SetChord { pad_button, pressed },
            Action::PadButton { pad_button, pressed },
        ],
        event matches Event::PadAxis { axis, value } ==> actions@ == seq![
            Action::PadAxis { axis, value },
        ],
{
}

/// Whatever else is open: a window that closes ends the program once the host is told, a pad that
/// goes is closed and its shortcuts are forgotten, and a pad that comes is opened unless one is open.
/// Everything else goes to the dialog while it is open, and only then.
pub proof fn lemma_windows_and_pads_come_first(routing: Routing, event: Event, actions: Vec<Action>)
    requires
        call_ensures(Routing::route, (&routing, event), actions),
    ensures
        event is Quit <==> actions@ == seq![Action::Disconnect, Action::Leave(Outcome::Quit)],
        event is PadRemoved <==> actions@ == seq![Action::ClosePad, Action::ClearChord],
        event matches Event::PadAdded { which } ==> (!routing.pad ==> actions@ == seq![
            Action::OpenPad { which },
        ]),
        event is PadAdded && routing.pad && !routing.dialog_open ==> actions@.len() == 0,
        routing.dialog_open && !(event is Quit) && !(event is PadRemoved) && !(event is PadAdded
            && !routing.pad) <==> actions@ == seq![Action::AskDialog],
{
    let quit = seq![Action::Disconnect, Action::Leave(Outcome::Quit)];
    let gone = seq![Action::ClosePad, Action::ClearChord];
    let ask = seq![Action::AskDialog];
    assert(quit[0] == Action::Disconnect && gone[0] == Action::ClosePad && ask[0]
        == Action::AskDialog);
    assert(quit.len() == 2 && gone.len() == 2 && ask.len() == 1);
    if actions@.len() > 0 {
        let first = actions@[0];
        assert(first is Disconnect ==> event is Quit);
        assert(first is ClosePad ==> event is PadRemoved);
    }
}

} // verus!

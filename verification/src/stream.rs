//! A running stream: what one pass of its loop does about events, polled keys, the disconnect dialog
//! and the overlay.
use vstd::prelude::*;
use crate::burst::Effect;
use crate::cursor::{Command, Cursor, Sentinel};
use crate::edge::Edge;
use crate::evmouse::{forwarded, HidMouse, Presence};
use crate::overlay::{LogOverlayState, Overlay, Plan, Visible};
use crate::route::{Action, Event, Filter, Outcome, Routing};
use crate::stats::Counters;

verus! {

/// What the user chose for the stream.
#[derive(Clone, Copy, Debug, PartialEq, Eq, Structural)]
pub struct Settings {
    /// The pointer belongs to the host, and the local one is hidden.
    pub cursor_capture: bool,
    /// The remote's OK button carries gestures.
    pub cursor_gestures: bool,
    /// The stream starts with the statistics on.
    pub stats_overlay: bool,
}

/// The polled keys, `true` where a key is down.
#[derive(Clone, Copy, Debug, PartialEq, Eq, Structural)]
pub struct Keys {
    /// A held Back button.
    pub exit: bool,
    pub home: bool,
    pub green: bool,
    pub yellow: bool,
    pub blue: bool,
}

/// What one pass polls.
#[derive(Clone, Copy, Debug, PartialEq, Eq, Structural)]
pub struct Polled {
    pub keys: Keys,
    /// A shortcut of the pad was held long enough.
    pub chord: bool,
    /// Frames are paced.
    pub pacing: bool,
    /// The picture is frozen until the stream finds an anchor again.
    pub holding: bool,
    /// Devices are read past SDL.
    pub reader: bool,
}

/// A short message.
#[derive(Clone, Copy, Debug, PartialEq, Eq, Structural)]
pub enum Toast {
    PacingOn,
    PacingOff,
    ConnectionIssues,
}

impl Toast {
    /// What it says.
    pub open spec fn says(self) -> Seq<char> {
        match self {
            Toast::PacingOn => "Frame pacing enabled"@,
            Toast::PacingOff => "Frame pacing disabled"@,
            Toast::ConnectionIssues => "Connection issues — recovering..."@,
        }
    }

    /// What it says.
    pub fn text(self) -> (text: &'static str)
        ensures
            text@ == self.says(),
    {
        match self {
            Toast::PacingOn => "Frame pacing enabled",
            Toast::PacingOff => "Frame pacing disabled",
            Toast::ConnectionIssues => "Connection issues — recovering...",
        }
    }
}

/// Something to do about what was polled.
#[derive(Clone, Copy, Debug, PartialEq, Eq, Structural)]
pub enum Control {
    /// Release every button that the client holds down for the remote.
    ReleaseButtons,
    /// Let a held OK button notice how long it is held.
    TickButtons,
    ClearChord,
    /// Open the disconnect dialog, with Cancel focused.
    OpenDialog,
    LaunchHome,
    /// Fade the statistics in or out.
    FadeStats { show: bool },
    /// The log overlay is in this state now.
    Log(LogOverlayState),
    FadeLog { show: bool },
    Pacing(bool),
    Show(Toast),
    Cursor(Command),
    /// Hold the read devices and forward them, or give them back.
    HidActive(bool),
}

/// How the dialog answered an event.
#[derive(Clone, Copy, Debug, PartialEq, Eq, Structural)]
pub enum Answer {
    Confirmed,
    Dismissed,
    Navigated,
}

/// What the dialog needs in this pass.
#[derive(Clone, Copy, Debug, PartialEq, Eq, Structural)]
pub enum DialogStep {
    Nothing,
    /// Draw a frame of it.
    Draw,
    /// It is gone: wipe its last frame, which would stick over the video otherwise.
    Wipe,
    /// It is gone, and so is the stream.
    Leave(Outcome),
}

/// A session that is over.
pub struct Ended {
    pub outcome: Outcome,
    /// What the menu shows about it.
    pub toast: Option<String>,
}

/// A running stream.
#[derive(Clone, Copy, Debug, PartialEq, Eq, Structural)]
pub struct Stream {
    pub settings: Settings,
    pub cursor: Cursor,
    /// A pad is open.
    pub pad: bool,
    /// A mouse that is read past SDL was found.
    pub mouse_seen: bool,
    pub dialog_open: bool,
    pub exit: Edge,
    pub home: Edge,
    pub green: Edge,
    pub yellow: Edge,
    pub blue: Edge,
    pub holding: Edge,
    pub stats_on: bool,
    pub log: LogOverlayState,
    pub overlay: Overlay,
    pub counters: Counters,
    /// How the stream ends once the dialog has faded out.
    pub leaving: Option<Outcome>,
    /// The user asked to disconnect.
    pub by_client: bool,
}

/// A command for the local pointer, as something to do about what was polled.
pub open spec fn cursor_controls(commands: Seq<Command>) -> Seq<Control> {
    commands.map_values(|c: Command| Control::Cursor(c))
}

fn push_commands(controls: &mut Vec<Control>, commands: &Vec<Command>)
    ensures
        final(controls)@ == old(controls)@ + cursor_controls(commands@),
{
    let mut i: usize = 0;
    while i < commands.len()
        invariant
            i <= commands@.len(),
            controls@ == old(controls)@ + cursor_controls(commands@.take(i as int)),
        decreases commands@.len() - i,
    {
        controls.push(Control::Cursor(commands[i]));
        assert(controls@ =~= old(controls)@ + cursor_controls(commands@.take(i + 1)));
        i = i + 1;
    }
    assert(commands@.take(i as int) =~= commands@);
}

impl Stream {
    /// A stream leaves by itself only once its user asked for it; the pointer is captured only where
    /// the settings say so; and SDL is not asked for relative mode once a mouse is read past it.
    pub open spec fn wf(self) -> bool {
        &&& self.leaving is Some ==> self.by_client && self.leaving == Some(Outcome::ReturnToMenu)
        &&& self.cursor.captured ==> self.settings.cursor_capture
        &&& self.mouse_seen ==> self.settings.cursor_capture
        &&& self.mouse_seen ==> !self.cursor.sdl_relative
    }

    /// A stream that starts now. Keys that are down already are no presses. `sentinels` is whether
    /// the compositor's pointer can be blanked. `mouse_expected` is whether a mouse is attached that
    /// the first look for nodes should find: where the pointer is to be captured, relative mode is
    /// then off before that. The commands put the local pointer into the state that the settings ask for.
    pub fn begin(
        settings: Settings,
        sentinels: bool,
        pad: bool,
        mouse_expected: bool,
        keys: Keys,
        log: LogOverlayState,
        now_ns: u64,
    ) -> (begun: (Stream, Vec<Command>))
        ensures
            begun.0.wf(),
            begun.0.settings == settings,
            begun.0.cursor == (Cursor {
                captured: settings.cursor_capture,
                sdl_relative: !(mouse_expected && settings.cursor_capture),
                sentinels,
            }),
            begun.1@ == (if mouse_expected && settings.cursor_capture {
                Cursor { captured: false, sdl_relative: false, sentinels }.commands()
            } else {
                seq![]
            }) + begun.0.cursor.commands(),
            mouse_expected ==> !begun.1@.contains(Command::RelativeMode(true)),
            begun.0.pad == pad,
            !begun.0.mouse_seen,
            !begun.0.dialog_open,
            begun.0.exit.held == keys.exit,
            begun.0.home.held == keys.home,
            begun.0.green.held == keys.green,
            begun.0.yellow.held == keys.yellow,
            begun.0.blue.held == keys.blue,
            !begun.0.holding.held,
            begun.0.stats_on == settings.stats_overlay,
            begun.0.log == log,
            begun.0.overlay == (Overlay {
                was_active: false,
                drawn_ns: None,
                stats_built_ns: None,
                stats_at: None,
                log_at: None,
            }),
            begun.0.counters == (Counters { frames: 0, bytes: 0, cpu_ticks: None, at_ns: now_ns }),
            begun.0.leaving is None,
            !begun.0.by_client,
    {
        let mut cursor: Cursor = Cursor::new(sentinels);
        let mut commands: Vec<Command> = Vec::new();
        if mouse_expected && settings.cursor_capture {
            let mut off: Vec<Command> = cursor.disable_sdl_relative();
            commands.append(&mut off);
        }
        let mut first: Vec<Command> = cursor.set_captured(settings.cursor_capture);
        commands.append(&mut first);
        let stream: Stream = Stream {
            settings,
            cursor,
            pad,
            mouse_seen: false,
            dialog_open: false,
            exit: Edge::new(keys.exit),
            home: Edge::new(keys.home),
            green: Edge::new(keys.green),
            yellow: Edge::new(keys.yellow),
            blue: Edge::new(keys.blue),
            holding: Edge::new(false),
            stats_on: settings.stats_overlay,
            log,
            overlay: Overlay::new(),
            counters: Counters::new(now_ns),
            leaving: None,
            by_client: false,
        };
        (stream, commands)
    }

    /// What a pass does when the process was asked to end: it tells the host, and leaves.
    pub fn quit_requested(&self, asked: bool) -> (actions: Vec<Action>)
        ensures
            actions@ == (if asked {
                seq![Action::Disconnect, Action::Leave(Outcome::Quit)]
            } else {
                seq![]
            }),
    {
        let mut actions: Vec<Action> = Vec::new();
        if asked {
            actions.push(Action::Disconnect);
            actions.push(Action::Leave(Outcome::Quit));
        }
        assert(actions@ =~= if asked {
            seq![Action::Disconnect, Action::Leave(Outcome::Quit)]
        } else {
            seq![]
        });
        actions
    }

    /// Takes in the keys that are down and the time as the loop starts, which may be a while after
    /// the stream began: a key pressed in between and still held is no press.
    pub fn enter_loop(&mut self, keys: Keys, now_ns: u64)
        ensures
            *final(self) == (Stream {
                exit: Edge { held: keys.exit },
                home: Edge { held: keys.home },
                green: Edge { held: keys.green },
                yellow: Edge { held: keys.yellow },
                blue: Edge { held: keys.blue },
                counters: Counters { at_ns: now_ns, ..old(self).counters },
                ..*old(self)
            }),
            old(self).wf() ==> final(self).wf(),
    {
        self.exit = Edge::new(keys.exit);
        self.home = Edge::new(keys.home);
        self.green = Edge::new(keys.green);
        self.yellow = Edge::new(keys.yellow);
        self.blue = Edge::new(keys.blue);
        self.counters.at_ns = now_ns;
    }

    /// Whether a mouse that is read past SDL is news to a captured stream.
    pub open spec fn finds_mouse(self, known: Presence) -> bool {
        self.settings.cursor_capture && !self.mouse_seen && known == Presence::Present
    }

    /// Whether a captured stream that expected a mouse has to do with the remote alone.
    pub open spec fn misses_mouse(self, known: Presence) -> bool {
        self.settings.cursor_capture && !self.mouse_seen && !self.cursor.sdl_relative && known
            == Presence::Absent
    }

    /// The stream once it knows this of mice.
    pub open spec fn noticed(self, known: Presence) -> Stream {
        if self.finds_mouse(known) {
            Stream {
                mouse_seen: true,
                cursor: Cursor { sdl_relative: false, ..self.cursor },
                ..self
            }
        } else if self.misses_mouse(known) {
            Stream { cursor: Cursor { sdl_relative: true, ..self.cursor }, ..self }
        } else {
            self
        }
    }

    /// Notices a mouse that is read past SDL, or that none showed up. From the first mouse on SDL's
    /// relative mode is off, and the pointer is blanked again, since only now is the mouse really
    /// held. Where a mouse was expected and the look for nodes found none, SDL's relative mode comes
    /// on, since the remote needs deltas that do not stop at the edge of the screen.
    pub fn notice_mouse(&mut self, known: Presence) -> (commands: Vec<Command>)
        ensures
            *final(self) == old(self).noticed(known),
            commands@ == (if old(self).finds_mouse(known) {
                final(self).cursor.commands() + final(self).cursor.hide_again()
            } else if old(self).misses_mouse(known) {
                final(self).cursor.commands()
            } else {
                seq![]
            }),
            old(self).wf() ==> final(self).wf(),
    {
        if self.settings.cursor_capture && !self.mouse_seen {
            if known == Presence::Present {
                self.mouse_seen = true;
                let mut commands: Vec<Command> = self.cursor.disable_sdl_relative();
                let mut again: Vec<Command> = self.cursor.reassert_hidden();
                commands.append(&mut again);
                return commands;
            }
            if known == Presence::Absent && !self.cursor.sdl_relative {
                return self.cursor.enable_sdl_relative();
            }
        }
        let none: Vec<Command> = Vec::new();
        assert(none@ =~= seq![]);
        none
    }

    /// What the routing of events depends on now. Motion is relative only where SDL was asked for
    /// relative mode, which is for the remote alone: else SDL reports coordinates.
    pub open spec fn routing_spec(self, filter: Filter) -> Routing {
        Routing {
            pad: self.pad,
            dialog_open: self.dialog_open,
            gestures: self.settings.cursor_gestures,
            relative: self.settings.cursor_capture && self.cursor.sdl_relative,
            cursor: self.cursor,
            filter,
        }
    }

    /// What to do about an event of the window.
    pub fn route(&mut self, event: Event, filter: Filter) -> (actions: Vec<Action>)
        ensures
            actions@ == old(self).routing_spec(filter).actions(event),
            *final(self) == (Stream {
                pad: old(self).pad && !(event is PadRemoved),
                ..*old(self)
            }),
            old(self).wf() ==> final(self).wf(),
    {
        let routing: Routing = Routing {
            pad: self.pad,
            dialog_open: self.dialog_open,
            gestures: self.settings.cursor_gestures,
            relative: self.settings.cursor_capture && self.cursor.sdl_relative,
            cursor: self.cursor,
            filter,
        };
        if let Event::PadRemoved = event {
            self.pad = false;
        }
        routing.route(event)
    }

    /// Takes in whether a pad could be opened.
    pub fn pad_opened(&mut self, opened: bool)
        ensures
            *final(self) == (Stream { pad: old(self).pad || opened, ..*old(self) }),
            old(self).wf() ==> final(self).wf(),
    {
        self.pad = self.pad || opened;
    }

    /// The stream after the dialog answered.
    pub open spec fn answered(self, answer: Option<Answer>) -> Stream {
        match answer {
            Some(Answer::Confirmed) => Stream {
                dialog_open: false,
                by_client: true,
                leaving: Some(Outcome::ReturnToMenu),
                ..self
            },
            Some(Answer::Dismissed) => Stream {
                dialog_open: false,
                overlay: Overlay { drawn_ns: None, ..self.overlay },
                ..self
            },
            _ => self,
        }
    }

    /// Takes in how the dialog answered an event. Where it says so, the host is told that the client
    /// leaves and the dialog is to be dismissed; the stream ends once it has faded out.
    pub fn answer(&mut self, answer: Option<Answer>) -> (disconnect: bool)
        ensures
            *final(self) == old(self).answered(answer),
            disconnect == (answer == Some(Answer::Confirmed)),
            old(self).wf() ==> final(self).wf(),
    {
        match answer {
            Some(Answer::Confirmed) => {
                self.by_client = true;
                self.dialog_open = false;
                self.leaving = Some(Outcome::ReturnToMenu);
                true
            },
            Some(Answer::Dismissed) => {
                self.dialog_open = false;
                self.overlay.refresh();
                false
            },
            Some(Answer::Navigated) => false,
            None => false,
        }
    }

    /// Whether the pad's shortcut opens the dialog.
    pub open spec fn chord_opens(self, p: Polled) -> bool {
        !self.dialog_open && p.chord
    }

    /// Whether a held Back button opens the dialog.
    pub open spec fn exit_opens(self, p: Polled) -> bool {
        !self.dialog_open && !p.chord && self.exit.presses(p.keys.exit)
    }

    /// Whether the dialog is open once the shortcuts had their say.
    pub open spec fn opened(self, p: Polled) -> bool {
        self.dialog_open || p.chord || self.exit.presses(p.keys.exit)
    }

    /// A coloured button is down and not swallowed by the dialog.
    pub open spec fn heard(self, p: Polled, down: bool) -> bool {
        down && !self.opened(p)
    }

    /// Green switches the statistics on or off.
    pub open spec fn toggles_stats(self, p: Polled) -> bool {
        self.green.presses(self.heard(p, p.keys.green))
    }

    /// Yellow moves the log overlay on.
    pub open spec fn cycles_log(self, p: Polled) -> bool {
        self.yellow.presses(self.heard(p, p.keys.yellow))
    }

    /// Blue switches the pacing of frames on or off.
    pub open spec fn toggles_pacing(self, p: Polled) -> bool {
        self.blue.presses(self.heard(p, p.keys.blue))
    }

    /// The pointer is captured while the settings say so and no dialog needs it.
    pub open spec fn captures(self, p: Polled) -> bool {
        self.settings.cursor_capture && !self.opened(p)
    }

    /// The stream after a pass has dealt with what it polled.
    pub open spec fn controlled(self, p: Polled) -> Stream {
        Stream {
            dialog_open: self.opened(p),
            exit: Edge { held: p.keys.exit },
            home: Edge { held: p.keys.home },
            green: Edge { held: self.heard(p, p.keys.green) },
            yellow: Edge { held: self.heard(p, p.keys.yellow) },
            blue: Edge { held: self.heard(p, p.keys.blue) },
            holding: Edge { held: p.holding },
            stats_on: self.stats_on != self.toggles_stats(p),
            log: if self.cycles_log(p) {
                self.log.next()
            } else {
                self.log
            },
            overlay: self.overlay.refreshed(
                self.toggles_stats(p) || self.cycles_log(p) || self.toggles_pacing(p)
                    || self.holding.presses(p.holding),
            ),
            cursor: Cursor { captured: self.captures(p), ..self.cursor },
            ..self
        }
    }

    /// What is done about the buttons that the client holds, the shortcuts and the Home button.
    pub open spec fn shortcut_controls(self, p: Polled) -> Seq<Control> {
        seq![
            if self.dialog_open {
                Control::ReleaseButtons
            } else {
                Control::TickButtons
            },
        ] + (if self.chord_opens(p) {
            seq![Control::ClearChord, Control::OpenDialog]
        } else if self.exit_opens(p) {
            seq![Control::OpenDialog]
        } else {
            seq![]
        }) + (if self.home.presses(p.keys.home) {
            seq![Control::LaunchHome]
        } else {
            seq![]
        })
    }

    /// What is done about the statistics.
    pub open spec fn stats_controls(self, p: Polled) -> Seq<Control> {
        if self.toggles_stats(p) {
            seq![Control::FadeStats { show: !self.stats_on }]
        } else {
            seq![]
        }
    }

    /// What is done about the log: it fades in as it goes on and out as it goes off.
    pub open spec fn log_controls(self, p: Polled) -> Seq<Control> {
        if !self.cycles_log(p) {
            seq![]
        } else {
            seq![Control::Log(self.log.next())] + (if self.log == LogOverlayState::Off {
                seq![Control::FadeLog { show: true }]
            } else if self.log.next() == LogOverlayState::Off {
                seq![Control::FadeLog { show: false }]
            } else {
                seq![]
            })
        }
    }

    /// What is done about pacing and about trouble with the connection.
    pub open spec fn message_controls(self, p: Polled) -> Seq<Control> {
        (if !self.toggles_pacing(p) {
            seq![]
        } else if p.pacing {
            seq![Control::Pacing(false), Control::Show(Toast::PacingOff)]
        } else {
            seq![Control::Pacing(true), Control::Show(Toast::PacingOn)]
        }) + (if self.holding.presses(p.holding) {
            seq![Control::Show(Toast::ConnectionIssues)]
        } else {
            seq![]
        })
    }

    /// What is done about the pointer and the read devices: the dialog needs the pointer, and no
    /// device is forwarded past it.
    pub open spec fn pointer_controls(self, p: Polled) -> Seq<Control> {
        (if self.captures(p) != self.cursor.captured {
            cursor_controls(Cursor { captured: self.captures(p), ..self.cursor }.commands())
        } else {
            seq![]
        }) + (if p.reader {
            seq![Control::HidActive(!self.opened(p))]
        } else {
            seq![]
        })
    }

    /// What a pass does about what it polled.
    pub open spec fn controls(self, p: Polled) -> Seq<Control> {
        self.shortcut_controls(p) + self.stats_controls(p) + self.log_controls(p)
            + self.message_controls(p) + self.pointer_controls(p)
    }

    /// The stream once the shortcuts and the Home button had their say.
    #[verifier::opaque]
    spec fn after_shortcuts(self, p: Polled) -> Stream {
        Stream {
            dialog_open: self.opened(p),
            exit: Edge { held: p.keys.exit },
            home: Edge { held: p.keys.home },
            ..self
        }
    }

    /// The stream once the Green button had its say.
    #[verifier::opaque]
    spec fn after_stats_key(self, p: Polled) -> Stream {
        Stream {
            green: Edge { held: self.heard(p, p.keys.green) },
            stats_on: self.stats_on != self.toggles_stats(p),
            overlay: self.overlay.refreshed(self.toggles_stats(p)),
            ..self
        }
    }

    /// The stream once the Yellow button had its say.
    #[verifier::opaque]
    spec fn after_log_key(self, p: Polled) -> Stream {
        Stream {
            yellow: Edge { held: self.heard(p, p.keys.yellow) },
            log: if self.cycles_log(p) {
                self.log.next()
            } else {
                self.log
            },
            overlay: self.overlay.refreshed(self.cycles_log(p)),
            ..self
        }
    }

    /// The stream once the Blue button and the connection had their say.
    #[verifier::opaque]
    spec fn after_messages(self, p: Polled) -> Stream {
        Stream {
            blue: Edge { held: self.heard(p, p.keys.blue) },
            holding: Edge { held: p.holding },
            overlay: self.overlay.refreshed(
                self.toggles_pacing(p) || self.holding.presses(p.holding),
            ),
            ..self
        }
    }

    /// The stream once the pointer is where it belongs.
    #[verifier::opaque]
    spec fn after_pointer(self, p: Polled) -> Stream {
        Stream { cursor: Cursor { captured: self.captures(p), ..self.cursor }, ..self }
    }

    /// The dialog is open or closed as this pass leaves it.
    #[verifier::opaque]
    spec fn dialog_settled(self, p: Polled) -> bool {
        self.dialog_open == self.opened(p)
    }

    /// Deals with what a pass polled.
    pub fn control(&mut self, p: Polled) -> (controls: Vec<Control>)
        ensures
            *final(self) == old(self).controlled(p),
            controls@ == old(self).controls(p),
            old(self).wf() ==> final(self).wf(),
    {
        let mut controls: Vec<Control> = Vec::new();
        proof {
            lemma_parts_add_up(*self, p, controls@);
        }
        self.take_shortcuts(p, &mut controls);
        self.take_stats_key(p, &mut controls);
        self.take_log_key(p, &mut controls);
        self.take_messages(p, &mut controls);
        self.share_pointer(p, &mut controls);
        controls
    }

    fn take_shortcuts(&mut self, p: Polled, controls: &mut Vec<Control>)
        ensures
            *final(self) == old(self).after_shortcuts(p),
            final(controls)@ == old(controls)@ + old(self).shortcut_controls(p),
    {
        proof {
            reveal(Stream::after_shortcuts);
        }
        controls.push(
            if self.dialog_open {
                Control::ReleaseButtons
            } else {
                Control::TickButtons
            },
        );
        if !self.dialog_open && p.chord {
            controls.push(Control::ClearChord);
            controls.push(Control::OpenDialog);
            self.dialog_open = true;
        }
        let exit: bool = self.exit.fired(p.keys.exit);
        if exit && !self.dialog_open {
            controls.push(Control::OpenDialog);
            self.dialog_open = true;
        }
        if self.home.fired(p.keys.home) {
            controls.push(Control::LaunchHome);
        }
        assert(controls@ =~= old(controls)@ + old(self).shortcut_controls(p));
    }

    fn take_stats_key(&mut self, p: Polled, controls: &mut Vec<Control>)
        requires
            old(self).dialog_settled(p),
        ensures
            *final(self) == old(self).after_stats_key(p),
            final(controls)@ == old(controls)@ + old(self).stats_controls(p),
    {
        proof {
            reveal(Stream::after_stats_key);
            reveal(Stream::dialog_settled);
        }
        if self.green.fired(!self.dialog_open && p.keys.green) {
            self.stats_on = !self.stats_on;
            self.overlay.refresh();
            controls.push(Control::FadeStats { show: self.stats_on });
        }
        assert(controls@ =~= old(controls)@ + old(self).stats_controls(p));
    }

    fn take_log_key(&mut self, p: Polled, controls: &mut Vec<Control>)
        requires
            old(self).dialog_settled(p),
        ensures
            *final(self) == old(self).after_log_key(p),
            final(controls)@ == old(controls)@ + old(self).log_controls(p),
    {
        proof {
            reveal(Stream::after_log_key);
            reveal(Stream::dialog_settled);
        }
        if self.yellow.fired(!self.dialog_open && p.keys.yellow) {
            let was_on: bool = self.log.is_on();
            self.log = self.log.cycle();
            let now_on: bool = self.log.is_on();
            self.overlay.refresh();
            controls.push(Control::Log(self.log));
            if now_on && !was_on {
                controls.push(Control::FadeLog { show: true });
            } else if was_on && !now_on {
                controls.push(Control::FadeLog { show: false });
            }
        }
        assert(controls@ =~= old(controls)@ + old(self).log_controls(p));
    }

    fn take_messages(&mut self, p: Polled, controls: &mut Vec<Control>)
        requires
            old(self).dialog_settled(p),
        ensures
            *final(self) == old(self).after_messages(p),
            final(controls)@ == old(controls)@ + old(self).message_controls(p),
    {
        proof {
            reveal(Stream::after_messages);
            reveal(Stream::dialog_settled);
        }
        if self.blue.fired(!self.dialog_open && p.keys.blue) {
            let now_on: bool = !p.pacing;
            controls.push(Control::Pacing(now_on));
            controls.push(
                Control::Show(
                    if now_on {
                        Toast::PacingOn
                    } else {
                        Toast::PacingOff
                    },
                ),
            );
            self.overlay.refresh();
        }
        if self.holding.fired(p.holding) {
            controls.push(Control::Show(Toast::ConnectionIssues));
            self.overlay.refresh();
        }
        assert(controls@ =~= old(controls)@ + old(self).message_controls(p));
    }

    fn share_pointer(&mut self, p: Polled, controls: &mut Vec<Control>)
        requires
            old(self).dialog_settled(p),
        ensures
            *final(self) == old(self).after_pointer(p),
            final(controls)@ == old(controls)@ + old(self).pointer_controls(p),
    {
        proof {
            reveal(Stream::after_pointer);
            reveal(Stream::dialog_settled);
        }
        let want: bool = self.settings.cursor_capture && !self.dialog_open;
        if want != self.cursor.is_captured() {
            let commands: Vec<Command> = self.cursor.set_captured(want);
            push_commands(controls, &commands);
        }
        if p.reader {
            controls.push(Control::HidActive(!self.dialog_open));
        }
        assert(controls@ =~= old(controls)@ + old(self).pointer_controls(p));
    }

    /// What the dialog needs.
    pub open spec fn dialog_step(self, drawn: bool, faded: bool) -> DialogStep {
        if drawn {
            DialogStep::Draw
        } else if !faded {
            DialogStep::Nothing
        } else if self.leaving is Some {
            DialogStep::Leave(self.leaving->0)
        } else {
            DialogStep::Wipe
        }
    }

    /// What the dialog needs in this pass: `drawn` while it is to be seen, which goes on for a while
    /// after it was closed, and `faded` in the pass in which that is over.
    pub fn step_dialog(&mut self, drawn: bool, faded: bool) -> (step: DialogStep)
        ensures
            step == old(self).dialog_step(drawn, faded),
            *final(self) == (Stream {
                leaving: if step is Leave {
                    None
                } else {
                    old(self).leaving
                },
                ..*old(self)
            }),
            old(self).wf() ==> final(self).wf(),
    {
        if drawn {
            return DialogStep::Draw;
        }
        if !faded {
            return DialogStep::Nothing;
        }
        match self.leaving {
            Some(outcome) => {
                self.leaving = None;
                DialogStep::Leave(outcome)
            },
            None => DialogStep::Wipe,
        }
    }

    /// What to do about the overlay in this pass.
    pub fn plan_overlay(&mut self, seen: Visible, now_ns: u64) -> (plan: Plan)
        ensures
            plan == old(self).overlay.planned(seen, old(self).stats_on, now_ns),
            *final(self) == (Stream {
                overlay: old(self).overlay.after(seen, old(self).stats_on, now_ns),
                ..*old(self)
            }),
            old(self).wf() ==> final(self).wf(),
    {
        self.overlay.plan(seen, self.stats_on, now_ns)
    }

    /// What a pass does once the session is over: the stream returns to the menu, which shows
    /// `message` unless the user was the one to end it.
    pub fn session_ended(&self, ended: bool, message: String) -> (end: Option<Ended>)
        ensures
            end is Some <==> ended,
            end matches Some(end) ==> end.outcome == Outcome::ReturnToMenu && end.toast == (
            if self.by_client {
                None
            } else {
                Some(message)
            }),
    {
        if !ended {
            return None;
        }
        if self.by_client {
            Some(Ended { outcome: Outcome::ReturnToMenu, toast: None })
        } else {
            Some(Ended { outcome: Outcome::ReturnToMenu, toast: Some(message) })
        }
    }
}

/// What the shortcuts do to the dialog is all that the later parts see of it.
proof fn lemma_shortcuts_settle(stream: Stream, p: Polled)
    ensures
        ({
            let now = stream.after_shortcuts(p);
            &&& now.dialog_settled(p)
            &&& now.opened(p) == stream.opened(p)
            &&& now.stats_controls(p) == stream.stats_controls(p)
            &&& now.after_stats_key(p).dialog_settled(p)
            &&& now.after_stats_key(p).log_controls(p) == stream.log_controls(p)
            &&& now.after_stats_key(p).after_log_key(p).dialog_settled(p)
        }),
{
    reveal(Stream::after_shortcuts);
    reveal(Stream::after_stats_key);
    reveal(Stream::after_log_key);
    reveal(Stream::dialog_settled);
}

/// The keys of the overlays leave alone what the messages and the pointer depend on.
proof fn lemma_keys_settle(stream: Stream, p: Polled)
    ensures
        ({
            let now = stream.after_shortcuts(p).after_stats_key(p).after_log_key(p);
            &&& now.message_controls(p) == stream.message_controls(p)
            &&& now.after_messages(p).dialog_settled(p)
            &&& now.after_messages(p).pointer_controls(p) == stream.pointer_controls(p)
        }),
{
    reveal(Stream::after_shortcuts);
    reveal(Stream::after_stats_key);
    reveal(Stream::after_log_key);
    reveal(Stream::after_messages);
    reveal(Stream::dialog_settled);
}

/// Where the first two parts lead.
proof fn lemma_up_to_stats(stream: Stream, p: Polled)
    ensures
        stream.after_shortcuts(p).after_stats_key(p) == (Stream {
            dialog_open: stream.opened(p),
            exit: Edge { held: p.keys.exit },
            home: Edge { held: p.keys.home },
            green: Edge { held: stream.heard(p, p.keys.green) },
            stats_on: stream.stats_on != stream.toggles_stats(p),
            overlay: stream.overlay.refreshed(stream.toggles_stats(p)),
            ..stream
        }),
{
    reveal(Stream::after_shortcuts);
    reveal(Stream::after_stats_key);
}

/// Where the first three parts lead.
proof fn lemma_up_to_log(stream: Stream, p: Polled)
    ensures
        stream.after_shortcuts(p).after_stats_key(p).after_log_key(p) == (Stream {
            dialog_open: stream.opened(p),
            exit: Edge { held: p.keys.exit },
            home: Edge { held: p.keys.home },
            green: Edge { held: stream.heard(p, p.keys.green) },
            stats_on: stream.stats_on != stream.toggles_stats(p),
            yellow: Edge { held: stream.heard(p, p.keys.yellow) },
            log: if stream.cycles_log(p) {
                stream.log.next()
            } else {
                stream.log
            },
            overlay: stream.overlay.refreshed(stream.toggles_stats(p) || stream.cycles_log(p)),
            ..stream
        }),
{
    lemma_up_to_stats(stream, p);
    reveal(Stream::after_log_key);
}

/// The parts of a pass, one after the other, come to the whole pass.
proof fn lemma_parts_reach_the_end(stream: Stream, p: Polled)
    ensures
        stream.after_shortcuts(p).after_stats_key(p).after_log_key(p).after_messages(
            p,
        ).after_pointer(p) == stream.controlled(p),
        stream.wf() ==> stream.controlled(p).wf(),
{
    lemma_up_to_log(stream, p);
    reveal(Stream::after_messages);
    reveal(Stream::after_pointer);
}

/// Each part of a pass does what the pass does as a whole, and nothing stands before the first.
proof fn lemma_parts_add_up(stream: Stream, p: Polled, nothing: Seq<Control>)
    requires
        nothing.len() == 0,
    ensures
        ({
            let a = stream.after_shortcuts(p);
            let b = a.after_stats_key(p);
            let c = b.after_log_key(p);
            let d = c.after_messages(p);
            &&& a.dialog_settled(p) && b.dialog_settled(p)
            &&& c.dialog_settled(p) && d.dialog_settled(p)
            &&& nothing + stream.shortcut_controls(p) + a.stats_controls(p) + b.log_controls(p)
                + c.message_controls(p) + d.pointer_controls(p) == stream.controls(p)
            &&& d.after_pointer(p) == stream.controlled(p)
            &&& stream.wf() ==> stream.controlled(p).wf()
        }),
{
    lemma_shortcuts_settle(stream, p);
    lemma_keys_settle(stream, p);
    lemma_parts_reach_the_end(stream, p);
    assert(nothing + stream.shortcut_controls(p) =~= stream.shortcut_controls(p));
}

/// After each pass the pointer is captured and the read devices are active in step with the dialog:
/// while it is open the user has the pointer, and the host gets nothing.
pub proof fn lemma_dialog_frees_the_pointer(stream: Stream, p: Polled)
    ensures
        stream.controlled(p).cursor.captured == (stream.settings.cursor_capture
            && !stream.controlled(p).dialog_open),
        p.reader ==> stream.controls(p).last() == Control::HidActive(
            !stream.controlled(p).dialog_open,
        ),
{
}

/// What none of the later parts holds stands in the first or nowhere.
proof fn lemma_in_first_part(
    first: Seq<Control>,
    a: Seq<Control>,
    b: Seq<Control>,
    c: Seq<Control>,
    d: Seq<Control>,
    i: int,
)
    requires
        0 <= i < (first + a + b + c + d).len(),
        !a.contains((first + a + b + c + d)[i]),
        !b.contains((first + a + b + c + d)[i]),
        !c.contains((first + a + b + c + d)[i]),
        !d.contains((first + a + b + c + d)[i]),
    ensures
        i < first.len(),
        (first + a + b + c + d)[i] == first[i],
{
    let all = first + a + b + c + d;
    let n1 = first.len() as int;
    let n2 = n1 + a.len();
    let n3 = n2 + b.len();
    let n4 = n3 + c.len();
    if i >= n4 {
        assert(all[i] == d[i - n4]);
    } else if i >= n3 {
        assert(all[i] == c[i - n3]);
    } else if i >= n2 {
        assert(all[i] == b[i - n2]);
    } else if i >= n1 {
        assert(all[i] == a[i - n1]);
    }
}

/// Beside the shortcuts nothing opens the dialog.
proof fn lemma_only_shortcuts_open(stream: Stream, p: Polled)
    ensures
        !stream.stats_controls(p).contains(Control::OpenDialog),
        !stream.log_controls(p).contains(Control::OpenDialog),
        !stream.message_controls(p).contains(Control::OpenDialog),
        !stream.pointer_controls(p).contains(Control::OpenDialog),
{
}

/// A pass opens the dialog at most once, only where it was closed, and it is open afterwards.
pub proof fn lemma_dialog_opens_once(stream: Stream, p: Polled, i: int, j: int)
    requires
        0 <= i < stream.controls(p).len(),
        0 <= j < stream.controls(p).len(),
        stream.controls(p)[i] == Control::OpenDialog,
        stream.controls(p)[j] == Control::OpenDialog,
    ensures
        i == j,
        !stream.dialog_open,
        stream.controlled(p).dialog_open,
{
    let first = stream.shortcut_controls(p);
    let a = stream.stats_controls(p);
    let b = stream.log_controls(p);
    let c = stream.message_controls(p);
    let d = stream.pointer_controls(p);
    lemma_only_shortcuts_open(stream, p);
    lemma_in_first_part(first, a, b, c, d, i);
    lemma_in_first_part(first, a, b, c, d, j);
}

/// A shortcut of the pad is forgotten as it opens the dialog, so it opens it once per hold.
pub proof fn lemma_chord_is_forgotten(stream: Stream, p: Polled)
    requires
        p.chord,
    ensures
        stream.dialog_open || stream.controls(p)[1] == Control::ClearChord,
        stream.controlled(p).dialog_open,
{
}

/// An open dialog keeps the coloured buttons quiet: nothing is toggled under it.
pub proof fn lemma_dialog_keeps_toggles(stream: Stream, p: Polled)
    requires
        stream.dialog_open,
    ensures
        stream.controlled(p).stats_on == stream.stats_on,
        stream.controlled(p).log == stream.log,
        forall|i: int|
            0 <= i < stream.controls(p).len() ==> !((#[trigger] stream.controls(p)[i]) is Pacing)
                && !(stream.controls(p)[i] is FadeStats) && !(stream.controls(p)[i] is FadeLog),
{
}

/// A button that stays down toggles once: a second pass in a row that finds the same keys down, with
/// the dialog as it was, changes neither overlay and shows no message again.
pub proof fn lemma_held_keys_do_nothing_more(stream: Stream, p: Polled)
    requires
        !p.chord,
    ensures
        ({
            let now = stream.controlled(p);
            &&& now.controlled(p) == now
            &&& now.stats_controls(p).len() == 0
            &&& now.log_controls(p).len() == 0
            &&& now.message_controls(p).len() == 0
        }),
{
}

/// A key that was down when the stream began does nothing in the first pass.
pub proof fn lemma_keys_held_from_before_do_nothing(stream: Stream, p: Polled)
    requires
        !stream.dialog_open,
        !p.chord,
        !p.holding,
        stream.exit.held == p.keys.exit,
        stream.home.held == p.keys.home,
        stream.green.held == p.keys.green,
        stream.yellow.held == p.keys.yellow,
        stream.blue.held == p.keys.blue,
    ensures
        stream.shortcut_controls(p) == seq![Control::TickButtons],
        stream.stats_controls(p).len() == 0,
        stream.log_controls(p).len() == 0,
        stream.message_controls(p).len() == 0,
        !stream.controlled(p).dialog_open,
{
    assert(stream.shortcut_controls(p) =~= seq![Control::TickButtons]);
}

/// The buttons that the client holds for the remote are let go in every pass with the dialog open,
/// since no release arrives any more.
pub proof fn lemma_dialog_lets_go_of_buttons(stream: Stream, p: Polled)
    ensures
        stream.controls(p)[0] == (if stream.dialog_open {
            Control::ReleaseButtons
        } else {
            Control::TickButtons
        }),
{
}

/// Asking to disconnect closes the dialog, and the stream ends in the pass in which it has faded
/// out, not before; a dismissed dialog is wiped and the stream goes on.
pub proof fn lemma_leaves_after_the_fade(stream: Stream)
    requires
        stream.wf(),
        stream.leaving is None,
    ensures
        ({
            let asked = stream.answered(Some(Answer::Confirmed));
            &&& !asked.dialog_open
            &&& asked.dialog_step(true, false) == DialogStep::Draw
            &&& asked.dialog_step(false, false) == DialogStep::Nothing
            &&& asked.dialog_step(false, true) == DialogStep::Leave(Outcome::ReturnToMenu)
        }),
        ({
            let kept = stream.answered(Some(Answer::Dismissed));
            &&& !kept.dialog_open
            &&& kept.dialog_step(false, true) == DialogStep::Wipe
            &&& kept.by_client == stream.by_client
        }),
{
}

/// While the dialog is open the devices that are read past SDL reach the host no more than the
/// window does: whatever such a device does, nothing of it is forwarded.
pub proof fn lemma_dialog_silences_read_devices(
    stream: Stream,
    p: Polled,
    hid: HidMouse,
    effect: Effect,
)
    requires
        p.reader,
        stream.controlled(p).dialog_open,
    ensures
        stream.controls(p).last() matches Control::HidActive(active) && forwarded(
            HidMouse { grab: active, ..hid },
            effect,
        ) is None,
{
    lemma_dialog_frees_the_pointer(stream, p);
}

/// Once the user has asked to disconnect, nothing makes the end of the session news again.
pub proof fn lemma_users_own_end_is_no_news(stream: Stream, p: Polled, answer: Option<Answer>)
    ensures
        stream.answered(Some(Answer::Confirmed)).by_client,
        stream.by_client ==> stream.controlled(p).by_client,
        stream.by_client ==> stream.answered(answer).by_client,
        !stream.by_client && stream.answered(answer).by_client ==> answer == Some(
            Answer::Confirmed,
        ),
{
}

/// While no dialog is open after a pass, motion goes to the host as deltas exactly where the pointer
/// was put into relative mode.
pub proof fn lemma_motion_matches_the_mode(stream: Stream, p: Polled, filter: Filter)
    requires
        stream.wf(),
        !stream.controlled(p).dialog_open,
    ensures
        stream.controlled(p).routing_spec(filter).relative == (
        stream.controlled(p).cursor.captured && stream.controlled(p).cursor.sdl_relative),
{
}

proof fn lemma_no_part_warps(stream: Stream, p: Polled)
    requires
        !stream.cursor.sdl_relative,
    ensures
        ({
            let on = Control::Cursor(Command::RelativeMode(true));
            &&& !stream.shortcut_controls(p).contains(on)
            &&& !stream.stats_controls(p).contains(on)
            &&& !stream.log_controls(p).contains(on)
            &&& !stream.message_controls(p).contains(on)
            &&& !stream.pointer_controls(p).contains(on)
        }),
{
    let on = Control::Cursor(Command::RelativeMode(true));
    assert(!stream.pointer_controls(p).contains(on)) by {
        let moved = cursor_controls(stream.controlled(p).cursor.commands());
        assert(moved.len() == 3);
        assert(moved[0] != on && moved[1] != on && moved[2] != on);
    }
}

/// Once a mouse is read past SDL, no pass puts the pointer into relative mode, whose warping would
/// be of no use.
pub proof fn lemma_no_warping_beside_a_read_mouse(stream: Stream, p: Polled, i: int)
    requires
        stream.wf(),
        stream.mouse_seen,
        0 <= i < stream.controls(p).len(),
    ensures
        stream.controls(p)[i] != Control::Cursor(Command::RelativeMode(true)),
        stream.controlled(p).mouse_seen,
{
    lemma_no_warping_while_a_mouse_is_expected(stream, p, i);
}

/// Once SDL is not asked for relative mode, as where a mouse is expected, that stays so until the look
/// for nodes is over without a mouse: neither polled keys nor the dialog nor an unfinished look change
/// it.
pub proof fn lemma_relative_mode_waits_for_the_look(
    stream: Stream,
    p: Polled,
    answer: Option<Answer>,
    known: Presence,
)
    requires
        !stream.cursor.sdl_relative,
    ensures
        !stream.controlled(p).cursor.sdl_relative,
        !stream.answered(answer).cursor.sdl_relative,
        stream.noticed(known).cursor.sdl_relative ==> known == Presence::Absent
            && !stream.mouse_seen,
        stream.noticed(Presence::Unknown) == stream,
{
}

/// Where no mouse shows up, a captured stream ends up with deltas from the remote, whether or not a
/// mouse was expected.
pub proof fn lemma_remote_alone_gets_deltas(stream: Stream, filter: Filter)
    requires
        stream.settings.cursor_capture,
        !stream.mouse_seen,
    ensures
        stream.noticed(Presence::Absent).cursor.sdl_relative,
        stream.noticed(Presence::Absent).routing_spec(filter).relative,
{
}

/// While SDL is not asked for relative mode, no pass puts the pointer into it.
pub proof fn lemma_no_warping_while_a_mouse_is_expected(stream: Stream, p: Polled, i: int)
    requires
        !stream.cursor.sdl_relative,
        0 <= i < stream.controls(p).len(),
    ensures
        stream.controls(p)[i] != Control::Cursor(Command::RelativeMode(true)),
{
    let on = Control::Cursor(Command::RelativeMode(true));
    if stream.controls(p)[i] == on {
        lemma_no_part_warps(stream, p);
        lemma_in_first_part(
            stream.shortcut_controls(p),
            stream.stats_controls(p),
            stream.log_controls(p),
            stream.message_controls(p),
            stream.pointer_controls(p),
            i,
        );
        assert(stream.shortcut_controls(p).contains(on));
    }
}

/// What a pass does stands in one of its parts.
proof fn lemma_said_in_a_part(stream: Stream, p: Polled, c: Control)
    ensures
        stream.controls(p).contains(c) <==> stream.shortcut_controls(p).contains(c)
            || stream.stats_controls(p).contains(c) || stream.log_controls(p).contains(c)
            || stream.message_controls(p).contains(c) || stream.pointer_controls(p).contains(c),
{
    let a = stream.shortcut_controls(p);
    let b = stream.stats_controls(p);
    let d = stream.log_controls(p);
    let e = stream.message_controls(p);
    let f = stream.pointer_controls(p);
    said_in_either(a, b, c);
    said_in_either(a + b, d, c);
    said_in_either(a + b + d, e, c);
    said_in_either(a + b + d + e, f, c);
}

proof fn said_in_either(a: Seq<Control>, b: Seq<Control>, c: Control)
    ensures
        (a + b).contains(c) <==> a.contains(c) || b.contains(c),
{
    let all = a + b;
    if all.contains(c) {
        let i = choose|i: int| 0 <= i < all.len() && all[i] == c;
        if i < a.len() {
            assert(a[i] == c);
        } else {
            assert(b[i - a.len()] == c);
        }
    }
    if a.contains(c) {
        let i = choose|i: int| 0 <= i < a.len() && a[i] == c;
        assert(all[i] == c);
    }
    if b.contains(c) {
        let i = choose|i: int| 0 <= i < b.len() && b[i] == c;
        assert(all[i + a.len()] == c);
    }
}

/// What a list of at most three controls holds.
proof fn lemma_few_controls(a: Control, b: Control, d: Control, c: Control)
    ensures
        !Seq::<Control>::empty().contains(c),
        seq![a].contains(c) <==> c == a,
        seq![a, b].contains(c) <==> c == a || c == b,
        seq![a, b, d].contains(c) <==> c == a || c == b || c == d,
{
    let one = seq![a];
    let two = seq![a, b];
    let three = seq![a, b, d];
    assert(one[0] == a);
    assert(two[0] == a && two[1] == b);
    assert(three[0] == a && three[1] == b && three[2] == d);
}

spec fn in_shortcuts(s: Stream, p: Polled, c: Control) -> bool {
    ||| c == (if s.dialog_open {
        Control::ReleaseButtons
    } else {
        Control::TickButtons
    })
    ||| s.chord_opens(p) && (c == Control::ClearChord || c == Control::OpenDialog)
    ||| s.exit_opens(p) && c == Control::OpenDialog
    ||| s.home.presses(p.keys.home) && c == Control::LaunchHome
}

spec fn in_stats(s: Stream, p: Polled, c: Control) -> bool {
    s.toggles_stats(p) && c == (Control::FadeStats { show: !s.stats_on })
}

spec fn in_log(s: Stream, p: Polled, c: Control) -> bool {
    s.cycles_log(p) && (c == Control::Log(s.log.next()) || (s.log is Off && c == (Control::FadeLog {
        show: true,
    })) || (s.log is Frozen && c == (Control::FadeLog { show: false })))
}

spec fn in_messages(s: Stream, p: Polled, c: Control) -> bool {
    ||| s.toggles_pacing(p) && (c == Control::Pacing(!p.pacing) || c == Control::Show(
        if p.pacing {
            Toast::PacingOff
        } else {
            Toast::PacingOn
        },
    ))
    ||| s.holding.presses(p.holding) && c == Control::Show(Toast::ConnectionIssues)
}

spec fn in_pointer(s: Stream, p: Polled, c: Control) -> bool {
    ||| s.captures(p) != s.cursor.captured && cursor_controls(
        (Cursor { captured: s.captures(p), ..s.cursor }).commands(),
    ).contains(c)
    ||| p.reader && c == Control::HidActive(!s.opened(p))
}

proof fn shortcuts_hold(s: Stream, p: Polled, c: Control)
    ensures
        s.shortcut_controls(p).contains(c) <==> in_shortcuts(s, p, c),
{
    let a = seq![
        if s.dialog_open {
            Control::ReleaseButtons
        } else {
            Control::TickButtons
        },
    ];
    let b = if s.chord_opens(p) {
        seq![Control::ClearChord, Control::OpenDialog]
    } else if s.exit_opens(p) {
        seq![Control::OpenDialog]
    } else {
        seq![]
    };
    let d = if s.home.presses(p.keys.home) {
        seq![Control::LaunchHome]
    } else {
        seq![]
    };
    lemma_few_controls(a[0], a[0], a[0], c);
    lemma_few_controls(Control::ClearChord, Control::OpenDialog, a[0], c);
    lemma_few_controls(Control::OpenDialog, a[0], a[0], c);
    lemma_few_controls(Control::LaunchHome, a[0], a[0], c);
    said_in_either(a, b, c);
    said_in_either(a + b, d, c);
    assert(s.shortcut_controls(p) == a + b + d);
}

proof fn logs_hold(s: Stream, p: Polled, c: Control)
    ensures
        s.log_controls(p).contains(c) <==> in_log(s, p, c),
        s.stats_controls(p).contains(c) <==> in_stats(s, p, c),
{
    let first = Control::Log(s.log.next());
    let on = Control::FadeLog { show: true };
    let off = Control::FadeLog { show: false };
    let stats = Control::FadeStats { show: !s.stats_on };
    lemma_few_controls(first, on, on, c);
    lemma_few_controls(on, on, on, c);
    lemma_few_controls(off, on, on, c);
    lemma_few_controls(stats, on, on, c);
    said_in_either(seq![first], seq![on], c);
    said_in_either(seq![first], seq![off], c);
    said_in_either(seq![first], seq![], c);
}

proof fn messages_hold(s: Stream, p: Polled, c: Control)
    ensures
        s.message_controls(p).contains(c) <==> in_messages(s, p, c),
{
    let a = if !s.toggles_pacing(p) {
        seq![]
    } else if p.pacing {
        seq![Control::Pacing(false), Control::Show(Toast::PacingOff)]
    } else {
        seq![Control::Pacing(true), Control::Show(Toast::PacingOn)]
    };
    let b = if s.holding.presses(p.holding) {
        seq![Control::Show(Toast::ConnectionIssues)]
    } else {
        seq![]
    };
    let any = Control::OpenDialog;
    lemma_few_controls(Control::Pacing(false), Control::Show(Toast::PacingOff), any, c);
    lemma_few_controls(Control::Pacing(true), Control::Show(Toast::PacingOn), any, c);
    lemma_few_controls(Control::Show(Toast::ConnectionIssues), any, any, c);
    said_in_either(a, b, c);
    assert(s.message_controls(p) == a + b);
}

proof fn pointers_hold(s: Stream, p: Polled, c: Control)
    ensures
        s.pointer_controls(p).contains(c) <==> in_pointer(s, p, c),
{
    let a = if s.captures(p) != s.cursor.captured {
        cursor_controls((Cursor { captured: s.captures(p), ..s.cursor }).commands())
    } else {
        seq![]
    };
    let b = if p.reader {
        seq![Control::HidActive(!s.opened(p))]
    } else {
        seq![]
    };
    let any = Control::OpenDialog;
    lemma_few_controls(Control::HidActive(!s.opened(p)), any, any, c);
    said_in_either(a, b, c);
    assert(s.pointer_controls(p) == a + b);
}

/// What a pass does, control by control.
#[verifier::opaque]
spec fn says(s: Stream, p: Polled, c: Control) -> bool {
    s.controls(p).contains(c)
}

proof fn lemma_says(s: Stream, p: Polled, c: Control)
    ensures
        says(s, p, c) <==> in_shortcuts(s, p, c) || in_stats(s, p, c) || in_log(s, p, c)
            || in_messages(s, p, c) || in_pointer(s, p, c),
{
    reveal(says);
    lemma_said_in_a_part(s, p, c);
    shortcuts_hold(s, p, c);
    logs_hold(s, p, c);
    messages_hold(s, p, c);
    pointers_hold(s, p, c);
}

proof fn lemma_says_in(s: Stream, p: Polled, out: Seq<Control>, c: Control)
    requires
        out == s.controls(p),
    ensures
        out.contains(c) <==> says(s, p, c),
{
    reveal(says);
}

proof fn lemma_pointer_command(s: Stream, p: Polled, command: Command)
    ensures
        cursor_controls((Cursor { captured: s.captures(p), ..s.cursor }).commands()).contains(
            Control::Cursor(command),
        ) <==> command == Command::ShowCursor(true) || command == Command::RelativeMode(
            s.captures(p) && s.cursor.sdl_relative,
        ) || command == (if !s.cursor.sentinels {
            Command::ShowCursor(!s.captures(p))
        } else if s.captures(p) {
            Command::SetSentinel(Sentinel::Blank)
        } else {
            Command::SetSentinel(Sentinel::Arrow)
        }),
{
    let now = Cursor { captured: s.captures(p), ..s.cursor };
    let commands = now.commands();
    let moved = cursor_controls(commands);
    let second = if !s.cursor.sentinels {
        Command::ShowCursor(!s.captures(p))
    } else if s.captures(p) {
        Command::SetSentinel(Sentinel::Blank)
    } else {
        Command::SetSentinel(Sentinel::Arrow)
    };
    let third = Command::RelativeMode(s.captures(p) && s.cursor.sdl_relative);
    assert(moved =~= seq![
        Control::Cursor(Command::ShowCursor(true)),
        Control::Cursor(second),
        Control::Cursor(third),
    ]);
    lemma_few_controls(
        Control::Cursor(Command::ShowCursor(true)),
        Control::Cursor(second),
        Control::Cursor(third),
        Control::Cursor(command),
    );
}

proof fn lemma_only_commands_move(s: Stream, p: Polled, c: Control)
    ensures
        !(c is Cursor) ==> !cursor_controls(
            (Cursor { captured: s.captures(p), ..s.cursor }).commands(),
        ).contains(c),
{
}

/// The dialog opens for a shortcut of the pad that was held long enough or for a fresh press of Exit,
/// and stays open; it is opened exactly where it was closed and is open now, and a shortcut is
/// forgotten as it opens it. Buttons are let go while it was open, and ticked otherwise.
pub proof fn lemma_shortcuts_open_the_dialog(stream: &mut Stream, p: Polled, out: Vec<Control>)
    requires
        call_ensures(Stream::control, (stream, p), out),
    ensures
        final(stream).dialog_open <==> old(stream).dialog_open || p.chord || (p.keys.exit && !old(stream).exit.held),
        out@.contains(Control::OpenDialog) <==> final(stream).dialog_open && !old(stream).dialog_open,
        out@.contains(Control::ClearChord) <==> p.chord && !old(stream).dialog_open,
        out@.contains(Control::ReleaseButtons) <==> old(stream).dialog_open,
        out@.contains(Control::TickButtons) <==> !old(stream).dialog_open,
        out@.contains(Control::LaunchHome) <==> p.keys.home && !old(stream).home.held,
        final(stream).exit.held == p.keys.exit,
        final(stream).home.held == p.keys.home,
{
    let s = *old(stream);
    shortcuts_say(s, p);
    lemma_says_in(s, p, out@, Control::OpenDialog);
    lemma_says_in(s, p, out@, Control::ClearChord);
    lemma_says_in(s, p, out@, Control::ReleaseButtons);
    lemma_says_in(s, p, out@, Control::TickButtons);
    lemma_says_in(s, p, out@, Control::LaunchHome);
}

proof fn shortcuts_say(s: Stream, p: Polled)
    ensures
        says(s, p, Control::OpenDialog) <==> s.opened(p) && !s.dialog_open,
        says(s, p, Control::ClearChord) <==> p.chord && !s.dialog_open,
        says(s, p, Control::ReleaseButtons) <==> s.dialog_open,
        says(s, p, Control::TickButtons) <==> !s.dialog_open,
        says(s, p, Control::LaunchHome) <==> p.keys.home && !s.home.held,
{
    lemma_says(s, p, Control::OpenDialog);
    lemma_only_commands_move(s, p, Control::OpenDialog);
    lemma_says(s, p, Control::ClearChord);
    lemma_only_commands_move(s, p, Control::ClearChord);
    lemma_says(s, p, Control::ReleaseButtons);
    lemma_only_commands_move(s, p, Control::ReleaseButtons);
    lemma_says(s, p, Control::TickButtons);
    lemma_only_commands_move(s, p, Control::TickButtons);
    lemma_says(s, p, Control::LaunchHome);
    lemma_only_commands_move(s, p, Control::LaunchHome);
}

/// A fresh press of Green, with no dialog open, switches the statistics and fades them the way they
/// were switched; nothing else does either.
pub proof fn lemma_green_switches_the_statistics(
    stream: &mut Stream,
    p: Polled,
    out: Vec<Control>,
    show: bool,
)
    requires
        call_ensures(Stream::control, (stream, p), out),
    ensures
        ({
            let pressed = p.keys.green && !old(stream).green.held && !final(stream).dialog_open;
            &&& pressed ==> final(stream).stats_on == !old(stream).stats_on
            &&& !pressed ==> final(stream).stats_on == old(stream).stats_on
            &&& out@.contains(Control::FadeStats { show }) <==> pressed && show == final(stream).stats_on
            &&& final(stream).green.held <==> p.keys.green && !final(stream).dialog_open
        }),
{
    let s = *old(stream);
    let c = Control::FadeStats { show };
    lemma_says(s, p, c);
    lemma_only_commands_move(s, p, c);
    lemma_says_in(s, p, out@, c);
}

/// A fresh press of Yellow, with no dialog open, moves the log from off to live, from live to frozen
/// and from frozen to off, and says so; the log fades in as it leaves off and out as it goes back to
/// it.
pub proof fn lemma_yellow_moves_the_log(
    stream: &mut Stream,
    p: Polled,
    out: Vec<Control>,
    state: LogOverlayState,
)
    requires
        call_ensures(Stream::control, (stream, p), out),
    ensures
        ({
            let pressed = p.keys.yellow && !old(stream).yellow.held && !final(stream).dialog_open;
            &&& !pressed ==> final(stream).log == old(stream).log
            &&& pressed && old(stream).log is Off ==> final(stream).log is Live
            &&& pressed && old(stream).log is Live ==> final(stream).log is Frozen
            &&& pressed && old(stream).log is Frozen ==> final(stream).log is Off
            &&& out@.contains(Control::Log(state)) <==> pressed && state == final(stream).log
            &&& out@.contains(Control::FadeLog { show: true }) <==> pressed && old(stream).log is Off
            &&& out@.contains(Control::FadeLog { show: false }) <==> pressed && old(stream).log is Frozen
            &&& final(stream).yellow.held <==> p.keys.yellow && !final(stream).dialog_open
        }),
{
    let s = *old(stream);
    yellow_says(s, p, state);
    lemma_says_in(s, p, out@, Control::Log(state));
    lemma_says_in(s, p, out@, Control::FadeLog { show: true });
    lemma_says_in(s, p, out@, Control::FadeLog { show: false });
}

proof fn yellow_says(s: Stream, p: Polled, state: LogOverlayState)
    ensures
        says(s, p, Control::Log(state)) <==> s.cycles_log(p) && state == s.log.next(),
        says(s, p, Control::FadeLog { show: true }) <==> s.cycles_log(p) && s.log is Off,
        says(s, p, Control::FadeLog { show: false }) <==> s.cycles_log(p) && s.log is Frozen,
{
    lemma_says(s, p, Control::Log(state));
    lemma_only_commands_move(s, p, Control::Log(state));
    lemma_says(s, p, Control::FadeLog { show: true });
    lemma_only_commands_move(s, p, Control::FadeLog { show: true });
    lemma_says(s, p, Control::FadeLog { show: false });
    lemma_only_commands_move(s, p, Control::FadeLog { show: false });
}

/// A fresh press of Blue, with no dialog open, switches pacing to what it was not and shows the
/// message for it; the picture freezing shows its own, whatever is open.
pub proof fn lemma_blue_switches_pacing(
    stream: &mut Stream,
    p: Polled,
    out: Vec<Control>,
    on: bool,
)
    requires
        call_ensures(Stream::control, (stream, p), out),
    ensures
        ({
            let pressed = p.keys.blue && !old(stream).blue.held && !final(stream).dialog_open;
            &&& out@.contains(Control::Pacing(on)) <==> pressed && on != p.pacing
            &&& out@.contains(Control::Show(Toast::PacingOn)) <==> pressed && !p.pacing
            &&& out@.contains(Control::Show(Toast::PacingOff)) <==> pressed && p.pacing
            &&& out@.contains(Control::Show(Toast::ConnectionIssues)) <==> p.holding && !old(stream).holding.held
            &&& final(stream).blue.held <==> p.keys.blue && !final(stream).dialog_open
            &&& final(stream).holding.held == p.holding
        }),
{
    let s = *old(stream);
    blue_says(s, p, on);
    lemma_says_in(s, p, out@, Control::Pacing(on));
    lemma_says_in(s, p, out@, Control::Show(Toast::PacingOn));
    lemma_says_in(s, p, out@, Control::Show(Toast::PacingOff));
    lemma_says_in(s, p, out@, Control::Show(Toast::ConnectionIssues));
}

proof fn blue_says(s: Stream, p: Polled, on: bool)
    ensures
        says(s, p, Control::Pacing(on)) <==> s.toggles_pacing(p) && on != p.pacing,
        says(s, p, Control::Show(Toast::PacingOn)) <==> s.toggles_pacing(p) && !p.pacing,
        says(s, p, Control::Show(Toast::PacingOff)) <==> s.toggles_pacing(p) && p.pacing,
        says(s, p, Control::Show(Toast::ConnectionIssues)) <==> p.holding && !s.holding.held,
{
    lemma_says(s, p, Control::Pacing(on));
    lemma_only_commands_move(s, p, Control::Pacing(on));
    lemma_says(s, p, Control::Show(Toast::PacingOn));
    lemma_only_commands_move(s, p, Control::Show(Toast::PacingOn));
    lemma_says(s, p, Control::Show(Toast::PacingOff));
    lemma_only_commands_move(s, p, Control::Show(Toast::PacingOff));
    lemma_says(s, p, Control::Show(Toast::ConnectionIssues));
    lemma_only_commands_move(s, p, Control::Show(Toast::ConnectionIssues));
}

/// The pointer is captured exactly while the settings say so and no dialog is open, and is asked
/// about exactly where that changed: blank and, where SDL reports, relative as it is captured, the
/// arrow and coordinates as it is given back. Read devices are told in every pass whether they are
/// to be active, which is while no dialog is open.
pub proof fn lemma_the_pointer_goes_with_the_dialog(
    stream: &mut Stream,
    p: Polled,
    out: Vec<Control>,
    on: bool,
)
    requires
        call_ensures(Stream::control, (stream, p), out),
    ensures
        final(stream).cursor.captured <==> old(stream).settings.cursor_capture && !final(stream).dialog_open,
        final(stream).cursor.sdl_relative == old(stream).cursor.sdl_relative,
        final(stream).cursor.sentinels == old(stream).cursor.sentinels,
        ({
            let changed = final(stream).cursor.captured != old(stream).cursor.captured;
            let now = final(stream).cursor;
            &&& out@.contains(Control::Cursor(Command::RelativeMode(on))) <==> changed && on == (
            now.captured && now.sdl_relative)
            &&& out@.contains(Control::Cursor(Command::SetSentinel(Sentinel::Blank))) <==> changed
                && now.captured && now.sentinels
            &&& out@.contains(Control::Cursor(Command::SetSentinel(Sentinel::Arrow))) <==> changed
                && !now.captured && now.sentinels
            &&& out@.contains(Control::Cursor(Command::ShowCursor(true))) <==> changed
            &&& out@.contains(Control::Cursor(Command::ShowCursor(false))) <==> changed
                && now.captured && !now.sentinels
        }),
        out@.contains(Control::HidActive(on)) <==> p.reader && on != final(stream).dialog_open,
{
    let s = *old(stream);
    pointer_says(s, p, Command::RelativeMode(on));
    lemma_says_in(s, p, out@, Control::Cursor(Command::RelativeMode(on)));
    pointer_says(s, p, Command::SetSentinel(Sentinel::Blank));
    lemma_says_in(s, p, out@, Control::Cursor(Command::SetSentinel(Sentinel::Blank)));
    pointer_says(s, p, Command::SetSentinel(Sentinel::Arrow));
    lemma_says_in(s, p, out@, Control::Cursor(Command::SetSentinel(Sentinel::Arrow)));
    pointer_says(s, p, Command::ShowCursor(true));
    lemma_says_in(s, p, out@, Control::Cursor(Command::ShowCursor(true)));
    pointer_says(s, p, Command::ShowCursor(false));
    lemma_says_in(s, p, out@, Control::Cursor(Command::ShowCursor(false)));
    activity_says(s, p, on);
    lemma_says_in(s, p, out@, Control::HidActive(on));
}

proof fn pointer_says(s: Stream, p: Polled, command: Command)
    ensures
        says(s, p, Control::Cursor(command)) <==> s.captures(p) != s.cursor.captured && (command
            == Command::ShowCursor(true) || command == Command::RelativeMode(
            s.captures(p) && s.cursor.sdl_relative,
        ) || command == (if !s.cursor.sentinels {
            Command::ShowCursor(!s.captures(p))
        } else if s.captures(p) {
            Command::SetSentinel(Sentinel::Blank)
        } else {
            Command::SetSentinel(Sentinel::Arrow)
        })),
{
    lemma_says(s, p, Control::Cursor(command));
    lemma_pointer_command(s, p, command);
}

proof fn activity_says(s: Stream, p: Polled, on: bool)
    ensures
        says(s, p, Control::HidActive(on)) <==> p.reader && on != s.opened(p),
{
    lemma_says(s, p, Control::HidActive(on));
    lemma_only_commands_move(s, p, Control::HidActive(on));
}

/// A pass keeps what it does not decide, and makes a frame due at once exactly where it switched or
/// showed something.
pub proof fn lemma_passes_keep_the_rest(stream: &mut Stream, p: Polled, out: Vec<Control>)
    requires
        call_ensures(Stream::control, (stream, p), out),
    ensures
        final(stream).settings == old(stream).settings,
        final(stream).pad == old(stream).pad,
        final(stream).mouse_seen == old(stream).mouse_seen,
        final(stream).counters == old(stream).counters,
        final(stream).leaving == old(stream).leaving,
        final(stream).by_client == old(stream).by_client,
        ({
            let free = !final(stream).dialog_open;
            let news = (p.keys.green && !old(stream).green.held && free) || (p.keys.yellow && !old(stream).yellow.held && free) || (p.keys.blue && !old(stream).blue.held && free) || (p.holding
                && !old(stream).holding.held);
            &&& news ==> final(stream).overlay.drawn_ns is None
            &&& !news ==> final(stream).overlay == old(stream).overlay
        }),
        final(stream).overlay.stats_at == old(stream).overlay.stats_at,
        final(stream).overlay.log_at == old(stream).overlay.log_at,
        final(stream).overlay.was_active == old(stream).overlay.was_active,
        final(stream).overlay.stats_built_ns == old(stream).overlay.stats_built_ns,
{
}

/// A confirmed dialog closes, tells the host and leaves for the menu later; a dismissed one just
/// closes, with a frame due; anything else changes nothing.
pub proof fn lemma_answers_close_the_dialog(
    stream: &mut Stream,
    answer: Option<Answer>,
    disconnect: bool,
)
    requires
        call_ensures(Stream::answer, (stream, answer), disconnect),
    ensures
        disconnect <==> answer == Some(Answer::Confirmed),
        answer == Some(Answer::Confirmed) ==> !final(stream).dialog_open && final(stream).by_client
            && final(stream).leaving == Some(Outcome::ReturnToMenu) && final(stream).overlay == old(stream).overlay,
        answer == Some(Answer::Dismissed) ==> !final(stream).dialog_open && final(stream).by_client
            == old(stream).by_client && final(stream).leaving == old(stream).leaving && final(stream).overlay.drawn_ns is None,
        answer == Some(Answer::Navigated) || answer is None ==> *final(stream) == *old(stream),
        final(stream).cursor == old(stream).cursor && final(stream).stats_on == old(stream).stats_on
            && final(stream).log == old(stream).log && final(stream).pad == old(stream).pad,
{
}

/// A dialog that is to be seen is drawn; one that has just faded ends the stream where it is to be
/// left, once, and is wiped otherwise; and otherwise nothing is done.
pub proof fn lemma_faded_dialogs_leave_or_are_wiped(
    stream: &mut Stream,
    drawn: bool,
    faded: bool,
    step: DialogStep,
)
    requires
        call_ensures(Stream::step_dialog, (stream, drawn, faded), step),
    ensures
        step is Draw <==> drawn,
        step is Nothing <==> !drawn && !faded,
        step is Wipe <==> !drawn && faded && old(stream).leaving is None,
        step is Leave <==> !drawn && faded && old(stream).leaving is Some,
        step matches DialogStep::Leave(outcome) ==> old(stream).leaving == Some(outcome) && final(stream).leaving is None,
        !(step is Leave) ==> *final(stream) == *old(stream),
        final(stream).dialog_open == old(stream).dialog_open && final(stream).by_client == old(stream).by_client,
{
}

/// A mouse that is found turns SDL's relative mode off for good and is told once; one that was
/// expected and is not there turns it on; and nothing is done before the look is over, without
/// capture, or a second time.
pub proof fn lemma_mice_are_noticed_once(
    stream: &mut Stream,
    known: Presence,
    commands: Vec<Command>,
)
    requires
        call_ensures(Stream::notice_mouse, (stream, known), commands),
    ensures
        ({
            let open = old(stream).settings.cursor_capture && !old(stream).mouse_seen;
            &&& open && known is Present ==> final(stream).mouse_seen && !final(stream).cursor.sdl_relative && commands@.contains(Command::RelativeMode(false))
                && !commands@.contains(Command::RelativeMode(true))
            &&& open && known is Absent && !old(stream).cursor.sdl_relative ==> !final(stream).mouse_seen && final(stream).cursor.sdl_relative && commands@.contains(
                Command::RelativeMode(old(stream).cursor.captured),
            )
            &&& !open || known is Unknown || (known is Absent && old(stream).cursor.sdl_relative)
                ==> *final(stream) == *old(stream) && commands@.len() == 0
        }),
        final(stream).cursor.captured == old(stream).cursor.captured,
        final(stream).dialog_open == old(stream).dialog_open,
{
    let now = final(stream).cursor;
    let all = now.commands();
    assert(all.len() == 3 && all[2] == Command::RelativeMode(now.captured && now.sdl_relative));
    if commands@.len() > 0 {
        assert(commands@[2] == all[2]);
    }
}

/// Routing an event closes a pad that went, and changes nothing else; a pad that was opened is there
/// from then on.
pub proof fn lemma_pads_come_and_go(
    stream: &mut Stream,
    event: Event,
    filter: Filter,
    actions: Vec<Action>,
    opened: bool,
)
    ensures
        call_ensures(Stream::route, (stream, event, filter), actions) ==> *final(stream) == (Stream {
            pad: old(stream).pad && !(event is PadRemoved),
            ..*old(stream)
        }),
        call_ensures(Stream::pad_opened, (stream, opened), ()) ==> *final(stream) == (Stream {
            pad: old(stream).pad || opened,
            ..*old(stream)
        }),
{
}

/// Events are routed by the state of the stream: motion as deltas exactly where the pointer is
/// captured and SDL was asked for them.
pub proof fn lemma_streams_route_by_their_state(
    stream: &mut Stream,
    event: Event,
    filter: Filter,
    actions: Vec<Action>,
    routing: Routing,
    routed: Vec<Action>,
)
    requires
        call_ensures(Stream::route, (stream, event, filter), actions),
        call_ensures(Routing::route, (&routing, event), routed),
        routing.pad == old(stream).pad,
        routing.dialog_open == old(stream).dialog_open,
        routing.gestures == old(stream).settings.cursor_gestures,
        routing.relative == (old(stream).settings.cursor_capture && old(stream).cursor.sdl_relative),
        routing.cursor == old(stream).cursor,
        routing.filter == filter,
    ensures
        actions@ == routed@,
{
}

/// A stream starts as its settings say, with the dialog closed, nothing found, nothing drawn and no
/// one leaving; keys that are down are no presses; and the pointer is put into relative mode exactly
/// where it is captured and no mouse is expected.
pub proof fn lemma_streams_start_as_set(
    settings: Settings,
    sentinels: bool,
    pad: bool,
    mouse_expected: bool,
    keys: Keys,
    log: LogOverlayState,
    now_ns: u64,
    begun: (Stream, Vec<Command>),
)
    requires
        call_ensures(
            Stream::begin,
            (settings, sentinels, pad, mouse_expected, keys, log, now_ns),
            begun,
        ),
    ensures
        begun.0.settings == settings && begun.0.pad == pad && begun.0.log == log,
        begun.0.stats_on == settings.stats_overlay,
        !begun.0.dialog_open && !begun.0.mouse_seen && begun.0.leaving is None && !begun.0.by_client,
        begun.0.cursor.captured == settings.cursor_capture,
        begun.0.cursor.sentinels == sentinels,
        begun.0.cursor.sdl_relative <==> !mouse_expected || !settings.cursor_capture,
        begun.0.overlay.drawn_ns is None && !begun.0.overlay.was_active,
        begun.0.overlay.stats_at is None && begun.0.overlay.log_at is None,
        begun.0.overlay.stats_built_ns is None,
        begun.0.counters.at_ns == now_ns && begun.0.counters.frames == 0 && begun.0.counters.bytes
            == 0,
        !begun.0.exit.presses(keys.exit) && !begun.0.home.presses(keys.home),
        !begun.0.green.presses(keys.green) && !begun.0.yellow.presses(keys.yellow),
        !begun.0.blue.presses(keys.blue),
        begun.0.holding.presses(true),
        begun.1@.contains(Command::RelativeMode(true)) <==> settings.cursor_capture
            && !mouse_expected,
        begun.1@.last() == Command::RelativeMode(settings.cursor_capture && !mouse_expected),
        begun.1@.contains(Command::SetSentinel(Sentinel::Blank)) <==> settings.cursor_capture
            && sentinels,
{
    let commands = begun.1@;
    let all = begun.0.cursor.commands();
    let n = commands.len() as int;
    assert(all.len() == 3);
    assert(commands[n - 1] == all[2] && commands[n - 2] == all[1] && commands[n - 3] == all[0]);
    let free = Cursor { captured: false, sdl_relative: false, sentinels }.commands();
    assert(free.len() == 3);
    if n == 6 {
        assert(commands[0] == free[0] && commands[1] == free[1] && commands[2] == free[2]);
    }
}

/// As the loop starts the keys that are down are no presses, counting starts at that time, and the
/// rest stays.
pub proof fn lemma_loops_start_with_the_keys_down(stream: &mut Stream, keys: Keys, now_ns: u64)
    requires
        call_ensures(Stream::enter_loop, (stream, keys, now_ns), ()),
    ensures
        !final(stream).exit.presses(keys.exit) && !final(stream).home.presses(keys.home),
        !final(stream).green.presses(keys.green) && !final(stream).yellow.presses(keys.yellow),
        !final(stream).blue.presses(keys.blue),
        !keys.exit ==> final(stream).exit.presses(true),
        !keys.green ==> final(stream).green.presses(true),
        final(stream).counters.at_ns == now_ns,
        final(stream).counters.frames == old(stream).counters.frames,
        final(stream).cursor == old(stream).cursor && final(stream).dialog_open == old(stream).dialog_open && final(stream).overlay == old(stream).overlay && final(stream).holding
            == old(stream).holding && final(stream).settings == old(stream).settings,
{
}

/// A stream that is asked to end tells the host and leaves the program, and one that is not does
/// nothing; one whose session ended returns to the menu, with the message unless its user ended it.
pub proof fn lemma_streams_end(
    stream: Stream,
    asked: bool,
    actions: Vec<Action>,
    ended: bool,
    message: String,
    end: Option<Ended>,
)
    requires
        call_ensures(Stream::quit_requested, (&stream, asked), actions),
        call_ensures(Stream::session_ended, (&stream, ended, message), end),
    ensures
        !asked ==> actions@.len() == 0,
        asked ==> actions@.len() == 2 && actions@[0] is Disconnect && actions@[1] == Action::Leave(
            Outcome::Quit,
        ),
        end is Some <==> ended,
        end matches Some(e) ==> e.outcome is ReturnToMenu && (stream.by_client ==> e.toast is None)
            && (!stream.by_client ==> e.toast == Some(message)),
{
}

/// The overlay is planned with the statistics as they are switched, and nothing else changes.
pub proof fn lemma_streams_plan_their_overlay(
    stream: &mut Stream,
    seen: Visible,
    now_ns: u64,
    plan: Plan,
)
    requires
        call_ensures(Stream::plan_overlay, (stream, seen, now_ns), plan),
    ensures
        plan == old(stream).overlay.planned(seen, old(stream).stats_on, now_ns),
        *final(stream) == (Stream {
            overlay: old(stream).overlay.after(seen, old(stream).stats_on, now_ns),
            ..*old(stream)
        }),
        plan.rebuild_stats ==> old(stream).stats_on,
{
}

/// What the messages say.
pub proof fn lemma_messages_say_what_happened(toast: Toast, text: &str)
    requires
        call_ensures(Toast::text, (toast,), text),
    ensures
        toast is PacingOn ==> text@ == "Frame pacing enabled"@,
        toast is PacingOff ==> text@ == "Frame pacing disabled"@,
        toast is ConnectionIssues ==> text@ == "Connection issues — recovering..."@,
{
}

} // verus!

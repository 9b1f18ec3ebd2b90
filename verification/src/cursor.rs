//! The local pointer. Two layers can draw one: SDL's own cursor and the compositor's.
//!
//! The compositor takes two hotspots of a cursor image as commands instead of coordinates: one
//! blanks the pointer, the other brings the system arrow back. SDL has to keep its cursor shown, or
//! the hotspots never reach the compositor: hiding SDL's cursor sends a hotspot that means nothing
//! to it, and the arrow stays.
use vstd::prelude::*;

verus! {

/// The hotspot that blanks the compositor's pointer.
pub const HOTSPOT_BLANK: i32 = 254;

/// The hotspot that brings the system arrow back.
pub const HOTSPOT_ARROW: i32 = 255;

/// The side of the image of a sentinel cursor. A hotspot has to lie inside the image.
pub const SENTINEL_SIZE: u32 = 256;

/// A cursor image whose hotspot is a command.
#[derive(Clone, Copy, Debug, PartialEq, Eq, Structural)]
pub enum Sentinel {
    Blank,
    Arrow,
}

impl Sentinel {
    /// The hotspot, the same in both directions.
    pub open spec fn spot(self) -> i32 {
        match self {
            Sentinel::Blank => HOTSPOT_BLANK,
            Sentinel::Arrow => HOTSPOT_ARROW,
        }
    }

    /// The hotspot, the same in both directions.
    pub fn hotspot(self) -> (at: i32)
        ensures
            at == self.spot(),
    {
        match self {
            Sentinel::Blank => HOTSPOT_BLANK,
            Sentinel::Arrow => HOTSPOT_ARROW,
        }
    }
}

/// The pixel formats that a sentinel's image can have.
#[derive(Clone, Copy, Debug, PartialEq, Eq, Structural)]
pub enum PixelFormat {
    Argb8888,
    Rgba32,
}

/// What making the two sentinels is up to.
#[derive(Clone, Copy, Debug, PartialEq, Eq, Structural)]
pub enum Making {
    /// Make a transparent image in this format.
    Surface { sentinel: Sentinel, format: PixelFormat },
    /// Make a cursor of the image.
    Cursor { sentinel: Sentinel },
    /// Both are made.
    Ready,
    /// One could not be made, so there are none.
    Unavailable,
}

impl Making {
    /// The first thing to do.
    pub fn start() -> (making: Making)
        ensures
            making == making_after(Seq::empty()),
    {
        Making::Surface { sentinel: Sentinel::Blank, format: PixelFormat::Argb8888 }
    }

    /// What comes after a step that went well (`ok`) or failed. An image has a second format to
    /// try; nothing else is tried twice.
    pub open spec fn after(self, ok: bool) -> Making {
        match self {
            Making::Surface { sentinel, format } => if ok {
                Making::Cursor { sentinel }
            } else if format == PixelFormat::Argb8888 {
                Making::Surface { sentinel, format: PixelFormat::Rgba32 }
            } else {
                Making::Unavailable
            },
            Making::Cursor { sentinel } => if !ok {
                Making::Unavailable
            } else if sentinel == Sentinel::Blank {
                Making::Surface { sentinel: Sentinel::Arrow, format: PixelFormat::Argb8888 }
            } else {
                Making::Ready
            },
            Making::Ready => Making::Ready,
            Making::Unavailable => Making::Unavailable,
        }
    }

    /// What comes after a step that went well (`ok`) or failed.
    pub fn next(self, ok: bool) -> (making: Making)
        ensures
            making == self.after(ok),
    {
        match self {
            Making::Surface { sentinel, format } => {
                if ok {
                    return Making::Cursor { sentinel };
                }
                match format {
                    PixelFormat::Argb8888 => Making::Surface {
                        sentinel,
                        format: PixelFormat::Rgba32,
                    },
                    PixelFormat::Rgba32 => Making::Unavailable,
                }
            },
            Making::Cursor { sentinel } => {
                if !ok {
                    return Making::Unavailable;
                }
                match sentinel {
                    Sentinel::Blank => Making::Surface {
                        sentinel: Sentinel::Arrow,
                        format: PixelFormat::Argb8888,
                    },
                    Sentinel::Arrow => Making::Ready,
                }
            },
            over => over,
        }
    }
}

/// Where making the sentinels stands after its steps went as `oks` says.
pub open spec fn making_after(oks: Seq<bool>) -> Making
    decreases oks.len(),
{
    if oks.len() == 0 {
        Making::Surface { sentinel: Sentinel::Blank, format: PixelFormat::Argb8888 }
    } else {
        making_after(oks.drop_last()).after(oks.last())
    }
}

/// Whether making the cursor of a sentinel went well at some step.
pub open spec fn was_made(oks: Seq<bool>, sentinel: Sentinel) -> bool {
    exists|i: int|
        0 <= i < oks.len() && #[trigger] oks[i] && making_after(oks.take(i))
            == (Making::Cursor { sentinel })
}

/// How far making has come shows what was made.
proof fn lemma_making_made(oks: Seq<bool>)
    ensures
        match making_after(oks) {
            Making::Surface { sentinel: Sentinel::Arrow, .. } => was_made(oks, Sentinel::Blank),
            Making::Cursor { sentinel: Sentinel::Arrow } => was_made(oks, Sentinel::Blank),
            Making::Ready => was_made(oks, Sentinel::Blank) && was_made(oks, Sentinel::Arrow),
            _ => true,
        },
    decreases oks.len(),
{
    if oks.len() > 0 {
        let head = oks.drop_last();
        lemma_making_made(head);
        let n = head.len() as int;
        assert(oks.take(n) =~= head);
        assert(oks[n] == oks.last());
        assert forall|s: Sentinel| was_made(head, s) implies #[trigger] was_made(oks, s) by {
            let i = choose|i: int|
                0 <= i < head.len() && #[trigger] head[i] && making_after(head.take(i))
                    == (Making::Cursor { sentinel: s });
            assert(head.take(i) =~= oks.take(i));
            assert(oks[i]);
        }
    }
}

/// The sentinels are ready only once both cursors were made.
pub proof fn lemma_ready_means_both_made(oks: Seq<bool>)
    requires
        making_after(oks) == Making::Ready,
    ensures
        was_made(oks, Sentinel::Blank),
        was_made(oks, Sentinel::Arrow),
{
    lemma_making_made(oks);
}

/// Making the sentinels is over after at most six steps.
pub proof fn lemma_making_ends(oks: Seq<bool>)
    requires
        oks.len() >= 6,
    ensures
        making_after(oks) == Making::Ready || making_after(oks) == Making::Unavailable,
    decreases oks.len(),
{
    if oks.len() > 6 {
        lemma_making_ends(oks.drop_last());
    } else {
        reveal_with_fuel(making_after, 8);
    }
}

/// Every hotspot lies inside the image of its sentinel.
pub proof fn lemma_hotspots_lie_inside(sentinel: Sentinel)
    ensures
        0 <= sentinel.spot() < SENTINEL_SIZE,
{
}

/// Something to do to the pointer.
#[derive(Clone, Copy, Debug, PartialEq, Eq, Structural)]
pub enum Command {
    /// Show or hide SDL's cursor.
    ShowCursor(bool),
    /// Set the sentinel's cursor.
    SetSentinel(Sentinel),
    /// Switch SDL's relative mode.
    RelativeMode(bool),
    /// Put SDL's pointer on a point of the window.
    Warp { x: i32, y: i32 },
}

/// The local pointer's visibility and capture state.
#[derive(Clone, Copy, Debug, PartialEq, Eq, Structural)]
pub struct Cursor {
    pub captured: bool,
    pub sdl_relative: bool,
    /// Whether the sentinels could be made.
    pub sentinels: bool,
}

impl Cursor {
    /// What puts the compositor's pointer into its state. SDL's cursor is shown first; without
    /// sentinels, hiding it is all that is left.
    pub open spec fn hotspot_commands(self) -> Seq<Command> {
        seq![
            Command::ShowCursor(true),
            if !self.sentinels {
                Command::ShowCursor(!self.captured)
            } else if self.captured {
                Command::SetSentinel(Sentinel::Blank)
            } else {
                Command::SetSentinel(Sentinel::Arrow)
            },
        ]
    }

    /// What puts the whole pointer into its state.
    pub open spec fn commands(self) -> Seq<Command> {
        self.hotspot_commands().push(Command::RelativeMode(self.captured && self.sdl_relative))
    }

    /// What keeps a captured pointer blank.
    pub open spec fn hide_again(self) -> Seq<Command> {
        if self.captured {
            self.hotspot_commands()
        } else {
            seq![]
        }
    }

    /// An uncaptured pointer, in relative mode once it is captured.
    pub fn new(sentinels: bool) -> (cursor: Cursor)
        ensures
            cursor == (Cursor { captured: false, sdl_relative: true, sentinels }),
    {
        Cursor { captured: false, sdl_relative: true, sentinels }
    }

    /// Stops asking SDL for relative mode, for when motion is read elsewhere. Where a mouse is
    /// expected this comes before the pointer is captured: capture would switch relative mode on
    /// while nodes are still looked for, and park SDL's pointer at the centre of the screen.
    pub fn disable_sdl_relative(&mut self) -> (commands: Vec<Command>)
        ensures
            *final(self) == (Cursor { sdl_relative: false, ..*old(self) }),
            commands@ == final(self).commands(),
    {
        self.sdl_relative = false;
        self.apply()
    }

    /// Asks SDL for relative mode while captured: the fallback where no mouse shows up.
    pub fn enable_sdl_relative(&mut self) -> (commands: Vec<Command>)
        ensures
            *final(self) == (Cursor { sdl_relative: true, ..*old(self) }),
            commands@ == final(self).commands(),
    {
        self.sdl_relative = true;
        self.apply()
    }

    /// Captures the pointer for the host, or gives it back.
    pub fn set_captured(&mut self, captured: bool) -> (commands: Vec<Command>)
        ensures
            *final(self) == (Cursor { captured, ..*old(self) }),
            commands@ == final(self).commands(),
    {
        self.captured = captured;
        self.apply()
    }

    /// Whether the pointer is captured.
    pub fn is_captured(&self) -> (yes: bool)
        ensures
            yes == self.captured,
    {
        self.captured
    }

    /// Puts SDL's pointer on a point of the window.
    pub fn warp_abs(&self, x: i32, y: i32) -> (command: Command)
        ensures
            command == (Command::Warp { x, y }),
    {
        Command::Warp { x, y }
    }

    /// What puts the whole pointer into its state.
    pub fn apply(&self) -> (commands: Vec<Command>)
        ensures
            commands@ == self.commands(),
    {
        let mut commands: Vec<Command> = self.apply_lsm_hotspot();
        commands.push(Command::RelativeMode(self.captured && self.sdl_relative));
        commands
    }

    /// What puts the compositor's pointer into its state.
    pub fn apply_lsm_hotspot(&self) -> (commands: Vec<Command>)
        ensures
            commands@ == self.hotspot_commands(),
    {
        let second: Command = if !self.sentinels {
            Command::ShowCursor(!self.captured)
        } else if self.captured {
            Command::SetSentinel(Sentinel::Blank)
        } else {
            Command::SetSentinel(Sentinel::Arrow)
        };
        let commands: Vec<Command> = vec![Command::ShowCursor(true), second];
        assert(commands@ =~= self.hotspot_commands());
        commands
    }

    /// Blanks the pointer again once the mouse is really held. Nothing while uncaptured.
    pub fn reassert_hidden(&self) -> (commands: Vec<Command>)
        ensures
            commands@ == self.hide_again(),
    {
        if !self.captured {
            return Vec::new();
        }
        self.apply_lsm_hotspot()
    }

    /// Blanks the pointer again, since pointer activity can bring the arrow back. Nothing while
    /// uncaptured.
    pub fn on_pointer_activity(&self) -> (commands: Vec<Command>)
        ensures
            commands@ == self.hide_again(),
    {
        if self.captured {
            self.apply_lsm_hotspot()
        } else {
            Vec::new()
        }
    }
}

/// Brings the system arrow back, where the sentinels could be made: what a crash while captured must
/// still do.
pub fn restore_on_exit(sentinels: bool) -> (commands: Vec<Command>)
    ensures
        commands@ == (if sentinels {
            seq![Command::SetSentinel(Sentinel::Arrow)]
        } else {
            seq![]
        }),
{
    let mut commands: Vec<Command> = Vec::new();
    if sentinels {
        commands.push(Command::SetSentinel(Sentinel::Arrow));
    }
    assert(commands@ =~= if sentinels {
        seq![Command::SetSentinel(Sentinel::Arrow)]
    } else {
        seq![]
    });
    commands
}

/// What the pointer looks like and how it reports.
#[derive(Clone, Copy, Debug)]
pub struct Pointer {
    /// SDL's cursor is shown, so that its hotspot reaches the compositor.
    pub shown: bool,
    /// The last sentinel that was set.
    pub sentinel: Option<Sentinel>,
    pub relative: bool,
    pub warped_to: Option<(i32, i32)>,
}

impl Pointer {
    /// The pointer after a command.
    pub open spec fn obeys(self, command: Command) -> Pointer {
        match command {
            Command::ShowCursor(shown) => Pointer { shown, ..self },
            Command::SetSentinel(sentinel) => Pointer { sentinel: Some(sentinel), ..self },
            Command::RelativeMode(relative) => Pointer { relative, ..self },
            Command::Warp { x, y } => Pointer { warped_to: Some((x, y)), ..self },
        }
    }

    /// The pointer after commands in turn.
    pub open spec fn obeys_all(self, commands: Seq<Command>) -> Pointer
        decreases commands.len(),
    {
        if commands.len() == 0 {
            self
        } else {
            self.obeys_all(commands.drop_last()).obeys(commands.last())
        }
    }
}

proof fn lemma_hotspot_obeyed(cursor: Cursor, before: Pointer)
    ensures
        before.obeys_all(cursor.hotspot_commands()) == (if !cursor.sentinels {
            Pointer { shown: !cursor.captured, ..before }
        } else {
            Pointer {
                shown: true,
                sentinel: Some(
                    if cursor.captured {
                        Sentinel::Blank
                    } else {
                        Sentinel::Arrow
                    },
                ),
                ..before
            }
        }),
{
    let all = cursor.hotspot_commands();
    let one = all.drop_last();
    assert(one =~= seq![Command::ShowCursor(true)]);
    assert(one.drop_last() =~= Seq::empty());
    assert(before.obeys_all(Seq::empty()) == before);
    assert(before.obeys_all(one) == Pointer { shown: true, ..before });
}

/// Whatever the pointer was like before, it ends up blank and shown to the compositor exactly while
/// it is captured, and relative exactly while it is captured and SDL is the one to report motion.
pub proof fn lemma_pointer_follows_capture(cursor: Cursor, before: Pointer)
    requires
        cursor.sentinels,
    ensures
        ({
            let now = before.obeys_all(cursor.commands());
            &&& now.shown
            &&& now.sentinel == Some(Sentinel::Blank) <==> cursor.captured
            &&& now.sentinel == Some(Sentinel::Arrow) <==> !cursor.captured
            &&& now.relative == (cursor.captured && cursor.sdl_relative)
            &&& now.warped_to == before.warped_to
        }),
{
    lemma_hotspot_obeyed(cursor, before);
    assert(cursor.commands().drop_last() =~= cursor.hotspot_commands());
}

/// Without sentinels SDL's cursor is hidden exactly while captured.
pub proof fn lemma_pointer_hides_without_sentinels(cursor: Cursor, before: Pointer)
    requires
        !cursor.sentinels,
    ensures
        ({
            let now = before.obeys_all(cursor.commands());
            &&& now.shown == !cursor.captured
            &&& now.sentinel == before.sentinel
            &&& now.relative == (cursor.captured && cursor.sdl_relative)
        }),
{
    lemma_hotspot_obeyed(cursor, before);
    assert(cursor.commands().drop_last() =~= cursor.hotspot_commands());
}

/// Hiding again changes nothing about a pointer that already follows its cursor, and brings one back
/// in line on which the system arrow was drawn meanwhile.
pub proof fn lemma_hiding_again_keeps_capture(cursor: Cursor, before: Pointer)
    requires
        cursor.sentinels,
    ensures
        cursor.captured ==> before.obeys_all(cursor.hide_again()) == (Pointer {
            shown: true,
            sentinel: Some(Sentinel::Blank),
            ..before
        }),
        !cursor.captured ==> before.obeys_all(cursor.hide_again()) == before,
{
    if cursor.captured {
        lemma_hotspot_obeyed(cursor, before);
    }
}

/// However the pointer was captured, leaving brings the arrow back.
pub proof fn lemma_leaving_restores_the_arrow(before: Pointer)
    ensures
        before.obeys_all(seq![Command::SetSentinel(Sentinel::Arrow)]).sentinel == Some(
            Sentinel::Arrow,
        ),
{
    let all = seq![Command::SetSentinel(Sentinel::Arrow)];
    assert(all.drop_last() =~= Seq::empty());
}

/// The sentinels are missing only for a cause: a cursor that could not be made, or an image that
/// could be made in neither format.
pub proof fn lemma_sentinels_are_missing_only_for_a_cause(oks: Seq<bool>) -> (k: int)
    requires
        making_after(oks) is Unavailable,
    ensures
        0 <= k < oks.len(),
        !oks[k],
        making_after(oks.take(k)) is Cursor || (making_after(oks.take(k)) matches Making::Surface {
            format,
            ..
        } && format is Rgba32),
    decreases oks.len(),
{
    let head = oks.drop_last();
    let n = head.len() as int;
    assert(oks.take(n) =~= head);
    if making_after(head) is Unavailable {
        let k = lemma_sentinels_are_missing_only_for_a_cause(head);
        assert(head.take(k) =~= oks.take(k));
        k
    } else {
        n
    }
}

/// Making goes on as far as it can: an image leads to the cursor of the same sentinel, the blank one
/// comes before the arrow, an image is tried in a second format before it is given up, and what is
/// over stays over.
pub proof fn lemma_making_goes_on(making: Making, ok: bool, next: Making, first: Making)
    requires
        call_ensures(Making::next, (making, ok), next),
        call_ensures(Making::start, (), first),
    ensures
        first == (Making::Surface { sentinel: Sentinel::Blank, format: PixelFormat::Argb8888 }),
        making matches Making::Surface { sentinel, format } ==> {
            &&& ok ==> next == (Making::Cursor { sentinel })
            &&& !ok && format is Argb8888 ==> next == (Making::Surface {
                sentinel,
                format: PixelFormat::Rgba32,
            })
            &&& !ok && format is Rgba32 ==> next is Unavailable
        },
        making matches Making::Cursor { sentinel } ==> {
            &&& !ok ==> next is Unavailable
            &&& ok && sentinel is Blank ==> next == (Making::Surface {
                sentinel: Sentinel::Arrow,
                format: PixelFormat::Argb8888,
            })
            &&& ok && sentinel is Arrow ==> next is Ready
        },
        making is Ready ==> next is Ready,
        making is Unavailable ==> next is Unavailable,
{
    assert(making_after(Seq::empty()) == first);
}

/// The hotspots are the two that the compositor takes as commands.
pub proof fn lemma_hotspots_are_the_compositors(sentinel: Sentinel, at: i32)
    requires
        call_ensures(Sentinel::hotspot, (sentinel,), at),
    ensures
        sentinel is Blank ==> at == 254,
        sentinel is Arrow ==> at == 255,
        SENTINEL_SIZE == 256,
{
}

/// What is asked of the pointer, step by step: SDL's cursor is shown first, so that what comes next
/// reaches the compositor; then the sentinel, or the cursor itself where there are none; and relative
/// mode last.
pub proof fn lemma_pointers_are_shown_first(cursor: Cursor, all: Vec<Command>, some: Vec<Command>)
    requires
        call_ensures(Cursor::apply, (&cursor,), all),
        call_ensures(Cursor::apply_lsm_hotspot, (&cursor,), some),
    ensures
        all@.len() == 3,
        some@.len() == 2,
        some@ == all@.take(2),
        all@[0] == Command::ShowCursor(true),
        cursor.sentinels && cursor.captured ==> all@[1] == Command::SetSentinel(Sentinel::Blank),
        cursor.sentinels && !cursor.captured ==> all@[1] == Command::SetSentinel(Sentinel::Arrow),
        !cursor.sentinels ==> all@[1] == Command::ShowCursor(!cursor.captured),
        all@[2] == Command::RelativeMode(cursor.captured && cursor.sdl_relative),
{
    assert(some@ =~= all@.take(2));
}

/// Hiding again asks for the same as applying the hotspot while captured, and for nothing otherwise.
pub proof fn lemma_hiding_again_needs_capture(
    cursor: Cursor,
    some: Vec<Command>,
    again: Vec<Command>,
    moved: Vec<Command>,
    captured: bool,
)
    requires
        call_ensures(Cursor::apply_lsm_hotspot, (&cursor,), some),
        call_ensures(Cursor::reassert_hidden, (&cursor,), again),
        call_ensures(Cursor::on_pointer_activity, (&cursor,), moved),
        call_ensures(Cursor::is_captured, (&cursor,), captured),
    ensures
        captured ==> again@ == some@ && moved@ == some@,
        !captured ==> again@.len() == 0 && moved@.len() == 0,
        captured == cursor.captured,
{
}

/// A new pointer is free, and would go relative once captured.
pub proof fn lemma_new_pointers_are_free(sentinels: bool, cursor: Cursor)
    requires
        call_ensures(Cursor::new, (sentinels,), cursor),
    ensures
        !cursor.captured && cursor.sdl_relative && cursor.sentinels == sentinels,
{
}

/// Warping goes to the point that was asked for, and a crash sets the arrow where there is one.
pub proof fn lemma_warps_and_crashes(
    cursor: Cursor,
    x: i32,
    y: i32,
    warp: Command,
    sentinels: bool,
    crash: Vec<Command>,
)
    requires
        call_ensures(Cursor::warp_abs, (&cursor, x, y), warp),
        call_ensures(restore_on_exit, (sentinels,), crash),
    ensures
        warp matches Command::Warp { x: to_x, y: to_y } && to_x == x && to_y == y,
        !sentinels ==> crash@.len() == 0,
        sentinels ==> crash@.len() == 1 && crash@[0] == Command::SetSentinel(Sentinel::Arrow),
{
}

/// Capturing, and switching what SDL is asked for, change just that, and ask for all that the pointer
/// is then to be.
pub proof fn lemma_pointers_change_one_thing_at_a_time(
    cursor: &mut Cursor,
    captured: bool,
    asked: Vec<Command>,
    all: Vec<Command>,
)
    requires
        call_ensures(Cursor::apply, (&*final(cursor),), all),
    ensures
        call_ensures(Cursor::set_captured, (cursor, captured), asked) ==> asked@ == all@ && final(cursor).captured == captured && final(cursor).sdl_relative == old(cursor).sdl_relative && final(cursor).sentinels == old(cursor).sentinels,
        call_ensures(Cursor::disable_sdl_relative, (cursor,), asked) ==> asked@ == all@ && !final(cursor).sdl_relative && final(cursor).captured == old(cursor).captured && final(cursor).sentinels
            == old(cursor).sentinels,
        call_ensures(Cursor::enable_sdl_relative, (cursor,), asked) ==> asked@ == all@ && final(cursor).sdl_relative && final(cursor).captured == old(cursor).captured && final(cursor).sentinels
            == old(cursor).sentinels,
{
}

} // verus!

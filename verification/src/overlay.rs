//! What is drawn over the video: the statistics, the log and short messages, and when.
use vstd::prelude::*;

verus! {

/// How long a frame stands while something fades, in nanoseconds.
pub const FADING_INTERVAL_NS: u64 = 33_000_000;

/// How long a frame stands otherwise, in nanoseconds.
pub const STEADY_INTERVAL_NS: u64 = 500_000_000;

/// How long the statistics stand before they are read again, in nanoseconds.
pub const STATS_INTERVAL_NS: u64 = 500_000_000;

/// How far the statistics stay from the edges of the screen.
pub const STATS_MARGIN: i32 = 24;

/// The state of the log overlay.
#[derive(Clone, Copy, Debug, PartialEq, Eq, Structural)]
pub enum LogOverlayState {
    Off,
    Live,
    Frozen,
}

impl LogOverlayState {
    /// The next state in the round.
    pub open spec fn next(self) -> LogOverlayState {
        match self {
            LogOverlayState::Off => LogOverlayState::Live,
            LogOverlayState::Live => LogOverlayState::Frozen,
            LogOverlayState::Frozen => LogOverlayState::Off,
        }
    }

    /// The next state in the round.
    pub fn cycle(self) -> (state: LogOverlayState)
        ensures
            state == self.next(),
    {
        match self {
            LogOverlayState::Off => LogOverlayState::Live,
            LogOverlayState::Live => LogOverlayState::Frozen,
            LogOverlayState::Frozen => LogOverlayState::Off,
        }
    }

    /// Whether the log is drawn at all.
    pub fn is_on(self) -> (on: bool)
        ensures
            on == (self != LogOverlayState::Off),
    {
        self != LogOverlayState::Off
    }
}

/// Three steps lead round, and of the three states one draws nothing.
pub proof fn lemma_log_states_go_round(state: LogOverlayState)
    ensures
        state.next().next().next() == state,
        state.next() != state,
        state.next().next() != state,
{
}

/// A place on the screen.
#[derive(Clone, Copy, Debug, PartialEq, Eq, Structural)]
pub struct Rect {
    pub x: i32,
    pub y: i32,
    pub width: u32,
    pub height: u32,
}

/// The parts of the overlay that keep their image between frames.
#[derive(Clone, Copy, Debug, PartialEq, Eq, Structural)]
pub enum Tile {
    Stats,
    Log,
}

/// What there is to see of the overlay in this pass.
#[derive(Clone, Copy, Debug, PartialEq, Eq, Structural)]
pub struct Visible {
    /// The dialog is drawn, opaque or fading.
    pub dialog: bool,
    /// A short message is up.
    pub message: bool,
    pub stats: bool,
    pub log: bool,
    /// The statistics are fading in or out.
    pub stats_fading: bool,
    pub log_fading: bool,
}

impl Visible {
    /// A message is drawn only where no dialog is.
    pub open spec fn shows_message(self) -> bool {
        self.message && !self.dialog
    }

    /// There is something to draw.
    pub open spec fn active(self) -> bool {
        self.stats || self.log || self.shows_message()
    }

    /// How long a frame stands.
    pub open spec fn interval(self) -> int {
        if self.shows_message() || self.stats_fading || self.log_fading {
            FADING_INTERVAL_NS as int
        } else {
            STEADY_INTERVAL_NS as int
        }
    }
}

/// What to do about the overlay in this pass.
#[derive(Clone, Copy, Debug, PartialEq, Eq, Structural)]
pub struct Plan {
    /// Wipe the screen: nothing else clears what was drawn last.
    pub wipe: bool,
    /// Draw a frame.
    pub draw: bool,
    /// Read the statistics and draw them anew first.
    pub rebuild_stats: bool,
}

/// Whether something last done at `last` is due again. Something never done is due.
pub open spec fn due(last: Option<u64>, now_ns: u64, interval: int) -> bool {
    last matches Some(at) ==> now_ns - at >= interval
}

/// The overlay between passes.
#[derive(Clone, Copy, Debug, PartialEq, Eq, Structural)]
pub struct Overlay {
    pub was_active: bool,
    /// When the last frame was drawn, or `None` to draw the next at once.
    pub drawn_ns: Option<u64>,
    /// When the statistics were last read.
    pub stats_built_ns: Option<u64>,
    /// Where the image of the statistics goes, once there is one.
    pub stats_at: Option<Rect>,
    pub log_at: Option<Rect>,
}

impl Overlay {
    /// What a pass does.
    pub open spec fn planned(self, seen: Visible, stats_on: bool, now_ns: u64) -> Plan {
        let draw = seen.active() && !seen.dialog && due(self.drawn_ns, now_ns, seen.interval());
        Plan {
            wipe: self.was_active && !seen.active(),
            draw,
            rebuild_stats: draw && stats_on && due(
                self.stats_built_ns,
                now_ns,
                STATS_INTERVAL_NS as int,
            ),
        }
    }

    /// The overlay after a pass.
    pub open spec fn after(self, seen: Visible, stats_on: bool, now_ns: u64) -> Overlay {
        let plan = self.planned(seen, stats_on, now_ns);
        Overlay {
            was_active: seen.active(),
            drawn_ns: if plan.draw {
                Some(now_ns)
            } else {
                self.drawn_ns
            },
            stats_built_ns: if plan.rebuild_stats {
                Some(now_ns)
            } else {
                self.stats_built_ns
            },
            ..self
        }
    }

    /// The overlay, to be drawn at once where `now` says so.
    pub open spec fn refreshed(self, now: bool) -> Overlay {
        if now {
            Overlay { drawn_ns: None, ..self }
        } else {
            self
        }
    }

    /// Nothing drawn yet.
    pub fn new() -> (overlay: Overlay)
        ensures
            overlay == (Overlay {
                was_active: false,
                drawn_ns: None,
                stats_built_ns: None,
                stats_at: None,
                log_at: None,
            }),
    {
        Overlay {
            was_active: false,
            drawn_ns: None,
            stats_built_ns: None,
            stats_at: None,
            log_at: None,
        }
    }

    /// Draws the next frame at once.
    pub fn refresh(&mut self)
        ensures
            *final(self) == (Overlay { drawn_ns: None, ..*old(self) }),
    {
        self.drawn_ns = None;
    }

    /// Decides what to do in this pass.
    pub fn plan(&mut self, seen: Visible, stats_on: bool, now_ns: u64) -> (plan: Plan)
        ensures
            plan == old(self).planned(seen, stats_on, now_ns),
            *final(self) == old(self).after(seen, stats_on, now_ns),
    {
        let message: bool = seen.message && !seen.dialog;
        let active: bool = seen.stats || seen.log || message;
        let wipe: bool = self.was_active && !active;
        self.was_active = active;
        let interval: u64 = if message || seen.stats_fading || seen.log_fading {
            FADING_INTERVAL_NS
        } else {
            STEADY_INTERVAL_NS
        };
        let draw: bool = active && !seen.dialog && is_due(self.drawn_ns, now_ns, interval);
        if draw {
            self.drawn_ns = Some(now_ns);
        }
        let rebuild_stats: bool = draw && stats_on && is_due(
            self.stats_built_ns,
            now_ns,
            STATS_INTERVAL_NS,
        );
        if rebuild_stats {
            self.stats_built_ns = Some(now_ns);
        }
        Plan { wipe, draw, rebuild_stats }
    }

    /// Puts a new image of the statistics into the upper right corner.
    pub fn place_stats(&mut self, screen_width: i32, width: u32, height: u32)
        requires
            width <= i32::MAX,
            screen_width - width - STATS_MARGIN >= i32::MIN,
        ensures
            *final(self) == (Overlay {
                stats_at: Some(
                    Rect {
                        x: (screen_width - width - STATS_MARGIN) as i32,
                        y: STATS_MARGIN,
                        width,
                        height,
                    },
                ),
                ..*old(self)
            }),
    {
        self.stats_at = Some(
            Rect { x: screen_width - width as i32 - STATS_MARGIN, y: STATS_MARGIN, width, height },
        );
    }

    /// Puts a new image of the log along the lower edge.
    pub fn place_log(&mut self, screen_height: i32, width: u32, height: u32)
        requires
            height <= i32::MAX,
            screen_height - height >= i32::MIN,
        ensures
            *final(self) == (Overlay {
                log_at: Some(
                    Rect { x: 0, y: (screen_height - height) as i32, width, height },
                ),
                ..*old(self)
            }),
    {
        self.log_at = Some(Rect { x: 0, y: screen_height - height as i32, width, height });
    }

    /// The images of a frame, in the order in which they are drawn: those that are to be seen and
    /// have been made.
    pub open spec fn drawn_tiles(self, seen: Visible) -> Seq<(Tile, Rect)> {
        (if seen.stats && self.stats_at is Some {
            seq![(Tile::Stats, self.stats_at->0)]
        } else {
            seq![]
        }) + (if seen.log && self.log_at is Some {
            seq![(Tile::Log, self.log_at->0)]
        } else {
            seq![]
        })
    }

    /// The images of a frame, in the order in which they are drawn.
    pub fn tiles(&self, seen: Visible) -> (tiles: Vec<(Tile, Rect)>)
        ensures
            tiles@ == self.drawn_tiles(seen),
    {
        let mut tiles: Vec<(Tile, Rect)> = Vec::new();
        if seen.stats {
            if let Some(at) = self.stats_at {
                tiles.push((Tile::Stats, at));
            }
        }
        if seen.log {
            if let Some(at) = self.log_at {
                tiles.push((Tile::Log, at));
            }
        }
        assert(tiles@ =~= self.drawn_tiles(seen));
        tiles
    }
}

fn is_due(last: Option<u64>, now_ns: u64, interval: u64) -> (yes: bool)
    requires
        interval > 0,
    ensures
        yes == due(last, now_ns, interval as int),
{
    match last {
        Some(at) => now_ns >= at && now_ns - at >= interval,
        None => true,
    }
}

/// The screen is wiped once when the overlay goes: a second pass without anything to draw leaves it
/// alone.
pub proof fn lemma_wiped_once(
    overlay: Overlay,
    first: Visible,
    second: Visible,
    stats_on: bool,
    now_ns: u64,
    later_ns: u64,
)
    requires
        !first.active(),
    ensures
        !overlay.after(first, stats_on, now_ns).planned(second, stats_on, later_ns).wipe,
{
}

/// What was drawn does not stay: where a frame was drawn and the next pass has nothing to draw, the
/// screen is wiped.
pub proof fn lemma_nothing_sticks(
    overlay: Overlay,
    first: Visible,
    second: Visible,
    stats_on: bool,
    now_ns: u64,
    later_ns: u64,
)
    requires
        overlay.planned(first, stats_on, now_ns).draw,
        !second.active(),
    ensures
        overlay.after(first, stats_on, now_ns).planned(second, stats_on, later_ns).wipe,
{
}

/// The overlay never draws over the dialog.
pub proof fn lemma_dialog_has_the_screen(overlay: Overlay, seen: Visible, stats_on: bool, now_ns: u64)
    requires
        seen.dialog,
    ensures
        !overlay.planned(seen, stats_on, now_ns).draw,
        !overlay.planned(seen, stats_on, now_ns).rebuild_stats,
{
}

/// A frame stands: the pass after one that drew draws nothing before the interval is over.
pub proof fn lemma_frames_stand(
    overlay: Overlay,
    first: Visible,
    second: Visible,
    stats_on: bool,
    now_ns: u64,
    later_ns: u64,
)
    requires
        overlay.planned(first, stats_on, now_ns).draw,
        later_ns - now_ns < second.interval(),
    ensures
        !overlay.after(first, stats_on, now_ns).planned(second, stats_on, later_ns).draw,
{
}

/// The overlay after passes in turn, each with what there is to see, whether the statistics are on,
/// and its time.
pub open spec fn after_passes(overlay: Overlay, passes: Seq<(Visible, bool, u64)>) -> Overlay
    decreases passes.len(),
{
    if passes.len() == 0 {
        overlay
    } else {
        let last = passes.last();
        after_passes(overlay, passes.drop_last()).after(last.0, last.1, last.2)
    }
}

/// Whether pass number `i` reads the statistics.
pub open spec fn rebuilds_at(overlay: Overlay, passes: Seq<(Visible, bool, u64)>, i: int) -> bool {
    after_passes(overlay, passes.take(i)).planned(
        passes[i].0,
        passes[i].1,
        passes[i].2,
    ).rebuild_stats
}

proof fn lemma_built_at_or_after(overlay: Overlay, passes: Seq<(Visible, bool, u64)>, i: int, j: int)
    requires
        0 <= i < j <= passes.len(),
        rebuilds_at(overlay, passes, i),
        forall|a: int, b: int|
            0 <= a <= b < passes.len() ==> (#[trigger] passes[a]).2 <= (#[trigger] passes[b]).2,
    ensures
        after_passes(overlay, passes.take(j)).stats_built_ns matches Some(at) && passes[i].2 <= at,
    decreases j,
{
    assert(passes.take(j).drop_last() =~= passes.take(j - 1));
    assert(passes.take(j).last() == passes[j - 1]);
    if i < j - 1 {
        lemma_built_at_or_after(overlay, passes, i, j - 1);
    }
}

/// However often frames are drawn, the statistics are read no more than once in their interval.
pub proof fn lemma_stats_keep_their_pace(
    overlay: Overlay,
    passes: Seq<(Visible, bool, u64)>,
    i: int,
    j: int,
)
    requires
        0 <= i < j < passes.len(),
        rebuilds_at(overlay, passes, i),
        rebuilds_at(overlay, passes, j),
        forall|a: int, b: int|
            0 <= a <= b < passes.len() ==> (#[trigger] passes[a]).2 <= (#[trigger] passes[b]).2,
    ensures
        passes[j].2 - passes[i].2 >= STATS_INTERVAL_NS,
{
    lemma_built_at_or_after(overlay, passes, i, j);
}

/// A frame holds the image of the statistics exactly where they are to be seen and have one, whatever
/// there is to see of the log, and the other way round; the statistics come first, each at its own
/// place, and there is nothing else.
pub proof fn lemma_each_tile_stands_for_itself(
    overlay: Overlay,
    seen: Visible,
    tiles: Vec<(Tile, Rect)>,
    at: Rect,
)
    requires
        call_ensures(Overlay::tiles, (&overlay, seen), tiles),
    ensures
        tiles@.contains((Tile::Stats, at)) <==> seen.stats && overlay.stats_at == Some(at),
        tiles@.contains((Tile::Log, at)) <==> seen.log && overlay.log_at == Some(at),
        forall|i: int, j: int|
            0 <= i < j < tiles@.len() ==> (#[trigger] tiles@[i]).0 is Stats && (
            #[trigger] tiles@[j]).0 is Log,
        tiles@.len() <= 2,
{
    if seen.stats && overlay.stats_at is Some {
        assert(tiles@[0] == (Tile::Stats, overlay.stats_at->0));
    }
    if seen.log && overlay.log_at is Some {
        assert(tiles@[tiles@.len() - 1] == (Tile::Log, overlay.log_at->0));
    }
}

/// What a frame holds does not depend on the dialog, the messages or on what fades.
pub proof fn lemma_tiles_depend_on_what_is_seen(
    overlay: Overlay,
    a: Visible,
    b: Visible,
    one: Vec<(Tile, Rect)>,
    other: Vec<(Tile, Rect)>,
)
    requires
        call_ensures(Overlay::tiles, (&overlay, a), one),
        call_ensures(Overlay::tiles, (&overlay, b), other),
        a.stats == b.stats,
        a.log == b.log,
    ensures
        one@ == other@,
{
}

/// The statistics stand 24 points from the upper and from the right edge of the screen, in their own
/// size; placing them leaves the log alone.
pub proof fn lemma_statistics_stand_in_the_upper_right(
    overlay: &mut Overlay,
    screen: i32,
    width: u32,
    height: u32,
)
    requires
        call_ensures(Overlay::place_stats, (overlay, screen, width, height), ()),
        width <= i32::MAX,
        screen - width - 24 >= i32::MIN,
    ensures
        final(overlay).stats_at matches Some(at) && at.x + at.width + 24 == screen && at.y == 24
            && at.width == width && at.height == height,
        final(overlay).log_at == old(overlay).log_at,
        final(overlay).drawn_ns == old(overlay).drawn_ns,
        final(overlay).stats_built_ns == old(overlay).stats_built_ns,
        final(overlay).was_active == old(overlay).was_active,
{
}

/// The log stands in the lower left corner of the screen, in its own size; placing it leaves the
/// statistics alone.
pub proof fn lemma_the_log_stands_in_the_lower_left(
    overlay: &mut Overlay,
    screen: i32,
    width: u32,
    height: u32,
)
    requires
        call_ensures(Overlay::place_log, (overlay, screen, width, height), ()),
        height <= i32::MAX,
        screen - height >= i32::MIN,
    ensures
        final(overlay).log_at matches Some(at) && at.y + at.height == screen && at.x == 0 && at.width
            == width && at.height == height,
        final(overlay).stats_at == old(overlay).stats_at,
        final(overlay).drawn_ns == old(overlay).drawn_ns,
        final(overlay).stats_built_ns == old(overlay).stats_built_ns,
        final(overlay).was_active == old(overlay).was_active,
{
}

/// There is something to draw exactly where the statistics, the log or a message is to be seen, and
/// a message only without the dialog.
pub open spec fn anything(seen: Visible) -> bool {
    seen.stats || seen.log || (seen.message && !seen.dialog)
}

/// Something moves: a message is up, or the statistics or the log fade.
pub open spec fn moves(seen: Visible) -> bool {
    (seen.message && !seen.dialog) || seen.stats_fading || seen.log_fading
}

/// A frame is drawn as soon as there is something to draw, no dialog has the screen, and the last
/// frame has stood its time: 33 milliseconds where something moves, half a second otherwise, and no
/// time at all where none was drawn. The screen is wiped exactly where there was something to draw
/// the last time and now is not.
pub proof fn lemma_frames_are_drawn_when_due(
    overlay: &mut Overlay,
    seen: Visible,
    stats_on: bool,
    now_ns: u64,
    plan: Plan,
)
    requires
        call_ensures(Overlay::plan, (overlay, seen, stats_on, now_ns), plan),
    ensures
        !anything(seen) || seen.dialog ==> !plan.draw,
        anything(seen) && !seen.dialog && old(overlay).drawn_ns is None ==> plan.draw,
        old(overlay).drawn_ns matches Some(at) ==> (anything(seen) && !seen.dialog ==> (plan.draw
            <==> now_ns - at >= if moves(seen) {
            33_000_000int
        } else {
            500_000_000int
        })),
        plan.wipe <==> old(overlay).was_active && !anything(seen),
{
}

/// The statistics are read anew with a frame, where they are on and half a second has passed since
/// they were read, or never were.
pub proof fn lemma_statistics_are_read_when_due(
    overlay: &mut Overlay,
    seen: Visible,
    stats_on: bool,
    now_ns: u64,
    plan: Plan,
)
    requires
        call_ensures(Overlay::plan, (overlay, seen, stats_on, now_ns), plan),
    ensures
        plan.rebuild_stats ==> plan.draw && stats_on,
        plan.draw && stats_on && old(overlay).stats_built_ns is None ==> plan.rebuild_stats,
        old(overlay).stats_built_ns matches Some(at) ==> (plan.draw && stats_on ==> (
        plan.rebuild_stats <==> now_ns - at >= 500_000_000)),
{
}

/// A pass remembers what it did: whether there was something to draw, and when it drew and read.
pub proof fn lemma_passes_remember(
    overlay: &mut Overlay,
    seen: Visible,
    stats_on: bool,
    now_ns: u64,
    plan: Plan,
)
    requires
        call_ensures(Overlay::plan, (overlay, seen, stats_on, now_ns), plan),
    ensures
        final(overlay).was_active <==> anything(seen),
        plan.draw ==> final(overlay).drawn_ns == Some(now_ns),
        !plan.draw ==> final(overlay).drawn_ns == old(overlay).drawn_ns,
        plan.rebuild_stats ==> final(overlay).stats_built_ns == Some(now_ns),
        !plan.rebuild_stats ==> final(overlay).stats_built_ns == old(overlay).stats_built_ns,
        final(overlay).stats_at == old(overlay).stats_at,
        final(overlay).log_at == old(overlay).log_at,
{
}

/// A refresh makes the next frame due at once and changes nothing else.
pub proof fn lemma_refreshes_make_a_frame_due(overlay: &mut Overlay)
    requires
        call_ensures(Overlay::refresh, (overlay,), ()),
    ensures
        final(overlay).drawn_ns is None,
        final(overlay).was_active == old(overlay).was_active,
        final(overlay).stats_built_ns == old(overlay).stats_built_ns,
        final(overlay).stats_at == old(overlay).stats_at,
        final(overlay).log_at == old(overlay).log_at,
{
}

/// The log goes from off to live, from live to frozen, and from frozen to off.
pub proof fn lemma_the_log_goes_live_then_freezes(
    state: LogOverlayState,
    next: LogOverlayState,
    on: bool,
)
    requires
        call_ensures(LogOverlayState::cycle, (state,), next),
        call_ensures(LogOverlayState::is_on, (state,), on),
    ensures
        state is Off <==> next is Live,
        state is Live <==> next is Frozen,
        state is Frozen <==> next is Off,
        on <==> !(state is Off),
        next == state.next(),
{
}

/// A new overlay has nothing drawn, read or placed.
pub proof fn lemma_new_overlays_are_blank(overlay: Overlay)
    requires
        call_ensures(Overlay::new, (), overlay),
    ensures
        !overlay.was_active && overlay.drawn_ns is None && overlay.stats_built_ns is None,
        overlay.stats_at is None && overlay.log_at is None,
{
}

} // verus!

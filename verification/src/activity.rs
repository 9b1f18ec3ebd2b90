//! When each kind of report was last seen, to tell a mouse or keyboard from the remote: SDL names
//! no device, so recency is the only sign.
use vstd::prelude::*;

verus! {

/// How long after a report its device still owns SDL's events, in milliseconds: it bridges pauses
/// within one drag, and switching to the remote still feels immediate.
pub const IN_USE_WINDOW_MS: u64 = 250;

/// A kind of report.
#[derive(Clone, Copy, Debug, PartialEq, Eq, Structural)]
pub enum Slot {
    Motion,
    /// Clicks and wheel notches. Apart from motion: a click moves nothing, so a still mouse would
    /// look idle otherwise.
    Discrete,
    Key,
}

/// The time of the last report of each kind, in milliseconds since the start; `None` before the
/// first.
pub struct Activity {
    pub motion_ms: Option<u64>,
    pub discrete_ms: Option<u64>,
    pub key_ms: Option<u64>,
}

impl Activity {
    /// The time of the last report of a kind.
    pub open spec fn last(self, slot: Slot) -> Option<u64> {
        match slot {
            Slot::Motion => self.motion_ms,
            Slot::Discrete => self.discrete_ms,
            Slot::Key => self.key_ms,
        }
    }

    /// A report of this kind was seen, and less than the window ago.
    pub open spec fn in_use(self, slot: Slot, now_ms: u64) -> bool {
        self.last(slot) matches Some(at) && now_ms - at < IN_USE_WINDOW_MS
    }

    /// No report of this kind is later than `now_ms`.
    pub open spec fn up_to(self, slot: Slot, now_ms: u64) -> bool {
        self.last(slot) matches Some(at) ==> at <= now_ms
    }

    /// Nothing seen yet.
    pub fn new() -> (activity: Activity)
        ensures
            forall|slot: Slot| #[trigger] activity.last(slot) is None,
    {
        Activity { motion_ms: None, discrete_ms: None, key_ms: None }
    }

    /// Notes a report.
    pub fn touch(&mut self, slot: Slot, now_ms: u64)
        ensures
            final(self).last(slot) == Some(now_ms),
            forall|other: Slot| other != slot ==> #[trigger] final(self).last(other) == old(
                self,
            ).last(other),
    {
        match slot {
            Slot::Motion => {
                self.motion_ms = Some(now_ms);
            },
            Slot::Discrete => {
                self.discrete_ms = Some(now_ms);
            },
            Slot::Key => {
                self.key_ms = Some(now_ms);
            },
        }
    }

    /// The time of the last report of a kind, where there was one.
    pub fn last_ms(&self, slot: Slot) -> (ms: Option<u64>)
        ensures
            ms == self.last(slot),
    {
        match slot {
            Slot::Motion => self.motion_ms,
            Slot::Discrete => self.discrete_ms,
            Slot::Key => self.key_ms,
        }
    }

    /// Whether a report of this kind was seen less than the window ago.
    pub fn recent(&self, slot: Slot, now_ms: u64) -> (yes: bool)
        requires
            self.up_to(slot, now_ms),
        ensures
            yes == self.in_use(slot, now_ms),
    {
        match self.last_ms(slot) {
            Some(at) => now_ms - at < IN_USE_WINDOW_MS,
            None => false,
        }
    }
}

/// A report counts as in use for exactly the window that follows it.
pub proof fn lemma_report_counts_for_the_window(a: Activity, slot: Slot, seen_ms: u64, now_ms: u64)
    requires
        a.last(slot) == Some(seen_ms),
        seen_ms <= now_ms,
    ensures
        a.in_use(slot, now_ms) <==> now_ms < seen_ms + IN_USE_WINDOW_MS,
{
}

/// Once a kind of report has fallen out of use it stays out until the next one.
pub proof fn lemma_use_lapses_for_good(a: Activity, slot: Slot, now_ms: u64, later_ms: u64)
    requires
        a.up_to(slot, now_ms),
        now_ms <= later_ms,
        !a.in_use(slot, now_ms),
    ensures
        !a.in_use(slot, later_ms),
{
}

/// Nothing counts as in use before its first report.
pub proof fn lemma_unseen_is_not_in_use(a: Activity, slot: Slot, now_ms: u64)
    requires
        a.last(slot) is None,
    ensures
        !a.in_use(slot, now_ms),
{
}

/// A report counts for a quarter of a second, and only for its own kind.
pub proof fn lemma_reports_count_for_a_quarter_second(
    a: Activity,
    slot: Slot,
    now_ms: u64,
    last: Option<u64>,
    yes: bool,
)
    requires
        a.up_to(slot, now_ms),
        call_ensures(Activity::last_ms, (&a, slot), last),
        call_ensures(Activity::recent, (&a, slot, now_ms), yes),
    ensures
        yes <==> (last matches Some(at) && now_ms < at + 250),
        last == (match slot {
            Slot::Motion => a.motion_ms,
            Slot::Discrete => a.discrete_ms,
            Slot::Key => a.key_ms,
        }),
{
}

/// Nothing was seen at the start.
pub proof fn lemma_nothing_is_seen_at_the_start(a: Activity)
    requires
        call_ensures(Activity::new, (), a),
    ensures
        a.motion_ms is None && a.discrete_ms is None && a.key_ms is None,
{
    assert(a.last(Slot::Motion) is None);
    assert(a.last(Slot::Discrete) is None);
    assert(a.last(Slot::Key) is None);
}

/// Noting a report is about its own kind and its own time.
pub proof fn lemma_reports_are_noted_apart(a: &mut Activity, slot: Slot, now_ms: u64)
    requires
        call_ensures(Activity::touch, (a, slot, now_ms), ()),
    ensures
        final(a).motion_ms == (if slot is Motion {
            Some(now_ms)
        } else {
            old(a).motion_ms
        }),
        final(a).discrete_ms == (if slot is Discrete {
            Some(now_ms)
        } else {
            old(a).discrete_ms
        }),
        final(a).key_ms == (if slot is Key {
            Some(now_ms)
        } else {
            old(a).key_ms
        }),
{
    assert(final(a).last(Slot::Motion) == final(a).motion_ms);
    assert(final(a).last(Slot::Discrete) == final(a).discrete_ms);
    assert(final(a).last(Slot::Key) == final(a).key_ms);
}

} // verus!

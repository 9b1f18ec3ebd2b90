//! Reading a burst of reports off one node: what each report means, and what is done about it.
//!
//! A burst is what the kernel already queued, so motion is summed over it and sent once. A click
//! or a wheel notch sends the motion before it first: it must land where the pointer already is.
use vstd::prelude::*;
use crate::activity::Slot;
use crate::device::Device;
use crate::events::{
    all_bytes, decode_events, events_in, events_in_read_back, ByteOrder, InputEventRaw, PAYLOAD_SIZE,
};
use crate::keyboard::{evdev_vk, raw_key_event, vk_from_evdev, wire_key, InputEvent};
use crate::node::{
    button_code, wire_button, EV_KEY, EV_REL, REL_HWHEEL, REL_WHEEL, REL_X, REL_Y,
};

verus! {

/// An event for the host.
#[derive(Clone, Copy, Debug, PartialEq, Eq)]
pub enum HidEvent {
    /// Relative motion, undamped.
    Move { dx: i32, dy: i32 },
    /// Wheel notches.
    Scroll { amount: i32, horizontal: bool },
    /// A button by its wire number.
    Button { button: u32, pressed: bool },
    Key { event: InputEvent },
}

/// Something to do about a report, in order.
#[derive(Clone, Copy, Debug, PartialEq, Eq)]
pub enum Effect {
    /// Note that a report of this kind was seen.
    Touch(Slot),
    /// Send an event to the host.
    Send(HidEvent),
}

/// What a report means to this device.
#[derive(Clone, Copy, Debug, PartialEq, Eq, Structural)]
pub enum Meaning {
    Nothing,
    MoveX(i32),
    MoveY(i32),
    Wheel { amount: i32, horizontal: bool },
    Button { button: u32, pressed: bool },
    Key { vk: u32, pressed: bool },
}

/// What a report means to a device that is a mouse, a keyboard or both. The mouse half counts only
/// while the pointer is captured (`grab_mouse`). Keys and buttons go down with 1 and up with 0; 2
/// is the kernel's autorepeat and means nothing.
pub open spec fn meaning(
    ev: InputEventRaw,
    mouse: bool,
    keyboard: bool,
    grab_mouse: bool,
) -> Meaning {
    let pointer = mouse && grab_mouse;
    if ev.kind == EV_REL && pointer {
        if ev.code == REL_X {
            Meaning::MoveX(ev.value)
        } else if ev.code == REL_Y {
            Meaning::MoveY(ev.value)
        } else if ev.code == REL_WHEEL || ev.code == REL_HWHEEL {
            Meaning::Wheel { amount: ev.value, horizontal: ev.code == REL_HWHEEL }
        } else {
            Meaning::Nothing
        }
    } else if ev.kind == EV_KEY && (ev.value == 0 || ev.value == 1) {
        if pointer && wire_button(ev.code as int) is Some {
            Meaning::Button {
                button: wire_button(ev.code as int)->0 as u32,
                pressed: ev.value == 1,
            }
        } else if keyboard && evdev_vk(ev.code as int) is Some {
            Meaning::Key { vk: evdev_vk(ev.code as int)->0 as u32, pressed: ev.value == 1 }
        } else {
            Meaning::Nothing
        }
    } else {
        Meaning::Nothing
    }
}

/// The meanings of a burst, report by report.
pub open spec fn meanings(
    events: Seq<InputEventRaw>,
    mouse: bool,
    keyboard: bool,
    grab_mouse: bool,
) -> Seq<Meaning> {
    Seq::new(events.len(), |i: int| meaning(events[i], mouse, keyboard, grab_mouse))
}

/// Sending the motion pending on the two axes: one event, or none where nothing moved.
pub open spec fn flushed(pending: (int, int)) -> Seq<Effect> {
    if pending == (0int, 0int) {
        seq![]
    } else {
        seq![Effect::Send(HidEvent::Move { dx: pending.0 as i32, dy: pending.1 as i32 })]
    }
}

/// What one report does to the pending motion, and what it makes happen.
pub open spec fn step(pending: (int, int), m: Meaning) -> ((int, int), Seq<Effect>) {
    match m {
        Meaning::Nothing => (pending, seq![]),
        Meaning::MoveX(v) => ((pending.0 + v, pending.1), seq![Effect::Touch(Slot::Motion)]),
        Meaning::MoveY(v) => ((pending.0, pending.1 + v), seq![Effect::Touch(Slot::Motion)]),
        Meaning::Wheel { amount, horizontal } => (
            (0, 0),
            seq![Effect::Touch(Slot::Discrete)] + flushed(pending) + seq![
                Effect::Send(HidEvent::Scroll { amount, horizontal }),
            ],
        ),
        Meaning::Button { button, pressed } => (
            (0, 0),
            seq![Effect::Touch(Slot::Discrete)] + flushed(pending) + seq![
                Effect::Send(HidEvent::Button { button, pressed }),
            ],
        ),
        Meaning::Key { vk, pressed } => (
            pending,
            seq![
                Effect::Touch(Slot::Key),
                Effect::Send(HidEvent::Key { event: wire_key(vk, pressed) }),
            ],
        ),
    }
}

/// What a burst does, report after report.
pub open spec fn run(pending: (int, int), ms: Seq<Meaning>) -> ((int, int), Seq<Effect>)
    decreases ms.len(),
{
    if ms.len() == 0 {
        (pending, seq![])
    } else {
        let before = run(pending, ms.drop_last());
        let last = step(before.0, ms.last());
        (last.0, before.1 + last.1)
    }
}

/// Motion that the two 32-bit counters can hold.
pub open spec fn fits(pending: (int, int)) -> bool {
    i32::MIN <= pending.0 <= i32::MAX && i32::MIN <= pending.1 <= i32::MAX
}

/// The pending motion fits at every point of a burst.
pub open spec fn always_fits(pending: (int, int), ms: Seq<Meaning>) -> bool {
    forall|k: int| 0 <= k <= ms.len() ==> fits((#[trigger] run(pending, ms.take(k))).0)
}

proof fn run_step(pending: (int, int), ms: Seq<Meaning>, k: int)
    requires
        0 <= k < ms.len(),
    ensures
        run(pending, ms.take(k + 1)).0 == step(run(pending, ms.take(k)).0, ms[k]).0,
        run(pending, ms.take(k + 1)).1 == run(pending, ms.take(k)).1 + step(
            run(pending, ms.take(k)).0,
            ms[k],
        ).1,
{
    assert(ms.take(k + 1).drop_last() =~= ms.take(k));
    assert(ms.take(k + 1).last() == ms[k]);
}

/// A sum as a 32-bit counter holds it, in two's complement.
pub open spec fn wrapped(n: int) -> int {
    let r = n % 0x1_0000_0000;
    if r < 0x8000_0000 {
        r
    } else {
        r - 0x1_0000_0000
    }
}

/// What one report does where the counters wrap round.
pub open spec fn wrapping_step(pending: (int, int), m: Meaning) -> ((int, int), Seq<Effect>) {
    let (motion, effects) = step(pending, m);
    ((wrapped(motion.0), wrapped(motion.1)), effects)
}

/// What a burst does where the counters wrap round.
pub open spec fn run_wrapping(pending: (int, int), ms: Seq<Meaning>) -> ((int, int), Seq<Effect>)
    decreases ms.len(),
{
    if ms.len() == 0 {
        (pending, seq![])
    } else {
        let before = run_wrapping(pending, ms.drop_last());
        let last = wrapping_step(before.0, ms.last());
        (last.0, before.1 + last.1)
    }
}

/// A burst whose motion always fits does not wrap round.
pub proof fn lemma_fitting_bursts_do_not_wrap(pending: (int, int), ms: Seq<Meaning>)
    requires
        always_fits(pending, ms),
    ensures
        run_wrapping(pending, ms) == run(pending, ms),
    decreases ms.len(),
{
    if ms.len() > 0 {
        let head = ms.drop_last();
        assert forall|k: int| 0 <= k <= head.len() implies fits(
            (#[trigger] run(pending, head.take(k))).0,
        ) by {
            assert(head.take(k) =~= ms.take(k));
            assert(fits(run(pending, ms.take(k)).0));
        }
        lemma_fitting_bursts_do_not_wrap(pending, head);
        assert(ms.take(ms.len() as int) =~= ms);
        assert(fits(run(pending, ms.take(ms.len() as int)).0));
    }
}

/// What reading once from a node came to.
pub struct Drained {
    pub effects: Vec<Effect>,
    /// The buffer was full, so more may be waiting.
    pub again: bool,
}

/// What a read does to a device that a burst leads to `burst`: where the read filled the buffer, more
/// may follow and the motion stays pending; else the burst is over and its motion is sent.
pub open spec fn drains(
    before: Device,
    after: Device,
    burst: ((int, int), Seq<Effect>),
    full: bool,
    drained: Drained,
) -> bool {
    &&& after.same_but_motion(before)
    &&& drained.again == full
    &&& if full {
        after.pending() == burst.0 && drained.effects@ == burst.1
    } else {
        after.pending() == (0int, 0int) && drained.effects@ == burst.1 + flushed(burst.0)
    }
}

impl Device {
    /// The motion not yet sent.
    pub open spec fn pending(self) -> (int, int) {
        (self.dx as int, self.dy as int)
    }

    /// The same device, but for the motion not yet sent.
    pub open spec fn same_but_motion(self, other: Device) -> bool {
        &&& self.path == other.path
        &&& self.grabbed == other.grabbed
        &&& self.grab_warned_for == other.grab_warned_for
        &&& self.mouse == other.mouse
        &&& self.keyboard == other.keyboard
    }

    /// What a burst means to this device.
    pub open spec fn reads(self, events: Seq<InputEventRaw>, grab_mouse: bool) -> Seq<Meaning> {
        meanings(events, self.mouse, self.keyboard, grab_mouse)
    }

    /// What a report means to this device.
    pub fn interpret(&self, ev: InputEventRaw, grab_mouse: bool) -> (m: Meaning)
        ensures
            m == meaning(ev, self.mouse, self.keyboard, grab_mouse),
    {
        match ev.kind {
            EV_REL if self.mouse && grab_mouse => match ev.code {
                REL_X => Meaning::MoveX(ev.value),
                REL_Y => Meaning::MoveY(ev.value),
                REL_WHEEL | REL_HWHEEL => Meaning::Wheel {
                    amount: ev.value,
                    horizontal: ev.code == REL_HWHEEL,
                },
                _ => Meaning::Nothing,
            },
            EV_KEY if ev.value == 0 || ev.value == 1 => {
                if grab_mouse && self.mouse {
                    if let Some(button) = button_code(ev.code) {
                        return Meaning::Button { button, pressed: ev.value == 1 };
                    }
                }
                if self.keyboard {
                    if let Some(vk) = vk_from_evdev(ev.code) {
                        return Meaning::Key { vk, pressed: ev.value == 1 };
                    }
                }
                Meaning::Nothing
            },
            _ => Meaning::Nothing,
        }
    }

    /// Sends the pending motion as one event, where there is any.
    pub fn flush_motion(&mut self, effects: &mut Vec<Effect>)
        ensures
            final(self).same_but_motion(*old(self)),
            final(self).pending() == (0int, 0int),
            final(effects)@ == old(effects)@ + flushed(old(self).pending()),
    {
        if self.dx == 0 && self.dy == 0 {
            assert(effects@ + flushed(self.pending()) =~= effects@);
            return;
        }
        effects.push(Effect::Send(HidEvent::Move { dx: self.dx, dy: self.dy }));
        self.dx = 0;
        self.dy = 0;
    }

    /// Acts on one report.
    fn take_report(&mut self, m: Meaning, effects: &mut Vec<Effect>)
        ensures
            final(self).same_but_motion(*old(self)),
            final(self).pending() == wrapping_step(old(self).pending(), m).0,
            final(effects)@ == old(effects)@ + wrapping_step(old(self).pending(), m).1,
    {
        match m {
            Meaning::Nothing => {
                assert(effects@ + Seq::<Effect>::empty() =~= effects@);
            },
            Meaning::MoveX(v) => {
                effects.push(Effect::Touch(Slot::Motion));
                self.dx = self.dx.wrapping_add(v);
            },
            Meaning::MoveY(v) => {
                effects.push(Effect::Touch(Slot::Motion));
                self.dy = self.dy.wrapping_add(v);
            },
            Meaning::Wheel { amount, horizontal } => {
                effects.push(Effect::Touch(Slot::Discrete));
                self.flush_motion(effects);
                effects.push(Effect::Send(HidEvent::Scroll { amount, horizontal }));
            },
            Meaning::Button { button, pressed } => {
                effects.push(Effect::Touch(Slot::Discrete));
                self.flush_motion(effects);
                effects.push(Effect::Send(HidEvent::Button { button, pressed }));
            },
            Meaning::Key { vk, pressed } => {
                effects.push(Effect::Touch(Slot::Key));
                effects.push(Effect::Send(HidEvent::Key { event: raw_key_event(vk, pressed) }));
            },
        }
    }

    /// Acts on the reports of a burst in order. Motion at the end of it stays pending.
    pub fn take_burst(
        &mut self,
        events: &Vec<InputEventRaw>,
        grab_mouse: bool,
        effects: &mut Vec<Effect>,
    )
        requires
            always_fits(old(self).pending(), old(self).reads(events@, grab_mouse)),
        ensures
            final(self).same_but_motion(*old(self)),
            final(self).pending() == run(
                old(self).pending(),
                old(self).reads(events@, grab_mouse),
            ).0,
            final(effects)@ == old(effects)@ + run(
                old(self).pending(),
                old(self).reads(events@, grab_mouse),
            ).1,
    {
        proof {
            lemma_fitting_bursts_do_not_wrap(self.pending(), self.reads(events@, grab_mouse));
        }
        self.take_burst_wrapping(events, grab_mouse, effects);
    }

    /// Acts on the reports of a burst in order, also where the counters wrap round.
    pub fn take_burst_wrapping(
        &mut self,
        events: &Vec<InputEventRaw>,
        grab_mouse: bool,
        effects: &mut Vec<Effect>,
    )
        ensures
            final(self).same_but_motion(*old(self)),
            final(self).pending() == run_wrapping(
                old(self).pending(),
                old(self).reads(events@, grab_mouse),
            ).0,
            final(effects)@ == old(effects)@ + run_wrapping(
                old(self).pending(),
                old(self).reads(events@, grab_mouse),
            ).1,
    {
        let ghost start = self.pending();
        let ghost ms = self.reads(events@, grab_mouse);
        let mut i: usize = 0;
        assert(ms.take(0) =~= seq![]);
        assert(effects@ + run_wrapping(start, ms.take(0)).1 =~= effects@);
        while i < events.len()
            invariant
                i <= events@.len(),
                ms == old(self).reads(events@, grab_mouse),
                start == old(self).pending(),
                self.same_but_motion(*old(self)),
                self.pending() == run_wrapping(start, ms.take(i as int)).0,
                effects@ == old(effects)@ + run_wrapping(start, ms.take(i as int)).1,
            decreases events.len() - i,
        {
            let m: Meaning = self.interpret(events[i], grab_mouse);
            self.take_report(m, effects);
            proof {
                let done = run_wrapping(start, ms.take(i as int));
                assert(ms.take(i + 1).drop_last() =~= ms.take(i as int));
                assert(ms.take(i + 1).last() == m);
                assert(old(effects)@ + done.1 + wrapping_step(done.0, m).1 =~= old(effects)@ + (
                done.1 + wrapping_step(done.0, m).1));
            }
            i = i + 1;
        }
        assert(ms.take(i as int) =~= ms);
    }

    /// Whether the counters can hold the pending motion at every point of a burst.
    pub fn burst_fits(&self, events: &Vec<InputEventRaw>, grab_mouse: bool) -> (yes: bool)
        ensures
            yes == always_fits(self.pending(), self.reads(events@, grab_mouse)),
    {
        let ghost ms = self.reads(events@, grab_mouse);
        let ghost start = self.pending();
        let mut dx: i64 = self.dx as i64;
        let mut dy: i64 = self.dy as i64;
        let mut i: usize = 0;
        assert(ms.take(0) =~= seq![]);
        while i < events.len()
            invariant
                i <= events@.len(),
                ms == self.reads(events@, grab_mouse),
                start == self.pending(),
                (dx as int, dy as int) == run(start, ms.take(i as int)).0,
                forall|k: int| 0 <= k <= i ==> fits((#[trigger] run(start, ms.take(k))).0),
            decreases events.len() - i,
        {
            proof {
                run_step(start, ms, i as int);
                assert(fits(run(start, ms.take(i as int)).0));
            }
            match self.interpret(events[i], grab_mouse) {
                Meaning::MoveX(v) => {
                    dx = dx + v as i64;
                },
                Meaning::MoveY(v) => {
                    dy = dy + v as i64;
                },
                Meaning::Wheel { .. } | Meaning::Button { .. } => {
                    dx = 0;
                    dy = 0;
                },
                Meaning::Key { .. } | Meaning::Nothing => {},
            }
            if dx < -0x8000_0000 || dx > 0x7FFF_FFFF || dy < -0x8000_0000 || dy > 0x7FFF_FFFF {
                assert(!fits(run(start, ms.take(i + 1)).0));
                return false;
            }
            i = i + 1;
        }
        true
    }

    /// Acts on what one read from the node gave: `n` bytes at the front of `buf`, or none where
    /// nothing is left to read or the node is gone (`n` not positive). Where the read did not fill
    /// the buffer, the burst is over and its motion is sent.
    pub fn read_device(
        &mut self,
        n: isize,
        buf: &[u8],
        stamp: usize,
        order: ByteOrder,
        grab_mouse: bool,
    ) -> (drained: Drained)
        requires
            n <= buf@.len(),
            stamp + PAYLOAD_SIZE <= usize::MAX,
            always_fits(
                old(self).pending(),
                old(self).reads(read_events(n, buf@, stamp as int, order), grab_mouse),
            ),
        ensures
            drains(
                *old(self),
                *final(self),
                run(
                    old(self).pending(),
                    old(self).reads(read_events(n, buf@, stamp as int, order), grab_mouse),
                ),
                n > 0 && n == buf@.len(),
                drained,
            ),
    {
        proof {
            lemma_fitting_bursts_do_not_wrap(
                self.pending(),
                self.reads(read_events(n, buf@, stamp as int, order), grab_mouse),
            );
        }
        self.read_device_wrapping(n, buf, stamp, order, grab_mouse)
    }

    /// Acts on what one read from the node gave, also where the counters wrap round.
    pub fn read_device_wrapping(
        &mut self,
        n: isize,
        buf: &[u8],
        stamp: usize,
        order: ByteOrder,
        grab_mouse: bool,
    ) -> (drained: Drained)
        requires
            n <= buf@.len(),
            stamp + PAYLOAD_SIZE <= usize::MAX,
        ensures
            drains(
                *old(self),
                *final(self),
                run_wrapping(
                    old(self).pending(),
                    old(self).reads(read_events(n, buf@, stamp as int, order), grab_mouse),
                ),
                n > 0 && n == buf@.len(),
                drained,
            ),
    {
        let mut effects: Vec<Effect> = Vec::new();
        if n <= 0 {
            self.flush_motion(&mut effects);
            return Drained { effects, again: false };
        }
        let len: usize = n as usize;
        let events: Vec<InputEventRaw> = decode_events(
            vstd::slice::slice_subrange(buf, 0, len),
            stamp,
            order,
        );
        assert(buf@.subrange(0, len as int) =~= buf@.take(n as int));
        self.take_burst_wrapping(&events, grab_mouse, &mut effects);
        if len < buf.len() {
            self.flush_motion(&mut effects);
            return Drained { effects, again: false };
        }
        Drained { effects, again: true }
    }
}

/// The events that a read of `n` bytes gave.
pub open spec fn read_events(
    n: isize,
    buf: Seq<u8>,
    stamp: int,
    order: ByteOrder,
) -> Seq<InputEventRaw> {
    if n <= 0 {
        seq![]
    } else {
        events_in(buf.take(n as int), stamp, order)
    }
}

/// The motion that the effects send, summed on each axis.
pub open spec fn sent(effects: Seq<Effect>) -> (int, int)
    decreases effects.len(),
{
    if effects.len() == 0 {
        (0, 0)
    } else {
        let before = sent(effects.drop_last());
        match effects.last() {
            Effect::Send(HidEvent::Move { dx, dy }) => (before.0 + dx, before.1 + dy),
            _ => before,
        }
    }
}

/// Motion on each axis, added up.
pub open spec fn plus(a: (int, int), b: (int, int)) -> (int, int) {
    (a.0 + b.0, a.1 + b.1)
}

/// The motion that a report carries.
pub open spec fn carried(m: Meaning) -> (int, int) {
    match m {
        Meaning::MoveX(v) => (v as int, 0),
        Meaning::MoveY(v) => (0, v as int),
        _ => (0, 0),
    }
}

/// The motion that the reports carry, summed on each axis.
pub open spec fn reported(ms: Seq<Meaning>) -> (int, int)
    decreases ms.len(),
{
    if ms.len() == 0 {
        (0, 0)
    } else {
        plus(reported(ms.drop_last()), carried(ms.last()))
    }
}

proof fn sent_of_push(effects: Seq<Effect>, e: Effect)
    ensures
        sent(effects.push(e)) == (match e {
            Effect::Send(HidEvent::Move { dx, dy }) => plus(
                sent(effects),
                (dx as int, dy as int),
            ),
            _ => sent(effects),
        }),
{
    assert(effects.push(e).drop_last() =~= effects);
}

proof fn sent_of_flush(effects: Seq<Effect>, pending: (int, int))
    requires
        fits(pending),
    ensures
        sent(effects + flushed(pending)) == plus(sent(effects), pending),
{
    if pending == (0int, 0int) {
        assert(effects + flushed(pending) =~= effects);
    } else {
        let e = Effect::Send(HidEvent::Move { dx: pending.0 as i32, dy: pending.1 as i32 });
        assert(effects + flushed(pending) =~= effects.push(e));
        sent_of_push(effects, e);
    }
}

proof fn sent_of_step(effects: Seq<Effect>, pending: (int, int), m: Meaning)
    requires
        fits(pending),
    ensures
        plus(sent(effects + step(pending, m).1), step(pending, m).0) == plus(
            plus(sent(effects), pending),
            carried(m),
        ),
{
    match m {
        Meaning::Nothing => {
            assert(effects + step(pending, m).1 =~= effects);
        },
        Meaning::MoveX(_) | Meaning::MoveY(_) => {
            let touch = Effect::Touch(Slot::Motion);
            assert(effects + step(pending, m).1 =~= effects.push(touch));
            sent_of_push(effects, touch);
        },
        Meaning::Wheel { amount, horizontal } => {
            let touch = Effect::Touch(Slot::Discrete);
            let last = Effect::Send(HidEvent::Scroll { amount, horizontal });
            let flush = effects.push(touch) + flushed(pending);
            assert(effects + step(pending, m).1 =~= flush.push(last));
            sent_of_push(effects, touch);
            sent_of_flush(effects.push(touch), pending);
            sent_of_push(flush, last);
        },
        Meaning::Button { button, pressed } => {
            let touch = Effect::Touch(Slot::Discrete);
            let last = Effect::Send(HidEvent::Button { button, pressed });
            let flush = effects.push(touch) + flushed(pending);
            assert(effects + step(pending, m).1 =~= flush.push(last));
            sent_of_push(effects, touch);
            sent_of_flush(effects.push(touch), pending);
            sent_of_push(flush, last);
        },
        Meaning::Key { vk, pressed } => {
            let touch = Effect::Touch(Slot::Key);
            let last = Effect::Send(HidEvent::Key { event: wire_key(vk, pressed) });
            assert(effects + step(pending, m).1 =~= effects.push(touch).push(last));
            sent_of_push(effects, touch);
            sent_of_push(effects.push(touch), last);
        },
    }
}

/// Motion is neither lost nor made up: what a burst sends, with what it leaves pending, is what
/// was pending before it and what its reports carry.
pub proof fn lemma_motion_is_conserved(pending: (int, int), ms: Seq<Meaning>)
    requires
        always_fits(pending, ms),
    ensures
        plus(sent(run(pending, ms).1), run(pending, ms).0) == plus(pending, reported(ms)),
    decreases ms.len(),
{
    if ms.len() > 0 {
        let head = ms.drop_last();
        assert forall|k: int| 0 <= k <= head.len() implies fits(
            (#[trigger] run(pending, head.take(k))).0,
        ) by {
            assert(head.take(k) =~= ms.take(k));
        }
        lemma_motion_is_conserved(pending, head);
        assert(head =~= ms.take(ms.len() - 1));
        assert(fits(run(pending, ms.take(ms.len() - 1)).0));
        sent_of_step(run(pending, head).1, run(pending, head).0, ms.last());
    }
}

/// Two numbers that a 32-bit counter cannot tell apart.
pub open spec fn same_wrapped(a: int, b: int) -> bool {
    (a - b) % 0x1_0000_0000 == 0
}

proof fn wrapping_is_not_seen(n: int)
    ensures
        same_wrapped(wrapped(n), n),
        i32::MIN <= wrapped(n) <= i32::MAX,
{
}

proof fn wrapping_adds_up(all: int, out: int, more: int, kept: int)
    requires
        same_wrapped(out, all),
        same_wrapped(kept, more),
    ensures
        same_wrapped(out - more + kept, all),
{
}

/// Where the counters wrap round, motion is still conserved as far as they can tell.
pub proof fn lemma_wrapped_motion_is_conserved(pending: (int, int), ms: Seq<Meaning>)
    requires
        fits(pending),
    ensures
        ({
            let (left, effects) = run_wrapping(pending, ms);
            let out = plus(sent(effects), left);
            let all = plus(pending, reported(ms));
            &&& fits(left)
            &&& same_wrapped(out.0, all.0)
            &&& same_wrapped(out.1, all.1)
        }),
    decreases ms.len(),
{
    if ms.len() > 0 {
        let head = ms.drop_last();
        let m = ms.last();
        lemma_wrapped_motion_is_conserved(pending, head);
        let (left, effects) = run_wrapping(pending, head);
        sent_of_step(effects, left, m);
        let (motion, more) = step(left, m);
        let now = sent(effects + more);
        let all = plus(pending, reported(ms));
        let before = plus(sent(effects), left);
        assert(plus(now, motion) == plus(before, carried(m)));
        assert(all == plus(plus(pending, reported(head)), carried(m)));
        wrapping_is_not_seen(motion.0);
        wrapping_is_not_seen(motion.1);
        wrapping_adds_up(all.0, now.0 + motion.0, motion.0, wrapped(motion.0));
        wrapping_adds_up(all.1, now.1 + motion.1, motion.1, wrapped(motion.1));
    } else {
        assert(sent(seq![]) == (0int, 0int));
    }
}

/// A read that ends a burst sends all the motion there is: what was pending before it and what
/// its reports carry.
pub proof fn lemma_end_of_burst_sends_all_motion(pending: (int, int), ms: Seq<Meaning>)
    requires
        always_fits(pending, ms),
    ensures
        sent(run(pending, ms).1 + flushed(run(pending, ms).0)) == plus(pending, reported(ms)),
{
    lemma_motion_is_conserved(pending, ms);
    assert(ms.take(ms.len() as int) =~= ms);
    assert(fits(run(pending, ms.take(ms.len() as int)).0));
    sent_of_flush(run(pending, ms).1, run(pending, ms).0);
}

/// A click or a wheel notch lands where the pointer already is: by the time it is sent, as the
/// last thing its report does, all the motion reported before it has been sent.
pub proof fn lemma_clicks_land_where_the_pointer_is(pending: (int, int), ms: Seq<Meaning>)
    requires
        always_fits(pending, ms),
        ms.len() > 0,
        ms.last() is Button || ms.last() is Wheel,
    ensures
        ms.last() matches Meaning::Button { button, pressed } ==> run(pending, ms).1.last()
            == Effect::Send(HidEvent::Button { button, pressed }),
        ms.last() matches Meaning::Wheel { amount, horizontal } ==> run(pending, ms).1.last()
            == Effect::Send(HidEvent::Scroll { amount, horizontal }),
        sent(run(pending, ms).1.drop_last()) == plus(pending, reported(ms.drop_last())),
        run(pending, ms).0 == (0int, 0int),
{
    lemma_motion_is_conserved(pending, ms);
    let all = run(pending, ms).1;
    assert(all.drop_last().push(all.last()) =~= all);
    sent_of_push(all.drop_last(), all.last());
}

/// Without capture no pointer event is sent, however the mouse moves and clicks: the compositor
/// keeps the pointer.
pub proof fn lemma_no_pointer_events_without_capture(
    events: Seq<InputEventRaw>,
    mouse: bool,
    keyboard: bool,
)
    ensures
        run((0, 0), meanings(events, mouse, keyboard, false)).0 == (0int, 0int),
        forall|i: int|
            0 <= i < run((0, 0), meanings(events, mouse, keyboard, false)).1.len() ==> ((
            #[trigger] run((0, 0), meanings(events, mouse, keyboard, false)).1[i]) matches
                Effect::Send(ev) ==> ev is Key),
    decreases events.len(),
{
    if events.len() > 0 {
        let ms = meanings(events, mouse, keyboard, false);
        assert(ms.drop_last() =~= meanings(events.drop_last(), mouse, keyboard, false));
        lemma_no_pointer_events_without_capture(events.drop_last(), mouse, keyboard);
    }
}

/// It does not matter how the kernel cuts a burst into reads: two bursts in a row do what one
/// burst of all their reports does.
pub proof fn lemma_bursts_join(pending: (int, int), first: Seq<Meaning>, second: Seq<Meaning>)
    ensures
        run(pending, first + second).0 == run(run(pending, first).0, second).0,
        run(pending, first + second).1 == run(pending, first).1 + run(
            run(pending, first).0,
            second,
        ).1,
    decreases second.len(),
{
    if second.len() == 0 {
        assert(first + second =~= first);
        assert(run(pending, first).1 + Seq::<Effect>::empty() =~= run(pending, first).1);
    } else {
        let head = second.drop_last();
        lemma_bursts_join(pending, first, head);
        assert((first + second).drop_last() =~= first + head);
        let mid = run(pending, first);
        let last = step(run(mid.0, head).0, second.last());
        assert((mid.1 + run(mid.0, head).1) + last.1 =~= mid.1 + (run(mid.0, head).1 + last.1));
    }
}

/// The kernel's autorepeat never reaches the host.
pub proof fn lemma_autorepeat_means_nothing(
    ev: InputEventRaw,
    mouse: bool,
    keyboard: bool,
    grab_mouse: bool,
)
    requires
        ev.kind == EV_KEY,
        ev.value == 2,
    ensures
        meaning(ev, mouse, keyboard, grab_mouse) is Nothing,
{
}

/// What a report tells of a device, from the kernel's own numbers: relative events are type 2, with
/// X, Y and the two wheels at 0, 1, 8 and 6; keys and buttons are type 1, down at 1 and up at 0, with
/// the buttons from 0x110 (left, right, middle, side, extra). The pointer half counts only for a
/// captured mouse, and keys only for a keyboard.
pub open spec fn tells(ev: InputEventRaw, captured: bool, keyboard: bool, m: Meaning) -> bool {
    let clicks = ev.kind == 1 && (ev.value == 0 || ev.value == 1);
    let on_button = 0x110 <= ev.code <= 0x114;
    &&& m is MoveX <==> captured && ev.kind == 2 && ev.code == 0
    &&& m is MoveY <==> captured && ev.kind == 2 && ev.code == 1
    &&& m is Wheel <==> captured && ev.kind == 2 && (ev.code == 8 || ev.code == 6)
    &&& m is Button <==> captured && clicks && on_button
    &&& m is Key <==> keyboard && clicks && !on_button && evdev_vk(ev.code as int) is Some
    &&& m matches Meaning::MoveX(v) ==> v == ev.value
    &&& m matches Meaning::MoveY(v) ==> v == ev.value
    &&& m matches Meaning::Wheel { amount, horizontal } ==> amount == ev.value && (horizontal
        <==> ev.code == 6)
    &&& m matches Meaning::Button { button, pressed } ==> {
        &&& pressed <==> ev.value == 1
        &&& !pressed <==> ev.value == 0
        &&& ev.code == 0x110 ==> button == 1
        &&& ev.code == 0x111 ==> button == 3
        &&& ev.code == 0x112 ==> button == 2
        &&& ev.code == 0x113 ==> button == 4
        &&& ev.code == 0x114 ==> button == 5
    }
    &&& m matches Meaning::Key { vk, pressed } ==> {
        &&& pressed <==> ev.value == 1
        &&& !pressed <==> ev.value == 0
        &&& forall|found: Option<u32>| #[trigger]
            call_ensures(vk_from_evdev, (ev.code,), found) ==> found == Some(vk)
    }
}

/// A device reads a report as what it tells.
pub proof fn lemma_reports_are_read_as_told(
    dev: Device,
    ev: InputEventRaw,
    grab_mouse: bool,
    m: Meaning,
)
    requires
        call_ensures(Device::interpret, (&dev, ev, grab_mouse), m),
    ensures
        tells(ev, dev.mouse && grab_mouse, dev.keyboard, m),
{
    meaning_is_told(ev, dev.mouse, dev.keyboard, grab_mouse);
}

/// A device reads a burst report by report, none left out and each as what it tells.
pub proof fn lemma_bursts_are_read_as_told(dev: Device, events: Seq<InputEventRaw>, grab_mouse: bool)
    ensures
        dev.reads(events, grab_mouse).len() == events.len(),
        forall|i: int|
            0 <= i < events.len() ==> tells(
                events[i],
                dev.mouse && grab_mouse,
                dev.keyboard,
                #[trigger] dev.reads(events, grab_mouse)[i],
            ),
{
    assert forall|i: int| 0 <= i < events.len() implies tells(
        events[i],
        dev.mouse && grab_mouse,
        dev.keyboard,
        #[trigger] dev.reads(events, grab_mouse)[i],
    ) by {
        meaning_is_told(events[i], dev.mouse, dev.keyboard, grab_mouse);
    }
}

proof fn meaning_is_told(ev: InputEventRaw, mouse: bool, keyboard: bool, grab_mouse: bool)
    ensures
        tells(ev, mouse && grab_mouse, keyboard, meaning(ev, mouse, keyboard, grab_mouse)),
{
}

/// The events for the host among the effects, but for motion, in order.
pub open spec fn others(effects: Seq<Effect>) -> Seq<HidEvent>
    decreases effects.len(),
{
    if effects.len() == 0 {
        seq![]
    } else {
        match effects.last() {
            Effect::Send(ev) if !(ev is Move) => others(effects.drop_last()).push(ev),
            _ => others(effects.drop_last()),
        }
    }
}

/// How often the effects note a report of this kind.
pub open spec fn touches(effects: Seq<Effect>, slot: Slot) -> int
    decreases effects.len(),
{
    if effects.len() == 0 {
        0
    } else {
        touches(effects.drop_last(), slot) + if effects.last() == Effect::Touch(slot) {
            1int
        } else {
            0
        }
    }
}

/// What the host is owed for the reports of a burst, but for motion: every notch, click and key, in
/// order.
pub open spec fn owed(ms: Seq<Meaning>) -> Seq<HidEvent>
    decreases ms.len(),
{
    if ms.len() == 0 {
        seq![]
    } else {
        let before = owed(ms.drop_last());
        match ms.last() {
            Meaning::Wheel { amount, horizontal } => before.push(
                HidEvent::Scroll { amount, horizontal },
            ),
            Meaning::Button { button, pressed } => before.push(HidEvent::Button { button, pressed }),
            Meaning::Key { vk, pressed } => before.push(
                HidEvent::Key { event: wire_key(vk, pressed) },
            ),
            _ => before,
        }
    }
}

/// How many reports of a burst are of this kind.
pub open spec fn count_of(ms: Seq<Meaning>, slot: Slot) -> int
    decreases ms.len(),
{
    if ms.len() == 0 {
        0
    } else {
        let last = ms.last();
        let is_one = match slot {
            Slot::Motion => last is MoveX || last is MoveY,
            Slot::Discrete => last is Wheel || last is Button,
            Slot::Key => last is Key,
        };
        count_of(ms.drop_last(), slot) + if is_one {
            1int
        } else {
            0
        }
    }
}

proof fn effects_join(a: Seq<Effect>, b: Seq<Effect>, slot: Slot)
    ensures
        others(a + b) == others(a) + others(b),
        touches(a + b, slot) == touches(a, slot) + touches(b, slot),
    decreases b.len(),
{
    if b.len() == 0 {
        assert(a + b =~= a);
        assert(others(a) + others(b) =~= others(a));
    } else {
        assert((a + b).drop_last() =~= a + b.drop_last());
        effects_join(a, b.drop_last(), slot);
        assert(others(a + b) =~= others(a) + others(b));
    }
}

proof fn others_of_few(a: Effect, b: Effect, slot: Slot)
    ensures
        others(seq![]) == Seq::<HidEvent>::empty(),
        touches(seq![], slot) == 0,
        others(seq![a]) == (match a {
            Effect::Send(ev) if !(ev is Move) => seq![ev],
            _ => seq![],
        }),
        touches(seq![a], slot) == (if a == Effect::Touch(slot) {
            1int
        } else {
            0
        }),
        others(seq![a, b]) == others(seq![a]) + others(seq![b]),
        touches(seq![a, b], slot) == touches(seq![a], slot) + touches(seq![b], slot),
{
    let one = seq![a];
    assert(one.drop_last() =~= Seq::empty());
    assert(others(Seq::empty()) =~= seq![]);
    assert(touches(Seq::empty(), slot) == 0);
    assert(others(one) =~= match a {
        Effect::Send(ev) if !(ev is Move) => seq![ev],
        _ => seq![],
    });
    assert(seq![a, b] =~= seq![a] + seq![b]);
    effects_join(seq![a], seq![b], slot);
}

proof fn step_delivers(pending: (int, int), m: Meaning, slot: Slot)
    ensures
        others(step(pending, m).1) == owed(seq![m]),
        touches(step(pending, m).1, slot) == count_of(seq![m], slot),
{
    let effects = step(pending, m).1;
    let ms = seq![m];
    assert(ms.drop_last() =~= Seq::empty());
    assert(owed(Seq::empty()) =~= seq![]);
    assert(count_of(Seq::empty(), slot) == 0);
    match m {
        Meaning::Wheel { amount, horizontal } => {
            let note = Effect::Touch(Slot::Discrete);
            let send = Effect::Send(HidEvent::Scroll { amount, horizontal });
            click_delivers(pending, note, send, slot);
        },
        Meaning::Button { button, pressed } => {
            let note = Effect::Touch(Slot::Discrete);
            let send = Effect::Send(HidEvent::Button { button, pressed });
            click_delivers(pending, note, send, slot);
        },
        Meaning::Key { vk, pressed } => {
            others_of_few(effects[0], effects[1], slot);
            others_of_few(effects[1], effects[1], slot);
        },
        Meaning::MoveX(_) | Meaning::MoveY(_) => {
            others_of_few(effects[0], effects[0], slot);
        },
        Meaning::Nothing => {
            others_of_few(Effect::Touch(slot), Effect::Touch(slot), slot);
        },
    }
    assert(others(effects) =~= owed(ms));
}

proof fn click_delivers(pending: (int, int), note: Effect, send: Effect, slot: Slot)
    requires
        note is Touch,
        send matches Effect::Send(ev) && !(ev is Move),
    ensures
        ({
            let effects = seq![note] + flushed(pending) + seq![send];
            &&& send matches Effect::Send(ev) && others(effects) == seq![ev]
            &&& touches(effects, slot) == (if note == Effect::Touch(slot) {
                1int
            } else {
                0
            })
        }),
{
    let flush = flushed(pending);
    let motion = Effect::Send(HidEvent::Move { dx: pending.0 as i32, dy: pending.1 as i32 });
    others_of_few(note, note, slot);
    others_of_few(send, send, slot);
    others_of_few(motion, motion, slot);
    effects_join(seq![note], flush, slot);
    effects_join(seq![note] + flush, seq![send], slot);
    assert(others(flush) =~= seq![]);
    assert(touches(flush, slot) == 0);
    assert(others(seq![note] + flush + seq![send]) =~= others(seq![send]));
}

proof fn owed_joins(ms: Seq<Meaning>, slot: Slot)
    requires
        ms.len() > 0,
    ensures
        owed(ms) == owed(ms.drop_last()) + owed(seq![ms.last()]),
        count_of(ms, slot) == count_of(ms.drop_last(), slot) + count_of(seq![ms.last()], slot),
{
    let one = seq![ms.last()];
    assert(one.drop_last() =~= Seq::empty());
    assert(owed(Seq::empty()) =~= seq![]);
    assert(count_of(Seq::empty(), slot) == 0);
    assert(owed(ms) =~= owed(ms.drop_last()) + owed(one));
}

/// The host gets what it is owed for the reports of a burst, in order, and each report is noted once
/// under its own kind. Counters that wrap round change nothing about that.
pub proof fn lemma_host_gets_what_it_is_owed(pending: (int, int), ms: Seq<Meaning>, slot: Slot)
    ensures
        others(run(pending, ms).1) == owed(ms),
        others(run_wrapping(pending, ms).1) == owed(ms),
        touches(run(pending, ms).1, slot) == count_of(ms, slot),
        touches(run_wrapping(pending, ms).1, slot) == count_of(ms, slot),
    decreases ms.len(),
{
    if ms.len() > 0 {
        let head = ms.drop_last();
        lemma_host_gets_what_it_is_owed(pending, head, slot);
        owed_joins(ms, slot);
        let a = run(pending, head);
        step_delivers(a.0, ms.last(), slot);
        effects_join(a.1, step(a.0, ms.last()).1, slot);
        let b = run_wrapping(pending, head);
        step_delivers(b.0, ms.last(), slot);
        effects_join(b.1, step(b.0, ms.last()).1, slot);
    } else {
        others_of_few(Effect::Touch(slot), Effect::Touch(slot), slot);
    }
}

/// Nothing of a read is lost: the host gets what it is owed for its reports, the motion that was
/// pending or reported is either sent or still pending, and nothing is pending once the burst is
/// over.
pub proof fn lemma_reads_lose_nothing(
    before: Device,
    after: Device,
    ms: Seq<Meaning>,
    full: bool,
    drained: Drained,
    slot: Slot,
)
    requires
        always_fits(before.pending(), ms),
        drains(before, after, run(before.pending(), ms), full, drained),
    ensures
        others(drained.effects@) == owed(ms),
        touches(drained.effects@, slot) == count_of(ms, slot),
        plus(sent(drained.effects@), after.pending()) == plus(before.pending(), reported(ms)),
        !full ==> after.pending() == (0int, 0int),
        drained.again <==> full,
        after.path == before.path && after.mouse == before.mouse && after.keyboard
            == before.keyboard && after.grabbed == before.grabbed,
{
    let burst = run(before.pending(), ms);
    let left = burst.0;
    lemma_host_gets_what_it_is_owed(before.pending(), ms, slot);
    lemma_motion_is_conserved(before.pending(), ms);
    if !full {
        assert(ms.take(ms.len() as int) =~= ms);
        assert(fits(run(before.pending(), ms.take(ms.len() as int)).0));
        sent_of_flush(burst.1, burst.0);
        let motion = Effect::Send(
            HidEvent::Move { dx: left.0 as i32, dy: left.1 as i32 },
        );
        others_of_few(motion, motion, slot);
        effects_join(burst.1, flushed(burst.0), slot);
        assert(others(flushed(burst.0)) =~= seq![]);
        assert(others(drained.effects@) =~= owed(ms));
    }
}

/// A click of a captured mouse goes down and comes up: a press report and a release report of one
/// button send that button down and then up.
pub proof fn lemma_clicks_go_down_and_up(
    dev: Device,
    press: InputEventRaw,
    release: InputEventRaw,
    button: u32,
)
    requires
        dev.mouse,
        press.kind == 1 && release.kind == 1,
        press.value == 1 && release.value == 0,
        press.code == release.code,
        call_ensures(button_code, (press.code,), Some(button)),
        0x110 <= press.code <= 0x114,
    ensures
        owed(dev.reads(seq![press, release], true)) == seq![
            HidEvent::Button { button, pressed: true },
            HidEvent::Button { button, pressed: false },
        ],
{
    let ms = dev.reads(seq![press, release], true);
    lemma_bursts_are_read_as_told(dev, seq![press, release], true);
    assert(tells(press, true, dev.keyboard, ms[0]));
    assert(tells(release, true, dev.keyboard, ms[1]));
    assert(ms.drop_last().drop_last() =~= Seq::empty());
    assert(owed(Seq::empty()) =~= seq![]);
    assert(owed(ms.drop_last()) =~= seq![HidEvent::Button { button, pressed: true }]);
    assert(owed(ms) =~= seq![
        HidEvent::Button { button, pressed: true },
        HidEvent::Button { button, pressed: false },
    ]);
}

/// The values of the reports on one relative axis, summed.
pub open spec fn axis_sum(events: Seq<InputEventRaw>, axis: u16) -> int
    decreases events.len(),
{
    if events.len() == 0 {
        0
    } else {
        let ev = events.last();
        axis_sum(events.drop_last(), axis) + if ev.kind == 2 && ev.code == axis {
            ev.value as int
        } else {
            0
        }
    }
}

/// The motion of a burst is what its reports add up to, X on X and Y on Y, for a captured mouse; else
/// there is none.
pub proof fn lemma_motion_is_what_was_reported(
    dev: Device,
    events: Seq<InputEventRaw>,
    grab_mouse: bool,
)
    ensures
        reported(dev.reads(events, grab_mouse)) == (if dev.mouse && grab_mouse {
            (axis_sum(events, 0), axis_sum(events, 1))
        } else {
            (0int, 0int)
        }),
    decreases events.len(),
{
    let ms = dev.reads(events, grab_mouse);
    if events.len() > 0 {
        let head = events.drop_last();
        lemma_motion_is_what_was_reported(dev, head, grab_mouse);
        assert(ms.drop_last() =~= dev.reads(head, grab_mouse));
        lemma_bursts_are_read_as_told(dev, events, grab_mouse);
        assert(tells(
            events.last(),
            dev.mouse && grab_mouse,
            dev.keyboard,
            ms[events.len() - 1],
        ));
    }
}

/// From the kernel to the host: a read of whole events gives the host what it is owed for just these,
/// sends their motion with what was pending or keeps it for the next read, and asks for another read
/// exactly where it filled the buffer. A read of nothing is the end of a burst.
pub proof fn lemma_reads_deliver_what_the_kernel_wrote(
    dev: &mut Device,
    n: isize,
    buf: &[u8],
    stamp: usize,
    order: ByteOrder,
    grab_mouse: bool,
    drained: Drained,
    stamps: Seq<Seq<u8>>,
    events: Seq<InputEventRaw>,
    tail: Seq<u8>,
)
    requires
        call_ensures(Device::read_device, (dev, n, buf, stamp, order, grab_mouse), drained),
        n <= buf@.len(),
        n <= 0 ==> events.len() == 0,
        n > 0 ==> buf@.take(n as int) == all_bytes(stamps, events, order) + tail,
        stamps.len() == events.len(),
        forall|k: int| 0 <= k < stamps.len() ==> (#[trigger] stamps[k]).len() == stamp,
        tail.len() < stamp + 8,
        always_fits(old(dev).pending(), old(dev).reads(events, grab_mouse)),
    ensures
        others(drained.effects@) == owed(old(dev).reads(events, grab_mouse)),
        ({
            let (x, y) = if old(dev).mouse && grab_mouse {
                (axis_sum(events, 0), axis_sum(events, 1))
            } else {
                (0int, 0int)
            };
            plus(sent(drained.effects@), final(dev).pending()) == plus(old(dev).pending(), (x, y))
        }),
        drained.again <==> n > 0 && n == buf@.len(),
        !drained.again ==> final(dev).pending() == (0int, 0int),
        final(dev).path == old(dev).path && final(dev).mouse == old(dev).mouse && final(dev).keyboard
            == old(dev).keyboard && final(dev).grabbed == old(dev).grabbed,
{
    let ms = old(dev).reads(events, grab_mouse);
    if n > 0 {
        events_in_read_back(buf@.take(n as int), stamps, events, tail, stamp as int, order);
    } else {
        assert(read_events(n, buf@, stamp as int, order) =~= events);
    }
    assert(read_events(n, buf@, stamp as int, order) == events);
    lemma_reads_lose_nothing(
        *old(dev),
        *final(dev),
        ms,
        n > 0 && n == buf@.len(),
        drained,
        Slot::Key,
    );
    lemma_motion_is_what_was_reported(*old(dev), events, grab_mouse);
}

/// The same where the counters wrap round, as far as they can tell.
pub proof fn lemma_wrapping_reads_deliver_too(
    dev: &mut Device,
    n: isize,
    buf: &[u8],
    stamp: usize,
    order: ByteOrder,
    grab_mouse: bool,
    drained: Drained,
    slot: Slot,
)
    requires
        call_ensures(
            Device::read_device_wrapping,
            (dev, n, buf, stamp, order, grab_mouse),
            drained,
        ),
        n <= buf@.len(),
    ensures
        ({
            let ms = old(dev).reads(read_events(n, buf@, stamp as int, order), grab_mouse);
            let out = plus(sent(drained.effects@), final(dev).pending());
            let all = plus(old(dev).pending(), reported(ms));
            &&& others(drained.effects@) == owed(ms)
            &&& touches(drained.effects@, slot) == count_of(ms, slot)
            &&& same_wrapped(out.0, all.0)
            &&& same_wrapped(out.1, all.1)
        }),
        drained.again <==> n > 0 && n == buf@.len(),
        !drained.again ==> final(dev).pending() == (0int, 0int),
{
    let ms = old(dev).reads(read_events(n, buf@, stamp as int, order), grab_mouse);
    let start = old(dev).pending();
    let burst = run_wrapping(start, ms);
    let left = burst.0;
    lemma_host_gets_what_it_is_owed(start, ms, slot);
    lemma_wrapped_motion_is_conserved(start, ms);
    if !drained.again {
        sent_of_flush(burst.1, left);
        let motion = Effect::Send(HidEvent::Move { dx: left.0 as i32, dy: left.1 as i32 });
        others_of_few(motion, motion, slot);
        effects_join(burst.1, flushed(left), slot);
        assert(others(flushed(left)) =~= seq![]);
        assert(others(drained.effects@) =~= owed(ms));
    }
}

/// Sending the pending motion sends all of it in one event, or nothing where there is none.
pub proof fn lemma_flushes_send_all_at_once(
    dev: &mut Device,
    effects: &mut Vec<Effect>,
)
    requires
        call_ensures(Device::flush_motion, (dev, effects), ()),
    ensures
        final(dev).dx == 0 && final(dev).dy == 0,
        old(dev).dx == 0 && old(dev).dy == 0 ==> final(effects)@ == old(effects)@,
        old(dev).dx != 0 || old(dev).dy != 0 ==> final(effects)@ == old(effects)@.push(
            Effect::Send(HidEvent::Move { dx: old(dev).dx, dy: old(dev).dy }),
        ),
        final(dev).path == old(dev).path,
{
    assert(old(effects)@ + Seq::<Effect>::empty() =~= old(effects)@);
    assert(old(effects)@ + seq![
        Effect::Send(HidEvent::Move { dx: old(dev).dx, dy: old(dev).dy }),
    ] =~= old(effects)@.push(Effect::Send(HidEvent::Move { dx: old(dev).dx, dy: old(dev).dy })));
}

/// Taking a burst adds to the effects what the burst comes to, and keeps its last motion pending.
pub proof fn lemma_bursts_add_to_the_effects(
    dev: &mut Device,
    events: &Vec<InputEventRaw>,
    grab_mouse: bool,
    effects: &mut Vec<Effect>,
    slot: Slot,
)
    requires
        call_ensures(Device::take_burst, (dev, events, grab_mouse, effects), ()),
        always_fits(old(dev).pending(), old(dev).reads(events@, grab_mouse)),
    ensures
        others(final(effects)@) == others(old(effects)@) + owed(old(dev).reads(events@, grab_mouse)),
        touches(final(effects)@, slot) == touches(old(effects)@, slot) + count_of(
            old(dev).reads(events@, grab_mouse),
            slot,
        ),
        final(dev).path == old(dev).path,
{
    let ms = old(dev).reads(events@, grab_mouse);
    lemma_host_gets_what_it_is_owed(old(dev).pending(), ms, slot);
    effects_join(old(effects)@, run(old(dev).pending(), ms).1, slot);
}

/// A burst always fits where its motion does not count, and one move on one axis fits exactly where
/// the sum of that axis does.
pub proof fn lemma_bursts_fit_as_far_as_their_sums(
    dev: Device,
    events: Vec<InputEventRaw>,
    grab_mouse: bool,
    yes: bool,
)
    requires
        call_ensures(Device::burst_fits, (&dev, &events, grab_mouse), yes),
    ensures
        !(dev.mouse && grab_mouse) ==> yes,
        dev.mouse && grab_mouse && events@.len() == 1 && events@[0].kind == 2 && events@[0].code == 0
            ==> (yes <==> i32::MIN <= dev.dx + events@[0].value <= i32::MAX),
        dev.mouse && grab_mouse && events@.len() == 1 && events@[0].kind == 2 && events@[0].code == 1
            ==> (yes <==> i32::MIN <= dev.dy + events@[0].value <= i32::MAX),
{
    let ms = dev.reads(events@, grab_mouse);
    lemma_bursts_are_read_as_told(dev, events@, grab_mouse);
    if !(dev.mouse && grab_mouse) {
        assert forall|k: int| 0 <= k <= ms.len() implies fits(
            (#[trigger] run(dev.pending(), ms.take(k))).0,
        ) by {
            still_bursts_keep_motion(dev.pending(), ms.take(k));
        }
    } else if events@.len() == 1 {
        assert(tells(events@[0], true, dev.keyboard, ms[0]));
        run_step(dev.pending(), ms, 0);
        assert(ms.take(0) =~= Seq::empty());
        assert(run(dev.pending(), Seq::empty()).0 == dev.pending());
        let sum = run(dev.pending(), ms.take(1)).0;
        assert(fits(run(dev.pending(), ms.take(0)).0));
        assert(yes ==> fits(sum));
        assert(fits(sum) ==> forall|k: int|
            0 <= k <= ms.len() ==> fits((#[trigger] run(dev.pending(), ms.take(k))).0));
    }
}

proof fn still_bursts_keep_motion(pending: (int, int), ms: Seq<Meaning>)
    requires
        forall|i: int| 0 <= i < ms.len() ==> (#[trigger] ms[i]) is Nothing || ms[i] is Key,
    ensures
        run(pending, ms).0 == pending,
    decreases ms.len(),
{
    if ms.len() > 0 {
        let head = ms.drop_last();
        assert forall|i: int| 0 <= i < head.len() implies (#[trigger] head[i]) is Nothing
            || head[i] is Key by {
            assert(head[i] == ms[i]);
        }
        still_bursts_keep_motion(pending, head);
        assert(ms.last() == ms[ms.len() - 1]);
    }
}

} // verus!

//! Mice and keyboards read past SDL: the state that the reader thread and the stream share.
use vstd::prelude::*;
use crate::activity::{Activity, Slot};
use crate::burst::{
    always_fits, drains, lemma_reads_lose_nothing, others, owed, plus, read_events, reported, run,
    run_wrapping, sent, Drained, Effect, HidEvent, Meaning,
};
use crate::device::Device;
use crate::events::{ByteOrder, PAYLOAD_SIZE};
use crate::grab::{after_answer, apply_grab, grab_request, grab_requests, wanted, warns};
use crate::node::{takes, NodeBits, Probe};
use crate::poll::gone;
use crate::reader::{
    any_mouse, gone_paths, is_scan, lemma_devices_survive_unless_gone, lemma_forgetting_is_exact,
    lemma_nobody_gone, lemma_nothing_dropped, opened_devices,
    paths, pause_after, settled_paths, survivors, waiting, without, Reader, MOTION_INTERVAL_NS,
};
use crate::scan::texts;

verus! {

/// A reader of mouse and keyboard nodes, as its owner sees it.
pub struct HidMouse {
    pub stop: bool,
    pub has_mouse: bool,
    /// The first look for nodes is over.
    pub scanned: bool,
    /// Whether nodes are held and their reports forwarded: one flag for both, so that the two
    /// cannot drift apart.
    pub grab: bool,
    /// Whether mice are read too, or left to the compositor.
    pub grab_mouse: bool,
    pub activity: Activity,
}

impl HidMouse {
    /// A reader that has not looked for nodes yet. `active` is its first `set_active` state;
    /// `grab_mouse` is whether the pointer is captured.
    pub fn start(active: bool, grab_mouse: bool) -> (hid: HidMouse)
        ensures
            !hid.stop,
            !hid.has_mouse,
            !hid.scanned,
            hid.grab == active,
            hid.grab_mouse == grab_mouse,
            forall|slot: Slot| #[trigger] hid.activity.last(slot) is None,
    {
        HidMouse {
            stop: false,
            has_mouse: false,
            scanned: false,
            grab: active,
            grab_mouse,
            activity: Activity::new(),
        }
    }

    /// Holds the nodes and forwards what they report, or gives them back and stays quiet.
    pub fn set_active(&mut self, active: bool)
        ensures
            *final(self) == (HidMouse { grab: active, ..*old(self) }),
    {
        self.grab = active;
    }

    /// Tells the reader to end.
    pub fn request_stop(&mut self)
        ensures
            *final(self) == (HidMouse { stop: true, ..*old(self) }),
    {
        self.stop = true;
    }

    /// Whether a mouse is open. False until the first look for nodes is over.
    pub fn has_device(&self) -> (yes: bool)
        ensures
            yes == self.has_mouse,
    {
        self.has_mouse
    }

    /// Notes whether the reader has a mouse open.
    pub fn store_presence(&mut self, reader: &Reader)
        ensures
            *final(self) == (HidMouse { has_mouse: any_mouse(reader.devices@), ..*old(self) }),
    {
        self.has_mouse = reader.has_mouse();
    }

    /// Whether a key of a read keyboard was seen a moment ago, so that SDL's echo of it should be
    /// dropped. Keys of the remote never count.
    pub fn owns_sdl_keys(&self, now_ms: u64) -> (yes: bool)
        requires
            self.activity.up_to(Slot::Key, now_ms),
        ensures
            yes == self.activity.in_use(Slot::Key, now_ms),
    {
        self.activity.recent(Slot::Key, now_ms)
    }

    /// Takes in one effect of a burst: notes the report, or gives the event to forward. Nothing is
    /// forwarded while inactive.
    pub fn perform(&mut self, effect: Effect, now_ms: u64) -> (forward: Option<HidEvent>)
        ensures
            final(self).stop == old(self).stop,
            final(self).has_mouse == old(self).has_mouse,
            final(self).scanned == old(self).scanned,
            final(self).grab == old(self).grab,
            final(self).grab_mouse == old(self).grab_mouse,
            forward == forwarded(*old(self), effect),
            match effect {
                Effect::Touch(slot) => {
                    &&& final(self).activity.last(slot) == Some(now_ms)
                    &&& forall|other: Slot|
                        other != slot ==> #[trigger] final(self).activity.last(other) == old(
                            self,
                        ).activity.last(other)
                },
                Effect::Send(_) => final(self).activity == old(self).activity,
            },
    {
        match effect {
            Effect::Touch(slot) => {
                self.activity.touch(slot, now_ms);
                None
            },
            Effect::Send(ev) => if self.grab {
                Some(ev)
            } else {
                None
            },
        }
    }
}

/// What is known of mice that are read past SDL.
#[derive(Clone, Copy, Debug, PartialEq, Eq, Structural)]
pub enum Presence {
    /// The first look for nodes is not over yet.
    Unknown,
    Absent,
    Present,
}

/// What is known of mice, where nodes are read (`Some`) or cannot be.
pub open spec fn presence_of(hid: Option<&HidMouse>) -> Presence {
    match hid {
        None => Presence::Absent,
        Some(hid) => if hid.has_mouse {
            Presence::Present
        } else if hid.scanned {
            Presence::Absent
        } else {
            Presence::Unknown
        },
    }
}

/// What is known of mice, where nodes are read (`Some`) or cannot be.
pub fn presence(hid: Option<&HidMouse>) -> (known: Presence)
    ensures
        known == presence_of(hid),
{
    match hid {
        None => Presence::Absent,
        Some(hid) => if hid.has_mouse {
            Presence::Present
        } else if hid.scanned {
            Presence::Absent
        } else {
            Presence::Unknown
        },
    }
}

/// What the stream is told of mice is what the reader has open.
pub open spec fn in_step(hid: HidMouse, reader: Reader) -> bool {
    hid.has_mouse == any_mouse(reader.devices@)
}

/// What a look for nodes does: its devices are added, and the nodes that need no second look are
/// settled.
pub open spec fn scan_taken(before: Reader, after: Reader, found: Seq<(String, Probe)>) -> bool {
    &&& texts(after.seen@) == texts(before.seen@) + settled_paths(found)
    &&& after.devices@ == before.devices@ + opened_devices(found)
    &&& after.last_scan_ns == before.last_scan_ns
    &&& after.dir_mtime == before.dir_mtime
}

/// Takes in what a look for nodes found, and tells the stream that it is over and of a mouse among the
/// devices.
pub fn finish_scan(reader: &mut Reader, hid: &mut HidMouse, found: Vec<(String, Probe)>) -> (added:
    bool)
    ensures
        added == (opened_devices(found@).len() > 0),
        scan_taken(*old(reader), *final(reader), found@),
        old(reader).wf() && is_scan(found@, texts(old(reader).seen@)) ==> final(reader).wf(),
        *final(hid) == (HidMouse {
            has_mouse: if added {
                any_mouse(final(reader).devices@)
            } else {
                old(hid).has_mouse
            },
            scanned: true,
            ..*old(hid)
        }),
        in_step(*old(hid), *old(reader)) ==> in_step(*final(hid), *final(reader)),
{
    let added: bool = reader.take_scan(found);
    hid.scanned = true;
    if added {
        hid.store_presence(reader);
    } else {
        assert(reader.devices@ =~= old(reader).devices@);
    }
    added
}

/// What one pass starts with: the requests to hold or give back nodes, or `None` where the reader
/// is to end.
pub fn begin_pass(reader: &Reader, hid: &HidMouse) -> (requests: Option<Vec<Option<bool>>>)
    ensures
        requests is None <==> hid.stop,
        requests matches Some(list) ==> {
            &&& list@.len() == reader.devices@.len()
            &&& forall|i: int|
                0 <= i < list@.len() ==> #[trigger] list@[i] == grab_request(
                    reader.devices@[i],
                    hid.grab,
                    hid.grab_mouse,
                )
        },
{
    if hid.stop {
        return None;
    }
    Some(grab_requests(&reader.devices, hid.grab, hid.grab_mouse))
}

/// Takes in the answers to the requests of `begin_pass`, which were made with these flags: `true`
/// where a node was held or given back as asked. What comes back says which refusals are news.
pub fn finish_grabs(reader: &mut Reader, grab: bool, grab_mouse: bool, agreed: &Vec<bool>) -> (
    warnings: Vec<bool>)
    requires
        agreed@.len() == old(reader).devices@.len(),
    ensures
        grabs_taken(*old(reader), *final(reader), grab, grab_mouse, agreed@, warnings@),
        old(reader).wf() ==> final(reader).wf(),
        any_mouse(final(reader).devices@) == any_mouse(old(reader).devices@),
{
    let warnings: Vec<bool> = apply_grab(&mut reader.devices, grab, grab_mouse, agreed);
    proof {
        lemma_same_nodes(*old(reader), *reader);
    }
    warnings
}

/// What the answers to grab requests do: each device takes in its own answer, and nothing else
/// changes.
pub open spec fn grabs_taken(
    before: Reader,
    after: Reader,
    grab: bool,
    grab_mouse: bool,
    agreed: Seq<bool>,
    warnings: Seq<bool>,
) -> bool {
    &&& after.seen == before.seen
    &&& after.last_scan_ns == before.last_scan_ns
    &&& after.dir_mtime == before.dir_mtime
    &&& after.devices@.len() == before.devices@.len()
    &&& warnings.len() == before.devices@.len()
    &&& forall|i: int|
        0 <= i < before.devices@.len() ==> #[trigger] after.devices@[i] == after_answer(
            before.devices@[i],
            grab_request(before.devices@[i], grab, grab_mouse),
            agreed[i],
        )
    &&& forall|i: int|
        0 <= i < before.devices@.len() ==> #[trigger] warnings[i] == warns(
            before.devices@[i],
            grab_request(before.devices@[i], grab, grab_mouse),
            agreed[i],
        )
}

/// Readers of the same nodes, of the same kinds, are well-formed together and have a mouse together.
proof fn lemma_same_nodes(a: Reader, b: Reader)
    requires
        a.seen == b.seen,
        a.devices@.len() == b.devices@.len(),
        forall|i: int|
            0 <= i < a.devices@.len() ==> (#[trigger] b.devices@[i]).path == a.devices@[i].path
                && b.devices@[i].mouse == a.devices@[i].mouse,
    ensures
        a.wf() ==> b.wf(),
        any_mouse(a.devices@) == any_mouse(b.devices@),
{
    assert(paths(a.devices@) =~= paths(b.devices@));
    if any_mouse(a.devices@) {
        let i = choose|i: int| 0 <= i < a.devices@.len() && (#[trigger] a.devices@[i]).mouse;
        assert(b.devices@[i].mouse);
    }
}

/// What one read from the device at `at` means to it.
pub open spec fn read_means(
    reader: Reader,
    grab_mouse: bool,
    at: int,
    n: isize,
    buf: Seq<u8>,
    stamp: int,
    order: ByteOrder,
) -> Seq<Meaning> {
    reader.devices@[at].reads(read_events(n, buf, stamp, order), grab_mouse)
}

/// What one read from the device at `at` does: the device drains as the burst says, and nothing else
/// changes.
pub open spec fn read_taken(
    before: Reader,
    after: Reader,
    at: int,
    burst: ((int, int), Seq<Effect>),
    full: bool,
    drained: Drained,
) -> bool {
    &&& after.seen == before.seen
    &&& after.last_scan_ns == before.last_scan_ns
    &&& after.dir_mtime == before.dir_mtime
    &&& after.devices@ == before.devices@.update(at, after.devices@[at])
    &&& drains(before.devices@[at], after.devices@[at], burst, full, drained)
}

/// Acts on what one read from the device at `at` gave.
pub fn read_at(
    reader: &mut Reader,
    hid: &HidMouse,
    at: usize,
    n: isize,
    buf: &[u8],
    stamp: usize,
    order: ByteOrder,
) -> (drained: Drained)
    requires
        at < old(reader).devices@.len(),
        n <= buf@.len(),
        stamp + PAYLOAD_SIZE <= usize::MAX,
        always_fits(
            old(reader).devices@[at as int].pending(),
            read_means(*old(reader), hid.grab_mouse, at as int, n, buf@, stamp as int, order),
        ),
    ensures
        read_taken(
            *old(reader),
            *final(reader),
            at as int,
            run(
                old(reader).devices@[at as int].pending(),
                read_means(*old(reader), hid.grab_mouse, at as int, n, buf@, stamp as int, order),
            ),
            n > 0 && n == buf@.len(),
            drained,
        ),
        old(reader).wf() ==> final(reader).wf(),
        any_mouse(final(reader).devices@) == any_mouse(old(reader).devices@),
{
    let drained: Drained = reader.devices[at].read_device(n, buf, stamp, order, hid.grab_mouse);
    proof {
        lemma_same_nodes(*old(reader), *reader);
    }
    drained
}

/// Acts on what one read from the device at `at` gave, also where its counters wrap round.
pub fn read_at_wrapping(
    reader: &mut Reader,
    hid: &HidMouse,
    at: usize,
    n: isize,
    buf: &[u8],
    stamp: usize,
    order: ByteOrder,
) -> (drained: Drained)
    requires
        at < old(reader).devices@.len(),
        n <= buf@.len(),
        stamp + PAYLOAD_SIZE <= usize::MAX,
    ensures
        read_taken(
            *old(reader),
            *final(reader),
            at as int,
            run_wrapping(
                old(reader).devices@[at as int].pending(),
                read_means(*old(reader), hid.grab_mouse, at as int, n, buf@, stamp as int, order),
            ),
            n > 0 && n == buf@.len(),
            drained,
        ),
        old(reader).wf() ==> final(reader).wf(),
        any_mouse(final(reader).devices@) == any_mouse(old(reader).devices@),
{
    let drained: Drained = reader.devices[at].read_device_wrapping(
        n,
        buf,
        stamp,
        order,
        hid.grab_mouse,
    );
    proof {
        lemma_same_nodes(*old(reader), *reader);
    }
    drained
}

/// The devices to read after `poll` answered: those with reports waiting, where it says that there
/// are any.
pub fn devices_to_read(reader: &Reader, rc: i32, revents: &Vec<i16>) -> (which: Vec<usize>)
    ensures
        which@.map_values(|i: usize| i as int) == (if rc > 0 {
            waiting(revents@, 0)
        } else {
            seq![]
        }),
{
    if rc > 0 {
        reader.ready(revents)
    } else {
        let none: Vec<usize> = Vec::new();
        assert(none@.map_values(|i: usize| i as int) =~= seq![]);
        none
    }
}

/// What dropping the devices that are gone does, where `poll` had anything to say.
pub open spec fn gone_dropped(
    before: Reader,
    after: Reader,
    rc: i32,
    revents: Seq<i16>,
    dropped: Seq<Seq<char>>,
) -> bool {
    &&& rc > 0 ==> after.devices@ == survivors(before.devices@, revents, 0)
    &&& rc > 0 ==> dropped == gone_paths(before.devices@, revents, 0)
    &&& rc <= 0 ==> after.devices@ == before.devices@ && dropped.len() == 0
    &&& texts(after.seen@) == without(texts(before.seen@), dropped)
    &&& after.last_scan_ns == before.last_scan_ns
    &&& after.dir_mtime == before.dir_mtime
}

/// Ends a pass once its devices are read: drops those that are gone, where `poll` had anything to
/// say, and tells the stream if that leaves no mouse.
pub fn end_pass(reader: &mut Reader, hid: &mut HidMouse, rc: i32, revents: &Vec<i16>) -> (dropped:
    Vec<String>)
    requires
        revents@.len() == old(reader).devices@.len(),
    ensures
        gone_dropped(*old(reader), *final(reader), rc, revents@, texts(dropped@)),
        old(reader).wf() ==> final(reader).wf(),
        *final(hid) == (HidMouse {
            has_mouse: if dropped@.len() > 0 {
                any_mouse(final(reader).devices@)
            } else {
                old(hid).has_mouse
            },
            ..*old(hid)
        }),
        in_step(*old(hid), *old(reader)) ==> in_step(*final(hid), *final(reader)),
{
    if rc <= 0 {
        let none: Vec<String> = Vec::new();
        proof {
            assert(texts(none@) =~= seq![]);
            lemma_nothing_dropped(texts(reader.seen@));
        }
        return none;
    }
    let dropped: Vec<String> = reader.drop_gone(revents);
    if dropped.len() > 0 {
        hid.store_presence(reader);
    } else {
        proof {
            lemma_nobody_gone(old(reader).devices@, revents@, 0);
            assert(old(reader).devices@.skip(0) =~= old(reader).devices@);
        }
    }
    dropped
}

/// How long to pause at the end of a pass: only after one that `poll` had something to say for.
pub fn pass_pause(rc: i32, elapsed_ns: u64) -> (rest: Option<u64>)
    ensures
        rest is Some <==> rc > 0 && elapsed_ns <= MOTION_INTERVAL_NS,
        rest is Some ==> rest->0 + elapsed_ns == MOTION_INTERVAL_NS,
{
    if rc > 0 {
        pause_after(elapsed_ns)
    } else {
        None
    }
}

/// What of an effect reaches the host.
pub open spec fn forwarded(hid: HidMouse, effect: Effect) -> Option<HidEvent> {
    match effect {
        Effect::Touch(_) => None,
        Effect::Send(ev) => if hid.grab {
            Some(ev)
        } else {
            None
        },
    }
}

/// One flag, two effects: a taken node is to be held exactly while what it reports is forwarded.
pub proof fn lemma_held_while_forwarded(hid: HidMouse, bits: NodeBits, dev: Device, ev: HidEvent)
    requires
        takes(bits, hid.grab_mouse),
        dev.mouse == bits.is_mouse(),
        dev.keyboard == bits.is_keyboard(),
    ensures
        wanted(dev, hid.grab, hid.grab_mouse) <==> forwarded(hid, Effect::Send(ev)) == Some(ev),
{
}

/// A reader starts as its owner says, with nothing found, nothing seen and no stop.
pub proof fn lemma_readers_start_as_told(active: bool, grab_mouse: bool, hid: HidMouse, mouse: bool)
    requires
        call_ensures(HidMouse::start, (active, grab_mouse), hid),
        call_ensures(HidMouse::has_device, (&hid,), mouse),
    ensures
        hid.grab == active,
        hid.grab_mouse == grab_mouse,
        !hid.stop && !hid.scanned && !mouse,
        hid.activity.last(Slot::Key) is None,
{
}

/// Read keys own the window's keys for a quarter of a second, and nothing else does.
pub proof fn lemma_keys_are_owned_for_a_quarter_second(hid: HidMouse, now_ms: u64, yes: bool)
    requires
        hid.activity.up_to(Slot::Key, now_ms),
        call_ensures(HidMouse::owns_sdl_keys, (&hid, now_ms), yes),
    ensures
        yes <==> (hid.activity.key_ms matches Some(at) && now_ms < at + 250),
{
}

/// A mouse is there once one is open, missing only once the first look is over without one, and
/// never to be had where nodes cannot be read.
pub proof fn lemma_mice_are_missed_only_after_a_look(hid: HidMouse, known: Presence, none: Presence)
    requires
        call_ensures(presence, (Some(&hid),), known),
        call_ensures(presence, (None,), none),
    ensures
        known is Present <==> hid.has_mouse,
        known is Absent <==> !hid.has_mouse && hid.scanned,
        known is Unknown <==> !hid.has_mouse && !hid.scanned,
        none is Absent,
{
}

/// What is sent is forwarded unchanged while active and not at all otherwise; noting a report sends
/// nothing.
pub proof fn lemma_only_active_readers_forward(hid: HidMouse, ev: HidEvent, slot: Slot)
    ensures
        hid.grab ==> forwarded(hid, Effect::Send(ev)) == Some(ev),
        !hid.grab ==> forwarded(hid, Effect::Send(ev)) is None,
        forwarded(hid, Effect::Touch(slot)) is None,
{
}

/// A pass asks for nothing once the reader is to end, and otherwise asks every node, each for what it
/// lacks.
pub proof fn lemma_passes_ask_every_node(
    reader: Reader,
    hid: HidMouse,
    requests: Option<Vec<Option<bool>>>,
    i: int,
)
    requires
        call_ensures(begin_pass, (&reader, &hid), requests),
        0 <= i < reader.devices@.len(),
    ensures
        requests is None <==> hid.stop,
        requests matches Some(list) ==> {
            let dev = reader.devices@[i];
            let want = hid.grab && (dev.keyboard || (dev.mouse && hid.grab_mouse));
            &&& list@.len() == reader.devices@.len()
            &&& list@[i] == (if dev.grabbed == want {
                None
            } else {
                Some(want)
            })
        },
{
    if let Some(list) = requests {
        assert(list@[i] == grab_request(reader.devices@[i], hid.grab, hid.grab_mouse));
    }
}

/// Every node takes in its own answer and no other: agreed, it is as it should be; refused, as it
/// was; and a refusal is news where the last one was for something else.
pub proof fn lemma_every_node_takes_its_answer(
    before: Reader,
    after: Reader,
    grab: bool,
    grab_mouse: bool,
    agreed: Seq<bool>,
    warnings: Seq<bool>,
    i: int,
)
    requires
        grabs_taken(before, after, grab, grab_mouse, agreed, warnings),
        0 <= i < before.devices@.len(),
    ensures
        ({
            let dev = before.devices@[i];
            let now = after.devices@[i];
            let want = grab && (dev.keyboard || (dev.mouse && grab_mouse));
            let refused = !agreed[i] && dev.grabbed != want;
            &&& now.grabbed == (if refused {
                dev.grabbed
            } else {
                want
            })
            &&& now.grab_warned_for == (if refused {
                Some(want)
            } else {
                dev.grab_warned_for
            })
            &&& warnings[i] <==> refused && dev.grab_warned_for != Some(want)
            &&& now.path == dev.path && now.mouse == dev.mouse && now.keyboard == dev.keyboard
            &&& now.dx == dev.dx && now.dy == dev.dy
        }),
        after.devices@.len() == before.devices@.len(),
        after.seen == before.seen,
{
    assert(after.devices@[i] == after_answer(
        before.devices@[i],
        grab_request(before.devices@[i], grab, grab_mouse),
        agreed[i],
    ));
    assert(warnings[i] == warns(
        before.devices@[i],
        grab_request(before.devices@[i], grab, grab_mouse),
        agreed[i],
    ));
}

/// A read is about one device: the others stay as they are, and so does what is known of nodes.
pub proof fn lemma_reads_are_about_one_device(
    before: Reader,
    after: Reader,
    at: int,
    burst: ((int, int), Seq<Effect>),
    full: bool,
    drained: Drained,
    other: int,
)
    requires
        read_taken(before, after, at, burst, full, drained),
        0 <= at < before.devices@.len(),
        0 <= other < before.devices@.len(),
        other != at,
    ensures
        after.devices@.len() == before.devices@.len(),
        after.devices@[other] == before.devices@[other],
        after.devices@[at].path == before.devices@[at].path,
        after.seen == before.seen,
        after.last_scan_ns == before.last_scan_ns && after.dir_mtime == before.dir_mtime,
        drained.again <==> full,
{
    let now = before.devices@.update(at, after.devices@[at]);
    assert(now[other] == before.devices@[other]);
}

/// A look for nodes adds to what was there: open devices stay in front, and settled paths stay
/// settled.
pub proof fn lemma_looks_only_add(before: Reader, after: Reader, found: Seq<(String, Probe)>, i: int)
    requires
        scan_taken(before, after, found),
        0 <= i < before.devices@.len(),
    ensures
        after.devices@[i] == before.devices@[i],
        after.devices@.len() == before.devices@.len() + opened_devices(found).len(),
        texts(before.seen@).is_prefix_of(texts(after.seen@)),
        after.devices@.skip(before.devices@.len() as int) == opened_devices(found),
        texts(after.seen@).skip(before.seen@.len() as int) == settled_paths(found),
{
    let all = before.devices@ + opened_devices(found);
    assert(all.skip(before.devices@.len() as int) =~= opened_devices(found));
    let seen = texts(before.seen@) + settled_paths(found);
    assert(texts(before.seen@).len() == before.seen@.len());
    assert(seen.subrange(0, before.seen@.len() as int) =~= texts(before.seen@));
    assert(seen.skip(before.seen@.len() as int) =~= settled_paths(found));
}

/// Nodes are dropped only where `poll` had something to say, and then all that are gone, with their
/// paths forgotten.
pub proof fn lemma_gone_nodes_are_forgotten(
    before: Reader,
    after: Reader,
    rc: i32,
    revents: Seq<i16>,
    dropped: Seq<Seq<char>>,
    i: int,
)
    requires
        gone_dropped(before, after, rc, revents, dropped),
        revents.len() == before.devices@.len(),
        0 <= i < before.devices@.len(),
    ensures
        rc <= 0 ==> after.devices@ == before.devices@ && texts(after.seen@) == texts(before.seen@)
            && dropped.len() == 0,
        rc > 0 && gone(revents[i]) ==> dropped.contains(before.devices@[i].path@) && !texts(
            after.seen@,
        ).contains(before.devices@[i].path@),
        rc > 0 && !gone(revents[i]) ==> after.devices@.contains(before.devices@[i]),
        rc > 0 ==> after.devices@.len() + dropped.len() == before.devices@.len(),
{
    let path = before.devices@[i].path@;
    lemma_forgetting_is_exact(texts(before.seen@), seq![], dropped, path);
    if rc <= 0 {
        assert(dropped =~= Seq::empty());
        lemma_nothing_dropped(texts(before.seen@));
    } else {
        let at = lemma_devices_survive_unless_gone(before.devices@, revents, i);
        if !gone(revents[i]) {
            let k = choose|k: int| 0 <= k < at.len() && #[trigger] at[k] == i;
            assert(after.devices@[k] == before.devices@[i]);
        }
    }
}

/// A pass pauses for what is left of two milliseconds, and only where `poll` had something to say.
pub proof fn lemma_only_answered_passes_pause(rc: i32, elapsed_ns: u64, rest: Option<u64>)
    requires
        call_ensures(pass_pause, (rc, elapsed_ns), rest),
    ensures
        rc <= 0 ==> rest is None,
        rc > 0 && elapsed_ns <= 2_000_000 ==> rest is Some && rest->0 + elapsed_ns == 2_000_000,
        elapsed_ns > 2_000_000 ==> rest is None,
{
}

/// Devices are read only where `poll` had something to say, and then those with reports waiting.
pub proof fn lemma_only_answered_passes_read(
    reader: Reader,
    rc: i32,
    revents: Vec<i16>,
    which: Vec<usize>,
)
    requires
        call_ensures(devices_to_read, (&reader, rc, &revents), which),
    ensures
        rc <= 0 ==> which@.len() == 0,
        rc > 0 ==> which@.map_values(|i: usize| i as int) == waiting(revents@, 0),
{
    assert(which@.map_values(|i: usize| i as int).len() == which@.len());
}

/// Switching a reader, stopping it and storing what it has open change just that.
pub proof fn lemma_readers_change_one_thing_at_a_time(
    hid: &mut HidMouse,
    active: bool,
    reader: &Reader,
)
    ensures
        call_ensures(HidMouse::set_active, (hid, active), ()) ==> *final(hid) == (HidMouse {
            grab: active,
            ..*old(hid)
        }),
        call_ensures(HidMouse::request_stop, (hid,), ()) ==> *final(hid) == (HidMouse {
            stop: true,
            ..*old(hid)
        }),
        call_ensures(HidMouse::store_presence, (hid, reader), ()) ==> {
            &&& final(hid).has_mouse <==> exists|i: int|
                0 <= i < reader.devices@.len() && (#[trigger] reader.devices@[i]).mouse
            &&& *final(hid) == (HidMouse { has_mouse: final(hid).has_mouse, ..*old(hid) })
        },
{
}

/// An effect is noted or forwarded: a report under its own kind and time, an event exactly while
/// active, and neither changes anything else.
pub proof fn lemma_effects_are_noted_or_forwarded(
    hid: &mut HidMouse,
    effect: Effect,
    now_ms: u64,
    out: Option<HidEvent>,
    slot: Slot,
)
    requires
        call_ensures(HidMouse::perform, (hid, effect, now_ms), out),
    ensures
        effect matches Effect::Send(ev) ==> out == (if old(hid).grab {
            Some(ev)
        } else {
            None
        }) && final(hid).activity == old(hid).activity,
        effect matches Effect::Touch(kind) ==> out is None && final(hid).activity.last(slot) == (
        if slot == kind {
            Some(now_ms)
        } else {
            old(hid).activity.last(slot)
        }),
        final(hid).stop == old(hid).stop && final(hid).has_mouse == old(hid).has_mouse,
        final(hid).scanned == old(hid).scanned && final(hid).grab == old(hid).grab,
        final(hid).grab_mouse == old(hid).grab_mouse,
{
}

/// Once a look is over it counts as over, whatever it found, and what is known of mice is what the
/// reader has open.
pub proof fn lemma_looks_are_reported(
    reader: &mut Reader,
    hid: &mut HidMouse,
    found: Vec<(String, Probe)>,
    added: bool,
)
    requires
        call_ensures(finish_scan, (reader, hid, found), added),
        in_step(*old(hid), *old(reader)),
    ensures
        final(hid).scanned,
        final(hid).has_mouse <==> exists|i: int|
            0 <= i < final(reader).devices@.len() && (#[trigger] final(reader).devices@[i]).mouse,
        final(hid).grab == old(hid).grab && final(hid).grab_mouse == old(hid).grab_mouse,
        final(hid).stop == old(hid).stop && final(hid).activity == old(hid).activity,
        added <==> final(reader).devices@.len() > old(reader).devices@.len(),
{
}

/// Once a pass has dropped what is gone, what is known of mice is what the reader still has open.
pub proof fn lemma_drops_are_reported(
    reader: &mut Reader,
    hid: &mut HidMouse,
    rc: i32,
    revents: &Vec<i16>,
    dropped: Vec<String>,
)
    requires
        call_ensures(end_pass, (reader, hid, rc, revents), dropped),
        in_step(*old(hid), *old(reader)),
    ensures
        gone_dropped(*old(reader), *final(reader), rc, revents@, texts(dropped@)),
        final(hid).has_mouse <==> exists|i: int|
            0 <= i < final(reader).devices@.len() && (#[trigger] final(reader).devices@[i]).mouse,
        final(hid).grab == old(hid).grab && final(hid).grab_mouse == old(hid).grab_mouse,
        final(hid).stop == old(hid).stop && final(hid).activity == old(hid).activity,
        final(hid).scanned == old(hid).scanned,
{
}

/// A read of one device gives the host what it is owed for that device's reports.
pub proof fn lemma_reads_of_a_device_deliver(
    reader: &mut Reader,
    hid: &HidMouse,
    at: usize,
    n: isize,
    buf: &[u8],
    stamp: usize,
    order: ByteOrder,
    drained: Drained,
)
    requires
        at < old(reader).devices@.len(),
        call_ensures(read_at, (reader, hid, at, n, buf, stamp, order), drained),
        always_fits(
            old(reader).devices@[at as int].pending(),
            old(reader).devices@[at as int].reads(
                read_events(n, buf@, stamp as int, order),
                hid.grab_mouse,
            ),
        ),
    ensures
        ({
            let dev = old(reader).devices@[at as int];
            let now = final(reader).devices@[at as int];
            let ms = dev.reads(read_events(n, buf@, stamp as int, order), hid.grab_mouse);
            &&& others(drained.effects@) == owed(ms)
            &&& plus(sent(drained.effects@), now.pending()) == plus(dev.pending(), reported(ms))
            &&& !drained.again ==> now.pending() == (0int, 0int)
        }),
        drained.again <==> n > 0 && n == buf@.len(),
{
    let dev = old(reader).devices@[at as int];
    lemma_reads_lose_nothing(
        dev,
        final(reader).devices@[at as int],
        dev.reads(read_events(n, buf@, stamp as int, order), hid.grab_mouse),
        n > 0 && n == buf@.len(),
        drained,
        Slot::Key,
    );
}

} // verus!

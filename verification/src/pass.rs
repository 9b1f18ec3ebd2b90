//! The reader's loop: a first look for nodes, then passes, each of which holds or gives back nodes,
//! waits for reports, reads every node that has some, drops the nodes that are gone, rests, and looks
//! for new nodes where that is due and the directory has changed.
use vstd::prelude::*;
use crate::burst::{always_fits, run, run_wrapping, Drained};
use crate::events::{ByteOrder, PAYLOAD_SIZE};
use crate::evmouse::{
    begin_pass, devices_to_read, end_pass, finish_grabs, finish_scan, gone_dropped, grabs_taken,
    in_step, pass_pause, read_at, read_at_wrapping, read_means, read_taken, scan_taken, HidMouse,
};
use crate::grab::grab_request;
use crate::node::Probe;
use crate::poll::readable;
use crate::reader::{
    any_mouse, is_scan, lemma_waiting_members, opened_devices, waiting, Reader, MOTION_INTERVAL_NS, RESCAN_INTERVAL_NS,
};
use crate::scan::texts;

verus! {

/// What the loop is to do next.
#[derive(Clone, Copy, Debug, PartialEq, Eq, Structural)]
pub enum Stage {
    /// Look for nodes; `first` before any pass.
    Scan { first: bool },
    /// Take the time and the directory's time of change, now that the first look is over.
    Start,
    /// Begin a pass.
    Begin,
    /// Ask the nodes to be held or given back.
    Hold,
    /// Wait for reports.
    Poll,
    /// Read once from the device whose turn it is.
    Read { turn: usize },
    /// Drop the devices that are gone.
    Drop,
    /// Rest.
    Rest,
    /// See whether it is time to look at the directory.
    Clock,
    /// Ask for the directory's time of change.
    Look,
    /// End.
    Stop,
}

impl Stage {
    /// What comes after the wait for reports, with this many devices to read.
    pub open spec fn after_poll(count: int) -> Stage {
        if count > 0 {
            Stage::Read { turn: 0 }
        } else {
            Stage::Drop
        }
    }

    /// What comes after a read, with this many devices to read: more from the same device where there
    /// may be more (`again`), then the next device, and once all had their turn the drop.
    pub open spec fn after_read(self, count: int, again: bool) -> Stage {
        match self {
            Stage::Read { turn } => if again {
                self
            } else if turn + 1 < count {
                Stage::Read { turn: (turn + 1) as usize }
            } else {
                Stage::Drop
            },
            other => other,
        }
    }

    /// What comes after the clock was read: the directory, where the interval is over.
    pub open spec fn after_clock(reader: Reader, now_ns: u64) -> Stage {
        if now_ns - reader.last_scan_ns >= RESCAN_INTERVAL_NS {
            Stage::Look
        } else {
            Stage::Begin
        }
    }

    /// What comes after the directory was asked: a look for nodes, where it changed.
    pub open spec fn after_look(reader: Reader, mtime: Option<i128>) -> Stage {
        if mtime != reader.dir_mtime {
            Stage::Scan { first: false }
        } else {
            Stage::Begin
        }
    }
}

/// The reader and where its loop stands.
pub struct Pass {
    pub reader: Reader,
    pub stage: Stage,
    /// With what the nodes were asked to be held.
    pub grab: bool,
    pub grab_mouse: bool,
    /// What `poll` answered, as a whole and for each device.
    pub rc: i32,
    pub revents: Vec<i16>,
    /// The devices to read in this pass, by their place.
    pub which: Vec<usize>,
}

/// The places of devices, as numbers.
pub open spec fn places(which: Seq<usize>) -> Seq<int> {
    which.map_values(|i: usize| i as int)
}

/// The devices that `poll` says to read.
pub open spec fn to_read(rc: i32, revents: Seq<i16>) -> Seq<int> {
    if rc > 0 {
        waiting(revents, 0)
    } else {
        seq![]
    }
}

impl Pass {
    /// What `poll` answered is about the devices that are open now, and the turns are those of the
    /// devices that it said to read.
    pub open spec fn answered(self) -> bool {
        &&& self.revents@.len() == self.reader.devices@.len()
        &&& places(self.which@) == to_read(self.rc, self.revents@)
    }

    /// While devices are read or dropped, the answer of `poll` is the one that this is about.
    pub open spec fn wf(self) -> bool {
        &&& self.stage is Read || self.stage is Drop ==> self.answered()
        &&& self.stage matches Stage::Read { turn } ==> turn < self.which@.len()
    }

    /// The device whose turn it is to be read.
    pub open spec fn reads_at(self) -> int {
        match self.stage {
            Stage::Read { turn } => self.which@[turn as int] as int,
            _ => 0,
        }
    }

    /// Only the reader and the stage differ.
    pub open spec fn same_answer(self, other: Pass) -> bool {
        &&& self.grab == other.grab
        &&& self.grab_mouse == other.grab_mouse
        &&& self.rc == other.rc
        &&& self.revents == other.revents
        &&& self.which == other.which
    }

    /// A loop that starts with the first look for nodes.
    pub fn new() -> (pass: Pass)
        ensures
            pass.wf(),
            pass.stage == (Stage::Scan { first: true }),
            pass.reader.wf(),
            pass.reader.seen@.len() == 0,
            pass.reader.devices@.len() == 0,
    {
        Pass {
            reader: Reader::new(),
            stage: Stage::Scan { first: true },
            grab: false,
            grab_mouse: false,
            rc: 0,
            revents: Vec::new(),
            which: Vec::new(),
        }
    }

    /// Takes in what a look for nodes found. What comes back says whether devices were added.
    pub fn found(&mut self, hid: &mut HidMouse, found: Vec<(String, Probe)>) -> (added: bool)
        requires
            old(self).stage is Scan,
        ensures
            added == (opened_devices(found@).len() > 0),
            scan_taken(old(self).reader, final(self).reader, found@),
            *final(hid) == (HidMouse {
                has_mouse: if added {
                    any_mouse(final(self).reader.devices@)
                } else {
                    old(hid).has_mouse
                },
                scanned: true,
                ..*old(hid)
            }),
            final(self).stage == (if old(self).stage == (Stage::Scan { first: true }) {
                Stage::Start
            } else {
                Stage::Begin
            }),
            final(self).same_answer(*old(self)),
            final(self).wf(),
            old(self).reader.wf() && is_scan(found@, texts(old(self).reader.seen@))
                ==> final(self).reader.wf(),
            in_step(*old(hid), old(self).reader) ==> in_step(*final(hid), final(self).reader),
    {
        let added: bool = finish_scan(&mut self.reader, hid, found);
        self.stage = match self.stage {
            Stage::Scan { first: true } => Stage::Start,
            _ => Stage::Begin,
        };
        added
    }

    /// Takes in the time and the directory's time of change after the first look.
    pub fn started(&mut self, now_ns: u64, mtime: Option<i128>)
        requires
            old(self).stage is Start,
        ensures
            final(self).reader == (Reader {
                last_scan_ns: now_ns,
                dir_mtime: mtime,
                ..old(self).reader
            }),
            final(self).stage is Begin,
            final(self).same_answer(*old(self)),
            final(self).wf(),
            old(self).reader.wf() ==> final(self).reader.wf(),
    {
        self.reader.started(now_ns, mtime);
        self.stage = Stage::Begin;
    }

    /// Begins a pass: the requests to hold or give back nodes, or `None` where the loop ends.
    pub fn begin(&mut self, hid: &HidMouse) -> (requests: Option<Vec<Option<bool>>>)
        requires
            old(self).stage is Begin,
        ensures
            final(self).reader == old(self).reader,
            final(self).stage == (if hid.stop {
                Stage::Stop
            } else {
                Stage::Hold
            }),
            final(self).grab == hid.grab,
            final(self).grab_mouse == hid.grab_mouse,
            final(self).wf(),
            requests is None <==> hid.stop,
            requests matches Some(list) ==> {
                &&& list@.len() == old(self).reader.devices@.len()
                &&& forall|i: int|
                    0 <= i < list@.len() ==> #[trigger] list@[i] == grab_request(
                        old(self).reader.devices@[i],
                        hid.grab,
                        hid.grab_mouse,
                    )
            },
    {
        self.grab = hid.grab;
        self.grab_mouse = hid.grab_mouse;
        let requests: Option<Vec<Option<bool>>> = begin_pass(&self.reader, hid);
        self.stage = if requests.is_none() {
            Stage::Stop
        } else {
            Stage::Hold
        };
        requests
    }

    /// Takes in the answers to the requests. What comes back says which refusals are news.
    pub fn held(&mut self, agreed: &Vec<bool>) -> (warnings: Vec<bool>)
        requires
            old(self).stage is Hold,
            agreed@.len() == old(self).reader.devices@.len(),
        ensures
            grabs_taken(
                old(self).reader,
                final(self).reader,
                old(self).grab,
                old(self).grab_mouse,
                agreed@,
                warnings@,
            ),
            final(self).stage is Poll,
            final(self).same_answer(*old(self)),
            final(self).wf(),
            old(self).reader.wf() ==> final(self).reader.wf(),
            any_mouse(final(self).reader.devices@) == any_mouse(old(self).reader.devices@),
    {
        let warnings: Vec<bool> = finish_grabs(
            &mut self.reader,
            self.grab,
            self.grab_mouse,
            agreed,
        );
        self.stage = Stage::Poll;
        warnings
    }

    /// Takes in what `poll` answered.
    pub fn polled(&mut self, rc: i32, revents: Vec<i16>)
        requires
            old(self).stage is Poll,
            revents@.len() == old(self).reader.devices@.len(),
        ensures
            final(self).reader == old(self).reader,
            final(self).rc == rc,
            final(self).revents == revents,
            final(self).answered(),
            final(self).stage == Stage::after_poll(to_read(rc, revents@).len() as int),
            final(self).wf(),
    {
        self.which = devices_to_read(&self.reader, rc, &revents);
        self.rc = rc;
        self.revents = revents;
        self.stage = if self.which.len() > 0 {
            Stage::Read { turn: 0 }
        } else {
            Stage::Drop
        };
    }

    /// The place of the device whose turn it is to be read.
    pub fn turn(&self) -> (at: usize)
        requires
            self.wf(),
            self.stage is Read,
        ensures
            at == self.reads_at(),
            at < self.reader.devices@.len(),
            readable(self.revents@[at as int]),
    {
        let turn: usize = match self.stage {
            Stage::Read { turn } => turn,
            _ => 0,
        };
        proof {
            lemma_turns_are_readable(*self, turn as int);
        }
        self.which[turn]
    }

    /// Takes in what one read from the device whose turn it is gave.
    pub fn read(
        &mut self,
        hid: &HidMouse,
        n: isize,
        buf: &[u8],
        stamp: usize,
        order: ByteOrder,
    ) -> (drained: Drained)
        requires
            old(self).wf(),
            old(self).stage is Read,
            n <= buf@.len(),
            stamp + PAYLOAD_SIZE <= usize::MAX,
            always_fits(
                old(self).reader.devices@[old(self).reads_at()].pending(),
                read_means(
                    old(self).reader,
                    hid.grab_mouse,
                    old(self).reads_at(),
                    n,
                    buf@,
                    stamp as int,
                    order,
                ),
            ),
        ensures
            read_taken(
                old(self).reader,
                final(self).reader,
                old(self).reads_at(),
                run(
                    old(self).reader.devices@[old(self).reads_at()].pending(),
                    read_means(
                        old(self).reader,
                        hid.grab_mouse,
                        old(self).reads_at(),
                        n,
                        buf@,
                        stamp as int,
                        order,
                    ),
                ),
                n > 0 && n == buf@.len(),
                drained,
            ),
            final(self).stage == old(self).stage.after_read(
                old(self).which@.len() as int,
                drained.again,
            ),
            final(self).same_answer(*old(self)),
            final(self).wf(),
            old(self).reader.wf() ==> final(self).reader.wf(),
            any_mouse(final(self).reader.devices@) == any_mouse(old(self).reader.devices@),
    {
        let at: usize = self.turn();
        let drained: Drained = read_at(&mut self.reader, hid, at, n, buf, stamp, order);
        self.take_turn(drained.again);
        drained
    }

    /// Takes in what one read from the device whose turn it is gave, also where its counters wrap
    /// round.
    pub fn read_wrapping(
        &mut self,
        hid: &HidMouse,
        n: isize,
        buf: &[u8],
        stamp: usize,
        order: ByteOrder,
    ) -> (drained: Drained)
        requires
            old(self).wf(),
            old(self).stage is Read,
            n <= buf@.len(),
            stamp + PAYLOAD_SIZE <= usize::MAX,
        ensures
            read_taken(
                old(self).reader,
                final(self).reader,
                old(self).reads_at(),
                run_wrapping(
                    old(self).reader.devices@[old(self).reads_at()].pending(),
                    read_means(
                        old(self).reader,
                        hid.grab_mouse,
                        old(self).reads_at(),
                        n,
                        buf@,
                        stamp as int,
                        order,
                    ),
                ),
                n > 0 && n == buf@.len(),
                drained,
            ),
            final(self).stage == old(self).stage.after_read(
                old(self).which@.len() as int,
                drained.again,
            ),
            final(self).same_answer(*old(self)),
            final(self).wf(),
            old(self).reader.wf() ==> final(self).reader.wf(),
            any_mouse(final(self).reader.devices@) == any_mouse(old(self).reader.devices@),
    {
        let at: usize = self.turn();
        let drained: Drained = read_at_wrapping(&mut self.reader, hid, at, n, buf, stamp, order);
        self.take_turn(drained.again);
        drained
    }

    /// Goes on to the next turn, unless there may be more to read in this one.
    fn take_turn(&mut self, again: bool)
        requires
            old(self).wf(),
            old(self).stage is Read,
        ensures
            final(self).reader == old(self).reader,
            final(self).stage == old(self).stage.after_read(old(self).which@.len() as int, again),
            final(self).same_answer(*old(self)),
            final(self).wf(),
    {
        if again {
            return;
        }
        if let Stage::Read { turn } = self.stage {
            let count: usize = self.which.len();
            self.stage = if count - turn > 1 {
                Stage::Read { turn: turn + 1 }
            } else {
                Stage::Drop
            };
        }
    }

    /// Drops the devices that are gone, and tells the stream if that leaves no mouse. What comes back
    /// are their paths.
    pub fn drop_gone(&mut self, hid: &mut HidMouse) -> (dropped: Vec<String>)
        requires
            old(self).wf(),
            old(self).stage is Drop,
        ensures
            gone_dropped(
                old(self).reader,
                final(self).reader,
                old(self).rc,
                old(self).revents@,
                texts(dropped@),
            ),
            *final(hid) == (HidMouse {
                has_mouse: if dropped@.len() > 0 {
                    any_mouse(final(self).reader.devices@)
                } else {
                    old(hid).has_mouse
                },
                ..*old(hid)
            }),
            final(self).stage is Rest,
            final(self).same_answer(*old(self)),
            final(self).wf(),
            old(self).reader.wf() ==> final(self).reader.wf(),
            in_step(*old(hid), old(self).reader) ==> in_step(*final(hid), final(self).reader),
    {
        let dropped: Vec<String> = end_pass(&mut self.reader, hid, self.rc, &self.revents);
        self.stage = Stage::Rest;
        dropped
    }

    /// How long to rest, by how long the pass took so far: only where `poll` had something to say.
    pub fn rest(&mut self, elapsed_ns: u64) -> (rest: Option<u64>)
        requires
            old(self).stage is Rest,
        ensures
            rest is Some <==> old(self).rc > 0 && elapsed_ns <= MOTION_INTERVAL_NS,
            rest is Some ==> rest->0 + elapsed_ns == MOTION_INTERVAL_NS,
            final(self).reader == old(self).reader,
            final(self).stage is Clock,
            final(self).same_answer(*old(self)),
            final(self).wf(),
    {
        self.stage = Stage::Clock;
        pass_pause(self.rc, elapsed_ns)
    }

    /// Takes in the time: where the interval is over it starts again, and the directory is asked.
    pub fn clock(&mut self, now_ns: u64)
        requires
            old(self).stage is Clock,
        ensures
            final(self).stage == Stage::after_clock(old(self).reader, now_ns),
            final(self).reader == (Reader {
                last_scan_ns: if final(self).stage is Look {
                    now_ns
                } else {
                    old(self).reader.last_scan_ns
                },
                ..old(self).reader
            }),
            final(self).same_answer(*old(self)),
            final(self).wf(),
            old(self).reader.wf() ==> final(self).reader.wf(),
    {
        self.stage = if self.reader.rescan_due(now_ns) {
            Stage::Look
        } else {
            Stage::Begin
        };
    }

    /// Takes in the directory's time of change: nodes are looked for only where it changed.
    pub fn looked(&mut self, mtime: Option<i128>)
        requires
            old(self).stage is Look,
        ensures
            final(self).stage == Stage::after_look(old(self).reader, mtime),
            final(self).reader == (Reader { dir_mtime: mtime, ..old(self).reader }),
            final(self).same_answer(*old(self)),
            final(self).wf(),
            old(self).reader.wf() ==> final(self).reader.wf(),
    {
        self.stage = if self.reader.dir_changed(mtime) {
            Stage::Scan { first: false }
        } else {
            Stage::Begin
        };
    }
}

proof fn lemma_turns_are_readable(pass: Pass, turn: int)
    requires
        pass.answered(),
        0 <= turn < pass.which@.len(),
    ensures
        pass.which@[turn] < pass.revents@.len(),
        readable(pass.revents@[pass.which@[turn] as int]),
{
    let at = pass.which@[turn] as int;
    assert(places(pass.which@)[turn] == at);
    lemma_waiting_members(pass.revents@, 0, at);
    assert(to_read(pass.rc, pass.revents@).contains(at));
}

/// Where the loop stands after reads that left more to read as `agains` says.
pub open spec fn after_reads(count: int, agains: Seq<bool>) -> Stage
    decreases agains.len(),
{
    if agains.len() == 0 {
        Stage::after_poll(count)
    } else {
        after_reads(count, agains.drop_last()).after_read(count, agains.last())
    }
}

/// Whether a turn was read to its end.
pub open spec fn was_read(count: int, agains: Seq<bool>, turn: int) -> bool {
    exists|k: int|
        0 <= k < agains.len() && !(#[trigger] agains[k]) && after_reads(count, agains.take(k))
            == (Stage::Read { turn: turn as usize })
}

/// What was read stays read.
proof fn lemma_read_stays_read(count: int, agains: Seq<bool>, turn: int)
    requires
        agains.len() > 0,
        was_read(count, agains.drop_last(), turn),
    ensures
        was_read(count, agains, turn),
{
    let head = agains.drop_last();
    let k = choose|k: int|
        0 <= k < head.len() && !(#[trigger] head[k]) && after_reads(count, head.take(k)) == (
        Stage::Read { turn: turn as usize });
    assert(head.take(k) =~= agains.take(k));
    assert(!agains[k]);
}

/// Every turn up to `turn` was read to its end.
spec fn all_read(count: int, agains: Seq<bool>, turn: int) -> bool {
    forall|t: int| 0 <= t < turn ==> #[trigger] was_read(count, agains, t)
}

proof fn lemma_all_stay_read(count: int, agains: Seq<bool>, turn: int)
    requires
        agains.len() > 0,
        all_read(count, agains.drop_last(), turn),
    ensures
        all_read(count, agains, turn),
{
    assert forall|t: int| 0 <= t < turn implies #[trigger] was_read(count, agains, t) by {
        assert(was_read(count, agains.drop_last(), t));
        lemma_read_stays_read(count, agains, t);
    }
}

proof fn lemma_turns_come_in_order(count: int, agains: Seq<bool>)
    requires
        0 <= count <= usize::MAX,
    ensures
        match after_reads(count, agains) {
            Stage::Read { turn } => turn < count && all_read(count, agains, turn as int),
            Stage::Drop => all_read(count, agains, count),
            _ => false,
        },
    decreases agains.len(),
{
    if agains.len() > 0 {
        let head = agains.drop_last();
        let n = head.len() as int;
        lemma_turns_come_in_order(count, head);
        match after_reads(count, head) {
            Stage::Read { turn } => {
                lemma_all_stay_read(count, agains, turn as int);
                if !agains.last() {
                    assert(agains.take(n) =~= head);
                    assert(!agains[n]);
                    assert(was_read(count, agains, turn as int));
                    assert(all_read(count, agains, turn + 1));
                }
            },
            _ => {
                lemma_all_stay_read(count, agains, count);
            },
        }
    }
}

/// Reports that wait on a node are read before any node is dropped, also where the node itself is
/// gone: by the time the loop gets to the drop, the node has had its turn and was read until nothing
/// was left.
pub proof fn lemma_waiting_reports_are_read_before_drops(pass: Pass, agains: Seq<bool>, i: int)
    requires
        pass.answered(),
        pass.rc > 0,
        0 <= i < pass.revents@.len(),
        readable(pass.revents@[i]),
        after_reads(pass.which@.len() as int, agains) is Drop,
    ensures
        exists|turn: int|
            0 <= turn < pass.which@.len() && #[trigger] pass.which@[turn] == i && was_read(
                pass.which@.len() as int,
                agains,
                turn,
            ),
{
    let all = to_read(pass.rc, pass.revents@);
    lemma_waiting_members(pass.revents@, 0, i);
    let turn = choose|turn: int| 0 <= turn < all.len() && all[turn] == i;
    assert(places(pass.which@)[turn] == i);
    assert(pass.which.len() == pass.which@.len());
    lemma_turns_come_in_order(pass.which@.len() as int, agains);
    assert(pass.which@[turn] == i && was_read(pass.which@.len() as int, agains, turn));
}

/// Nodes are looked for again exactly where the interval is over and the directory has changed.
pub proof fn lemma_rescan_needs_time_and_change(reader: Reader, now_ns: u64, mtime: Option<i128>)
    ensures
        (Stage::after_clock(reader, now_ns) is Look && Stage::after_look(
            Reader { last_scan_ns: now_ns, ..reader },
            mtime,
        ) is Scan) <==> (now_ns - reader.last_scan_ns >= RESCAN_INTERVAL_NS && mtime
            != reader.dir_mtime),
{
}

/// Turns are those of the devices that were to be read, in their order, and a device keeps its turn
/// while there may be more to read.
pub proof fn lemma_turns_follow_the_answer(pass: Pass, at: usize, again: bool)
    requires
        pass.wf(),
        call_ensures(Pass::turn, (&pass,), at),
        pass.stage is Read,
    ensures
        readable(pass.revents@[at as int]),
        at < pass.reader.devices@.len(),
        pass.stage matches Stage::Read { turn } ==> {
            let count = pass.which@.len() as int;
            &&& at == pass.which@[turn as int]
            &&& pass.stage.after_read(count, true) == pass.stage
            &&& turn == count - 1 ==> pass.stage.after_read(count, false) is Drop
            &&& turn < count - 1 ==> (pass.stage.after_read(count, false) matches Stage::Read {
                turn: next,
            } && next == turn + 1)
        },
{
    assert(pass.which.len() == pass.which@.len());
}

/// Nodes are looked for again after two seconds at the earliest.
pub proof fn lemma_looks_are_two_seconds_apart(reader: Reader, now_ns: u64)
    ensures
        Stage::after_clock(reader, now_ns) is Look <==> now_ns - reader.last_scan_ns >= 2_000_000_000,
        Stage::after_clock(reader, now_ns) is Begin <==> now_ns - reader.last_scan_ns
            < 2_000_000_000,
{
}

/// The loop goes round: a first look is followed by the start, every other one by a pass; a pass asks
/// its nodes unless it is to end, waits, reads or drops, rests, reads the clock, and then begins anew
/// or looks at the directory first.
pub proof fn lemma_the_loop_goes_round(
    pass: &mut Pass,
    hid: &HidMouse,
    stop: Option<Vec<Option<bool>>>,
    agreed: &Vec<bool>,
    warnings: Vec<bool>,
    rc: i32,
    revents: Vec<i16>,
    now_ns: u64,
    mtime: Option<i128>,
    rest: Option<u64>,
)
    ensures
        call_ensures(Pass::started, (pass, now_ns, mtime), ()) ==> final(pass).stage is Begin
            && final(pass).reader.last_scan_ns == now_ns && final(pass).reader.dir_mtime == mtime,
        call_ensures(Pass::begin, (pass, hid), stop) ==> {
            &&& hid.stop ==> final(pass).stage is Stop && stop is None
            &&& !hid.stop ==> final(pass).stage is Hold && stop is Some
            &&& final(pass).grab == hid.grab && final(pass).grab_mouse == hid.grab_mouse
            &&& final(pass).reader == old(pass).reader
        },
        call_ensures(Pass::held, (pass, agreed), warnings) ==> final(pass).stage is Poll,
        call_ensures(Pass::polled, (pass, rc, revents), ()) ==> {
            &&& final(pass).stage is Drop <==> rc <= 0 || forall|i: int|
                0 <= i < revents@.len() ==> !readable(#[trigger] revents@[i])
            &&& final(pass).stage is Drop || final(pass).stage == (Stage::Read { turn: 0 })
            &&& final(pass).rc == rc && final(pass).revents == revents
            &&& final(pass).reader == old(pass).reader
        },
        call_ensures(Pass::rest, (pass, now_ns), rest) ==> {
            &&& final(pass).stage is Clock
            &&& final(pass).reader == old(pass).reader
            &&& rest is Some <==> old(pass).rc > 0 && now_ns <= 2_000_000
            &&& rest is Some ==> rest->0 + now_ns == 2_000_000
        },
        call_ensures(Pass::clock, (pass, now_ns), ()) ==> {
            let due = now_ns - old(pass).reader.last_scan_ns >= 2_000_000_000;
            &&& due ==> final(pass).stage is Look && final(pass).reader.last_scan_ns == now_ns
            &&& !due ==> final(pass).stage is Begin && final(pass).reader == old(pass).reader
            &&& final(pass).reader.devices == old(pass).reader.devices
        },
        call_ensures(Pass::looked, (pass, mtime), ()) ==> {
            let changed = mtime != old(pass).reader.dir_mtime;
            &&& changed ==> final(pass).stage == (Stage::Scan { first: false })
            &&& !changed ==> final(pass).stage is Begin
            &&& final(pass).reader.dir_mtime == mtime
            &&& final(pass).reader.devices == old(pass).reader.devices
        },
{
    if call_ensures(Pass::polled, (pass, rc, revents), ()) {
        let all = to_read(rc, revents@);
        if all.len() > 0 {
            lemma_waiting_members(revents@, 0, all[0]);
            assert(all.contains(all[0]));
        } else if rc > 0 {
            assert forall|i: int| 0 <= i < revents@.len() implies !readable(
                #[trigger] revents@[i],
            ) by {
                lemma_waiting_members(revents@, 0, i);
            }
        }
    }
}

/// Looks and drops lead on, and tell the stream what is open.
pub proof fn lemma_looks_and_drops_lead_on(
    pass: &mut Pass,
    hid: &mut HidMouse,
    found: Vec<(String, Probe)>,
    added: bool,
    dropped: Vec<String>,
)
    requires
        in_step(*old(hid), old(pass).reader),
    ensures
        call_ensures(Pass::found, (pass, hid, found), added) ==> {
            &&& old(pass).stage == (Stage::Scan { first: true }) ==> final(pass).stage is Start
            &&& old(pass).stage == (Stage::Scan { first: false }) ==> final(pass).stage is Begin
            &&& final(hid).scanned
            &&& in_step(*final(hid), final(pass).reader)
            &&& added <==> final(pass).reader.devices@.len() > old(pass).reader.devices@.len()
        },
        call_ensures(Pass::drop_gone, (pass, hid), dropped) ==> {
            &&& final(pass).stage is Rest
            &&& in_step(*final(hid), final(pass).reader)
            &&& gone_dropped(
                old(pass).reader,
                final(pass).reader,
                old(pass).rc,
                old(pass).revents@,
                texts(dropped@),
            )
        },
{
}

/// A loop starts with a look, and knows nothing yet.
pub proof fn lemma_loops_start_with_a_look(pass: Pass)
    requires
        call_ensures(Pass::new, (), pass),
    ensures
        pass.stage == (Stage::Scan { first: true }),
        pass.reader.devices@.len() == 0 && pass.reader.seen@.len() == 0,
{
}

/// A read is about the device whose turn it is, and goes on to the next where nothing is left.
pub proof fn lemma_reads_take_their_turn(
    pass: &mut Pass,
    hid: &HidMouse,
    n: isize,
    buf: &[u8],
    stamp: usize,
    order: ByteOrder,
    drained: Drained,
    turn: usize,
    other: int,
)
    requires
        call_ensures(Pass::read, (pass, hid, n, buf, stamp, order), drained) || call_ensures(
            Pass::read_wrapping,
            (pass, hid, n, buf, stamp, order),
            drained,
        ),
        old(pass).wf(),
        old(pass).stage == (Stage::Read { turn }),
        0 <= other < old(pass).reader.devices@.len(),
        other != old(pass).which@[turn as int],
    ensures
        final(pass).reader.devices@[other] == old(pass).reader.devices@[other],
        final(pass).reader.devices@.len() == old(pass).reader.devices@.len(),
        drained.again ==> final(pass).stage == old(pass).stage,
        !drained.again && turn + 1 < old(pass).which@.len() ==> (
        final(pass).stage matches Stage::Read { turn: next } && next == turn + 1),
        !drained.again && turn + 1 == old(pass).which@.len() ==> final(pass).stage is Drop,
        drained.again <==> n > 0 && n == buf@.len(),
        final(pass).revents == old(pass).revents && final(pass).which == old(pass).which,
{
    let at = old(pass).which@[turn as int] as int;
    lemma_turns_are_readable(*old(pass), turn as int);
    assert(old(pass).which.len() == old(pass).which@.len());
    let now = old(pass).reader.devices@.update(at, final(pass).reader.devices@[at]);
    assert(now[other] == old(pass).reader.devices@[other]);
}

} // verus!

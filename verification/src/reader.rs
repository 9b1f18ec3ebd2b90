//! The reader of all open nodes: which there are, which to read, which to drop, and when to look
//! for more.
use vstd::prelude::*;
use crate::device::Device;
use crate::node::Probe;
use crate::poll::{gone, is_gone, is_readable, readable};
use crate::scan::{candidate_paths, lemma_each_node_is_tried_once, names_differ, node_path, texts};

verus! {

/// How long `poll` waits, in milliseconds. It bounds how late a stop or a new state is noticed.
pub const POLL_TIMEOUT_MS: i32 = 200;

/// The least time between two reads, in nanoseconds. A read already takes everything that waits,
/// so a mouse that reports faster gains nothing from more of them.
pub const MOTION_INTERVAL_NS: u64 = 2_000_000;

/// How often to look for new nodes, in nanoseconds.
pub const RESCAN_INTERVAL_NS: u64 = 2_000_000_000;

/// How long to pause after a pass that read something and took `elapsed_ns`: the rest of the
/// interval, or not at all where the pass took longer.
pub fn pause_after(elapsed_ns: u64) -> (rest: Option<u64>)
    ensures
        rest is Some <==> elapsed_ns <= MOTION_INTERVAL_NS,
        rest is Some ==> rest->0 + elapsed_ns == MOTION_INTERVAL_NS,
{
    if elapsed_ns <= MOTION_INTERVAL_NS {
        Some(MOTION_INTERVAL_NS - elapsed_ns)
    } else {
        None
    }
}

/// The state of the reader.
pub struct Reader {
    /// Paths of the nodes that are settled: open, or found not to be ours.
    pub seen: Vec<String>,
    /// The open nodes.
    pub devices: Vec<Device>,
    /// When nodes were last looked for.
    pub last_scan_ns: u64,
    /// When the directory of nodes last changed, as nanoseconds since the epoch, where known.
    pub dir_mtime: Option<i128>,
}

/// The paths of devices.
pub open spec fn paths(devices: Seq<Device>) -> Seq<Seq<char>> {
    Seq::new(devices.len(), |i: int| devices[i].path@)
}

/// Some device is a mouse.
pub open spec fn any_mouse(devices: Seq<Device>) -> bool {
    exists|i: int| 0 <= i < devices.len() && (#[trigger] devices[i]).mouse
}

/// The devices from `i` on that are not gone.
pub open spec fn survivors(devices: Seq<Device>, revents: Seq<i16>, i: int) -> Seq<Device>
    decreases devices.len() - i,
{
    if i >= devices.len() {
        seq![]
    } else if gone(revents[i]) {
        survivors(devices, revents, i + 1)
    } else {
        seq![devices[i]] + survivors(devices, revents, i + 1)
    }
}

/// The paths of the devices from `i` on that are gone, last device first.
pub open spec fn gone_paths(devices: Seq<Device>, revents: Seq<i16>, i: int) -> Seq<Seq<char>>
    decreases devices.len() - i,
{
    if i >= devices.len() {
        seq![]
    } else if gone(revents[i]) {
        gone_paths(devices, revents, i + 1).push(devices[i].path@)
    } else {
        gone_paths(devices, revents, i + 1)
    }
}

/// A list without any of the texts in `drop`.
pub open spec fn without(list: Seq<Seq<char>>, drop: Seq<Seq<char>>) -> Seq<Seq<char>>
    decreases list.len(),
{
    if list.len() == 0 {
        seq![]
    } else {
        let before = without(list.drop_last(), drop);
        if drop.contains(list.last()) {
            before
        } else {
            before.push(list.last())
        }
    }
}

/// The devices that have reports waiting, from `i` on.
pub open spec fn waiting(revents: Seq<i16>, i: int) -> Seq<int>
    decreases revents.len() - i,
{
    if i >= revents.len() {
        seq![]
    } else if readable(revents[i]) {
        seq![i] + waiting(revents, i + 1)
    } else {
        waiting(revents, i + 1)
    }
}

proof fn without_members(list: Seq<Seq<char>>, drop: Seq<Seq<char>>, text: Seq<char>)
    ensures
        without(list, drop).contains(text) <==> list.contains(text) && !drop.contains(text),
    decreases list.len(),
{
    if list.len() > 0 {
        let head = list.drop_last();
        let before = without(head, drop);
        without_members(head, drop, text);
        if list.contains(text) && !drop.contains(text) {
            let k = choose|k: int| 0 <= k < list.len() && list[k] == text;
            if k < head.len() {
                assert(head[k] == text);
                let m = choose|m: int| 0 <= m < before.len() && before[m] == text;
                assert(without(list, drop)[m] == text);
            } else {
                assert(without(list, drop)[before.len() as int] == text);
            }
        }
        if without(list, drop).contains(text) {
            let all = without(list, drop);
            let k = choose|k: int| 0 <= k < all.len() && all[k] == text;
            if k < before.len() {
                assert(before[k] == text);
                let m = choose|m: int| 0 <= m < head.len() && head[m] == text;
                assert(list[m] == text);
            } else {
                assert(list[list.len() - 1] == text);
            }
        }
    }
}

/// A list from which nothing is dropped stays as it is.
pub(crate) proof fn lemma_nothing_dropped(list: Seq<Seq<char>>)
    ensures
        without(list, Seq::empty()) == list,
    decreases list.len(),
{
    if list.len() > 0 {
        lemma_nothing_dropped(list.drop_last());
        assert(list.drop_last().push(list.last()) =~= list);
    }
}

/// Where no path is dropped every device survives.
pub(crate) proof fn lemma_nobody_gone(devices: Seq<Device>, revents: Seq<i16>, i: int)
    requires
        0 <= i <= devices.len(),
        gone_paths(devices, revents, i).len() == 0,
    ensures
        survivors(devices, revents, i) == devices.skip(i),
    decreases devices.len() - i,
{
    if i < devices.len() {
        lemma_nobody_gone(devices, revents, i + 1);
        assert(seq![devices[i]] + devices.skip(i + 1) =~= devices.skip(i));
    } else {
        assert(devices.skip(i) =~= seq![]);
    }
}

/// Removes every occurrence of the texts in `drop` from a list.
fn forget(list: &mut Vec<String>, drop: &Vec<String>)
    ensures
        texts(final(list)@) == without(texts(old(list)@), texts(drop@)),
{
    let mut kept: Vec<String> = Vec::new();
    let ghost all = texts(list@);
    let ghost out = texts(drop@);
    let mut i: usize = 0;
    assert(texts(kept@) =~= seq![]);
    assert(all.take(0) =~= seq![]);
    while i < list.len()
        invariant
            i <= list@.len(),
            all == texts(list@),
            out == texts(drop@),
            texts(kept@) == without(all.take(i as int), out),
        decreases list.len() - i,
    {
        proof {
            assert(all.take(i + 1).drop_last() =~= all.take(i as int));
            assert(all.take(i + 1).last() == list@[i as int]@);
        }
        if !crate::scan::has_text(drop, &list[i]) {
            let ghost before = texts(kept@);
            kept.push(list[i].clone());
            assert(texts(kept@) =~= before.push(list@[i as int]@));
        }
        i = i + 1;
    }
    assert(all.take(i as int) =~= all);
    *list = kept;
}

/// The paths that a look for nodes settles.
pub open spec fn settled_paths(found: Seq<(String, Probe)>) -> Seq<Seq<char>>
    decreases found.len(),
{
    if found.len() == 0 {
        seq![]
    } else {
        let before = settled_paths(found.drop_last());
        if found.last().1 is Unopenable {
            before
        } else {
            before.push(found.last().0@)
        }
    }
}

/// The devices that a look for nodes opens.
pub open spec fn opened_devices(found: Seq<(String, Probe)>) -> Seq<Device>
    decreases found.len(),
{
    if found.len() == 0 {
        seq![]
    } else {
        let before = opened_devices(found.drop_last());
        match found.last().1 {
            Probe::Hid(dev) => before.push(dev),
            _ => before,
        }
    }
}

/// What a look for nodes can find: no path twice, none that was settled before, and each device
/// under its own path.
pub open spec fn is_scan(found: Seq<(String, Probe)>, seen: Seq<Seq<char>>) -> bool {
    &&& forall|i: int, j: int|
        0 <= i < j < found.len() ==> (#[trigger] found[i]).0@ != (#[trigger] found[j]).0@
    &&& forall|i: int| 0 <= i < found.len() ==> !seen.contains((#[trigger] found[i]).0@)
    &&& forall|i: int|
        0 <= i < found.len() ==> ((#[trigger] found[i]).1 matches Probe::Hid(dev) ==> dev.path@
            == found[i].0@)
}

proof fn settled_paths_come_from(found: Seq<(String, Probe)>, path: Seq<char>)
    requires
        settled_paths(found).contains(path),
    ensures
        exists|i: int| 0 <= i < found.len() && (#[trigger] found[i]).0@ == path,
    decreases found.len(),
{
    if found.len() > 0 {
        let head = found.drop_last();
        let before = settled_paths(head);
        let all = settled_paths(found);
        let k = choose|k: int| 0 <= k < all.len() && all[k] == path;
        if k < before.len() {
            assert(before[k] == path);
            settled_paths_come_from(head, path);
            let i = choose|i: int| 0 <= i < head.len() && (#[trigger] head[i]).0@ == path;
            assert(found[i] == head[i]);
        } else {
            assert(found[found.len() - 1].0@ == path);
        }
    }
}

/// While a look for nodes is taken in, the next path is still new.
proof fn scanned_path_is_new(found: Seq<(String, Probe)>, seen: Seq<Seq<char>>, n: int)
    requires
        is_scan(found, seen),
        0 <= n < found.len(),
    ensures
        !(seen + settled_paths(found.take(n))).contains(found[n].0@),
{
    let path = found[n].0@;
    let before = settled_paths(found.take(n));
    let all = seen + before;
    if all.contains(path) {
        let k = choose|k: int| 0 <= k < all.len() && all[k] == path;
        if k < seen.len() {
            assert(seen[k] == path);
            assert(seen.contains(path));
        } else {
            assert(before[k - seen.len()] == path);
            settled_paths_come_from(found.take(n), path);
            let i = choose|i: int|
                0 <= i < found.take(n).len() && (#[trigger] found.take(n)[i]).0@ == path;
            assert(found.take(n)[i] == found[i]);
        }
    }
}

impl Reader {
    /// Every open node is settled, and no node is open twice.
    pub open spec fn wf(self) -> bool {
        &&& paths(self.devices@).no_duplicates()
        &&& forall|i: int|
            0 <= i < self.devices@.len() ==> texts(self.seen@).contains(
                (#[trigger] self.devices@[i]).path@,
            )
    }

    /// A reader that has not looked for nodes yet.
    pub fn new() -> (reader: Reader)
        ensures
            reader.wf(),
            reader.seen@.len() == 0,
            reader.devices@.len() == 0,
            reader.last_scan_ns == 0,
            reader.dir_mtime is None,
    {
        Reader { seen: Vec::new(), devices: Vec::new(), last_scan_ns: 0, dir_mtime: None }
    }

    /// Notes when the first look for nodes ended, and the directory's time of change then.
    pub fn started(&mut self, now_ns: u64, mtime: Option<i128>)
        ensures
            final(self).seen == old(self).seen,
            final(self).devices == old(self).devices,
            final(self).last_scan_ns == now_ns,
            final(self).dir_mtime == mtime,
    {
        self.last_scan_ns = now_ns;
        self.dir_mtime = mtime;
    }

    /// Takes in what probing a node found. A node that could not be opened is not settled: a later
    /// look tries it again.
    pub fn settle(&mut self, path: String, probe: Probe)
        ensures
            final(self).last_scan_ns == old(self).last_scan_ns,
            final(self).dir_mtime == old(self).dir_mtime,
            match probe {
                Probe::Hid(dev) => {
                    &&& texts(final(self).seen@) == texts(old(self).seen@).push(path@)
                    &&& final(self).devices@ == old(self).devices@.push(dev)
                },
                Probe::Skip => {
                    &&& texts(final(self).seen@) == texts(old(self).seen@).push(path@)
                    &&& final(self).devices@ == old(self).devices@
                },
                Probe::Unopenable => {
                    &&& final(self).seen == old(self).seen
                    &&& final(self).devices == old(self).devices
                },
            },
            old(self).wf() && !texts(old(self).seen@).contains(path@) && (probe matches Probe::Hid(
                dev,
            ) ==> dev.path@ == path@) ==> final(self).wf(),
    {
        let ghost before = texts(self.seen@);
        match probe {
            Probe::Hid(dev) => {
                self.seen.push(path);
                self.devices.push(dev);
                proof {
                    assert(texts(self.seen@) =~= before.push(path@));
                    if old(self).wf() && !before.contains(path@) && dev.path@ == path@ {
                        assert(self.devices@.drop_last() =~= old(self).devices@);
                        self.grown(*old(self), path@);
                    }
                }
            },
            Probe::Skip => {
                self.seen.push(path);
                proof {
                    assert(texts(self.seen@) =~= before.push(path@));
                    if old(self).wf() {
                        assert forall|i: int| 0 <= i < self.devices@.len() implies texts(
                            self.seen@,
                        ).contains((#[trigger] self.devices@[i]).path@) by {
                            let k = choose|k: int|
                                0 <= k < before.len() && before[k] == self.devices@[i].path@;
                            assert(texts(self.seen@)[k] == before[k]);
                        }
                    }
                }
            },
            Probe::Unopenable => {},
        }
    }

    proof fn grown(self, before: Reader, path: Seq<char>)
        requires
            before.wf(),
            !texts(before.seen@).contains(path),
            texts(self.seen@) == texts(before.seen@).push(path),
            self.devices@.len() == before.devices@.len() + 1,
            self.devices@.drop_last() == before.devices@,
            self.devices@.last().path@ == path,
        ensures
            self.wf(),
    {
        let old_seen = texts(before.seen@);
        let n = before.devices@.len() as int;
        assert forall|i: int| 0 <= i < self.devices@.len() implies texts(self.seen@).contains(
            (#[trigger] self.devices@[i]).path@,
        ) by {
            if i < n {
                assert(before.devices@[i] == self.devices@[i]);
                let k = choose|k: int|
                    0 <= k < old_seen.len() && old_seen[k] == self.devices@[i].path@;
                assert(texts(self.seen@)[k] == old_seen[k]);
            } else {
                assert(texts(self.seen@)[old_seen.len() as int] == path);
            }
        }
        let all = paths(self.devices@);
        assert forall|i: int, j: int|
            0 <= i < all.len() && 0 <= j < all.len() && i != j implies all[i] != all[j] by {
            if i < n {
                assert(before.devices@[i] == self.devices@[i]);
                assert(old_seen.contains(before.devices@[i].path@));
            }
            if j < n {
                assert(before.devices@[j] == self.devices@[j]);
                assert(old_seen.contains(before.devices@[j].path@));
            }
            if i < n && j < n {
                assert(paths(before.devices@)[i] == all[i]);
                assert(paths(before.devices@)[j] == all[j]);
            }
        }
    }

    /// Takes in what a look for nodes found, path by path.
    pub fn take_scan(&mut self, found: Vec<(String, Probe)>) -> (added: bool)
        ensures
            added == (opened_devices(found@).len() > 0),
            texts(final(self).seen@) == texts(old(self).seen@) + settled_paths(found@),
            final(self).devices@ == old(self).devices@ + opened_devices(found@),
            final(self).last_scan_ns == old(self).last_scan_ns,
            final(self).dir_mtime == old(self).dir_mtime,
            old(self).wf() && is_scan(found@, texts(old(self).seen@)) ==> final(self).wf(),
    {
        let ghost all = found@;
        let ghost first = texts(self.seen@);
        let count: usize = self.devices.len();
        assert(all.take(0) =~= seq![]);
        assert(texts(self.seen@) + settled_paths(all.take(0)) =~= texts(self.seen@));
        assert(self.devices@ + opened_devices(all.take(0)) =~= self.devices@);
        for one in it: found
            invariant
                it.seq() == all,
                first == texts(old(self).seen@),
                texts(self.seen@) == first + settled_paths(all.take(it.index() as int)),
                self.devices@ == old(self).devices@ + opened_devices(
                    all.take(it.index() as int),
                ),
                self.last_scan_ns == old(self).last_scan_ns,
                self.dir_mtime == old(self).dir_mtime,
                old(self).wf() && is_scan(all, first) ==> self.wf(),
        {
            let ghost n = it.index() as int;
            let (path, probe): (String, Probe) = one;
            proof {
                assert(all.take(n + 1).drop_last() =~= all.take(n));
                assert(all.take(n + 1).last() == (path, probe));
                if old(self).wf() && is_scan(all, first) {
                    scanned_path_is_new(all, first, n);
                }
            }
            self.settle(path, probe);
            proof {
                assert(texts(self.seen@) =~= first + settled_paths(all.take(n + 1)));
                assert(self.devices@ =~= old(self).devices@ + opened_devices(all.take(n + 1)));
            }
        }
        assert(all.take(all.len() as int) =~= all);
        self.devices.len() > count
    }

    /// Whether some open node is a mouse.
    pub fn has_mouse(&self) -> (yes: bool)
        ensures
            yes == any_mouse(self.devices@),
    {
        let mut i: usize = 0;
        while i < self.devices.len()
            invariant
                i <= self.devices@.len(),
                forall|k: int| 0 <= k < i ==> !(#[trigger] self.devices@[k]).mouse,
            decreases self.devices.len() - i,
        {
            if self.devices[i].mouse {
                return true;
            }
            i = i + 1;
        }
        false
    }

    /// The devices to read, by their place, in order.
    pub fn ready(&self, revents: &Vec<i16>) -> (which: Vec<usize>)
        ensures
            which@.map_values(|i: usize| i as int) == waiting(revents@, 0),
    {
        let mut which: Vec<usize> = Vec::new();
        let mut i: usize = 0;
        let ghost f = |i: usize| i as int;
        assert(which@.map_values(f) + waiting(revents@, 0) =~= waiting(revents@, 0));
        while i < revents.len()
            invariant
                i <= revents@.len(),
                f == (|i: usize| i as int),
                which@.map_values(f) + waiting(revents@, i as int) == waiting(revents@, 0),
            decreases revents.len() - i,
        {
            if is_readable(revents[i]) {
                let ghost before = which@;
                which.push(i);
                proof {
                    assert(which@.map_values(f) =~= before.map_values(f).push(i as int));
                    assert(before.map_values(f).push(i as int) + waiting(revents@, i + 1)
                        =~= before.map_values(f) + (seq![i as int] + waiting(revents@, i + 1)));
                }
            }
            i = i + 1;
        }
        assert(which@.map_values(f) + waiting(revents@, i as int) =~= which@.map_values(f));
        which
    }

    /// Drops the devices that are gone and forgets their paths, so that a node plugged in again is
    /// tried again. Gives back the paths, last device first.
    pub fn drop_gone(&mut self, revents: &Vec<i16>) -> (dropped: Vec<String>)
        requires
            revents@.len() == old(self).devices@.len(),
        ensures
            final(self).devices@ == survivors(old(self).devices@, revents@, 0),
            texts(dropped@) == gone_paths(old(self).devices@, revents@, 0),
            texts(final(self).seen@) == without(texts(old(self).seen@), texts(dropped@)),
            final(self).last_scan_ns == old(self).last_scan_ns,
            final(self).dir_mtime == old(self).dir_mtime,
            old(self).wf() ==> final(self).wf(),
    {
        let ghost all = self.devices@;
        let mut dropped: Vec<String> = Vec::new();
        let mut i: usize = self.devices.len();
        assert(texts(dropped@) =~= seq![]);
        assert(all.take(i as int) + survivors(all, revents@, i as int) =~= all);
        while i > 0
            invariant
                i <= all.len(),
                all == old(self).devices@,
                revents@.len() == all.len(),
                self.devices@ == all.take(i as int) + survivors(all, revents@, i as int),
                texts(dropped@) == gone_paths(all, revents@, i as int),
                self.seen == old(self).seen,
                self.last_scan_ns == old(self).last_scan_ns,
                self.dir_mtime == old(self).dir_mtime,
            decreases i,
        {
            i = i - 1;
            let ghost rest = survivors(all, revents@, i + 1);
            assert(self.devices@[i as int] == all[i as int]);
            if is_gone(revents[i]) {
                let ghost before = texts(dropped@);
                let dev: Device = self.devices.remove(i);
                dropped.push(dev.path);
                proof {
                    assert(texts(dropped@) =~= before.push(all[i as int].path@));
                    assert(self.devices@ =~= all.take(i as int) + rest);
                }
            } else {
                assert(self.devices@ =~= all.take(i as int) + (seq![all[i as int]] + rest));
            }
        }
        assert(self.devices@ =~= survivors(all, revents@, 0));
        forget(&mut self.seen, &dropped);
        proof {
            if old(self).wf() {
                kept_stay_settled(*old(self), *self, revents@, texts(dropped@));
            }
        }
        dropped
    }

    /// Whether it is time to look at the directory again. If so, the interval starts over.
    pub fn rescan_due(&mut self, now_ns: u64) -> (due: bool)
        ensures
            due == (now_ns - old(self).last_scan_ns >= RESCAN_INTERVAL_NS),
            final(self).last_scan_ns == (if due {
                now_ns
            } else {
                old(self).last_scan_ns
            }),
            final(self).seen == old(self).seen,
            final(self).devices == old(self).devices,
            final(self).dir_mtime == old(self).dir_mtime,
    {
        let due: bool = now_ns >= self.last_scan_ns && now_ns - self.last_scan_ns
            >= RESCAN_INTERVAL_NS;
        if due {
            self.last_scan_ns = now_ns;
        }
        due
    }

    /// Whether the directory changed since it was last asked about. Opening nodes is slow, so
    /// nodes are looked for only if it did.
    pub fn dir_changed(&mut self, mtime: Option<i128>) -> (changed: bool)
        ensures
            changed == (mtime != old(self).dir_mtime),
            final(self).dir_mtime == mtime,
            final(self).seen == old(self).seen,
            final(self).devices == old(self).devices,
            final(self).last_scan_ns == old(self).last_scan_ns,
    {
        let changed: bool = match (mtime, self.dir_mtime) {
            (Some(a), Some(b)) => a != b,
            (None, None) => false,
            _ => true,
        };
        self.dir_mtime = mtime;
        changed
    }
}

/// Each survivor was one of the devices and is not gone, and they keep their order.
proof fn survivors_are_devices(devices: Seq<Device>, revents: Seq<i16>, i: int) -> (at: Seq<int>)
    requires
        0 <= i <= devices.len(),
        revents.len() == devices.len(),
    ensures
        at.len() == survivors(devices, revents, i).len(),
        forall|k: int|
            0 <= k < at.len() ==> i <= #[trigger] at[k] < devices.len() && !gone(revents[at[k]])
                && survivors(devices, revents, i)[k] == devices[at[k]],
        forall|k: int, m: int| 0 <= k < m < at.len() ==> at[k] < at[m],
    decreases devices.len() - i,
{
    if i == devices.len() {
        seq![]
    } else {
        let rest = survivors_are_devices(devices, revents, i + 1);
        if gone(revents[i]) {
            rest
        } else {
            let at = seq![i] + rest;
            assert forall|k: int, m: int| 0 <= k < m < at.len() implies at[k] < at[m] by {
                if k == 0 {
                    assert(at[m] == rest[m - 1]);
                } else {
                    assert(at[k] == rest[k - 1]);
                    assert(at[m] == rest[m - 1]);
                }
            }
            assert forall|k: int| 0 <= k < at.len() implies i <= #[trigger] at[k] < devices.len()
                && !gone(revents[at[k]]) && survivors(devices, revents, i)[k]
                == devices[at[k]] by {
                if k > 0 {
                    assert(at[k] == rest[k - 1]);
                    assert(survivors(devices, revents, i)[k] == survivors(
                        devices,
                        revents,
                        i + 1,
                    )[k - 1]);
                }
            }
            at
        }
    }
}

/// Each dropped path was that of a device that is gone, and no such path is left out.
proof fn gone_paths_members(devices: Seq<Device>, revents: Seq<i16>, i: int, path: Seq<char>)
    requires
        0 <= i <= devices.len(),
        revents.len() == devices.len(),
    ensures
        gone_paths(devices, revents, i).contains(path) <==> exists|k: int|
            i <= k < devices.len() && gone(revents[k]) && (#[trigger] devices[k]).path@ == path,
    decreases devices.len() - i,
{
    if i < devices.len() {
        let rest = gone_paths(devices, revents, i + 1);
        let all = gone_paths(devices, revents, i);
        gone_paths_members(devices, revents, i + 1, path);
        if all.contains(path) {
            let m = choose|m: int| 0 <= m < all.len() && all[m] == path;
            if m < rest.len() {
                assert(rest[m] == path);
            } else {
                assert(devices[i].path@ == path);
            }
        }
        if exists|k: int|
            i <= k < devices.len() && gone(revents[k]) && (#[trigger] devices[k]).path@ == path {
            let k = choose|k: int|
                i <= k < devices.len() && gone(revents[k]) && (#[trigger] devices[k]).path@ == path;
            if k == i {
                assert(all[rest.len() as int] == path);
            } else {
                assert(rest.contains(path));
                let m = choose|m: int| 0 <= m < rest.len() && rest[m] == path;
                assert(all[m] == path);
            }
        }
    }
}

proof fn kept_stay_settled(
    before: Reader,
    after: Reader,
    revents: Seq<i16>,
    dropped: Seq<Seq<char>>,
)
    requires
        before.wf(),
        revents.len() == before.devices@.len(),
        after.devices@ == survivors(before.devices@, revents, 0),
        dropped == gone_paths(before.devices@, revents, 0),
        texts(after.seen@) == without(texts(before.seen@), dropped),
    ensures
        after.wf(),
{
    let all = before.devices@;
    let at = survivors_are_devices(all, revents, 0);
    assert forall|i: int| 0 <= i < after.devices@.len() implies texts(after.seen@).contains(
        (#[trigger] after.devices@[i]).path@,
    ) by {
        let path = after.devices@[i].path@;
        assert(all[at[i]] == after.devices@[i]);
        gone_paths_members(all, revents, 0, path);
        if dropped.contains(path) {
            let k = choose|k: int|
                0 <= k < all.len() && gone(revents[k]) && (#[trigger] all[k]).path@ == path;
            assert(paths(all)[k] == paths(all)[at[i]]);
        }
        without_members(texts(before.seen@), dropped, path);
    }
    let kept = paths(after.devices@);
    assert forall|i: int, j: int|
        0 <= i < kept.len() && 0 <= j < kept.len() && i != j implies kept[i] != kept[j] by {
        assert(at[i] != at[j]);
        assert(paths(all)[at[i]] == kept[i]);
        assert(paths(all)[at[j]] == kept[j]);
    }
}

/// A node that was dropped because it is gone is tried again when it comes back.
pub proof fn lemma_dropped_nodes_are_tried_again(
    before: Reader,
    after: Reader,
    revents: Seq<i16>,
    i: int,
    entries: Seq<Option<String>>,
    name: String,
)
    requires
        0 <= i < before.devices@.len(),
        revents.len() == before.devices@.len(),
        gone(revents[i]),
        texts(after.seen@) == without(
            texts(before.seen@),
            gone_paths(before.devices@, revents, 0),
        ),
        before.devices@[i].path@ == node_path(name@),
        entries.contains(Some(name)),
        "event"@.is_prefix_of(name@),
    ensures
        candidate_paths(entries, texts(after.seen@)).contains(node_path(name@)),
{
    let path = node_path(name@);
    gone_paths_members(before.devices@, revents, 0, path);
    assert(before.devices@[i].path@ == path);
    without_members(texts(before.seen@), gone_paths(before.devices@, revents, 0), path);
    crate::scan::lemma_only_unsettled_nodes_are_tried(entries, texts(after.seen@), name);
}

/// Probing each candidate of a directory once, where no name stands twice, is a look for nodes: a
/// well-formed reader stays so when it takes in what was found.
pub proof fn lemma_probed_candidates_are_a_scan(
    entries: Seq<Option<String>>,
    seen: Seq<Seq<char>>,
    found: Seq<(String, Probe)>,
)
    requires
        names_differ(entries),
        found.map_values(|one: (String, Probe)| one.0@).to_multiset() == candidate_paths(
            entries,
            seen,
        ).to_multiset(),
        forall|i: int|
            0 <= i < found.len() ==> ((#[trigger] found[i]).1 matches Probe::Hid(dev) ==> dev.path@
                == found[i].0@),
    ensures
        is_scan(found, seen),
{
    let paths = found.map_values(|one: (String, Probe)| one.0@);
    lemma_each_node_is_tried_once(entries, seen, paths);
    assert forall|i: int, j: int| 0 <= i < j < found.len() implies (#[trigger] found[i]).0@ != (
    #[trigger] found[j]).0@ by {
        assert(paths[i] != paths[j]);
    }
    assert forall|i: int| 0 <= i < found.len() implies !seen.contains((#[trigger] found[i]).0@) by {
        assert(!seen.contains(paths[i]));
    }
}

/// The times of the loop: a pass that read takes two milliseconds at least, and new nodes are looked
/// for every two seconds at most.
pub proof fn lemma_passes_take_two_milliseconds(elapsed_ns: u64, rest: Option<u64>)
    requires
        call_ensures(pause_after, (elapsed_ns,), rest),
    ensures
        elapsed_ns <= 2_000_000 ==> rest is Some && rest->0 + elapsed_ns == 2_000_000,
        elapsed_ns > 2_000_000 ==> rest is None,
{
}

/// A reader has a mouse exactly where one of its devices is one.
pub proof fn lemma_one_mouse_is_enough(reader: Reader, yes: bool)
    requires
        call_ensures(Reader::has_mouse, (&reader,), yes),
    ensures
        forall|i: int|
            0 <= i < reader.devices@.len() && (#[trigger] reader.devices@[i]).mouse ==> yes,
        yes ==> exists|i: int|
            0 <= i < reader.devices@.len() && (#[trigger] reader.devices@[i]).mouse,
        reader.devices@.len() == 0 ==> !yes,
{
}

/// A new reader knows no node.
pub proof fn lemma_new_readers_know_nothing(reader: Reader)
    requires
        call_ensures(Reader::new, (), reader),
    ensures
        reader.seen@.len() == 0,
        reader.devices@.len() == 0,
{
}

/// Looks for nodes add up: what two of them in a row open and settle is what one of both would.
pub proof fn lemma_looks_add_up(a: Seq<(String, Probe)>, b: Seq<(String, Probe)>)
    ensures
        opened_devices(a + b) == opened_devices(a) + opened_devices(b),
        settled_paths(a + b) == settled_paths(a) + settled_paths(b),
    decreases b.len(),
{
    if b.len() == 0 {
        assert(a + b =~= a);
        assert(opened_devices(a) + opened_devices(b) =~= opened_devices(a));
        assert(settled_paths(a) + settled_paths(b) =~= settled_paths(a));
    } else {
        assert((a + b).drop_last() =~= a + b.drop_last());
        lemma_looks_add_up(a, b.drop_last());
        assert(opened_devices(a + b) =~= opened_devices(a) + opened_devices(b));
        assert(settled_paths(a + b) =~= settled_paths(a) + settled_paths(b));
    }
}

/// One node opens a device where it is taken, and is settled unless it refused to open.
pub proof fn lemma_one_node_settles_unless_refused(path: String, probe: Probe)
    ensures
        opened_devices(seq![(path, probe)]) == (match probe {
            Probe::Hid(dev) => seq![dev],
            _ => seq![],
        }),
        settled_paths(seq![(path, probe)]) == (match probe {
            Probe::Unopenable => seq![],
            _ => seq![path@],
        }),
{
    let one = seq![(path, probe)];
    assert(one.drop_last() =~= Seq::empty());
    assert(opened_devices(Seq::empty()) =~= seq![]);
    assert(settled_paths(Seq::empty()) =~= seq![]);
    assert(opened_devices(one) =~= match probe {
        Probe::Hid(dev) => seq![dev],
        _ => seq![],
    });
    assert(settled_paths(one) =~= match probe {
        Probe::Unopenable => seq![],
        _ => seq![path@],
    });
}

/// Where a device stays, and where it goes: it is among the survivors exactly where its answer does
/// not say that it is gone, they keep their order, and every device either survives or is dropped
/// under its path.
pub proof fn lemma_devices_survive_unless_gone(
    devices: Seq<Device>,
    revents: Seq<i16>,
    i: int,
) -> (at: Seq<int>)
    requires
        revents.len() == devices.len(),
        0 <= i < devices.len(),
    ensures
        survivors(devices, revents, 0).len() + gone_paths(devices, revents, 0).len()
            == devices.len(),
        gone(revents[i]) ==> gone_paths(devices, revents, 0).contains(devices[i].path@),
        !gone(revents[i]) ==> exists|k: int| 0 <= k < at.len() && #[trigger] at[k] == i,
        at.len() == survivors(devices, revents, 0).len(),
        forall|k: int|
            0 <= k < at.len() ==> 0 <= #[trigger] at[k] < devices.len() && !gone(revents[at[k]])
                && survivors(devices, revents, 0)[k] == devices[at[k]],
        forall|k: int, m: int| 0 <= k < m < at.len() ==> at[k] < at[m],
{
    devices_survive_from(devices, revents, 0, i)
}

proof fn devices_survive_from(devices: Seq<Device>, revents: Seq<i16>, from: int, i: int) -> (at: Seq<
    int,
>)
    requires
        revents.len() == devices.len(),
        0 <= from <= devices.len(),
    ensures
        survivors(devices, revents, from).len() + gone_paths(devices, revents, from).len()
            == devices.len() - from,
        from <= i < devices.len() && gone(revents[i]) ==> gone_paths(
            devices,
            revents,
            from,
        ).contains(devices[i].path@),
        from <= i < devices.len() && !gone(revents[i]) ==> exists|k: int|
            0 <= k < at.len() && #[trigger] at[k] == i,
        at.len() == survivors(devices, revents, from).len(),
        forall|k: int|
            0 <= k < at.len() ==> from <= #[trigger] at[k] < devices.len() && !gone(revents[at[k]])
                && survivors(devices, revents, from)[k] == devices[at[k]],
        forall|k: int, m: int| 0 <= k < m < at.len() ==> at[k] < at[m],
    decreases devices.len() - from,
{
    if from == devices.len() {
        seq![]
    } else {
        let rest = devices_survive_from(devices, revents, from + 1, i);
        let paths = gone_paths(devices, revents, from + 1);
        if gone(revents[from]) {
            let all = gone_paths(devices, revents, from);
            assert(all[all.len() - 1] == devices[from].path@);
            if from < i < devices.len() && gone(revents[i]) {
                let k = choose|k: int| 0 <= k < paths.len() && paths[k] == devices[i].path@;
                assert(all[k] == devices[i].path@);
            }
            rest
        } else {
            let at = seq![from] + rest;
            let all = survivors(devices, revents, from);
            assert forall|k: int| 0 <= k < at.len() implies from <= #[trigger] at[k]
                < devices.len() && !gone(revents[at[k]]) && all[k] == devices[at[k]] by {
                if k > 0 {
                    assert(at[k] == rest[k - 1]);
                    assert(all[k] == survivors(devices, revents, from + 1)[k - 1]);
                }
            }
            assert forall|k: int, m: int| 0 <= k < m < at.len() implies at[k] < at[m] by {
                assert(at[m] == rest[m - 1]);
                if k > 0 {
                    assert(at[k] == rest[k - 1]);
                }
            }
            if i == from {
                assert(at[0] == i);
            } else if from < i < devices.len() && !gone(revents[i]) {
                let k = choose|k: int| 0 <= k < rest.len() && #[trigger] rest[k] == i;
                assert(at[k + 1] == i);
            }
            at
        }
    }
}

/// Forgetting paths forgets exactly those: the rest stays, in its order, and lists are forgotten from
/// one after the other.
pub proof fn lemma_forgetting_is_exact(
    a: Seq<Seq<char>>,
    b: Seq<Seq<char>>,
    drop: Seq<Seq<char>>,
    path: Seq<char>,
)
    ensures
        without(a, drop).contains(path) <==> a.contains(path) && !drop.contains(path),
        without(a + b, drop) == without(a, drop) + without(b, drop),
        without(seq![path], drop) == (if drop.contains(path) {
            seq![]
        } else {
            seq![path]
        }),
    decreases b.len(),
{
    without_members(a, drop, path);
    let one = seq![path];
    assert(one.drop_last() =~= Seq::empty());
    assert(without(Seq::empty(), drop) =~= seq![]);
    assert(without(one, drop) =~= if drop.contains(path) {
        seq![]
    } else {
        seq![path]
    });
    if b.len() == 0 {
        assert(a + b =~= a);
        assert(without(a, drop) + without(b, drop) =~= without(a, drop));
    } else {
        assert((a + b).drop_last() =~= a + b.drop_last());
        lemma_forgetting_is_exact(a, b.drop_last(), drop, path);
        assert(without(a + b, drop) =~= without(a, drop) + without(b, drop));
    }
}

/// The devices to read are those with reports waiting, each once and in order.
pub proof fn lemma_devices_are_read_in_order(
    reader: Reader,
    revents: Vec<i16>,
    which: Vec<usize>,
    i: int,
)
    requires
        call_ensures(Reader::ready, (&reader, &revents), which),
        0 <= i < revents@.len(),
    ensures
        which@.contains(i as usize) <==> readable(revents@[i]),
        forall|k: int, m: int| 0 <= k < m < which@.len() ==> which@[k] < which@[m],
{
    let all = waiting(revents@, 0);
    assert(revents.len() == revents@.len());
    waiting_in_order(revents@, 0);
    lemma_waiting_members(revents@, 0, i);
    let seen = which@.map_values(|i: usize| i as int);
    assert(forall|k: int| 0 <= k < which@.len() ==> seen[k] == #[trigger] which@[k] as int);
    if all.contains(i) {
        let k = choose|k: int| 0 <= k < all.len() && all[k] == i;
        assert(which@[k] == i as usize);
    }
    if which@.contains(i as usize) {
        let k = choose|k: int| 0 <= k < which@.len() && which@[k] == i as usize;
        assert(all[k] == i);
    }
    assert forall|k: int, m: int| 0 <= k < m < which@.len() implies which@[k] < which@[m] by {
        assert(all[k] < all[m]);
    }
}

/// The devices with reports waiting are those whose answers say so.
pub(crate) proof fn lemma_waiting_members(revents: Seq<i16>, from: int, i: int)
    requires
        0 <= from,
    ensures
        waiting(revents, from).contains(i) <==> from <= i < revents.len() && readable(revents[i]),
    decreases revents.len() - from,
{
    if from < revents.len() {
        let rest = waiting(revents, from + 1);
        let all = waiting(revents, from);
        lemma_waiting_members(revents, from + 1, i);
        if readable(revents[from]) {
            if all.contains(i) {
                let k = choose|k: int| 0 <= k < all.len() && all[k] == i;
                if k > 0 {
                    assert(rest[k - 1] == i);
                }
            }
            if rest.contains(i) {
                let k = choose|k: int| 0 <= k < rest.len() && rest[k] == i;
                assert(all[k + 1] == i);
            }
            assert(all[0] == from);
        }
    }
}

proof fn waiting_in_order(revents: Seq<i16>, from: int)
    requires
        0 <= from,
    ensures
        forall|k: int| 0 <= k < waiting(revents, from).len() ==> from <= #[trigger] waiting(
            revents,
            from,
        )[k] < revents.len(),
        forall|k: int, m: int|
            0 <= k < m < waiting(revents, from).len() ==> waiting(revents, from)[k] < waiting(
                revents,
                from,
            )[m],
    decreases revents.len() - from,
{
    if from < revents.len() {
        let rest = waiting(revents, from + 1);
        let all = waiting(revents, from);
        waiting_in_order(revents, from + 1);
        if readable(revents[from]) {
            assert forall|k: int| 0 <= k < all.len() implies from <= #[trigger] all[k]
                < revents.len() by {
                if k > 0 {
                    assert(all[k] == rest[k - 1]);
                }
            }
            assert forall|k: int, m: int| 0 <= k < m < all.len() implies all[k] < all[m] by {
                assert(all[m] == rest[m - 1]);
                if k > 0 {
                    assert(all[k] == rest[k - 1]);
                }
            }
        }
    }
}

/// The directory is asked about again two seconds after the last time at the earliest, and the wait
/// starts over exactly then; nodes are looked for exactly where its time of change is another one,
/// which is remembered.
pub proof fn lemma_directories_are_watched(
    reader: &mut Reader,
    now_ns: u64,
    due: bool,
    mtime: Option<i128>,
    changed: bool,
)
    ensures
        call_ensures(Reader::rescan_due, (reader, now_ns), due) ==> {
            &&& due <==> now_ns - old(reader).last_scan_ns >= 2_000_000_000
            &&& due ==> final(reader).last_scan_ns == now_ns
            &&& !due ==> final(reader).last_scan_ns == old(reader).last_scan_ns
            &&& final(reader).dir_mtime == old(reader).dir_mtime
            &&& final(reader).seen == old(reader).seen && final(reader).devices == old(
                reader,
            ).devices
        },
        call_ensures(Reader::dir_changed, (reader, mtime), changed) ==> {
            &&& changed <==> mtime != old(reader).dir_mtime
            &&& final(reader).dir_mtime == mtime
            &&& final(reader).last_scan_ns == old(reader).last_scan_ns
            &&& final(reader).seen == old(reader).seen && final(reader).devices == old(
                reader,
            ).devices
        },
        call_ensures(Reader::started, (reader, now_ns, mtime), ()) ==> {
            &&& final(reader).last_scan_ns == now_ns
            &&& final(reader).dir_mtime == mtime
            &&& final(reader).seen == old(reader).seen && final(reader).devices == old(
                reader,
            ).devices
        },
{
}

/// A node that is taken is opened and settled, one that is not ours is settled, and one that refused
/// is neither.
pub proof fn lemma_nodes_settle(reader: &mut Reader, path: String, probe: Probe)
    requires
        call_ensures(Reader::settle, (reader, path, probe), ()),
    ensures
        probe is Unopenable ==> final(reader).devices@ == old(reader).devices@ && texts(
            final(reader).seen@,
        ) == texts(old(reader).seen@),
        !(probe is Unopenable) ==> texts(final(reader).seen@) == texts(old(reader).seen@).push(
            path@,
        ),
        probe is Skip ==> final(reader).devices@ == old(reader).devices@,
        probe matches Probe::Hid(dev) ==> final(reader).devices@ == old(reader).devices@.push(dev),
        final(reader).last_scan_ns == old(reader).last_scan_ns && final(reader).dir_mtime == old(
            reader,
        ).dir_mtime,
{
}

/// Dropping what is gone keeps the rest, and forgets the paths of what went.
pub proof fn lemma_gone_devices_leave(
    reader: &mut Reader,
    revents: &Vec<i16>,
    dropped: Vec<String>,
    i: int,
)
    requires
        call_ensures(Reader::drop_gone, (reader, revents), dropped),
        revents@.len() == old(reader).devices@.len(),
        0 <= i < old(reader).devices@.len(),
    ensures
        gone(revents@[i]) ==> texts(dropped@).contains(old(reader).devices@[i].path@) && !texts(
            final(reader).seen@,
        ).contains(old(reader).devices@[i].path@),
        !gone(revents@[i]) ==> final(reader).devices@.contains(old(reader).devices@[i]),
        final(reader).devices@.len() + dropped@.len() == old(reader).devices@.len(),
{
    let path = old(reader).devices@[i].path@;
    lemma_forgetting_is_exact(texts(old(reader).seen@), seq![], texts(dropped@), path);
    let at = lemma_devices_survive_unless_gone(old(reader).devices@, revents@, i);
    assert(texts(dropped@).len() == dropped@.len());
    if !gone(revents@[i]) {
        let k = choose|k: int| 0 <= k < at.len() && #[trigger] at[k] == i;
        assert(final(reader).devices@[k] == old(reader).devices@[i]);
    }
}

/// A look adds devices exactly where it took a node.
pub proof fn lemma_looks_add_taken_nodes(
    reader: &mut Reader,
    found: Vec<(String, Probe)>,
    added: bool,
)
    requires
        call_ensures(Reader::take_scan, (reader, found), added),
    ensures
        final(reader).devices@ == old(reader).devices@ + opened_devices(found@),
        texts(final(reader).seen@) == texts(old(reader).seen@) + settled_paths(found@),
        added <==> final(reader).devices@.len() > old(reader).devices@.len(),
{
}

} // verus!

//! The statistics: what is counted between two readings, and the lines that show it.
use vstd::prelude::*;
use vstd::string::StringExecFns;

verus! {

/// The shortest time between two readings that is reckoned with, in nanoseconds.
pub const SHORTEST_NS: u64 = 1_000_000;

/// The difference of two readings of a counter, or nothing where the counter went back.
pub open spec fn grown(now: u64, before: u64) -> int {
    if now >= before {
        now - before
    } else {
        0
    }
}

/// What the counters came to since the last reading.
#[derive(Clone, Copy, Debug, PartialEq, Eq, Structural)]
pub struct Sample {
    pub frames: u64,
    pub bytes: u64,
    /// The time between the readings, at least the shortest.
    pub elapsed_ns: u64,
    /// The processor time, from the second reading of it on.
    pub cpu_ticks: Option<u64>,
}

/// The last reading of each counter.
#[derive(Clone, Copy, Debug, PartialEq, Eq, Structural)]
pub struct Counters {
    pub frames: u64,
    pub bytes: u64,
    pub cpu_ticks: Option<u64>,
    pub at_ns: u64,
}

impl Counters {
    /// Nothing counted yet, at the time the stream begins.
    pub fn new(now_ns: u64) -> (counters: Counters)
        ensures
            counters == (Counters { frames: 0, bytes: 0, cpu_ticks: None, at_ns: now_ns }),
    {
        Counters { frames: 0, bytes: 0, cpu_ticks: None, at_ns: now_ns }
    }

    /// Takes in a reading, and tells what it came to since the one before. `cpu_ticks` is `None`
    /// where the processor time could not be read.
    pub fn sample(&mut self, frames: u64, bytes: u64, cpu_ticks: Option<u64>, now_ns: u64) -> (s:
        Sample)
        ensures
            s.frames == grown(frames, old(self).frames),
            s.bytes == grown(bytes, old(self).bytes),
            s.elapsed_ns == (if grown(now_ns, old(self).at_ns) < SHORTEST_NS {
                SHORTEST_NS as int
            } else {
                grown(now_ns, old(self).at_ns)
            }),
            s.cpu_ticks is Some <==> cpu_ticks is Some && old(self).cpu_ticks is Some,
            s.cpu_ticks is Some ==> s.cpu_ticks->0 == grown(cpu_ticks->0, old(self).cpu_ticks->0),
            *final(self) == (Counters {
                frames,
                bytes,
                cpu_ticks: if cpu_ticks is Some {
                    cpu_ticks
                } else {
                    old(self).cpu_ticks
                },
                at_ns: now_ns,
            }),
    {
        let elapsed: u64 = now_ns.saturating_sub(self.at_ns);
        let cpu: Option<u64> = match (cpu_ticks, self.cpu_ticks) {
            (Some(now), Some(before)) => Some(now.saturating_sub(before)),
            _ => None,
        };
        let s: Sample = Sample {
            frames: frames.saturating_sub(self.frames),
            bytes: bytes.saturating_sub(self.bytes),
            elapsed_ns: if elapsed < SHORTEST_NS {
                SHORTEST_NS
            } else {
                elapsed
            },
            cpu_ticks: cpu,
        };
        self.frames = frames;
        self.bytes = bytes;
        self.at_ns = now_ns;
        if cpu_ticks.is_some() {
            self.cpu_ticks = cpu_ticks;
        }
        s
    }
}

/// The character of a digit.
pub open spec fn digit_char(d: int) -> char {
    seq!['0', '1', '2', '3', '4', '5', '6', '7', '8', '9'][d]
}

/// A number in decimal, without leading zeros.
pub open spec fn decimal(n: nat) -> Seq<char>
    decreases n,
{
    if n < 10 {
        seq![digit_char(n as int)]
    } else {
        decimal(n / 10).push(digit_char((n % 10) as int))
    }
}

/// A number in decimal, with a sign where it is negative.
pub open spec fn signed_decimal(n: int) -> Seq<char> {
    if n < 0 {
        seq!['-'] + decimal((-n) as nat)
    } else {
        decimal(n as nat)
    }
}

/// A number in decimal, with a sign in any case.
pub open spec fn always_signed(n: int) -> Seq<char> {
    if n < 0 {
        seq!['-'] + decimal((-n) as nat)
    } else {
        seq!['+'] + decimal(n as nat)
    }
}

fn digit_text(d: u64) -> (text: &'static str)
    requires
        d < 10,
    ensures
        text@ == seq![digit_char(d as int)],
{
    proof {
        reveal_strlit("0");
        reveal_strlit("1");
        reveal_strlit("2");
        reveal_strlit("3");
        reveal_strlit("4");
        reveal_strlit("5");
        reveal_strlit("6");
        reveal_strlit("7");
        reveal_strlit("8");
        reveal_strlit("9");
    }
    let text: &'static str = match d {
        0 => "0",
        1 => "1",
        2 => "2",
        3 => "3",
        4 => "4",
        5 => "5",
        6 => "6",
        7 => "7",
        8 => "8",
        _ => "9",
    };
    assert(text@ =~= seq![digit_char(d as int)]);
    text
}

/// A number in decimal.
pub fn decimal_text(n: u64) -> (text: String)
    ensures
        text@ == decimal(n as nat),
    decreases n,
{
    if n < 10 {
        return String::from_str(digit_text(n));
    }
    let mut text: String = decimal_text(n / 10);
    text.append(digit_text(n % 10));
    assert(text@ =~= decimal(n as nat));
    text
}

/// A number in decimal, or "n/a" where there is none: a zero would say something else.
pub open spec fn counted(n: Option<u64>) -> Seq<char> {
    match n {
        Some(n) => decimal(n as nat),
        None => "n/a"@,
    }
}

fn counted_text(n: Option<u64>) -> (text: String)
    ensures
        text@ == counted(n),
{
    match n {
        Some(n) => decimal_text(n),
        None => String::from_str("n/a"),
    }
}

/// How far the decoder is behind, or "n/a" where that is not known (negative).
pub open spec fn backlog_of(n: i64) -> Seq<char> {
    if n < 0 {
        "n/a"@
    } else {
        decimal(n as nat)
    }
}

/// What the stream shows: resolution, refresh rate and codec.
pub open spec fn mode_line_of(width: u32, height: u32, refresh_hz: u32, codec: Seq<char>, hdr: bool) -> Seq<
    char,
> {
    decimal(width as nat) + "x"@ + decimal(height as nat) + "@"@ + decimal(refresh_hz as nat) + " "@
        + codec + if hdr {
        " HDR"@
    } else {
        ""@
    }
}

/// What the stream shows: resolution, refresh rate and codec.
pub fn mode_line(width: u32, height: u32, refresh_hz: u32, codec: &str, hdr: bool) -> (line: String)
    ensures
        line@ == mode_line_of(width, height, refresh_hz, codec@, hdr),
{
    let mut line: String = decimal_text(width as u64);
    line.append("x");
    line.append(decimal_text(height as u64).as_str());
    line.append("@");
    line.append(decimal_text(refresh_hz as u64).as_str());
    line.append(" ");
    line.append(codec);
    line.append(
        if hdr {
            " HDR"
        } else {
            ""
        },
    );
    line
}

/// What got lost, and what the decoder has still to show.
pub open spec fn drop_line_of(dropped: Option<u64>, recovered: Option<u64>, holding: bool, backlog: i64) -> Seq<
    char,
> {
    "Drop "@ + counted(dropped) + " · FEC "@ + counted(recovered) + " · hold "@ + (if holding {
        "yes"@
    } else {
        "no"@
    }) + " · buf "@ + backlog_of(backlog)
}

/// What got lost, and what the decoder has still to show.
pub fn drop_line(dropped: Option<u64>, recovered: Option<u64>, holding: bool, backlog: i64) -> (line:
    String)
    ensures
        line@ == drop_line_of(dropped, recovered, holding, backlog),
{
    let mut line: String = String::from_str("Drop ");
    line.append(counted_text(dropped).as_str());
    line.append(" · FEC ");
    line.append(counted_text(recovered).as_str());
    line.append(" · hold ");
    line.append(
        if holding {
            "yes"
        } else {
            "no"
        },
    );
    line.append(" · buf ");
    let behind: Option<u64> = if backlog < 0 {
        None
    } else {
        Some(backlog as u64)
    };
    line.append(counted_text(behind).as_str());
    line
}

/// What is queued ahead of the speaker, and how far audio plays behind the picture.
pub open spec fn audio_line_of(buffered_ms: int, behind_ms: int) -> Seq<char> {
    "Audio buf "@ + signed_decimal(buffered_ms) + " ms · A/V "@ + always_signed(behind_ms) + " ms"@
}

/// What is queued ahead of the speaker, and how far audio plays behind the picture.
pub fn audio_line(buffered_ms: i64, behind_ms: i64) -> (line: String)
    ensures
        line@ == audio_line_of(buffered_ms as int, behind_ms as int),
{
    proof {
        reveal_strlit("-");
        reveal_strlit("+");
        reveal_strlit("");
        assert("-"@ =~= seq!['-']);
        assert("+"@ =~= seq!['+']);
        assert(""@ =~= Seq::<char>::empty());
    }
    let mut line: String = String::from_str("Audio buf ");
    line.append(
        if buffered_ms < 0 {
            "-"
        } else {
            ""
        },
    );
    line.append(decimal_text(magnitude(buffered_ms)).as_str());
    assert(line@ =~= "Audio buf "@ + signed_decimal(buffered_ms as int));
    line.append(" ms · A/V ");
    let ghost before = line@;
    line.append(
        if behind_ms < 0 {
            "-"
        } else {
            "+"
        },
    );
    line.append(decimal_text(magnitude(behind_ms)).as_str());
    assert(line@ =~= before + always_signed(behind_ms as int));
    line.append(" ms");
    line
}

fn magnitude(n: i64) -> (m: u64)
    ensures
        m == (if n < 0 {
            -n
        } else {
            n as int
        }),
{
    if n >= 0 {
        n as u64
    } else {
        (-(n + 1)) as u64 + 1
    }
}

/// A rate in whole megabits, of one in kilobits.
pub fn whole_mbps(kbps: u32) -> (mbps: u32)
    ensures
        mbps == kbps as int / 1000,
{
    kbps / 1000
}

/// The lines of the statistics.
pub struct Lines {
    pub mode: String,
    pub video: String,
    pub drop: String,
    pub feed: String,
    pub audio: String,
    /// Processor and memory, where they can be read.
    pub process: Option<String>,
    /// How far pacing moves frames, while pacing is on.
    pub pace: Option<String>,
}

impl Lines {
    /// From top to bottom.
    pub open spec fn listed(self) -> Seq<Seq<char>> {
        seq![self.mode@, self.video@, self.drop@, self.feed@, self.audio@] + (match self.process {
            Some(line) => seq![line@],
            None => seq![],
        }) + (match self.pace {
            Some(line) => seq![line@],
            None => seq![],
        })
    }

    /// From top to bottom.
    pub fn in_order(self) -> (lines: Vec<String>)
        ensures
            lines@.map_values(|l: String| l@) == self.listed(),
    {
        let ghost all = self.listed();
        let mut lines: Vec<String> = Vec::new();
        lines.push(self.mode);
        lines.push(self.video);
        lines.push(self.drop);
        lines.push(self.feed);
        lines.push(self.audio);
        if let Some(line) = self.process {
            lines.push(line);
        }
        if let Some(line) = self.pace {
            lines.push(line);
        }
        assert(lines@.map_values(|l: String| l@) =~= all);
        lines
    }
}

/// The value that decimal digits stand for.
pub open spec fn decimal_value(text: Seq<char>) -> nat
    decreases text.len(),
{
    if text.len() == 0 {
        0
    } else {
        10 * decimal_value(text.drop_last()) + (text.last() as nat - '0' as nat) as nat
    }
}

/// A number can be read back from its decimal text.
pub proof fn lemma_decimal_reads_back(n: nat)
    ensures
        decimal_value(decimal(n)) == n,
        n > 0 ==> decimal(n)[0] != '0',
    decreases n,
{
    let d = (n % 10) as int;
    assert(digit_char(d) as nat - '0' as nat == d) by {
        let all = seq!['0', '1', '2', '3', '4', '5', '6', '7', '8', '9'];
        assert(all.len() == 10);
    }
    if n >= 10 {
        lemma_decimal_reads_back(n / 10);
        assert(decimal(n).drop_last() =~= decimal(n / 10));
        assert(decimal(n).last() == digit_char(d));
        assert(decimal(n)[0] == decimal(n / 10)[0]);
    } else {
        assert(decimal(n).drop_last() =~= Seq::empty());
        assert(decimal_value(Seq::empty()) == 0);
    }
}

/// A reading comes to what the counters grew by: added to the last reading it gives the new one,
/// and a counter that went back has not grown. The time counts as a millisecond at least, and
/// processor time needs two readings. The new readings are kept, but for a processor time that could
/// not be read.
pub proof fn lemma_samples_add_up(
    c: &mut Counters,
    frames: u64,
    bytes: u64,
    cpu_ticks: Option<u64>,
    now_ns: u64,
    s: Sample,
)
    requires
        call_ensures(Counters::sample, (c, frames, bytes, cpu_ticks, now_ns), s),
    ensures
        frames >= old(c).frames ==> old(c).frames + s.frames == frames,
        frames < old(c).frames ==> s.frames == 0,
        bytes >= old(c).bytes ==> old(c).bytes + s.bytes == bytes,
        bytes < old(c).bytes ==> s.bytes == 0,
        now_ns - old(c).at_ns >= 1_000_000 ==> old(c).at_ns + s.elapsed_ns == now_ns,
        now_ns - old(c).at_ns < 1_000_000 ==> s.elapsed_ns == 1_000_000,
        cpu_ticks is None || old(c).cpu_ticks is None ==> s.cpu_ticks is None,
        cpu_ticks matches Some(now) ==> (old(c).cpu_ticks matches Some(then) ==> {
            &&& s.cpu_ticks is Some
            &&& now >= then ==> then + s.cpu_ticks->0 == now
            &&& now < then ==> s.cpu_ticks->0 == 0
        }),
        final(c).frames == frames && final(c).bytes == bytes && final(c).at_ns == now_ns,
        cpu_ticks is Some ==> final(c).cpu_ticks == cpu_ticks,
        cpu_ticks is None ==> final(c).cpu_ticks == old(c).cpu_ticks,
{
}

/// Counting starts at nothing, at the time it is told.
pub proof fn lemma_counting_starts_at_nothing(now_ns: u64, counters: Counters)
    requires
        call_ensures(Counters::new, (now_ns,), counters),
    ensures
        counters.frames == 0 && counters.bytes == 0,
        counters.cpu_ticks is None,
        counters.at_ns == now_ns,
{
}

/// A number can be read back from its text.
pub proof fn lemma_number_texts_read_back(n: u64, text: String)
    requires
        call_ensures(decimal_text, (n,), text),
    ensures
        decimal_value(text@) == n,
        n > 0 ==> text@[0] != '0',
        text@.len() > 0,
{
    lemma_decimal_reads_back(n as nat);
}

/// Signs are those of the numbers: where one is always written it is a plus from zero on, and where
/// it is not a number from zero on has none. The digits behind it are those of the size.
pub proof fn lemma_signs_are_the_numbers(n: int)
    ensures
        n >= 0 ==> always_signed(n)[0] == '+' && decimal_value(always_signed(n).skip(1)) == n,
        n < 0 ==> always_signed(n)[0] == '-' && decimal_value(always_signed(n).skip(1)) == -n,
        n >= 0 ==> decimal_value(signed_decimal(n)) == n && signed_decimal(n) == decimal(n as nat),
        n < 0 ==> signed_decimal(n)[0] == '-' && decimal_value(signed_decimal(n).skip(1)) == -n,
{
    let size = if n < 0 {
        (-n) as nat
    } else {
        n as nat
    };
    lemma_decimal_reads_back(size);
    assert(always_signed(n).skip(1) =~= decimal(size));
    if n < 0 {
        assert(signed_decimal(n).skip(1) =~= decimal(size));
    }
}

/// The first line reads width, height, rate and codec in this order, and names HDR exactly where the
/// picture has it.
pub proof fn lemma_mode_lines_read(
    width: u32,
    height: u32,
    refresh_hz: u32,
    codec: &str,
    hdr: bool,
    line: String,
)
    requires
        call_ensures(mode_line, (width, height, refresh_hz, codec, hdr), line),
    ensures
        ({
            let plain = decimal(width as nat) + seq!['x'] + decimal(height as nat) + seq!['@']
                + decimal(refresh_hz as nat) + seq![' '] + codec@;
            line@ == if hdr {
                plain + seq![' ', 'H', 'D', 'R']
            } else {
                plain
            }
        }),
{
    reveal_strlit("x");
    reveal_strlit("@");
    reveal_strlit(" ");
    reveal_strlit(" HDR");
    reveal_strlit("");
    assert("x"@ =~= seq!['x']);
    assert("@"@ =~= seq!['@']);
    assert(" "@ =~= seq![' ']);
    assert(" HDR"@ =~= seq![' ', 'H', 'D', 'R']);
    assert(""@ =~= Seq::<char>::empty());
    let plain = decimal(width as nat) + seq!['x'] + decimal(height as nat) + seq!['@'] + decimal(
        refresh_hz as nat,
    ) + seq![' '] + codec@;
    assert(plain + Seq::<char>::empty() =~= plain);
}

/// A count as the lines show it: in decimal where there is one, and otherwise as not available, which
/// is no number.
pub open spec fn shows_count(text: Seq<char>, n: Option<u64>) -> bool {
    match n {
        Some(n) => text == decimal(n as nat),
        None => text == seq!['n', '/', 'a'],
    }
}

/// The line on losses shows what was dropped, what was recovered, whether the picture is held and
/// what waits at the decoder, in this order; a backlog below zero is not available.
pub proof fn lemma_drop_lines_read(
    dropped: Option<u64>,
    recovered: Option<u64>,
    holding: bool,
    backlog: i64,
    line: String,
    lost: Seq<char>,
    saved: Seq<char>,
    behind: Seq<char>,
)
    requires
        call_ensures(drop_line, (dropped, recovered, holding, backlog), line),
        shows_count(lost, dropped),
        shows_count(saved, recovered),
        backlog < 0 ==> shows_count(behind, None),
        backlog >= 0 ==> shows_count(behind, Some(backlog as u64)),
    ensures
        holding ==> line@ == "Drop "@ + lost + " · FEC "@ + saved + " · hold "@ + seq!['y', 'e', 's']
            + " · buf "@ + behind,
        !holding ==> line@ == "Drop "@ + lost + " · FEC "@ + saved + " · hold "@ + seq!['n', 'o']
            + " · buf "@ + behind,
{
    reveal_strlit("n/a");
    reveal_strlit("yes");
    reveal_strlit("no");
    assert("n/a"@ =~= seq!['n', '/', 'a']);
    assert("yes"@ =~= seq!['y', 'e', 's']);
    assert("no"@ =~= seq!['n', 'o']);
}

/// The line on audio shows what is buffered and then how far audio is behind, the latter always with
/// its sign.
pub proof fn lemma_audio_lines_read(
    buffered_ms: i64,
    behind_ms: i64,
    line: String,
    buffered: String,
    behind: String,
)
    requires
        call_ensures(audio_line, (buffered_ms, behind_ms), line),
        buffered_ms >= 0 ==> call_ensures(decimal_text, (buffered_ms as u64,), buffered),
        buffered_ms < 0 ==> call_ensures(decimal_text, ((-buffered_ms) as u64,), buffered),
        behind_ms >= 0 ==> call_ensures(decimal_text, (behind_ms as u64,), behind),
        behind_ms < 0 ==> call_ensures(decimal_text, ((-behind_ms) as u64,), behind),
    ensures
        ({
            let size = if buffered_ms < 0 {
                seq!['-'] + buffered@
            } else {
                buffered@
            };
            let late = if behind_ms < 0 {
                seq!['-'] + behind@
            } else {
                seq!['+'] + behind@
            };
            line@ == "Audio buf "@ + size + " ms · A/V "@ + late + " ms"@
        }),
{
}

/// A rate in megabits is the whole part of the one in kilobits.
pub proof fn lemma_megabits_are_whole(kbps: u32, mbps: u32)
    requires
        call_ensures(whole_mbps, (kbps,), mbps),
    ensures
        mbps * 1000 <= kbps < mbps * 1000 + 1000,
{
}

/// The lines stand in a fixed order; what cannot be shown leaves no gap.
pub proof fn lemma_lines_leave_no_gaps(lines: Lines, listed: Vec<String>)
    requires
        call_ensures(Lines::in_order, (lines,), listed),
    ensures
        listed@.len() >= 5,
        listed@[0]@ == lines.mode@ && listed@[1]@ == lines.video@ && listed@[2]@ == lines.drop@,
        listed@[3]@ == lines.feed@ && listed@[4]@ == lines.audio@,
        lines.process matches Some(line) ==> listed@.len() >= 6 && listed@[5]@ == line@,
        lines.pace matches Some(line) ==> listed@.len() >= 6 && listed@.last()@ == line@,
        lines.process is None && lines.pace is None ==> listed@.len() == 5,
        lines.process is Some && lines.pace is Some ==> listed@.len() == 7,
        lines.process is Some != lines.pace is Some ==> listed@.len() == 6,
{
    let f = |l: String| l@;
    let all = listed@.map_values(f);
    assert(all.len() == listed@.len());
    assert(forall|i: int| 0 <= i < listed@.len() ==> all[i] == (#[trigger] listed@[i])@);
}

} // verus!

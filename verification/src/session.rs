//! Before and after a stream: waiting for the picture, what the menu is told, and how a session is
//! taken down.
use vstd::prelude::*;
use vstd::string::StringExecFns;
use crate::cursor::{
    lemma_pointer_follows_capture, lemma_pointer_hides_without_sentinels, Command, Cursor, Pointer,
    Sentinel,
};

verus! {

/// Whether to go on waiting for the first picture: not once there is one, nor once the time is up.
pub fn keeps_waiting(presenting: bool, elapsed_ns: u64, timeout_ns: u64) -> (yes: bool)
    ensures
        yes == (!presenting && elapsed_ns < timeout_ns),
{
    !presenting && elapsed_ns < timeout_ns
}

/// What the menu shows when it comes up again.
pub struct Notices {
    /// Why the last stream did not start.
    pub status: Option<String>,
    /// Why the last stream ended, where that is news.
    pub toast: Option<String>,
}

impl Notices {
    /// Nothing to show.
    pub fn new() -> (notices: Notices)
        ensures
            notices.status is None,
            notices.toast is None,
    {
        Notices { status: None, toast: None }
    }

    /// Hands out what there is to show, so that it is shown once.
    pub fn take(&mut self) -> (taken: Notices)
        ensures
            taken == *old(self),
            final(self).status is None,
            final(self).toast is None,
    {
        let mut taken: Notices = Notices::new();
        std::mem::swap(&mut taken, self);
        taken
    }

    /// The connection could not be made.
    pub fn connect_failed(&mut self, reason: &str)
        ensures
            final(self).status matches Some(text) && text@ == "Couldn't connect: "@ + reason@,
            final(self).toast == old(self).toast,
    {
        let mut text: String = String::from_str("Couldn't connect: ");
        text.append(reason);
        self.status = Some(text);
    }

    /// The audio could not be started.
    pub fn audio_failed(&mut self, reason: &str)
        ensures
            final(self).status matches Some(text) && text@ == "Couldn't start audio: "@ + reason@,
            final(self).toast == old(self).toast,
    {
        let mut text: String = String::from_str("Couldn't start audio: ");
        text.append(reason);
        self.status = Some(text);
    }

    /// The stream ended, with a message where that is news.
    pub fn stream_ended(&mut self, message: Option<String>)
        ensures
            final(self).status == old(self).status,
            final(self).toast == (if message is Some {
                message
            } else {
                old(self).toast
            }),
    {
        if message.is_some() {
            self.toast = message;
        }
    }
}

/// A step of taking a session down.
#[derive(Clone, Copy, Debug, PartialEq, Eq, Structural)]
pub enum Teardown {
    /// Tell the host that the client leaves.
    Disconnect,
    /// Take the resistance off the pad's triggers, which would outlive the session.
    ReleaseTriggers,
    StopRumble,
    /// Stop feeding audio, and close the device.
    StopAudio,
    /// End the session's threads and close the connection. Its answer decides what comes after.
    Shutdown,
    UnloadVideo,
    /// A thread hangs: the video stays loaded for this run.
    KeepVideo,
    /// Put the picture and sound modes of the TV back.
    RestoreModes,
    Cursor(Command),
}

/// What there is to take down.
#[derive(Clone, Copy, Debug, PartialEq, Eq, Structural)]
pub struct Held {
    /// Feedback is sent to a pad's triggers.
    pub triggers: bool,
    pub pad: bool,
    pub audio: bool,
}

/// The steps up to the one whose answer decides.
pub open spec fn steps_before(held: Held) -> Seq<Teardown> {
    (if held.triggers {
        seq![Teardown::ReleaseTriggers]
    } else {
        seq![]
    }) + (if held.pad {
        seq![Teardown::StopRumble]
    } else {
        seq![]
    }) + (if held.audio {
        seq![Teardown::StopAudio]
    } else {
        seq![]
    }) + seq![Teardown::Shutdown]
}

/// The steps up to the one whose answer decides: the pad first, then audio, then the session.
pub fn before_shutdown(held: Held) -> (steps: Vec<Teardown>)
    ensures
        steps@ == steps_before(held),
{
    let mut steps: Vec<Teardown> = Vec::new();
    if held.triggers {
        steps.push(Teardown::ReleaseTriggers);
    }
    if held.pad {
        steps.push(Teardown::StopRumble);
    }
    if held.audio {
        steps.push(Teardown::StopAudio);
    }
    steps.push(Teardown::Shutdown);
    assert(steps@ =~= steps_before(held));
    steps
}

/// The commands for the local pointer, as steps.
pub open spec fn cursor_steps(commands: Seq<Command>) -> Seq<Teardown> {
    commands.map_values(|c: Command| Teardown::Cursor(c))
}

/// The steps after a shutdown: the video is unloaded only where every thread has ended. `modes` is
/// whether the modes of the TV are put back.
pub open spec fn steps_after(clean: bool, modes: bool, cursor: Cursor) -> Seq<Teardown> {
    seq![
        if clean {
            Teardown::UnloadVideo
        } else {
            Teardown::KeepVideo
        },
    ] + (if modes {
        seq![Teardown::RestoreModes]
    } else {
        seq![]
    }) + cursor_steps(Cursor { captured: false, ..cursor }.commands())
}

fn push_release(steps: &mut Vec<Teardown>, cursor: &mut Cursor)
    ensures
        *final(cursor) == (Cursor { captured: false, ..*old(cursor) }),
        final(steps)@ == old(steps)@ + cursor_steps(final(cursor).commands()),
{
    let commands: Vec<Command> = cursor.set_captured(false);
    let mut i: usize = 0;
    while i < commands.len()
        invariant
            i <= commands@.len(),
            steps@ == old(steps)@ + cursor_steps(commands@.take(i as int)),
        decreases commands@.len() - i,
    {
        steps.push(Teardown::Cursor(commands[i]));
        assert(steps@ =~= old(steps)@ + cursor_steps(commands@.take(i + 1)));
        i = i + 1;
    }
    assert(commands@.take(i as int) =~= commands@);
}

/// The steps after the shutdown of a stream that ran, which gives the pointer back.
pub fn after_shutdown(clean: bool, cursor: &mut Cursor) -> (steps: Vec<Teardown>)
    ensures
        steps@ == steps_after(clean, true, *old(cursor)),
        *final(cursor) == (Cursor { captured: false, ..*old(cursor) }),
{
    let mut steps: Vec<Teardown> = Vec::new();
    steps.push(
        if clean {
            Teardown::UnloadVideo
        } else {
            Teardown::KeepVideo
        },
    );
    steps.push(Teardown::RestoreModes);
    push_release(&mut steps, cursor);
    assert(steps@ =~= steps_after(clean, true, *old(cursor)));
    steps
}

/// The steps up to the one whose answer decides, where audio could not be started.
pub fn before_failed_shutdown() -> (steps: Vec<Teardown>)
    ensures
        steps@ == seq![Teardown::Disconnect, Teardown::Shutdown],
{
    let steps: Vec<Teardown> = vec![Teardown::Disconnect, Teardown::Shutdown];
    assert(steps@ =~= seq![Teardown::Disconnect, Teardown::Shutdown]);
    steps
}

/// The steps after the shutdown of a stream whose audio could not be started. The modes of the TV
/// were not touched yet.
pub fn after_failed_shutdown(clean: bool, cursor: &mut Cursor) -> (steps: Vec<Teardown>)
    ensures
        steps@ == steps_after(clean, false, *old(cursor)),
        *final(cursor) == (Cursor { captured: false, ..*old(cursor) }),
{
    let mut steps: Vec<Teardown> = Vec::new();
    steps.push(
        if clean {
            Teardown::UnloadVideo
        } else {
            Teardown::KeepVideo
        },
    );
    push_release(&mut steps, cursor);
    assert(steps@ =~= steps_after(clean, false, *old(cursor)));
    steps
}

/// The video is unloaded only after a shutdown that ended every thread.
pub proof fn lemma_video_is_unloaded_after_clean_shutdowns(
    held: Held,
    clean: bool,
    modes: bool,
    cursor: Cursor,
)
    ensures
        steps_after(clean, modes, cursor).contains(Teardown::UnloadVideo) <==> clean,
        !steps_before(held).contains(Teardown::UnloadVideo),
{
    let steps = steps_after(clean, modes, cursor);
    if clean {
        assert(steps[0] == Teardown::UnloadVideo);
    }
}

/// Whatever is held on a pad or plays is let go before the session goes.
pub proof fn lemma_everything_held_is_let_go(held: Held)
    ensures
        steps_before(held).contains(Teardown::ReleaseTriggers) <==> held.triggers,
        steps_before(held).contains(Teardown::StopRumble) <==> held.pad,
        steps_before(held).contains(Teardown::StopAudio) <==> held.audio,
        steps_before(held).last() == Teardown::Shutdown,
{
    let t: int = if held.triggers {
        1
    } else {
        0
    };
    let p: int = if held.pad {
        1
    } else {
        0
    };
    let steps = steps_before(held);
    if held.triggers {
        assert(steps[0] == Teardown::ReleaseTriggers);
    }
    if held.pad {
        assert(steps[t] == Teardown::StopRumble);
    }
    if held.audio {
        assert(steps[t + p] == Teardown::StopAudio);
    }
}

/// However a stream ends, the pointer is given back last: the arrow is there again, and SDL reports
/// coordinates.
pub proof fn lemma_pointer_is_given_back(
    clean: bool,
    modes: bool,
    cursor: Cursor,
    before: Pointer,
)
    ensures
        ({
            let commands = Cursor { captured: false, ..cursor }.commands();
            let now = before.obeys_all(commands);
            &&& cursor_steps(commands).is_suffix_of(steps_after(clean, modes, cursor))
            &&& cursor.sentinels ==> now.sentinel == Some(Sentinel::Arrow)
            &&& now.shown
            &&& !now.relative
        }),
{
    let free = Cursor { captured: false, ..cursor };
    if cursor.sentinels {
        lemma_pointer_follows_capture(free, before);
    } else {
        lemma_pointer_hides_without_sentinels(free, before);
    }
    let steps = steps_after(clean, modes, cursor);
    let tail = cursor_steps(free.commands());
    assert(steps.subrange(steps.len() - tail.len(), steps.len() as int) =~= tail);
}

/// Waiting ends with the first picture, or when the time is up, whichever comes first.
pub proof fn lemma_waiting_ends(presenting: bool, elapsed_ns: u64, timeout_ns: u64, yes: bool)
    requires
        call_ensures(keeps_waiting, (presenting, elapsed_ns, timeout_ns), yes),
    ensures
        presenting ==> !yes,
        elapsed_ns >= timeout_ns ==> !yes,
        !presenting && elapsed_ns < timeout_ns ==> yes,
{
}

/// The place of a step in the order in which a session is taken down.
pub open spec fn rank(step: Teardown) -> int {
    match step {
        Teardown::ReleaseTriggers => 1,
        Teardown::StopRumble => 2,
        Teardown::StopAudio => 3,
        Teardown::Shutdown => 4,
        Teardown::UnloadVideo | Teardown::KeepVideo => 5,
        Teardown::RestoreModes => 6,
        Teardown::Cursor(_) => 7,
        Teardown::Disconnect => 0,
    }
}

/// Before the shutdown the triggers are let go, then the rumble, then the audio, each at most once
/// and only where it is held, and the shutdown comes last.
pub proof fn lemma_pads_and_audio_go_before_the_session(
    held: Held,
    steps: Vec<Teardown>,
    i: int,
    j: int,
)
    requires
        call_ensures(before_shutdown, (held,), steps),
        0 <= i < j < steps@.len(),
    ensures
        rank(steps@[i]) < rank(steps@[j]),
        1 <= rank(steps@[i]) <= 3,
        steps@.last() is Shutdown,
{
}

/// What is taken down before the shutdown is what was held.
pub proof fn lemma_only_what_was_held_is_let_go(held: Held, steps: Vec<Teardown>)
    requires
        call_ensures(before_shutdown, (held,), steps),
    ensures
        steps@.contains(Teardown::ReleaseTriggers) <==> held.triggers,
        steps@.contains(Teardown::StopRumble) <==> held.pad,
        steps@.contains(Teardown::StopAudio) <==> held.audio,
        steps@.contains(Teardown::Shutdown),
        steps@.len() == 1 + (if held.triggers {
            1int
        } else {
            0
        }) + (if held.pad {
            1int
        } else {
            0
        }) + (if held.audio {
            1int
        } else {
            0
        }),
{
    lemma_everything_held_is_let_go(held);
    assert(steps@[steps@.len() - 1] is Shutdown);
}

/// After the shutdown the video is unloaded or kept, then the modes of the TV are put back where they
/// were touched, and last the pointer is given back in three steps.
pub proof fn lemma_shutdowns_are_followed_up(clean: bool, modes: bool, cursor: Cursor)
    ensures
        ({
            let steps = steps_after(clean, modes, cursor);
            let n = steps.len() as int;
            &&& steps[0] == (if clean {
                Teardown::UnloadVideo
            } else {
                Teardown::KeepVideo
            })
            &&& modes ==> n == 5 && steps[1] is RestoreModes
            &&& !modes ==> n == 4
            &&& forall|i: int| n - 3 <= i < n ==> #[trigger] steps[i] is Cursor
            &&& steps[n - 3] == Teardown::Cursor(Command::ShowCursor(true))
            &&& cursor.sentinels ==> steps[n - 2] == Teardown::Cursor(
                Command::SetSentinel(Sentinel::Arrow),
            )
            &&& !cursor.sentinels ==> steps[n - 2] == Teardown::Cursor(Command::ShowCursor(true))
            &&& steps[n - 1] == Teardown::Cursor(Command::RelativeMode(false))
        }),
{
}

/// Where audio could not be started the host is told first, and then the session goes.
pub proof fn lemma_failed_streams_tell_the_host(steps: Vec<Teardown>)
    requires
        call_ensures(before_failed_shutdown, (), steps),
    ensures
        steps@.len() == 2,
        steps@[0] is Disconnect,
        steps@[1] is Shutdown,
{
}

/// There is nothing to show at first.
pub proof fn lemma_nothing_to_show_at_first(notices: Notices)
    requires
        call_ensures(Notices::new, (), notices),
    ensures
        notices.status is None && notices.toast is None,
{
}

/// What is handed out is what there was, and then there is nothing left: everything is shown once.
pub proof fn lemma_notices_are_shown_once(notices: &mut Notices, taken: Notices)
    requires
        call_ensures(Notices::take, (notices,), taken),
    ensures
        taken == *old(notices),
        final(notices).status is None && final(notices).toast is None,
{
}

/// A stream that did not start leaves its reason, behind what failed, and no other notice changes; one
/// that ended leaves its message where there is one.
pub proof fn lemma_notices_say_why(
    notices: &mut Notices,
    reason: &str,
    message: Option<String>,
)
    ensures
        call_ensures(Notices::connect_failed, (notices, reason), ()) ==> (final(notices).status matches Some(text) && text@ == "Couldn't connect: "@ + reason@) && final(notices).toast == old(notices).toast,
        call_ensures(Notices::audio_failed, (notices, reason), ()) ==> (final(notices).status matches Some(text) && text@ == "Couldn't start audio: "@ + reason@) && final(notices).toast == old(notices).toast,
        call_ensures(Notices::stream_ended, (notices, message), ()) ==> {
            &&& final(notices).status == old(notices).status
            &&& message is Some ==> final(notices).toast == message
            &&& message is None ==> final(notices).toast == old(notices).toast
        },
{
}

/// After the shutdown of a stream the modes of the TV are put back only where it ran, and the pointer
/// is free in either case.
pub proof fn lemma_streams_give_back_what_they_took(
    clean: bool,
    cursor: &mut Cursor,
    steps: Vec<Teardown>,
)
    ensures
        call_ensures(after_shutdown, (clean, cursor), steps) ==> steps@.contains(
            Teardown::RestoreModes,
        ) && steps@ == steps_after(clean, true, *old(cursor)) && !final(cursor).captured,
        call_ensures(after_failed_shutdown, (clean, cursor), steps) ==> !steps@.contains(
            Teardown::RestoreModes,
        ) && steps@ == steps_after(clean, false, *old(cursor)) && !final(cursor).captured,
        call_ensures(after_shutdown, (clean, cursor), steps) || call_ensures(
            after_failed_shutdown,
            (clean, cursor),
            steps,
        ) ==> final(cursor).sdl_relative == old(cursor).sdl_relative && final(cursor).sentinels
            == old(cursor).sentinels,
{
    let ran = steps_after(clean, true, *old(cursor));
    let failed = steps_after(clean, false, *old(cursor));
    assert(ran[1] is RestoreModes);
    assert(forall|i: int| 1 <= i < failed.len() ==> #[trigger] failed[i] is Cursor);
}

} // verus!

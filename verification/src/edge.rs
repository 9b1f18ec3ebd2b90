//! Keys that are polled, not delivered: a press is noticed as the first poll that finds the key down.
use vstd::prelude::*;

verus! {

/// A polled key, with what the last poll found.
#[derive(Clone, Copy, Debug, PartialEq, Eq, Structural)]
pub struct Edge {
    pub held: bool,
}

impl Edge {
    /// A key to poll from now on. `down` is whether it is down already: a key that is still held
    /// from before is not a press.
    pub fn new(down: bool) -> (edge: Edge)
        ensures
            edge == (Edge { held: down }),
    {
        Edge { held: down }
    }

    /// Whether a poll that finds the key `down` is a press.
    pub open spec fn presses(self, down: bool) -> bool {
        down && !self.held
    }

    /// Takes in a poll, and tells whether it is a press.
    pub fn fired(&mut self, down: bool) -> (yes: bool)
        ensures
            yes == old(self).presses(down),
            final(self).held == down,
    {
        let yes: bool = down && !self.held;
        self.held = down;
        yes
    }
}

/// The key after polls that found `polls`.
pub open spec fn polled(edge: Edge, polls: Seq<bool>) -> Edge {
    if polls.len() == 0 {
        edge
    } else {
        Edge { held: polls.last() }
    }
}

/// Whether poll number `i` is a press.
pub open spec fn press_at(edge: Edge, polls: Seq<bool>, i: int) -> bool {
    polled(edge, polls.take(i)).presses(polls[i])
}

/// A press is noticed once: between two of them a poll found the key up.
pub proof fn lemma_one_press_per_hold(edge: Edge, polls: Seq<bool>, i: int, j: int)
    requires
        0 <= i < j < polls.len(),
        press_at(edge, polls, i),
        press_at(edge, polls, j),
    ensures
        exists|k: int| i < k < j && !#[trigger] polls[k],
{
    assert(polls.take(j).last() == polls[j - 1]);
    assert(!polls[j - 1]);
}

/// A key that was down when polling began is no press until it was seen up.
pub proof fn lemma_held_from_before_is_no_press(edge: Edge, polls: Seq<bool>, i: int)
    requires
        edge.held,
        0 <= i < polls.len(),
        press_at(edge, polls, i),
    ensures
        exists|k: int| 0 <= k < i && !#[trigger] polls[k],
{
    if i > 0 {
        assert(polls.take(i).last() == polls[i - 1]);
        assert(!polls[i - 1]);
    } else {
        assert(polls.take(0) =~= Seq::empty());
    }
}

/// A press is a poll that finds the key down right after one that found it up.
pub proof fn lemma_presses_follow_releases(edge: Edge, polls: Seq<bool>, i: int)
    requires
        0 < i < polls.len(),
    ensures
        press_at(edge, polls, i) <==> polls[i] && !polls[i - 1],
        press_at(edge, polls, 0) <==> polls[0] && !edge.held,
{
    assert(polls.take(i).last() == polls[i - 1]);
    assert(polls.take(0) =~= Seq::empty());
}

/// Polling starts from how the key was found.
pub proof fn lemma_polling_starts_as_found(down: bool, edge: Edge)
    requires
        call_ensures(Edge::new, (down,), edge),
    ensures
        edge.presses(true) <==> !down,
        !edge.presses(false),
{
}

/// A poll is a press where it finds the key down and the last one did not, and it is remembered.
pub proof fn lemma_polls_are_remembered(edge: &mut Edge, down: bool, yes: bool)
    requires
        call_ensures(Edge::fired, (edge, down), yes),
    ensures
        yes <==> down && !old(edge).held,
        final(edge).held == down,
{
}

} // verus!

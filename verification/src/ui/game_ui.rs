//! The player's score.

use vstd::prelude::*;

use crate::units::clamp_coord;

verus! {

/// The player's score.
#[derive(Clone, Copy, Debug, PartialEq, Eq, Structural)]
pub struct PlayerScore(pub i32);

/// A number of points that the player has just won.
#[derive(Clone, Copy, Debug, PartialEq, Eq, Structural)]
pub struct ScoreEvent(pub i32);

/// The score that `score` becomes by the first `count` of `events`, each
/// added in its turn. A score stops at the ends of the 32-bit range.
pub open spec fn tally(score: int, events: Seq<ScoreEvent>, count: int) -> int
    decreases count,
{
    if count <= 0 {
        score
    } else {
        clamp_coord(tally(score, events, count - 1) + events[count - 1].0)
    }
}

/// Sets the score back to nothing.
pub fn restart_score(player_score: &mut PlayerScore)
    ensures
        final(player_score).0 == 0,
{
    player_score.0 = 0;
}

/// Adds the points of every event to the score.
pub fn update_score(events: &Vec<ScoreEvent>, player_score: &mut PlayerScore)
    ensures
        final(player_score).0 == tally(old(player_score).0 as int, events@, events.len() as int),
{
    let mut i: usize = 0;
    while i < events.len()
        invariant
            i <= events.len(),
            player_score.0 == tally(old(player_score).0 as int, events@, i as int),
        decreases events.len() - i,
    {
        let sum = player_score.0 as i64 + events[i].0 as i64;
        player_score.0 = if sum > i32::MAX as i64 {
            i32::MAX
        } else if sum < i32::MIN as i64 {
            i32::MIN
        } else {
            sum as i32
        };
        i += 1;
    }
}

/// A score never falls by events that take no points away.
pub proof fn lemma_score_never_falls(score: int, events: Seq<ScoreEvent>, count: int)
    requires
        i32::MIN <= score <= i32::MAX,
        0 <= count <= events.len(),
        forall|i: int| 0 <= i < count ==> (#[trigger] events[i]).0 >= 0,
    ensures
        score <= tally(score, events, count) <= i32::MAX,
    decreases count,
{
    if count > 0 {
        lemma_score_never_falls(score, events, count - 1);
    }
}

/// By events of one point each the score rises by their number, as long as
/// the sum can be held.
pub proof fn lemma_score_counts_events(score: int, events: Seq<ScoreEvent>, count: int)
    requires
        i32::MIN <= score,
        0 <= count <= events.len(),
        score + count <= i32::MAX,
        forall|i: int| 0 <= i < count ==> (#[trigger] events[i]) == ScoreEvent(1),
    ensures
        tally(score, events, count) == score + count,
    decreases count,
{
    if count > 0 {
        lemma_score_counts_events(score, events, count - 1);
    }
}

} // verus!

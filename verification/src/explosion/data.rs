//! Explosions and the events that call for them.

use vstd::prelude::*;

use crate::Point;

verus! {

/// A collision that calls for an explosion.
#[derive(Clone, Copy, Debug, PartialEq, Eq, Structural)]
pub struct ExplosionEvent {
    /// Where the two outlines met.
    pub position: Point,
    /// Which of the two colours the explosion is drawn in: the ship's or
    /// the asteroids'.
    pub is_player: bool,
}

/// An explosion.
#[derive(Clone, Copy, Debug, PartialEq, Eq, Structural)]
pub struct Explosion {
    /// When the explosion started, in microseconds of play.
    pub start_time: u64,
}

impl Explosion {
    /// An explosion that starts at `start_time`.
    pub fn new(start_time: u64) -> (explosion: Explosion)
        ensures
            explosion.start_time == start_time,
    {
        Explosion { start_time }
    }
}

} // verus!

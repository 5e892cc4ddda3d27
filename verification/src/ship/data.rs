//! The ship and its outline.

use vstd::prelude::*;

use crate::{Point, Rotation, Transform};

verus! {

/// The health of a ship that nothing has damaged.
pub const FULL_HEALTH: i32 = 100;

/// How far the ship's nose and its right wing tip lie from its centre.
pub const REACH: i32 = 5_000;

/// Where the ship's tail and its left wing tip lie.
pub const BACK: i32 = -5_000;

/// Where the notch between the wings lies.
pub const NOTCH: i32 = -2_500;

/// The outline of the ship about its centre: an arrow head that points up.
pub open spec fn spec_player_ship_points() -> Seq<Point> {
    seq![
        Point { x: BACK, y: BACK },
        Point { x: 0, y: REACH },
        Point { x: REACH, y: BACK },
        Point { x: 0, y: NOTCH },
        Point { x: BACK, y: BACK },
    ]
}

/// The outline of the ship about its centre: an arrow head that points up.
pub fn player_ship_points() -> (points: Vec<Point>)
    ensures
        points@ == spec_player_ship_points(),
{
    let mut points: Vec<Point> = Vec::new();
    points.push(Point { x: BACK, y: BACK });
    points.push(Point { x: 0, y: REACH });
    points.push(Point { x: REACH, y: BACK });
    points.push(Point { x: 0, y: NOTCH });
    points.push(Point { x: BACK, y: BACK });
    points
}

/// The player's ship.
#[derive(Clone, Copy, Debug, PartialEq, Eq, Structural)]
pub struct PlayerShip {
    /// What is left of the ship's health.
    pub health: i32,
    /// How far the ship moves in one second.
    pub speed: i32,
    /// Where the ship's centre is.
    pub position: Point,
    /// How far the ship is turned counter-clockwise from pointing up.
    pub angle: i32,
}

impl PlayerShip {
    /// Whether the ship's health is one that a ship can have.
    pub open spec fn well_formed(self) -> bool {
        0 <= self.health <= FULL_HEALTH
    }

    /// How the ship's outline is placed in the plane, given the cosine and
    /// sine of the ship's angle.
    pub open spec fn spec_transform(self, heading: Rotation) -> Transform {
        Transform { translation: self.position, rotation: heading }
    }

    /// How the ship's outline is placed in the plane, given the cosine and
    /// sine of the ship's angle.
    #[verifier::when_used_as_spec(spec_transform)]
    pub fn transform(self, heading: Rotation) -> (transform: Transform)
        ensures
            transform == self.spec_transform(heading),
    {
        Transform { translation: self.position, rotation: heading }
    }
}

/// The ship as a game starts: at rest in the middle, pointing up, in full
/// health.
pub fn setup_player() -> (ship: PlayerShip)
    ensures
        ship == (PlayerShip {
            health: FULL_HEALTH,
            speed: 0,
            position: Point { x: 0, y: 0 },
            angle: 0,
        }),
        ship.well_formed(),
{
    PlayerShip { health: FULL_HEALTH, speed: 0, position: Point { x: 0, y: 0 }, angle: 0 }
}

} // verus!

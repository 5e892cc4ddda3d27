//! Bullets and their outline.

use vstd::prelude::*;

use crate::units::{clamp_coord, saturate};
use crate::{Point, Rotation, Transform};

verus! {

/// How far ahead of the ship's centre a bullet starts.
pub const MUZZLE: i32 = 5_000;

/// How much faster than the ship its bullets fly.
pub const MUZZLE_SPEED: i32 = 55_000;

/// A bullet.
#[derive(Clone, Copy, Debug, PartialEq, Eq, Structural)]
pub struct Bullet {
    /// Where the bullet's tail is.
    pub position: Point,
    /// The way the bullet faces, which is the way it flies.
    pub rotation: Rotation,
    /// How far the bullet flies in one second.
    pub speed: i32,
}

impl Bullet {
    /// The bullet that a ship placed and turned as `transform` says fires
    /// while it moves at `speed`.
    pub open spec fn spec_spawn_bullet(transform: Transform, speed: i32) -> Bullet {
        Bullet {
            position: Point {
                x: clamp_coord(
                    transform.translation.x + (-transform.rotation.sin * MUZZLE) / 1000,
                ) as i32,
                y: clamp_coord(
                    transform.translation.y + (transform.rotation.cos * MUZZLE) / 1000,
                ) as i32,
            },
            rotation: transform.rotation,
            speed: clamp_coord(MUZZLE_SPEED + speed) as i32,
        }
    }

    /// Fires a bullet from a ship placed and turned as `transform` says and
    /// moving at `speed`: the bullet starts ahead of the ship's centre, faces
    /// as the ship does and flies faster than the ship by a fixed amount.
    #[verifier::when_used_as_spec(spec_spawn_bullet)]
    pub fn spawn_bullet(transform: Transform, speed: i32) -> (bullet: Bullet)
        ensures
            bullet == Bullet::spec_spawn_bullet(transform, speed),
    {
        let sin = transform.rotation.sin as i128;
        let cos = transform.rotation.cos as i128;
        assert((-sin * MUZZLE) / 1000 == -sin * 5 && (cos * MUZZLE) / 1000 == cos * 5);
        Bullet {
            position: Point {
                x: saturate(transform.translation.x as i128 - sin * 5),
                y: saturate(transform.translation.y as i128 + cos * 5),
            },
            rotation: transform.rotation,
            speed: saturate(MUZZLE_SPEED as i128 + speed as i128),
        }
    }

    /// How the bullet's outline is placed in the plane.
    pub open spec fn spec_transform(self) -> Transform {
        Transform { translation: self.position, rotation: self.rotation }
    }

    /// How the bullet's outline is placed in the plane.
    #[verifier::when_used_as_spec(spec_transform)]
    pub fn transform(self) -> (transform: Transform)
        ensures
            transform == self.spec_transform(),
    {
        Transform { translation: self.position, rotation: self.rotation }
    }
}

/// The outline of a bullet: one segment from its tail to its tip.
pub open spec fn spec_bullet_points() -> Seq<Point> {
    seq![Point { x: 0, y: 0 }, Point { x: 0, y: 5_000 }]
}

/// The outline of a bullet: one segment from its tail to its tip.
pub fn bullet_points() -> (points: Vec<Point>)
    ensures
        points@ == spec_bullet_points(),
{
    let mut points: Vec<Point> = Vec::new();
    points.push(Point { x: 0, y: 0 });
    points.push(Point { x: 0, y: 5_000 });
    points
}

} // verus!

//! The rules that steer the ship, keep it in view, damage and heal it.

use vstd::prelude::*;

use crate::asteroid::data::Asteroid;
use crate::collision::{find_touched, first_touched, outlines_match};
use crate::explosion::data::ExplosionEvent;
use crate::ship::data::{PlayerShip, FULL_HEALTH};
use crate::store::unmarked;
use crate::units::{
    clamp_coord, div_floor, lemma_product_bound, saturate, travel, FULL_TURN, MICROS_PER_SECOND,
};
use crate::{mesh_and_transform_to_points, placed, Point, Rotation, Viewport};

verus! {

/// The speed that the ship tends to while it is driven.
pub const TOP_SPEED: i32 = 50_000;

/// How far the ship turns in one second.
pub const TURN_RATE: i32 = 343_775;

/// How far the ship reaches to every side of its centre.
pub const SHIP_RADIUS: i32 = 5_000;

/// What the player asks of the ship at one tick.
#[derive(Clone, Copy, Debug, PartialEq, Eq, Structural)]
pub struct Controls {
    /// Drive forwards.
    pub thrust: bool,
    /// Turn counter-clockwise.
    pub rotate_left: bool,
    /// Turn clockwise.
    pub rotate_right: bool,
    /// Fire a bullet.
    pub fire: bool,
}

/// The speed after `delta` microseconds of a ship at `speed`: it closes the
/// share of the gap to its target that `delta` is of a second.
pub open spec fn eased_speed(speed: i32, thrust: bool, delta: u32) -> i32 {
    let target: int = if thrust {
        TOP_SPEED as int
    } else {
        0
    };
    clamp_coord(speed + travel(target - speed, delta as int)) as i32
}

/// The angle after `delta` microseconds of a ship at `angle`, kept from
/// nothing up to, but not including, a full turn.
pub open spec fn turned_angle(angle: i32, left: bool, right: bool, delta: u32) -> i32 {
    let step = travel(TURN_RATE as int, delta as int);
    let gain = if left {
        step
    } else {
        0
    };
    let loss = if right {
        step
    } else {
        0
    };
    ((angle + gain - loss) % (FULL_TURN as int)) as i32
}

/// The ship after one tick of `delta` microseconds under `controls`, while it
/// points along `heading`.
pub open spec fn steered(
    ship: PlayerShip,
    controls: Controls,
    heading: Rotation,
    delta: u32,
) -> PlayerShip {
    let speed = eased_speed(ship.speed, controls.thrust, delta);
    PlayerShip {
        health: ship.health,
        speed,
        position: if speed > 0 {
            ship.position.spec_flown(heading, speed, delta)
        } else {
            ship.position
        },
        angle: turned_angle(ship.angle, controls.rotate_left, controls.rotate_right, delta),
    }
}

/// Steers the ship for one tick of `delta` microseconds, and says whether it
/// fires.
///
/// `heading` holds the cosine and the sine of the angle that the ship has
/// before the tick. The speed eases towards the top speed while the ship is
/// driven and towards rest while it is not. A ship that moves then goes the
/// way it points. Last it turns as far as the controls ask.
pub fn player_input_and_movement(
    ship: &mut PlayerShip,
    controls: Controls,
    heading: Rotation,
    delta: u32,
) -> (fired: bool)
    ensures
        *final(ship) == steered(*old(ship), controls, heading, delta),
        fired == controls.fire,
        old(ship).well_formed() ==> final(ship).well_formed(),
{
    let target: i128 = if controls.thrust {
        TOP_SPEED as i128
    } else {
        0
    };
    let gap = target - ship.speed as i128;
    proof {
        lemma_product_bound(gap as int, delta as int, 0x1_0000_0000, 0x1_0000_0000);
    }
    let closed = div_floor(gap * delta as i128, MICROS_PER_SECOND as i128);
    let speed = saturate(ship.speed as i128 + closed);
    ship.speed = speed;
    if speed > 0 {
        ship.position = ship.position.flown(heading, speed, delta);
    }
    proof {
        lemma_product_bound(TURN_RATE as int, delta as int, 0x8000_0000, 0x1_0000_0000);
    }
    let step = div_floor(TURN_RATE as i128 * delta as i128, MICROS_PER_SECOND as i128);
    let gain = if controls.rotate_left {
        step
    } else {
        0
    };
    let loss = if controls.rotate_right {
        step
    } else {
        0
    };
    let turned = ship.angle as i128 + gain - loss;
    match turned.checked_rem_euclid(FULL_TURN as i128) {
        Some(angle) => {
            ship.angle = angle as i32;
        },
        None => {},
    }
    controls.fire
}

/// The coordinate nearest to `coordinate` at which the ship, reaching
/// `SHIP_RADIUS` to either side, stays between the two edges of a viewport
/// that is `size` across. Where the viewport is too small for the ship, the
/// ship is held at the lower edge.
pub open spec fn pinned(coordinate: i32, size: i32) -> i32 {
    if 2 * (coordinate - SHIP_RADIUS) < -size {
        (SHIP_RADIUS - size / 2) as i32
    } else if 2 * (coordinate + SHIP_RADIUS) > size {
        (size / 2 - SHIP_RADIUS) as i32
    } else {
        coordinate
    }
}

/// Computes `pinned`.
fn pin(coordinate: i32, size: i32) -> (held: i32)
    ensures
        held == pinned(coordinate, size),
{
    let c = coordinate as i64;
    let s = size as i64;
    let half = div_floor(size as i128, 2) as i64;
    if 2 * (c - SHIP_RADIUS as i64) < -s {
        (SHIP_RADIUS as i64 - half) as i32
    } else if 2 * (c + SHIP_RADIUS as i64) > s {
        (half - SHIP_RADIUS as i64) as i32
    } else {
        coordinate
    }
}

/// Keeps the ship in view: a ship that reaches beyond an edge of the viewport
/// is set back so that it touches the edge. Nothing else of the ship changes;
/// it keeps its speed and slides along the edge.
pub fn check_ship_bounds(ship: &mut PlayerShip, viewport: Viewport)
    ensures
        *final(ship) == (PlayerShip {
            position: Point {
                x: pinned(old(ship).position.x, viewport.width),
                y: pinned(old(ship).position.y, viewport.height),
            },
            ..*old(ship)
        }),
        viewport.width >= 2 * SHIP_RADIUS && viewport.height >= 2 * SHIP_RADIUS ==> viewport.holds(
            final(ship).position,
            SHIP_RADIUS as int,
        ),
{
    ship.position = Point {
        x: pin(ship.position.x, viewport.width),
        y: pin(ship.position.y, viewport.height),
    };
}

/// Lets the ship's health grow by one, up to full health.
pub fn heal_player(ship: &mut PlayerShip)
    ensures
        *final(ship) == (PlayerShip {
            health: if old(ship).health < FULL_HEALTH {
                (old(ship).health + 1) as i32
            } else {
                FULL_HEALTH
            },
            ..*old(ship)
        }),
        final(ship).health <= FULL_HEALTH,
        old(ship).well_formed() ==> final(ship).well_formed(),
{
    if ship.health < FULL_HEALTH {
        ship.health = ship.health + 1;
    } else {
        ship.health = FULL_HEALTH;
    }
}

/// What becomes of a ship that runs into an asteroid.
#[derive(Clone, Copy, Debug, PartialEq, Eq, Structural)]
pub enum ShipEvent {
    /// The ship is damaged and flies on.
    Hit,
    /// The ship is destroyed.
    Destroyed,
}

/// A ship that has run into an asteroid, with all that follows from it.
#[derive(Clone, Copy, Debug, PartialEq, Eq, Structural)]
pub struct ShipCollision {
    /// Which asteroid is destroyed, by its place in the list of asteroids.
    pub asteroid: usize,
    /// The health that the ship loses.
    pub damage: i32,
    /// What becomes of the ship.
    pub event: ShipEvent,
    /// The explosion of the collision, where the outlines met, in the ship's
    /// colour.
    pub explosion: ExplosionEvent,
    /// One more explosion in the same place, in the asteroids' colour, if
    /// the ship is destroyed.
    pub wreck: Option<ExplosionEvent>,
}

/// The first asteroid that the ship touches, with the point of contact.
pub open spec fn rammed(
    ship: PlayerShip,
    heading: Rotation,
    ship_mesh: Seq<Point>,
    asteroids: Seq<Asteroid>,
    meshes: Seq<Vec<Point>>,
) -> Option<(int, Point)> {
    first_touched(
        ship.position,
        placed(ship_mesh, ship.spec_transform(heading)),
        SHIP_RADIUS as int,
        asteroids,
        meshes,
        Seq::new(asteroids.len(), |j: int| false),
        0,
    )
}

/// What follows when a ship with the health `health` touches an asteroid of
/// `asteroids` in `contact`: the asteroid is destroyed, and the ship loses as
/// much health as the asteroid's class takes. A ship left without health is
/// destroyed.
pub open spec fn ram(
    health: i32,
    asteroid: int,
    asteroids: Seq<Asteroid>,
    contact: Point,
) -> ShipCollision {
    let damage = asteroids[asteroid].size.spec_damage();
    ShipCollision {
        asteroid: asteroid as usize,
        damage,
        event: if health - damage <= 0 {
            ShipEvent::Destroyed
        } else {
            ShipEvent::Hit
        },
        explosion: ExplosionEvent { position: contact, is_player: true },
        wreck: if health - damage <= 0 {
            Some(ExplosionEvent { position: contact, is_player: false })
        } else {
            None
        },
    }
}

/// The health that is left of `health` after the loss of `damage`: never less
/// than none.
pub open spec fn health_after(health: i32, damage: i32) -> i32 {
    if health - damage <= 0 {
        0
    } else {
        (health - damage) as i32
    }
}

/// Lets the ship run into the first asteroid that it touches.
///
/// `heading` holds the cosine and the sine of the ship's angle, `ship_mesh` is
/// the ship's outline about its centre, and `asteroid_meshes` holds, for each
/// asteroid in its place, the outline about its centre. The asteroids are
/// taken in their order. The ship is tested against an asteroid's outline
/// only where it is near enough to the asteroid's centre. At most one
/// collision is dealt with at a tick: the first that is found.
pub fn check_ship_collisions(
    ship: &mut PlayerShip,
    heading: Rotation,
    ship_mesh: &Vec<Point>,
    asteroids: &Vec<Asteroid>,
    asteroid_meshes: &Vec<Vec<Point>>,
) -> (collision: Option<ShipCollision>)
    requires
        ship_mesh.len() >= 2,
        outlines_match(asteroids@, asteroid_meshes@),
    ensures
        match rammed(*old(ship), heading, ship_mesh@, asteroids@, asteroid_meshes@) {
            None => collision is None && *final(ship) == *old(ship),
            Some((j, contact)) => {
                &&& 0 <= j < asteroids.len()
                &&& collision == Some(ram(old(ship).health, j, asteroids@, contact))
                &&& *final(ship) == (PlayerShip {
                    health: health_after(old(ship).health, asteroids[j].size.spec_damage()),
                    ..*old(ship)
                })
            },
        },
        old(ship).well_formed() ==> final(ship).well_formed() && final(ship).health <= old(
            ship,
        ).health,
{
    let outline = mesh_and_transform_to_points(ship_mesh, &ship.transform(heading));
    let spent = unmarked(asteroids.len());
    match find_touched(ship.position, &outline, SHIP_RADIUS, asteroids, asteroid_meshes, &spent) {
        None => None,
        Some((j, contact)) => {
            let damage = asteroids[j].size.damage();
            let left = ship.health as i64 - damage as i64;
            let dead = left <= 0;
            ship.health = if dead {
                0
            } else {
                left as i32
            };
            Some(
                ShipCollision {
                    asteroid: j,
                    damage,
                    event: if dead {
                        ShipEvent::Destroyed
                    } else {
                        ShipEvent::Hit
                    },
                    explosion: ExplosionEvent { position: contact, is_player: true },
                    wreck: if dead {
                        Some(ExplosionEvent { position: contact, is_player: false })
                    } else {
                        None
                    },
                },
            )
        },
    }
}

} // verus!

//! The simulation core of a small arcade shooter: a ship, its bullets and the
//! asteroids they break apart.
//!
//! The crate holds the rules of the game and nothing else. It keeps no
//! entities, reads no clock and draws nothing: at every tick its caller hands
//! it lists of asteroids and bullets, the ship, the time passed and the size
//! of the viewport, and gets back what has moved, what is to go, what is to
//! come and what has happened. The lists are never changed while they are
//! searched, so nothing is dealt with twice at a tick.
//!
//! All numbers are whole: lengths in thousandths of a unit, time in
//! microseconds, angles in thousandths of a degree (see [`units`]). Cosines,
//! sines and logarithms are the caller's to compute; where a rule needs one,
//! it takes it as an argument.

use vstd::prelude::*;

pub mod asteroid;
pub mod bullet;
pub mod collision;
pub mod explosion;
mod random;
pub mod ship;
pub mod store;
pub mod ui;
pub mod units;

use crate::units::{
    clamp_coord, div_floor, flight, floor_div, floor_sqrt, isqrt, lemma_floor_div_shift,
    lemma_product_bound, lemma_quotient_bounds, saturate, travel, MICROS_PER_SECOND, UNIT,
};

verus! {

/// What the player is looking at.
#[derive(Clone, Copy, Debug, PartialEq, Eq, Structural, Hash)]
pub enum GameState {
    /// The menu that a session starts with.
    MainMenu,
    /// A game in progress.
    Game,
    /// The end of a game, with the asteroids still drifting.
    GameOver,
}

impl Default for GameState {
    fn default() -> (state: GameState)
        ensures
            state == GameState::MainMenu,
    {
        GameState::MainMenu
    }
}

/// A position or a displacement in the plane.
#[derive(Clone, Copy, Debug, PartialEq, Eq, Structural)]
pub struct Point {
    pub x: i32,
    pub y: i32,
}

impl Point {
    /// The length of this displacement in thousandths of the unit that its
    /// coordinates count, rounded down.
    pub open spec fn length(self) -> int {
        floor_sqrt((self.x * self.x + self.y * self.y) * 1_000_000)
    }

    /// This displacement stretched or shrunk to the length `length`; the
    /// displacement of no length stays as it is.
    pub open spec fn spec_resized(self, length: int) -> Point {
        if self.length() == 0 {
            Point { x: 0, y: 0 }
        } else {
            Point {
                x: clamp_coord(self.x * length * 1000 / self.length()) as i32,
                y: clamp_coord(self.y * length * 1000 / self.length()) as i32,
            }
        }
    }

    /// This displacement stretched or shrunk to the length `length`; the
    /// displacement of no length stays as it is.
    pub fn resized(self, length: i64) -> (resized: Point)
        ensures
            resized == self.spec_resized(length as int),
    {
        let x = self.x as i128;
        let y = self.y as i128;
        proof {
            lemma_product_bound(x as int, x as int, 0x8000_0000, 0x8000_0000);
            lemma_product_bound(y as int, y as int, 0x8000_0000, 0x8000_0000);
            lemma_product_bound(x as int, length as int, 0x8000_0000, 0x8000_0000_0000_0000);
            lemma_product_bound(y as int, length as int, 0x8000_0000, 0x8000_0000_0000_0000);
            assert(x * x >= 0 && y * y >= 0) by (nonlinear_arith);
        }
        let len = isqrt(((x * x + y * y) * 1_000_000) as u128) as i128;
        if len == 0 {
            Point { x: 0, y: 0 }
        } else {
            Point {
                x: saturate(div_floor(x * length as i128 * 1000, len)),
                y: saturate(div_floor(y * length as i128 * 1000, len)),
            }
        }
    }

    /// The sum of this point and `other`, coordinate by coordinate.
    pub open spec fn spec_plus(self, other: Point) -> Point {
        Point {
            x: clamp_coord(self.x + other.x) as i32,
            y: clamp_coord(self.y + other.y) as i32,
        }
    }

    /// The sum of this point and `other`, coordinate by coordinate.
    #[verifier::when_used_as_spec(spec_plus)]
    pub fn plus(self, other: Point) -> (sum: Point)
        ensures
            sum == self.spec_plus(other),
    {
        Point {
            x: saturate(self.x as i128 + other.x as i128),
            y: saturate(self.y as i128 + other.y as i128),
        }
    }

    /// Where something that starts here and faces as `heading` says is after
    /// `delta` microseconds at the speed `speed`. What faces by no turn
    /// moves up.
    pub open spec fn spec_flown(self, heading: Rotation, speed: i32, delta: u32) -> Point {
        Point {
            x: clamp_coord(self.x + flight(-heading.sin, speed as int, delta as int)) as i32,
            y: clamp_coord(self.y + flight(heading.cos as int, speed as int, delta as int)) as i32,
        }
    }

    /// Where something that starts here and faces as `heading` says is after
    /// `delta` microseconds at the speed `speed`. What faces by no turn
    /// moves up.
    #[verifier::when_used_as_spec(spec_flown)]
    pub fn flown(self, heading: Rotation, speed: i32, delta: u32) -> (moved: Point)
        ensures
            moved == self.spec_flown(heading, speed, delta),
    {
        let sin = heading.sin as i128;
        let cos = heading.cos as i128;
        let speed = speed as i128;
        proof {
            lemma_product_bound(-sin as int, speed as int, 0x8000_0000, 0x8000_0000);
            lemma_product_bound(cos as int, speed as int, 0x8000_0000, 0x8000_0000);
            lemma_product_bound(
                (-sin * speed) as int,
                delta as int,
                0x4000_0000_0000_0000,
                0x1_0000_0000,
            );
            lemma_product_bound(
                (cos * speed) as int,
                delta as int,
                0x4000_0000_0000_0000,
                0x1_0000_0000,
            );
        }
        let dx = div_floor(-sin * speed * delta as i128, 1_000_000_000);
        let dy = div_floor(cos * speed * delta as i128, 1_000_000_000);
        Point { x: saturate(self.x as i128 + dx), y: saturate(self.y as i128 + dy) }
    }

    /// Where something that starts here is after `delta` microseconds at the
    /// velocity `velocity`.
    pub open spec fn spec_advanced(self, velocity: Point, delta: u32) -> Point {
        Point {
            x: clamp_coord(self.x + travel(velocity.x as int, delta as int)) as i32,
            y: clamp_coord(self.y + travel(velocity.y as int, delta as int)) as i32,
        }
    }

    /// Where something that starts here is after `delta` microseconds at the
    /// velocity `velocity`.
    #[verifier::when_used_as_spec(spec_advanced)]
    pub fn advanced(self, velocity: Point, delta: u32) -> (moved: Point)
        ensures
            moved == self.spec_advanced(velocity, delta),
    {
        proof {
            lemma_product_bound(velocity.x as int, delta as int, 0x8000_0000, 0x1_0000_0000);
            lemma_product_bound(velocity.y as int, delta as int, 0x8000_0000, 0x1_0000_0000);
        }
        let dx = div_floor(velocity.x as i128 * delta as i128, MICROS_PER_SECOND as i128);
        let dy = div_floor(velocity.y as i128 * delta as i128, MICROS_PER_SECOND as i128);
        Point { x: saturate(self.x as i128 + dx), y: saturate(self.y as i128 + dy) }
    }
}

/// The rectangle that the game is seen through, centred on the origin.
#[derive(Clone, Copy, Debug, PartialEq, Eq, Structural)]
pub struct Viewport {
    pub width: i32,
    pub height: i32,
}

impl Viewport {
    /// Whether something at `position` that reaches `extent` to every side
    /// lies wholly beyond one of the four edges.
    pub open spec fn spec_excludes(self, position: Point, extent: int) -> bool {
        ||| 2 * (position.x + extent) < -self.width
        ||| 2 * (position.x - extent) > self.width
        ||| 2 * (position.y + extent) < -self.height
        ||| 2 * (position.y - extent) > self.height
    }

    /// Whether something at `position` that reaches `extent` to every side
    /// lies wholly between the four edges.
    pub open spec fn holds(self, position: Point, extent: int) -> bool {
        &&& -self.width <= 2 * (position.x - extent)
        &&& 2 * (position.x + extent) <= self.width
        &&& -self.height <= 2 * (position.y - extent)
        &&& 2 * (position.y + extent) <= self.height
    }

    /// Whether something at `position` that reaches `extent` to every side
    /// lies wholly beyond one of the four edges.
    pub fn excludes(self, position: Point, extent: i32) -> (out: bool)
        ensures
            out == self.spec_excludes(position, extent as int),
    {
        let x = position.x as i64;
        let y = position.y as i64;
        let e = extent as i64;
        2 * (x + e) < -(self.width as i64) || 2 * (x - e) > self.width as i64 || 2 * (y + e) < -(
        self.height as i64) || 2 * (y - e) > self.height as i64
    }
}

/// Something whose centre lies further beyond an edge of the viewport than
/// half the viewport's size and its own extent together lies wholly beyond
/// that edge.
pub proof fn lemma_far_beyond_an_edge(viewport: Viewport, position: Point, extent: int)
    requires
        ({
            ||| 2 * position.x > viewport.width + 2 * extent
            ||| 2 * position.x < -(viewport.width + 2 * extent)
            ||| 2 * position.y > viewport.height + 2 * extent
            ||| 2 * position.y < -(viewport.height + 2 * extent)
        }),
    ensures
        viewport.spec_excludes(position, extent),
{
}

/// A turn about the origin, given by the cosine and the sine of its angle in
/// thousandths.
#[derive(Clone, Copy, Debug, PartialEq, Eq, Structural)]
pub struct Rotation {
    pub cos: i32,
    pub sin: i32,
}

impl Rotation {
    /// The turn by no angle.
    pub fn identity() -> (rotation: Rotation)
        ensures
            rotation == (Rotation { cos: UNIT, sin: 0 }),
    {
        Rotation { cos: UNIT, sin: 0 }
    }
}

/// A turn about the origin followed by a shift.
#[derive(Clone, Copy, Debug, PartialEq, Eq, Structural)]
pub struct Transform {
    pub translation: Point,
    pub rotation: Rotation,
}

impl Transform {
    /// The shift to `position`, without a turn.
    pub open spec fn spec_at(position: Point) -> Transform {
        Transform { translation: position, rotation: Rotation { cos: UNIT, sin: 0 } }
    }

    /// The shift to `position`, without a turn.
    #[verifier::when_used_as_spec(spec_at)]
    pub fn at(position: Point) -> (transform: Transform)
        ensures
            transform == Transform::spec_at(position),
    {
        Transform { translation: position, rotation: Rotation::identity() }
    }

    /// Where this transform takes the point `p`.
    pub open spec fn spec_apply(self, p: Point) -> Point {
        Point {
            x: clamp_coord(
                self.translation.x + (self.rotation.cos * p.x - self.rotation.sin * p.y) / (
                UNIT as int),
            ) as i32,
            y: clamp_coord(
                self.translation.y + (self.rotation.sin * p.x + self.rotation.cos * p.y) / (
                UNIT as int),
            ) as i32,
        }
    }

    /// Where this transform takes the point `p`.
    #[verifier::when_used_as_spec(spec_apply)]
    pub fn apply(self, p: Point) -> (image: Point)
        ensures
            image == self.spec_apply(p),
    {
        let cos = self.rotation.cos as i128;
        let sin = self.rotation.sin as i128;
        let x = p.x as i128;
        let y = p.y as i128;
        proof {
            lemma_product_bound(cos as int, x as int, 0x8000_0000, 0x8000_0000);
            lemma_product_bound(sin as int, y as int, 0x8000_0000, 0x8000_0000);
            lemma_product_bound(sin as int, x as int, 0x8000_0000, 0x8000_0000);
            lemma_product_bound(cos as int, y as int, 0x8000_0000, 0x8000_0000);
        }
        Point {
            x: saturate(self.translation.x as i128 + div_floor(cos * x - sin * y, UNIT as i128)),
            y: saturate(self.translation.y as i128 + div_floor(sin * x + cos * y, UNIT as i128)),
        }
    }
}

/// The points of `mesh` as `transform` places them, in their order.
pub open spec fn placed(mesh: Seq<Point>, transform: Transform) -> Seq<Point> {
    Seq::new(mesh.len(), |i: int| transform.spec_apply(mesh[i]))
}

/// Places the points of an outline in the plane: each point of `mesh` is
/// turned and shifted as `transform` says, and the points keep their order.
pub fn mesh_and_transform_to_points(mesh: &Vec<Point>, transform: &Transform) -> (points: Vec<
    Point,
>)
    ensures
        points@ == placed(mesh@, *transform),
{
    let mut points: Vec<Point> = Vec::new();
    let mut i: usize = 0;
    while i < mesh.len()
        invariant
            i <= mesh.len(),
            points.len() == i,
            forall|k: int| 0 <= k < i ==> points[k] == transform.spec_apply(mesh[k]),
        decreases mesh.len() - i,
    {
        points.push(transform.apply(mesh[i]));
        i += 1;
    }
    points
}

/// The cross product of the displacements `a` and `b`.
pub open spec fn cross(ax: int, ay: int, bx: int, by: int) -> int {
    ax * by - ay * bx
}

/// The determinant of the two segments' directions; zero when they are
/// parallel.
pub open spec fn denominator(p1: Point, p2: Point, p3: Point, p4: Point) -> int {
    cross(p2.x - p1.x, p2.y - p1.y, p4.x - p3.x, p4.y - p3.y)
}

/// Over `denominator`, how far along the segment from `p1` to `p2` the two
/// lines cross.
pub open spec fn first_numerator(p1: Point, p2: Point, p3: Point, p4: Point) -> int {
    cross(p4.x - p3.x, p4.y - p3.y, p1.x - p3.x, p1.y - p3.y)
}

/// Over `denominator`, how far along the segment from `p3` to `p4` the two
/// lines cross.
pub open spec fn second_numerator(p1: Point, p2: Point, p3: Point, p4: Point) -> int {
    cross(p2.x - p1.x, p2.y - p1.y, p1.x - p3.x, p1.y - p3.y)
}

/// Whether the fraction `n / d` lies in the closed interval from 0 to 1.
pub open spec fn in_unit_interval(n: int, d: int) -> bool {
    if d > 0 {
        0 <= n <= d
    } else {
        d <= n <= 0
    }
}

/// Whether the segment from `p1` to `p2` and the segment from `p3` to `p4`
/// cross in exactly one point, end points included.
pub open spec fn segments_cross(p1: Point, p2: Point, p3: Point, p4: Point) -> bool {
    let d = denominator(p1, p2, p3, p4);
    &&& d != 0
    &&& in_unit_interval(first_numerator(p1, p2, p3, p4), d)
    &&& in_unit_interval(second_numerator(p1, p2, p3, p4), d)
}

/// The crossing point of two segments that cross, each coordinate rounded
/// down to a whole number.
pub open spec fn crossing_point(p1: Point, p2: Point, p3: Point, p4: Point) -> Point {
    let d = denominator(p1, p2, p3, p4);
    let t = first_numerator(p1, p2, p3, p4);
    Point {
        x: (p1.x + floor_div(t * (p2.x - p1.x), d)) as i32,
        y: (p1.y + floor_div(t * (p2.y - p1.y), d)) as i32,
    }
}

/// What `lines_intersect` returns.
pub open spec fn intersection(p1: Point, p2: Point, p3: Point, p4: Point) -> Option<Point> {
    if segments_cross(p1, p2, p3, p4) {
        Some(crossing_point(p1, p2, p3, p4))
    } else {
        None
    }
}

/// Whether `v` lies between `a` and `b`, whichever of them is the smaller.
pub open spec fn between(a: int, v: int, b: int) -> bool {
    (a <= v <= b) || (b <= v <= a)
}

/// `floor_div(t * s, d)` lies between 0 and `s` when `t / d` lies in the unit
/// interval.
pub proof fn lemma_fraction_of_span(t: int, s: int, d: int)
    requires
        d != 0,
        in_unit_interval(t, d),
    ensures
        between(0, floor_div(t * s, d), s),
{
    if d > 0 {
        if s >= 0 {
            assert(0 * d <= t * s <= s * d) by (nonlinear_arith)
                requires
                    0 <= t <= d,
                    s >= 0,
            ;
            lemma_quotient_bounds(t * s, d, 0, s);
        } else {
            assert(s * d <= t * s <= 0 * d) by (nonlinear_arith)
                requires
                    0 <= t <= d,
                    s < 0,
            ;
            lemma_quotient_bounds(t * s, d, s, 0);
        }
    } else {
        let e = -d;
        let u = -t;
        assert(-(t * s) == u * s) by (nonlinear_arith)
            requires
                u == -t,
        ;
        if s >= 0 {
            assert(0 * e <= u * s <= s * e) by (nonlinear_arith)
                requires
                    0 <= u <= e,
                    s >= 0,
            ;
            lemma_quotient_bounds(u * s, e, 0, s);
        } else {
            assert(s * e <= u * s <= 0 * e) by (nonlinear_arith)
                requires
                    0 <= u <= e,
                    s < 0,
            ;
            lemma_quotient_bounds(u * s, e, s, 0);
        }
    }
}

/// Finds where two segments cross.
///
/// The segments run from `p1` to `p2` and from `p3` to `p4`. Parallel
/// segments never cross, even where they overlap. A crossing at an end point
/// of either segment counts. The point returned is the exact crossing point
/// with each coordinate rounded down.
pub fn lines_intersect(p1: Point, p2: Point, p3: Point, p4: Point) -> (hit: Option<Point>)
    ensures
        hit == intersection(p1, p2, p3, p4),
        hit matches Some(p) ==> {
            &&& between(p1.x as int, p.x as int, p2.x as int)
            &&& between(p1.y as int, p.y as int, p2.y as int)
            &&& between(p3.x as int, p.x as int, p4.x as int)
            &&& between(p3.y as int, p.y as int, p4.y as int)
        },
{
    let s1x: i128 = p2.x as i128 - p1.x as i128;
    let s1y: i128 = p2.y as i128 - p1.y as i128;
    let s2x: i128 = p4.x as i128 - p3.x as i128;
    let s2y: i128 = p4.y as i128 - p3.y as i128;
    let dx: i128 = p1.x as i128 - p3.x as i128;
    let dy: i128 = p1.y as i128 - p3.y as i128;
    proof {
        lemma_product_bound(s1x as int, s2y as int, 0x1_0000_0000, 0x1_0000_0000);
        lemma_product_bound(s1y as int, s2x as int, 0x1_0000_0000, 0x1_0000_0000);
        lemma_product_bound(s2x as int, dy as int, 0x1_0000_0000, 0x1_0000_0000);
        lemma_product_bound(s2y as int, dx as int, 0x1_0000_0000, 0x1_0000_0000);
        lemma_product_bound(s1x as int, dy as int, 0x1_0000_0000, 0x1_0000_0000);
        lemma_product_bound(s1y as int, dx as int, 0x1_0000_0000, 0x1_0000_0000);
    }
    let d: i128 = s1x * s2y - s1y * s2x;
    let t: i128 = s2x * dy - s2y * dx;
    let s: i128 = s1x * dy - s1y * dx;
    if d == 0 {
        return None;
    }
    let t_inside = if d > 0 {
        0 <= t && t <= d
    } else {
        d <= t && t <= 0
    };
    let s_inside = if d > 0 {
        0 <= s && s <= d
    } else {
        d <= s && s <= 0
    };
    if !(t_inside && s_inside) {
        return None;
    }
    proof {
        lemma_product_bound(t as int, s1x as int, 0x2_0000_0000_0000_0000, 0x1_0000_0000);
        lemma_product_bound(t as int, s1y as int, 0x2_0000_0000_0000_0000, 0x1_0000_0000);
        lemma_fraction_of_span(t as int, s1x as int, d as int);
        lemma_fraction_of_span(t as int, s1y as int, d as int);
    }
    let qx: i128 = div_floor(t * s1x, d);
    let qy: i128 = div_floor(t * s1y, d);
    proof {
        lemma_intersection_in_both_boxes(p1, p2, p3, p4);
    }
    Some(Point { x: (p1.x as i128 + qx) as i32, y: (p1.y as i128 + qy) as i32 })
}

/// The crossing point reached along the first segment is the one reached along
/// the second: with `d` the determinant and `t`, `s` the two numerators,
/// `t * s1 == s * s2 - (p1 - p3) * d` in each coordinate.
pub proof fn lemma_crossing_seen_from_either_segment(
    s1x: int,
    s1y: int,
    s2x: int,
    s2y: int,
    dx: int,
    dy: int,
)
    ensures
        cross(s2x, s2y, dx, dy) * s1x == cross(s1x, s1y, dx, dy) * s2x + (-dx) * cross(
            s1x,
            s1y,
            s2x,
            s2y,
        ),
        cross(s2x, s2y, dx, dy) * s1y == cross(s1x, s1y, dx, dy) * s2y + (-dy) * cross(
            s1x,
            s1y,
            s2x,
            s2y,
        ),
{
    let a = s2x * dy;
    let b = s2y * dx;
    let c = s1x * dy;
    let e = s1y * dx;
    let f = s1x * s2y;
    let g = s1y * s2x;
    assert((a - b) * s1x == a * s1x - b * s1x) by (nonlinear_arith);
    assert((c - e) * s2x == c * s2x - e * s2x) by (nonlinear_arith);
    assert((-dx) * (f - g) == dx * g - dx * f) by (nonlinear_arith);
    assert((s2x * dy) * s1x == (s1x * dy) * s2x) by (nonlinear_arith);
    assert((s2y * dx) * s1x == dx * (s1x * s2y)) by (nonlinear_arith);
    assert((s1y * dx) * s2x == dx * (s1y * s2x)) by (nonlinear_arith);
    assert((a - b) * s1y == a * s1y - b * s1y) by (nonlinear_arith);
    assert((c - e) * s2y == c * s2y - e * s2y) by (nonlinear_arith);
    assert((-dy) * (f - g) == dy * g - dy * f) by (nonlinear_arith);
    assert((s2y * dx) * s1y == (s1y * dx) * s2y) by (nonlinear_arith);
    assert((s2x * dy) * s1y == dy * (s1y * s2x)) by (nonlinear_arith);
    assert((s1x * dy) * s2y == dy * (s1x * s2y)) by (nonlinear_arith);
}

/// The point that `lines_intersect` returns lies in the bounding box of each
/// of the two segments.
pub proof fn lemma_intersection_in_both_boxes(p1: Point, p2: Point, p3: Point, p4: Point)
    requires
        intersection(p1, p2, p3, p4) is Some,
    ensures
        ({
            let p = intersection(p1, p2, p3, p4)->Some_0;
            &&& between(p1.x as int, p.x as int, p2.x as int)
            &&& between(p1.y as int, p.y as int, p2.y as int)
            &&& between(p3.x as int, p.x as int, p4.x as int)
            &&& between(p3.y as int, p.y as int, p4.y as int)
        }),
{
    let d = denominator(p1, p2, p3, p4);
    let t = first_numerator(p1, p2, p3, p4);
    let s = second_numerator(p1, p2, p3, p4);
    let s1x = p2.x - p1.x;
    let s1y = p2.y - p1.y;
    let s2x = p4.x - p3.x;
    let s2y = p4.y - p3.y;
    let dx = p1.x - p3.x;
    let dy = p1.y - p3.y;
    lemma_fraction_of_span(t, s1x, d);
    lemma_fraction_of_span(t, s1y, d);
    lemma_fraction_of_span(s, s2x, d);
    lemma_fraction_of_span(s, s2y, d);
    lemma_crossing_seen_from_either_segment(s1x, s1y, s2x, s2y, dx, dy);
    lemma_floor_div_shift(s * s2x, d, -dx);
    lemma_floor_div_shift(s * s2y, d, -dy);
}

/// Naming the end points of the first segment in the other order changes
/// nothing: the segments cross in both cases or in neither, and in the same
/// point.
pub proof fn lemma_intersection_ignores_direction(p1: Point, p2: Point, p3: Point, p4: Point)
    ensures
        intersection(p2, p1, p3, p4) == intersection(p1, p2, p3, p4),
{
    let d = denominator(p1, p2, p3, p4);
    let t = first_numerator(p1, p2, p3, p4);
    let s = second_numerator(p1, p2, p3, p4);
    let s1x = p2.x - p1.x;
    let s1y = p2.y - p1.y;
    let s2x = p4.x - p3.x;
    let s2y = p4.y - p3.y;
    let dx = p1.x - p3.x;
    let dy = p1.y - p3.y;
    let d2 = denominator(p2, p1, p3, p4);
    let t2 = first_numerator(p2, p1, p3, p4);
    let s2 = second_numerator(p2, p1, p3, p4);
    assert(d2 == -d) by (nonlinear_arith)
        requires
            d == s1x * s2y - s1y * s2x,
            d2 == (-s1x) * s2y - (-s1y) * s2x,
    ;
    assert(t2 == t - d) by (nonlinear_arith)
        requires
            d == s1x * s2y - s1y * s2x,
            t == s2x * dy - s2y * dx,
            t2 == s2x * (dy + s1y) - s2y * (dx + s1x),
    ;
    assert(s2 == -s) by (nonlinear_arith)
        requires
            s == s1x * dy - s1y * dx,
            s2 == (-s1x) * (dy + s1y) - (-s1y) * (dx + s1x),
    ;
    if segments_cross(p1, p2, p3, p4) {
        assert(segments_cross(p2, p1, p3, p4));
        assert(t2 * (-s1x) == -(t * s1x) + (-s1x) * d2) by (nonlinear_arith)
            requires
                t2 == t - d,
                d2 == -d,
        ;
        assert(t2 * (-s1y) == -(t * s1y) + (-s1y) * d2) by (nonlinear_arith)
            requires
                t2 == t - d,
                d2 == -d,
        ;
        lemma_floor_div_shift(-(t * s1x), d2, -s1x);
        lemma_floor_div_shift(-(t * s1y), d2, -s1y);
        assert(floor_div(-(t * s1x), d2) == floor_div(t * s1x, d));
        assert(floor_div(-(t * s1y), d2) == floor_div(t * s1y, d));
    } else {
        assert(!segments_cross(p2, p1, p3, p4));
    }
}

/// Naming the end points of the second segment in the other order changes
/// nothing either.
pub proof fn lemma_intersection_ignores_direction_of_second(
    p1: Point,
    p2: Point,
    p3: Point,
    p4: Point,
)
    ensures
        intersection(p1, p2, p4, p3) == intersection(p1, p2, p3, p4),
{
    let d = denominator(p1, p2, p3, p4);
    let t = first_numerator(p1, p2, p3, p4);
    let s = second_numerator(p1, p2, p3, p4);
    let s1x = p2.x - p1.x;
    let s1y = p2.y - p1.y;
    let s2x = p4.x - p3.x;
    let s2y = p4.y - p3.y;
    let dx = p1.x - p3.x;
    let dy = p1.y - p3.y;
    let d2 = denominator(p1, p2, p4, p3);
    let t2 = first_numerator(p1, p2, p4, p3);
    let s2 = second_numerator(p1, p2, p4, p3);
    assert(d2 == -d) by (nonlinear_arith)
        requires
            d == s1x * s2y - s1y * s2x,
            d2 == s1x * (-s2y) - s1y * (-s2x),
    ;
    assert(t2 == -t) by (nonlinear_arith)
        requires
            t == s2x * dy - s2y * dx,
            t2 == (-s2x) * (dy - s2y) - (-s2y) * (dx - s2x),
    ;
    assert(s2 == s - d) by (nonlinear_arith)
        requires
            d == s1x * s2y - s1y * s2x,
            s == s1x * dy - s1y * dx,
            s2 == s1x * (dy - s2y) - s1y * (dx - s2x),
    ;
    if segments_cross(p1, p2, p3, p4) {
        assert(segments_cross(p1, p2, p4, p3));
        assert(t2 * s1x == -(t * s1x)) by (nonlinear_arith)
            requires
                t2 == -t,
        ;
        assert(t2 * s1y == -(t * s1y)) by (nonlinear_arith)
            requires
                t2 == -t,
        ;
        assert(floor_div(-(t * s1x), d2) == floor_div(t * s1x, d));
        assert(floor_div(-(t * s1y), d2) == floor_div(t * s1y, d));
    } else {
        assert(!segments_cross(p1, p2, p4, p3));
    }
}

} // verus!

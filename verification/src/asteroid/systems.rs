//! The rules that move, spawn and remove asteroids.

use vstd::prelude::*;

use crate::asteroid::data::{Asteroid, AsteroidSize};
use crate::random::random_range;
use crate::store::{is_listing, list};
use crate::units::{
    clamp_coord, div_floor, floor_sqrt, lemma_floor_sqrt, lemma_product_bound,
    lemma_quotient_bounds, lemma_quotient_magnitude, UNIT,
};
use crate::{Point, Viewport};

verus! {

/// Moves every asteroid by the way it makes in `delta` microseconds.
pub fn move_asteroids(asteroids: &mut Vec<Asteroid>, delta: u32)
    ensures
        final(asteroids).len() == old(asteroids).len(),
        forall|i: int|
            0 <= i < old(asteroids).len() ==> {
                &&& (#[trigger] final(asteroids)[i]).position == old(
                    asteroids,
                )[i].position.spec_advanced(old(asteroids)[i].direction, delta)
                &&& final(asteroids)[i].size == old(asteroids)[i].size
                &&& final(asteroids)[i].direction == old(asteroids)[i].direction
                &&& final(asteroids)[i].polygon == old(asteroids)[i].polygon
            },
{
    let mut i: usize = 0;
    while i < asteroids.len()
        invariant
            asteroids.len() == old(asteroids).len(),
            i <= asteroids.len(),
            forall|k: int|
                0 <= k < i ==> {
                    &&& (#[trigger] asteroids[k]).position == old(
                        asteroids,
                    )[k].position.spec_advanced(old(asteroids)[k].direction, delta)
                    &&& asteroids[k].size == old(asteroids)[k].size
                    &&& asteroids[k].direction == old(asteroids)[k].direction
                    &&& asteroids[k].polygon == old(asteroids)[k].polygon
                },
            forall|k: int| i <= k < asteroids.len() ==> asteroids[k] == old(asteroids)[k],
        decreases asteroids.len() - i,
    {
        let moved = asteroids[i].position.advanced(asteroids[i].direction, delta);
        asteroids[i].position = moved;
        i += 1;
    }
}

/// Lists the asteroids that have left the viewport for good: those whose
/// extent lies wholly beyond one of its edges.
pub fn check_asteroid_bounds(asteroids: &Vec<Asteroid>, viewport: Viewport) -> (gone: Vec<usize>)
    ensures
        is_listing(gone@, asteroids.len() as int),
        forall|i: int|
            0 <= i < asteroids.len() ==> (gone@.contains(i as usize) <==> viewport.spec_excludes(
                (#[trigger] asteroids[i]).position,
                asteroids[i].size.spec_diameter() as int,
            )),
{
    let mut gone: Vec<usize> = Vec::new();
    let mut i: usize = 0;
    while i < asteroids.len()
        invariant
            i <= asteroids.len(),
            is_listing(gone@, i as int),
            forall|k: int|
                0 <= k < i ==> (gone@.contains(k as usize) <==> viewport.spec_excludes(
                    (#[trigger] asteroids[k]).position,
                    asteroids[k].size.spec_diameter() as int,
                )),
        decreases asteroids.len() - i,
    {
        if viewport.excludes(asteroids[i].position, asteroids[i].size.diameter()) {
            list(&mut gone, i);
        }
        i += 1;
    }
    gone
}

/// The least that either part of an aim can be.
pub const AIM_BACK: i32 = -1000;

/// The bound below which a part of an aim points backwards for certain.
pub const AIM_BACK_LEAST: i32 = -100;

/// The bound from which a part of an aim points forwards for certain.
pub const AIM_FORTH_LEAST: i32 = 100;

/// The bound that either part of an aim stays below.
pub const AIM_FORTH: i32 = 1000;

/// An edge of the viewport.
#[derive(Clone, Copy, Debug, PartialEq, Eq, Structural)]
pub enum Edge {
    Top,
    Right,
    Bottom,
    Left,
}

/// A range of whole numbers: from `low` up to, but not including, `high`.
#[derive(Clone, Copy, Debug, PartialEq, Eq, Structural)]
pub struct Span {
    pub low: i32,
    pub high: i32,
}

impl Span {
    /// Whether `value` lies in this range.
    pub open spec fn holds(self, value: int) -> bool {
        self.low <= value < self.high
    }
}

impl Edge {
    /// The edge that the number `drawn` stands for.
    pub open spec fn spec_from_draw(drawn: i32) -> Edge {
        if drawn == 0 {
            Edge::Top
        } else if drawn == 1 {
            Edge::Right
        } else if drawn == 2 {
            Edge::Bottom
        } else {
            Edge::Left
        }
    }

    /// The edge that the number `drawn` stands for: 0 for the top, then
    /// clockwise.
    #[verifier::when_used_as_spec(spec_from_draw)]
    pub fn from_draw(drawn: i32) -> (edge: Edge)
        ensures
            edge == Edge::spec_from_draw(drawn),
    {
        if drawn == 0 {
            Edge::Top
        } else if drawn == 1 {
            Edge::Right
        } else if drawn == 2 {
            Edge::Bottom
        } else {
            Edge::Left
        }
    }

    /// How long this edge of `viewport` is.
    pub open spec fn spec_length(self, viewport: Viewport) -> i32 {
        match self {
            Edge::Top | Edge::Bottom => viewport.width,
            Edge::Right | Edge::Left => viewport.height,
        }
    }

    /// How long this edge of `viewport` is.
    #[verifier::when_used_as_spec(spec_length)]
    pub fn length(self, viewport: Viewport) -> (length: i32)
        ensures
            length == self.spec_length(viewport),
    {
        match self {
            Edge::Top | Edge::Bottom => viewport.width,
            Edge::Right | Edge::Left => viewport.height,
        }
    }

    /// Where an asteroid of the class `size` enters over this edge, `along`
    /// thousandths from the edge's lower or left end: as far beyond the edge
    /// as the class's extent reaches.
    pub open spec fn spec_entry(self, along: i32, size: AsteroidSize, viewport: Viewport) -> Point {
        let extent = size.spec_diameter();
        match self {
            Edge::Top => Point {
                x: (along - viewport.width / 2) as i32,
                y: (viewport.height / 2 + extent) as i32,
            },
            Edge::Right => Point {
                x: (viewport.width / 2 + extent) as i32,
                y: (along - viewport.height / 2) as i32,
            },
            Edge::Bottom => Point {
                x: (along - viewport.width / 2) as i32,
                y: (-(viewport.height / 2) - extent) as i32,
            },
            Edge::Left => Point {
                x: (-(viewport.width / 2) - extent) as i32,
                y: (along - viewport.height / 2) as i32,
            },
        }
    }

    /// Where an asteroid of the class `size` enters over this edge, `along`
    /// thousandths from the edge's lower or left end: as far beyond the edge
    /// as the class's extent reaches.
    #[verifier::when_used_as_spec(spec_entry)]
    pub fn entry(self, along: i32, size: AsteroidSize, viewport: Viewport) -> (entry: Point)
        requires
            viewport.width > 0,
            viewport.height > 0,
            0 <= along < self.spec_length(viewport),
        ensures
            entry == self.spec_entry(along, size, viewport),
    {
        let extent = size.diameter();
        match self {
            Edge::Top => Point { x: along - viewport.width / 2, y: viewport.height / 2 + extent },
            Edge::Right => Point { x: viewport.width / 2 + extent, y: along - viewport.height / 2 },
            Edge::Bottom => Point {
                x: along - viewport.width / 2,
                y: -(viewport.height / 2) - extent,
            },
            Edge::Left => Point {
                x: -(viewport.width / 2) - extent,
                y: along - viewport.height / 2,
            },
        }
    }

    /// The range that the x part of an entering asteroid's aim is drawn from.
    pub open spec fn spec_aim_x(self) -> Span {
        match self {
            Edge::Top | Edge::Bottom => Span { low: AIM_BACK, high: AIM_FORTH },
            Edge::Right => Span { low: AIM_BACK, high: AIM_BACK_LEAST },
            Edge::Left => Span { low: AIM_FORTH_LEAST, high: AIM_FORTH },
        }
    }

    /// The range that the x part of an entering asteroid's aim is drawn from:
    /// any for the top and the bottom edge, leftwards for the right edge and
    /// rightwards for the left.
    #[verifier::when_used_as_spec(spec_aim_x)]
    pub fn aim_x(self) -> (span: Span)
        ensures
            span == self.spec_aim_x(),
    {
        match self {
            Edge::Top | Edge::Bottom => Span { low: AIM_BACK, high: AIM_FORTH },
            Edge::Right => Span { low: AIM_BACK, high: AIM_BACK_LEAST },
            Edge::Left => Span { low: AIM_FORTH_LEAST, high: AIM_FORTH },
        }
    }

    /// The range that the y part of an entering asteroid's aim is drawn from.
    pub open spec fn spec_aim_y(self) -> Span {
        match self {
            Edge::Top => Span { low: AIM_BACK, high: AIM_BACK_LEAST },
            Edge::Bottom => Span { low: AIM_FORTH_LEAST, high: AIM_FORTH },
            Edge::Right | Edge::Left => Span { low: AIM_BACK, high: AIM_FORTH },
        }
    }

    /// The range that the y part of an entering asteroid's aim is drawn from:
    /// any for the left and the right edge, upwards for the bottom edge and
    /// downwards for the top.
    #[verifier::when_used_as_spec(spec_aim_y)]
    pub fn aim_y(self) -> (span: Span)
        ensures
            span == self.spec_aim_y(),
    {
        match self {
            Edge::Top => Span { low: AIM_BACK, high: AIM_BACK_LEAST },
            Edge::Bottom => Span { low: AIM_FORTH_LEAST, high: AIM_FORTH },
            Edge::Right | Edge::Left => Span { low: AIM_BACK, high: AIM_FORTH },
        }
    }
}

/// Whether the number `drawn` below the time factor calls for one more
/// asteroid.
pub open spec fn spec_calls_for_spawn(drawn: i32) -> bool {
    drawn > UNIT
}

/// Whether the number `drawn` below the time factor calls for one more
/// asteroid: it does when it is greater than one.
#[verifier::when_used_as_spec(spec_calls_for_spawn)]
pub fn calls_for_spawn(drawn: i32) -> (more: bool)
    ensures
        more == spec_calls_for_spawn(drawn),
{
    drawn > UNIT
}

/// The size class that the number `drawn` below the time factor stands for.
pub open spec fn spec_size_for(drawn: i32) -> AsteroidSize {
    if drawn < 1500 {
        AsteroidSize::Small
    } else if drawn < 2500 {
        AsteroidSize::Medium
    } else {
        AsteroidSize::Large
    }
}

/// The size class that the number `drawn` below the time factor stands for:
/// small below one and a half, medium below two and a half, else large.
#[verifier::when_used_as_spec(spec_size_for)]
pub fn size_for(drawn: i32) -> (size: AsteroidSize)
    ensures
        size == spec_size_for(drawn),
{
    if drawn < 1500 {
        AsteroidSize::Small
    } else if drawn < 2500 {
        AsteroidSize::Medium
    } else {
        AsteroidSize::Large
    }
}

/// The velocity of an asteroid of the class `size` that enters along `aim`
/// while the time factor is `time_factor`.
pub open spec fn spec_entry_velocity(aim: Point, size: AsteroidSize, time_factor: i32) -> Point {
    aim.spec_resized(size.spec_pace() * time_factor / (UNIT as int))
}

/// The velocity of an asteroid of the class `size` that enters along `aim`
/// while the time factor is `time_factor`: `aim` brought to the length of the
/// class's pace times the time factor.
#[verifier::when_used_as_spec(spec_entry_velocity)]
pub fn entry_velocity(aim: Point, size: AsteroidSize, time_factor: i32) -> (velocity: Point)
    ensures
        velocity == spec_entry_velocity(aim, size, time_factor),
{
    let pace = size.pace() as i128;
    proof {
        lemma_product_bound(pace as int, time_factor as int, 10_000, 0x8000_0000);
        lemma_quotient_bounds(pace * time_factor, 1000, -0x8000_0000_0000, 0x8000_0000_0000);
    }
    aim.resized(div_floor(pace * time_factor as i128, UNIT as i128) as i64)
}

/// Whether something that comes over `edge` with the velocity `velocity`
/// moves towards the viewport.
pub open spec fn heads_inwards(edge: Edge, velocity: Point) -> bool {
    match edge {
        Edge::Top => velocity.y < 0,
        Edge::Right => velocity.x < 0,
        Edge::Bottom => velocity.y > 0,
        Edge::Left => velocity.x > 0,
    }
}

/// An aim brought to a positive length keeps the sign of each part that is
/// at least a tenth.
proof fn lemma_part_keeps_its_sign(aim: Point, part: int, other: int, speed: int)
    requires
        -1000 <= part < 1000,
        -1000 <= other < 1000,
        part <= -100 || part >= 100,
        speed >= 2000,
        aim.length() == floor_sqrt((part * part + other * other) * 1_000_000),
    ensures
        aim.length() > 0,
        part < 0 ==> clamp_coord(part * speed * 1000 / aim.length()) < 0,
        part > 0 ==> clamp_coord(part * speed * 1000 / aim.length()) > 0,
{
    let square = (part * part + other * other) * 1_000_000;
    assert(10_000_000_000 <= square <= 2_000_000_000_000) by (nonlinear_arith)
        requires
            -1000 <= part < 1000,
            -1000 <= other < 1000,
            part <= -100 || part >= 100,
            square == (part * part + other * other) * 1_000_000,
    ;
    lemma_floor_sqrt(square);
    let len = floor_sqrt(square);
    assert(1 <= len <= 1_500_000) by (nonlinear_arith)
        requires
            0 <= len,
            len * len <= square,
            square < (len + 1) * (len + 1),
            10_000_000_000 <= square <= 2_000_000_000_000,
    ;
    let scaled = part * speed * 1000;
    if part < 0 {
        assert(scaled < 0) by (nonlinear_arith)
            requires
                part < 0,
                speed > 0,
                scaled == part * speed * 1000,
        ;
        lemma_quotient_magnitude(scaled, len);
    } else {
        assert(1 * len <= scaled <= scaled * len) by (nonlinear_arith)
            requires
                part >= 100,
                speed >= 2000,
                1 <= len <= 1_500_000,
                scaled == part * speed * 1000,
        ;
        lemma_quotient_bounds(scaled, len, 1, scaled);
    }
}

/// An asteroid enters heading for the viewport: one that comes over the top
/// edge moves down, one that comes over the right edge moves left, and so
/// on.
pub proof fn lemma_entry_heads_inwards(edge: Edge, aim: Point, size: AsteroidSize, time_factor: i32)
    requires
        time_factor > UNIT,
        edge.spec_aim_x().holds(aim.x as int),
        edge.spec_aim_y().holds(aim.y as int),
    ensures
        heads_inwards(edge, spec_entry_velocity(aim, size, time_factor)),
{
    let speed = size.spec_pace() * time_factor / (UNIT as int);
    assert(speed >= 2000) by {
        assert(size.spec_pace() >= 2500);
        assert(size.spec_pace() * time_factor >= 2500 * 1000) by (nonlinear_arith)
            requires
                size.spec_pace() >= 2500,
                time_factor > 1000,
        ;
    }
    match edge {
        Edge::Top | Edge::Bottom => {
            lemma_part_keeps_its_sign(aim, aim.y as int, aim.x as int, speed);
        },
        Edge::Right | Edge::Left => {
            lemma_part_keeps_its_sign(aim, aim.x as int, aim.y as int, speed);
        },
    }
}

/// Whether `asteroid` is one that may enter `viewport` while the time factor
/// is `time_factor`, by the numbers drawn for its size, edge, place and aim.
pub open spec fn enters_by(
    asteroid: Asteroid,
    viewport: Viewport,
    time_factor: i32,
    size_drawn: i32,
    edge: Edge,
    along: i32,
    aim: Point,
) -> bool {
    &&& 0 <= size_drawn < time_factor
    &&& 0 <= along < edge.spec_length(viewport)
    &&& edge.spec_aim_x().holds(aim.x as int)
    &&& edge.spec_aim_y().holds(aim.y as int)
    &&& asteroid.size == spec_size_for(size_drawn)
    &&& asteroid.position == edge.spec_entry(along, asteroid.size, viewport)
    &&& asteroid.direction == spec_entry_velocity(aim, asteroid.size, time_factor)
    &&& heads_inwards(edge, asteroid.direction)
    &&& asteroid.well_formed()
}

/// Makes the asteroid that enters `viewport` while the time factor is
/// `time_factor` by the numbers drawn: `size_drawn` for its size class, `edge`
/// for the edge it comes over, `along` for its place along that edge and `aim`
/// for the direction it heads in. Its outline is drawn at random.
pub fn entering(
    viewport: Viewport,
    time_factor: i32,
    size_drawn: i32,
    edge: Edge,
    along: i32,
    aim: Point,
) -> (asteroid: Asteroid)
    requires
        viewport.width > 0,
        viewport.height > 0,
        time_factor > UNIT,
        0 <= size_drawn < time_factor,
        0 <= along < edge.spec_length(viewport),
        edge.spec_aim_x().holds(aim.x as int),
        edge.spec_aim_y().holds(aim.y as int),
    ensures
        enters_by(asteroid, viewport, time_factor, size_drawn, edge, along, aim),
{
    let size = size_for(size_drawn);
    proof {
        lemma_entry_heads_inwards(edge, aim, size, time_factor);
    }
    Asteroid::spawn_new(
        size,
        edge.entry(along, size, viewport),
        entry_velocity(aim, size, time_factor),
    )
}

/// Whether `asteroid` is one that may enter `viewport` while the time factor
/// is `time_factor`.
pub open spec fn may_enter(asteroid: Asteroid, viewport: Viewport, time_factor: i32) -> bool {
    exists|size_drawn: i32, edge: Edge, along: i32, aim: Point| #[trigger]
        enters_by(asteroid, viewport, time_factor, size_drawn, edge, along, aim)
}

/// Decides how many asteroids enter at this tick, and makes them.
///
/// `time_factor` grows slowly with the time played. As long as a number drawn
/// below it is greater than one, one more asteroid enters: of a size class
/// drawn below the time factor too, over an edge drawn evenly among the four,
/// at a place drawn evenly along that edge and beyond it by the class's
/// extent, aimed inwards and as fast as its class's pace times the time
/// factor. While the time factor is at most one, none enters.
pub fn spawn_asteroids(viewport: Viewport, time_factor: i32) -> (spawned: Vec<Asteroid>)
    requires
        viewport.width > 0,
        viewport.height > 0,
    ensures
        time_factor <= UNIT ==> spawned.len() == 0,
        forall|i: int|
            0 <= i < spawned.len() ==> may_enter(#[trigger] spawned[i], viewport, time_factor),
{
    let mut spawned: Vec<Asteroid> = Vec::new();
    if time_factor <= UNIT {
        return spawned;
    }
    while spawned.len() < usize::MAX
        invariant
            viewport.width > 0,
            viewport.height > 0,
            time_factor > UNIT,
            forall|i: int|
                0 <= i < spawned.len() ==> may_enter(#[trigger] spawned[i], viewport, time_factor),
        decreases usize::MAX - spawned.len(),
    {
        if !calls_for_spawn(random_range(0, time_factor)) {
            break ;
        }
        let size_drawn = random_range(0, time_factor);
        let edge = Edge::from_draw(random_range(0, 4));
        let along = random_range(0, edge.length(viewport));
        let aim_x = edge.aim_x();
        let aim_y = edge.aim_y();
        let aim = Point {
            x: random_range(aim_x.low, aim_x.high),
            y: random_range(aim_y.low, aim_y.high),
        };
        spawned.push(entering(viewport, time_factor, size_drawn, edge, along, aim));
    }
    spawned
}

/// Removes every asteroid.
pub fn despawn_asteroids(asteroids: &mut Vec<Asteroid>)
    ensures
        final(asteroids).len() == 0,
{
    asteroids.clear();
}

} // verus!

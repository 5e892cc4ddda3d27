//! Size classes and the generation of an asteroid's outline.

use vstd::prelude::*;

use crate::random::random_range;
use crate::units::{clamp_coord, div_floor, lemma_product_bound, saturate, FULL_TURN, UNIT};
use crate::{Point, Rotation};

verus! {

/// The three numbers that shape the asteroids of one size class.
#[derive(Clone, Copy, Debug, PartialEq, Eq, Structural)]
pub struct AsteroidParameters {
    /// The least distance of an outline's corner from the centre.
    pub min_diameter: i32,
    /// The greatest distance of an outline's corner from the centre.
    pub max_diameter: i32,
    /// The number of corners of an outline.
    pub number_of_points: usize,
}

/// The size class of an asteroid.
#[derive(Clone, Copy, Debug, PartialEq, Eq, Structural)]
pub enum AsteroidSize {
    Small,
    Medium,
    Large,
}

impl AsteroidSize {
    /// The parameters of this size class.
    pub open spec fn spec_parameters(self) -> AsteroidParameters {
        match self {
            AsteroidSize::Small => AsteroidParameters {
                min_diameter: 8_000,
                max_diameter: 15_000,
                number_of_points: 10,
            },
            AsteroidSize::Medium => AsteroidParameters {
                min_diameter: 20_000,
                max_diameter: 30_000,
                number_of_points: 20,
            },
            AsteroidSize::Large => AsteroidParameters {
                min_diameter: 40_000,
                max_diameter: 60_000,
                number_of_points: 30,
            },
        }
    }

    /// The parameters of this size class.
    #[verifier::when_used_as_spec(spec_parameters)]
    pub fn parameters(self) -> (parameters: AsteroidParameters)
        ensures
            parameters == self.spec_parameters(),
    {
        match self {
            AsteroidSize::Small => AsteroidParameters {
                min_diameter: 8_000,
                max_diameter: 15_000,
                number_of_points: 10,
            },
            AsteroidSize::Medium => AsteroidParameters {
                min_diameter: 20_000,
                max_diameter: 30_000,
                number_of_points: 20,
            },
            AsteroidSize::Large => AsteroidParameters {
                min_diameter: 40_000,
                max_diameter: 60_000,
                number_of_points: 30,
            },
        }
    }

    /// The extent of every asteroid of this class, whatever its outline.
    pub open spec fn spec_diameter(self) -> i32 {
        self.spec_parameters().max_diameter
    }

    /// The extent that stands for every asteroid of this class where bounds
    /// and distances are tested: the greatest distance that a corner of its
    /// outline can have from its centre.
    #[verifier::when_used_as_spec(spec_diameter)]
    pub fn diameter(self) -> (diameter: i32)
        ensures
            diameter == self.spec_diameter(),
    {
        self.parameters().max_diameter
    }

    /// Half of `diameter`.
    pub open spec fn spec_radius(self) -> i32 {
        (self.spec_diameter() / 2) as i32
    }

    /// Half of `diameter`.
    #[verifier::when_used_as_spec(spec_radius)]
    pub fn radius(self) -> (radius: i32)
        ensures
            radius == self.spec_radius(),
    {
        self.diameter() / 2
    }

    /// The health that a ship loses when it runs into an asteroid of this
    /// class.
    pub open spec fn spec_damage(self) -> i32 {
        match self {
            AsteroidSize::Small => 15,
            AsteroidSize::Medium => 30,
            AsteroidSize::Large => 50,
        }
    }

    /// The health that a ship loses when it runs into an asteroid of this
    /// class.
    #[verifier::when_used_as_spec(spec_damage)]
    pub fn damage(self) -> (damage: i32)
        ensures
            damage == self.spec_damage(),
    {
        match self {
            AsteroidSize::Small => 15,
            AsteroidSize::Medium => 30,
            AsteroidSize::Large => 50,
        }
    }

    /// The class of the pieces that an asteroid of this class breaks into, if
    /// it breaks into any.
    pub open spec fn spec_smaller(self) -> Option<AsteroidSize> {
        match self {
            AsteroidSize::Small => None,
            AsteroidSize::Medium => Some(AsteroidSize::Small),
            AsteroidSize::Large => Some(AsteroidSize::Medium),
        }
    }

    /// The class of the pieces that an asteroid of this class breaks into, if
    /// it breaks into any.
    #[verifier::when_used_as_spec(spec_smaller)]
    pub fn smaller(self) -> (smaller: Option<AsteroidSize>)
        ensures
            smaller == self.spec_smaller(),
    {
        match self {
            AsteroidSize::Small => None,
            AsteroidSize::Medium => Some(AsteroidSize::Small),
            AsteroidSize::Large => Some(AsteroidSize::Medium),
        }
    }

    /// The speed of a newly spawned asteroid of this class while the time
    /// factor is one.
    pub open spec fn spec_pace(self) -> i32 {
        match self {
            AsteroidSize::Small => 10_000,
            AsteroidSize::Medium => 5_000,
            AsteroidSize::Large => 2_500,
        }
    }

    /// The speed of a newly spawned asteroid of this class while the time
    /// factor is one: the smaller the asteroid, the faster.
    #[verifier::when_used_as_spec(spec_pace)]
    pub fn pace(self) -> (pace: i32)
        ensures
            pace == self.spec_pace(),
    {
        match self {
            AsteroidSize::Small => 10_000,
            AsteroidSize::Medium => 5_000,
            AsteroidSize::Large => 2_500,
        }
    }
}

/// A point given by its direction and distance from an origin.
#[derive(Clone, Copy, Debug, PartialEq, Eq, Structural)]
pub struct PolarPoint {
    /// The direction, counted counter-clockwise from the x axis.
    pub angle: i32,
    /// The distance from the origin.
    pub radius: i32,
}

impl PolarPoint {
    /// This point by its two coordinates, given the cosine and the sine of
    /// its angle.
    pub open spec fn spec_cartesian(self, heading: Rotation) -> Point {
        Point {
            x: clamp_coord(self.radius * heading.cos / (UNIT as int)) as i32,
            y: clamp_coord(self.radius * heading.sin / (UNIT as int)) as i32,
        }
    }

    /// Turns this point into one given by its two coordinates. `heading`
    /// holds the cosine and the sine of the point's angle.
    #[verifier::when_used_as_spec(spec_cartesian)]
    pub fn cartesian(self, heading: Rotation) -> (point: Point)
        ensures
            point == self.spec_cartesian(heading),
    {
        let radius = self.radius as i128;
        proof {
            lemma_product_bound(radius as int, heading.cos as int, 0x8000_0000, 0x8000_0000);
            lemma_product_bound(radius as int, heading.sin as int, 0x8000_0000, 0x8000_0000);
        }
        Point {
            x: saturate(div_floor(radius * heading.cos as i128, UNIT as i128)),
            y: saturate(div_floor(radius * heading.sin as i128, UNIT as i128)),
        }
    }
}

/// The angle that each corner of an outline of `count` corners has to itself.
pub open spec fn sector(count: int) -> int {
    (FULL_TURN as int) / count
}

/// Whether `ring` is an outline for the given parameters: one corner in each
/// sector, in order, each at a permitted distance from the centre, and the
/// first corner once more at the end, which closes the outline.
pub open spec fn is_outline(ring: Seq<PolarPoint>, parameters: AsteroidParameters) -> bool {
    let count = parameters.number_of_points as int;
    &&& count > 0
    &&& ring.len() == count + 1
    &&& ring[count] == ring[0]
    &&& forall|i: int|
        0 <= i < count ==> {
            &&& parameters.min_diameter <= (#[trigger] ring[i]).radius <= parameters.max_diameter
            &&& i * sector(count) <= ring[i].angle < (i + 1) * sector(count)
        }
}

/// The corner in sector `index` of an outline whose sectors are `sector`
/// wide, `jitter` into its sector and `radius` away from the centre.
pub fn polar_vertex(sector: i32, index: usize, jitter: i32, radius: i32) -> (vertex: PolarPoint)
    requires
        0 <= jitter < sector,
        (index + 1) * sector <= FULL_TURN,
    ensures
        vertex.angle == index * sector + jitter,
        vertex.radius == radius,
{
    assert(0 <= index * sector && index * sector + sector == (index + 1) * sector && index
        <= FULL_TURN) by (nonlinear_arith)
        requires
            0 < sector,
            (index + 1) * sector <= FULL_TURN,
    ;
    PolarPoint { angle: index as i32 * sector + jitter, radius }
}

/// Whether an outline can be drawn for `parameters`: they ask for at least
/// one corner, for no more corners than a full turn has thousandths of a
/// degree, and for a least distance that is not greater than the greatest.
pub open spec fn can_be_drawn(parameters: AsteroidParameters) -> bool {
    &&& 0 < parameters.number_of_points <= FULL_TURN
    &&& parameters.min_diameter <= parameters.max_diameter < i32::MAX
}

/// Draws an outline at random.
///
/// The full turn is cut into as many equal sectors as the outline is to have
/// corners. In each sector one corner is placed at a random angle and at a
/// random distance from the centre, between the least and the greatest that
/// the parameters allow, both ends included. The first corner is repeated at
/// the end, which closes the outline.
pub fn generate_polygon(parameters: AsteroidParameters) -> (ring: Vec<PolarPoint>)
    requires
        can_be_drawn(parameters),
    ensures
        is_outline(ring@, parameters),
{
    let count = parameters.number_of_points;
    let width: i32 = FULL_TURN / (count as i32);
    assert(width >= 1 && count * width <= FULL_TURN) by (nonlinear_arith)
        requires
            0 < count <= FULL_TURN,
            width == (FULL_TURN as int) / (count as int),
    ;
    let mut ring: Vec<PolarPoint> = Vec::new();
    let mut i: usize = 0;
    while i < count
        invariant
            can_be_drawn(parameters),
            count == parameters.number_of_points,
            width == sector(count as int),
            width >= 1,
            count * width <= FULL_TURN,
            i <= count,
            ring.len() == i,
            forall|k: int|
                0 <= k < i ==> {
                    &&& parameters.min_diameter <= (#[trigger] ring[k]).radius
                        <= parameters.max_diameter
                    &&& k * width <= ring[k].angle < (k + 1) * width
                },
        decreases count - i,
    {
        let jitter = random_range(0, width);
        let radius = random_range(parameters.min_diameter, parameters.max_diameter + 1);
        assert((i + 1) * width <= FULL_TURN && (i + 1) * width == i * width + width)
            by (nonlinear_arith)
            requires
                i < count,
                count * width <= FULL_TURN,
                width > 0,
        ;
        ring.push(polar_vertex(width, i, jitter, radius));
        i += 1;
    }
    let first = ring[0];
    ring.push(first);
    ring
}

/// An asteroid.
#[derive(Clone, Debug)]
pub struct Asteroid {
    /// The size class.
    pub size: AsteroidSize,
    /// Where the centre is.
    pub position: Point,
    /// The velocity: the way that the centre makes in one second.
    pub direction: Point,
    /// The outline, around the centre.
    pub polygon: Vec<PolarPoint>,
}

impl Asteroid {
    /// Whether the outline is one of the asteroid's size class.
    pub open spec fn well_formed(&self) -> bool {
        is_outline(self.polygon@, self.size.spec_parameters())
    }

    /// Makes an asteroid of the given class at `location`, moving by
    /// `direction` each second, with an outline drawn at random.
    pub fn spawn_new(size: AsteroidSize, location: Point, direction: Point) -> (asteroid: Asteroid)
        ensures
            asteroid.size == size,
            asteroid.position == location,
            asteroid.direction == direction,
            asteroid.well_formed(),
    {
        Asteroid {
            size,
            position: location,
            direction,
            polygon: generate_polygon(size.parameters()),
        }
    }
}

} // verus!

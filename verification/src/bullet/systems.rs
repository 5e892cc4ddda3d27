//! The rules that move bullets, remove them and let them destroy asteroids.

use vstd::prelude::*;

use crate::asteroid::data::{Asteroid, AsteroidSize, PolarPoint};
use crate::bullet::data::Bullet;
use crate::collision::{
    find_touched, first_touched, lemma_first_touched, outlines_match, spec_touches,
};
use crate::explosion::data::ExplosionEvent;
use crate::random::random_range;
use crate::store::{is_listing, list, unmarked};
use crate::ui::game_ui::ScoreEvent;
use crate::units::{floor_sqrt, isqrt, FULL_TURN, UNIT};
use crate::{mesh_and_transform_to_points, placed, Point, Rotation, Viewport};

verus! {

/// How far a bullet reaches to every side of its tail where bounds are
/// tested.
pub const BULLET_RADIUS: i32 = 1_750;

/// How far beyond an asteroid's extent a bullet can be and still be tested
/// against the asteroid's outline.
pub const BULLET_MARGIN: i32 = 3_500;

/// Moves every bullet by the way it flies in `delta` microseconds: each flies
/// the way it faces.
pub fn move_bullets(bullets: &mut Vec<Bullet>, delta: u32)
    ensures
        final(bullets).len() == old(bullets).len(),
        forall|i: int|
            0 <= i < old(bullets).len() ==> (#[trigger] final(bullets)[i]) == (Bullet {
                position: old(bullets)[i].position.spec_flown(
                    old(bullets)[i].rotation,
                    old(bullets)[i].speed,
                    delta,
                ),
                ..old(bullets)[i]
            }),
{
    let mut i: usize = 0;
    while i < bullets.len()
        invariant
            bullets.len() == old(bullets).len(),
            i <= bullets.len(),
            forall|k: int|
                0 <= k < i ==> (#[trigger] bullets[k]) == (Bullet {
                    position: old(bullets)[k].position.spec_flown(
                        old(bullets)[k].rotation,
                        old(bullets)[k].speed,
                        delta,
                    ),
                    ..old(bullets)[k]
                }),
            forall|k: int| i <= k < bullets.len() ==> bullets[k] == old(bullets)[k],
        decreases bullets.len() - i,
    {
        let bullet = bullets[i];
        bullets[i].position = bullet.position.flown(bullet.rotation, bullet.speed, delta);
        i += 1;
    }
}

/// Lists the bullets that have left the viewport.
pub fn check_bullet_bounds(bullets: &Vec<Bullet>, viewport: Viewport) -> (gone: Vec<usize>)
    ensures
        is_listing(gone@, bullets.len() as int),
        forall|i: int|
            0 <= i < bullets.len() ==> (gone@.contains(i as usize) <==> viewport.spec_excludes(
                (#[trigger] bullets[i]).position,
                BULLET_RADIUS as int,
            )),
{
    let mut gone: Vec<usize> = Vec::new();
    let mut i: usize = 0;
    while i < bullets.len()
        invariant
            i <= bullets.len(),
            is_listing(gone@, i as int),
            forall|k: int|
                0 <= k < i ==> (gone@.contains(k as usize) <==> viewport.spec_excludes(
                    (#[trigger] bullets[k]).position,
                    BULLET_RADIUS as int,
                )),
        decreases bullets.len() - i,
    {
        if viewport.excludes(bullets[i].position, BULLET_RADIUS) {
            list(&mut gone, i);
        }
        i += 1;
    }
    gone
}

/// A piece that breaks off an asteroid, before it is given an outline.
#[derive(Clone, Copy, Debug, PartialEq, Eq, Structural)]
pub struct Fragment {
    /// The size class of the piece.
    pub size: AsteroidSize,
    /// Where the piece's centre is, seen from the centre of the asteroid
    /// that it breaks off.
    pub offset: PolarPoint,
    /// The velocity of the piece.
    pub direction: Point,
}

impl Fragment {
    /// Makes the asteroid that this piece is, once it has broken off an
    /// asteroid at `origin`: an asteroid of the piece's class and velocity,
    /// with an outline drawn at random, at the piece's place. `heading` holds
    /// the cosine and the sine of the angle that the piece lies at.
    pub fn into_asteroid(self, origin: Point, heading: Rotation) -> (asteroid: Asteroid)
        ensures
            asteroid.size == self.size,
            asteroid.position == origin.spec_plus(self.offset.spec_cartesian(heading)),
            asteroid.direction == self.direction,
            asteroid.well_formed(),
    {
        Asteroid::spawn_new(self.size, origin.plus(self.offset.cartesian(heading)), self.direction)
    }
}

/// The number of parts that the unit interval is cut into where a number is
/// drawn from it.
pub const GRAIN: i32 = 1_000_000;

/// The piece of the class `size` that breaks off `parent` by the numbers
/// drawn: `spread` millionths for how far out it lies, `angle` for the
/// direction it lies in, and `aim` for the direction it is pushed in.
pub open spec fn spec_fragment(
    parent: Asteroid,
    size: AsteroidSize,
    spread: i32,
    angle: i32,
    aim: Point,
) -> Fragment {
    Fragment {
        size,
        offset: PolarPoint {
            angle,
            radius: (parent.size.spec_diameter() * floor_sqrt(spread as int) / (
            UNIT as int)) as i32,
        },
        direction: aim.spec_resized(UNIT as int).spec_plus(parent.direction),
    }
}

/// Makes the piece of the class `size` that breaks off `parent` by the
/// numbers drawn.
///
/// The piece lies within the extent of `parent`, at the extent times the
/// square root of `spread`, so that pieces spread evenly over the disk. It
/// moves as `parent` did, pushed by one unit a second along `aim`.
pub fn fragment(
    parent: &Asteroid,
    size: AsteroidSize,
    spread: i32,
    angle: i32,
    aim: Point,
) -> (piece: Fragment)
    requires
        0 <= spread < GRAIN,
    ensures
        piece == spec_fragment(*parent, size, spread, angle, aim),
        0 <= piece.offset.radius <= parent.size.spec_diameter(),
{
    let root = isqrt(spread as u128);
    assert(root < 1000) by (nonlinear_arith)
        requires
            root * root <= spread,
            spread < 1_000_000,
    ;
    let extent = parent.size.diameter();
    assert(0 <= extent * root <= extent * 1000) by (nonlinear_arith)
        requires
            0 <= extent,
            0 <= root < 1000,
    ;
    let radius = (extent as i64 * root as i64 / UNIT as i64) as i32;
    Fragment {
        size,
        offset: PolarPoint { angle, radius },
        direction: aim.resized(UNIT as i64).plus(parent.direction),
    }
}

/// Whether `piece` breaks off `parent` by the numbers `spread`, `angle` and
/// `aim`, each from the range that it is drawn from.
pub open spec fn breaks_off_by(
    piece: Fragment,
    parent: Asteroid,
    spread: i32,
    angle: i32,
    aim: Point,
) -> bool {
    &&& 0 <= spread < GRAIN
    &&& 0 <= angle < FULL_TURN
    &&& -UNIT <= aim.x < UNIT
    &&& -UNIT <= aim.y < UNIT
    &&& piece == spec_fragment(parent, piece.size, spread, angle, aim)
    &&& 0 <= piece.offset.radius <= parent.size.spec_diameter()
}

/// Whether `pieces` are what `parent` breaks into: nothing for an asteroid
/// of the smallest class, else two pieces of the next smaller class, each
/// within the extent of `parent`.
pub open spec fn is_breakup(pieces: Seq<Fragment>, parent: Asteroid) -> bool {
    match parent.size.spec_smaller() {
        None => pieces.len() == 0,
        Some(size) => {
            &&& pieces.len() == 2
            &&& forall|k: int|
                0 <= k < 2 ==> {
                    &&& (#[trigger] pieces[k]).size == size
                    &&& exists|spread: i32, angle: i32, aim: Point| #[trigger]
                        breaks_off_by(pieces[k], parent, spread, angle, aim)
                }
        },
    }
}

/// A large asteroid breaks into exactly two medium ones, a medium asteroid
/// into exactly two small ones and a small asteroid into nothing.
pub proof fn lemma_breakup_by_class(pieces: Seq<Fragment>, parent: Asteroid)
    requires
        is_breakup(pieces, parent),
    ensures
        parent.size == AsteroidSize::Large ==> pieces.len() == 2 && pieces[0].size
            == AsteroidSize::Medium && pieces[1].size == AsteroidSize::Medium,
        parent.size == AsteroidSize::Medium ==> pieces.len() == 2 && pieces[0].size
            == AsteroidSize::Small && pieces[1].size == AsteroidSize::Small,
        parent.size == AsteroidSize::Small ==> pieces.len() == 0,
        forall|k: int|
            0 <= k < pieces.len() ==> 0 <= (#[trigger] pieces[k]).offset.radius
                <= parent.size.spec_diameter(),
{
    if parent.size != AsteroidSize::Small {
        assert(pieces[0].size == parent.size.spec_smaller()->Some_0);
        assert(pieces[1].size == parent.size.spec_smaller()->Some_0);
        assert forall|k: int| 0 <= k < pieces.len() implies 0 <= (
        #[trigger] pieces[k]).offset.radius <= parent.size.spec_diameter() by {
            let (spread, angle, aim) = choose|spread: i32, angle: i32, aim: Point| #[trigger]
                breaks_off_by(pieces[k], parent, spread, angle, aim);
        }
    }
}

/// Breaks `parent` up: into nothing if it is of the smallest class, else
/// into two pieces of the next smaller class, placed and pushed at random.
pub fn break_up(parent: &Asteroid) -> (pieces: Vec<Fragment>)
    ensures
        is_breakup(pieces@, *parent),
{
    let mut pieces: Vec<Fragment> = Vec::new();
    match parent.size.smaller() {
        None => {},
        Some(size) => {
            let mut k: usize = 0;
            while k < 2
                invariant
                    k <= 2,
                    pieces.len() == k,
                    forall|i: int|
                        0 <= i < k ==> {
                            &&& (#[trigger] pieces[i]).size == size
                            &&& exists|spread: i32, angle: i32, aim: Point| #[trigger]
                                breaks_off_by(pieces[i], *parent, spread, angle, aim)
                        },
                decreases 2 - k,
            {
                let spread = random_range(0, GRAIN);
                let angle = random_range(0, FULL_TURN);
                let aim = Point { x: random_range(-UNIT, UNIT), y: random_range(-UNIT, UNIT) };
                let piece = fragment(parent, size, spread, angle, aim);
                assert(breaks_off_by(piece, *parent, spread, angle, aim));
                pieces.push(piece);
                k += 1;
            }
        },
    }
    pieces
}

/// A bullet that has struck an asteroid.
#[derive(Clone, Copy, Debug, PartialEq, Eq, Structural)]
pub struct BulletHit {
    /// Which bullet it is, by its place in the list of bullets.
    pub bullet: usize,
    /// Which asteroid it has struck, by its place in the list of asteroids.
    pub asteroid: usize,
    /// Where the two outlines met.
    pub contact: Point,
}

/// The first asteroid that `bullet` touches and that is not marked in
/// `spent`, with the point of contact.
pub open spec fn first_struck(
    bullet: Bullet,
    bullet_mesh: Seq<Point>,
    asteroids: Seq<Asteroid>,
    meshes: Seq<Vec<Point>>,
    spent: Seq<bool>,
) -> Option<(int, Point)> {
    first_touched(
        bullet.position,
        placed(bullet_mesh, bullet.spec_transform()),
        BULLET_MARGIN as int,
        asteroids,
        meshes,
        spent,
        0,
    )
}

/// The hits of the first `count` bullets, and the asteroids marked as struck
/// by them.
///
/// The bullets are taken in their order. Each one strikes the first asteroid
/// that it touches and that no earlier bullet has struck, or none.
pub open spec fn volley(
    bullets: Seq<Bullet>,
    bullet_mesh: Seq<Point>,
    asteroids: Seq<Asteroid>,
    meshes: Seq<Vec<Point>>,
    count: int,
) -> (Seq<BulletHit>, Seq<bool>)
    decreases count,
{
    if count <= 0 {
        (Seq::empty(), Seq::new(asteroids.len(), |j: int| false))
    } else {
        let (hits, spent) = volley(bullets, bullet_mesh, asteroids, meshes, count - 1);
        match first_struck(bullets[count - 1], bullet_mesh, asteroids, meshes, spent) {
            Some((j, contact)) => (
                hits.push(
                    BulletHit { bullet: (count - 1) as usize, asteroid: j as usize, contact },
                ),
                spent.update(j, true),
            ),
            None => (hits, spent),
        }
    }
}

/// The hits of all of `bullets` on `asteroids`.
pub open spec fn bullet_hits(
    bullets: Seq<Bullet>,
    bullet_mesh: Seq<Point>,
    asteroids: Seq<Asteroid>,
    meshes: Seq<Vec<Point>>,
) -> Seq<BulletHit> {
    volley(bullets, bullet_mesh, asteroids, meshes, bullets.len() as int).0
}

/// Whether `hits` name each bullet and each asteroid at most once, the bullets
/// in their order, and each asteroid with a point in which its bullet touches
/// it.
pub open spec fn hits_are_sound(
    hits: Seq<BulletHit>,
    bullets: Seq<Bullet>,
    bullet_mesh: Seq<Point>,
    asteroids: Seq<Asteroid>,
    meshes: Seq<Vec<Point>>,
) -> bool {
    &&& forall|k: int|
        0 <= k < hits.len() ==> {
            &&& (#[trigger] hits[k]).bullet < bullets.len()
            &&& hits[k].asteroid < asteroids.len()
            &&& spec_touches(
                bullets[hits[k].bullet as int].position,
                placed(bullet_mesh, bullets[hits[k].bullet as int].spec_transform()),
                asteroids[hits[k].asteroid as int],
                meshes[hits[k].asteroid as int]@,
                BULLET_MARGIN as int,
            ) == Some(hits[k].contact)
        }
    &&& forall|a: int, b: int|
        0 <= a < b < hits.len() ==> (#[trigger] hits[a]).bullet < (#[trigger] hits[b]).bullet
            && hits[a].asteroid != hits[b].asteroid
}

proof fn lemma_volley(
    bullets: Seq<Bullet>,
    bullet_mesh: Seq<Point>,
    asteroids: Seq<Asteroid>,
    meshes: Seq<Vec<Point>>,
    count: int,
)
    requires
        0 <= count <= bullets.len() <= usize::MAX,
        asteroids.len() <= usize::MAX,
    ensures
        ({
            let (hits, spent) = volley(bullets, bullet_mesh, asteroids, meshes, count);
            &&& spent.len() == asteroids.len()
            &&& hits_are_sound(hits, bullets, bullet_mesh, asteroids, meshes)
            &&& forall|k: int|
                0 <= k < hits.len() ==> (#[trigger] hits[k]).bullet < count
                    && spent[hits[k].asteroid as int]
        }),
    decreases count,
{
    if count > 0 {
        lemma_volley(bullets, bullet_mesh, asteroids, meshes, count - 1);
        let (hits, spent) = volley(bullets, bullet_mesh, asteroids, meshes, count - 1);
        let bullet = bullets[count - 1];
        if first_struck(bullet, bullet_mesh, asteroids, meshes, spent) is Some {
            lemma_first_touched(
                bullet.position,
                placed(bullet_mesh, bullet.spec_transform()),
                BULLET_MARGIN as int,
                asteroids,
                meshes,
                spent,
                0,
            );
        }
    }
}

/// No bullet strikes twice and no asteroid is struck twice: the hits of a
/// tick name the bullets in their order, each at most once, and no asteroid
/// more than once, and each hit is a point in which the bullet touches the
/// asteroid.
pub proof fn lemma_nothing_struck_twice(
    bullets: Seq<Bullet>,
    bullet_mesh: Seq<Point>,
    asteroids: Seq<Asteroid>,
    meshes: Seq<Vec<Point>>,
)
    requires
        bullets.len() <= usize::MAX,
        asteroids.len() <= usize::MAX,
    ensures
        hits_are_sound(
            bullet_hits(bullets, bullet_mesh, asteroids, meshes),
            bullets,
            bullet_mesh,
            asteroids,
            meshes,
        ),
        bullet_hits(bullets, bullet_mesh, asteroids, meshes).len() <= bullets.len(),
        bullet_hits(bullets, bullet_mesh, asteroids, meshes).len() <= asteroids.len(),
{
    lemma_volley(bullets, bullet_mesh, asteroids, meshes, bullets.len() as int);
    let hits = bullet_hits(bullets, bullet_mesh, asteroids, meshes);
    lemma_count_of_distinct(
        hits.map_values(|h: BulletHit| h.bullet as int),
        bullets.len() as int,
    );
    lemma_count_of_distinct(
        hits.map_values(|h: BulletHit| h.asteroid as int),
        asteroids.len() as int,
    );
}

/// A list of different numbers, all from 0 up to `bound`, has at most `bound`
/// entries.
pub proof fn lemma_count_of_distinct(numbers: Seq<int>, bound: int)
    requires
        0 <= bound,
        forall|k: int| 0 <= k < numbers.len() ==> 0 <= #[trigger] numbers[k] < bound,
        forall|a: int, b: int| 0 <= a < b < numbers.len() ==> numbers[a] != numbers[b],
    ensures
        numbers.len() <= bound,
    decreases bound,
{
    if numbers.len() > 0 {
        assert(bound > 0) by {
            assert(0 <= numbers[0] < bound);
        }
        let top = bound - 1;
        if exists|k: int| 0 <= k < numbers.len() && numbers[k] == top {
            let k = choose|k: int| 0 <= k < numbers.len() && numbers[k] == top;
            let rest = numbers.remove(k);
            assert forall|i: int| 0 <= i < rest.len() implies 0 <= #[trigger] rest[i] < top by {
                if i < k {
                    assert(rest[i] == numbers[i]);
                } else {
                    assert(rest[i] == numbers[i + 1]);
                }
            }
            assert forall|a: int, b: int| 0 <= a < b < rest.len() implies rest[a] != rest[b] by {
                let a2 = if a < k { a } else { a + 1 };
                let b2 = if b < k { b } else { b + 1 };
                assert(rest[a] == numbers[a2] && rest[b] == numbers[b2]);
            }
            lemma_count_of_distinct(rest, top);
        } else {
            assert forall|i: int| 0 <= i < numbers.len() implies 0 <= #[trigger] numbers[i]
                < top by {}
            lemma_count_of_distinct(numbers, top);
        }
    }
}

/// An asteroid destroyed by a bullet, with all that follows from it.
#[derive(Debug)]
pub struct Destruction {
    /// Which bullet is used up, by its place in the list of bullets.
    pub bullet: usize,
    /// Which asteroid is destroyed, by its place in the list of asteroids.
    pub asteroid: usize,
    /// The size class of the asteroid.
    pub size: AsteroidSize,
    /// The points that the player wins.
    pub score: ScoreEvent,
    /// The explosion, where the outlines met.
    pub explosion: ExplosionEvent,
    /// The pieces that the asteroid breaks into.
    pub fragments: Vec<Fragment>,
}

/// Whether `destruction` is what follows from `hit` on `asteroids`.
pub open spec fn follows_from(
    destruction: Destruction,
    hit: BulletHit,
    asteroids: Seq<Asteroid>,
) -> bool {
    &&& destruction.bullet == hit.bullet
    &&& destruction.asteroid == hit.asteroid
    &&& destruction.size == asteroids[hit.asteroid as int].size
    &&& destruction.score == ScoreEvent(1)
    &&& destruction.explosion == (ExplosionEvent { position: hit.contact, is_player: false })
    &&& is_breakup(destruction.fragments@, asteroids[hit.asteroid as int])
}

/// Lets every bullet destroy the first asteroid that it touches.
///
/// `bullet_mesh` is the outline of a bullet about its tail, and
/// `asteroid_meshes` holds, for each asteroid in its place, the outline about
/// its centre. The bullets are taken in their order, each against the
/// asteroids in theirs. A bullet is tested against an asteroid's outline
/// only where it is near enough to the asteroid's centre, and it is used up by
/// the first asteroid that it touches. No asteroid is destroyed twice: one
/// that a bullet has struck is out of reach for the bullets after it.
///
/// Each destruction wins the player one point, calls for an explosion where
/// the outlines met, and breaks the asteroid up.
pub fn check_bullet_collisions(
    bullets: &Vec<Bullet>,
    bullet_mesh: &Vec<Point>,
    asteroids: &Vec<Asteroid>,
    asteroid_meshes: &Vec<Vec<Point>>,
) -> (destroyed: Vec<Destruction>)
    requires
        bullet_mesh.len() >= 2,
        outlines_match(asteroids@, asteroid_meshes@),
    ensures
        destroyed.len() == bullet_hits(bullets@, bullet_mesh@, asteroids@, asteroid_meshes@).len(),
        forall|k: int|
            0 <= k < destroyed.len() ==> follows_from(
                #[trigger] destroyed[k],
                bullet_hits(bullets@, bullet_mesh@, asteroids@, asteroid_meshes@)[k],
                asteroids@,
            ),
        forall|a: int, b: int|
            0 <= a < b < destroyed.len() ==> (#[trigger] destroyed[a]).bullet < (
            #[trigger] destroyed[b]).bullet && destroyed[a].asteroid != destroyed[b].asteroid,
        forall|k: int|
            0 <= k < destroyed.len() ==> (#[trigger] destroyed[k]).bullet < bullets.len()
                && destroyed[k].asteroid < asteroids.len(),
{
    let mut spent = unmarked(asteroids.len());
    let mut destroyed: Vec<Destruction> = Vec::new();
    let ghost mut hits: Seq<BulletHit> = Seq::empty();
    let mut b: usize = 0;
    while b < bullets.len()
        invariant
            b <= bullets.len(),
            bullet_mesh.len() >= 2,
            outlines_match(asteroids@, asteroid_meshes@),
            spent.len() == asteroids.len(),
            (hits, spent@) == volley(
                bullets@,
                bullet_mesh@,
                asteroids@,
                asteroid_meshes@,
                b as int,
            ),
            destroyed.len() == hits.len(),
            forall|k: int|
                0 <= k < destroyed.len() ==> follows_from(
                    #[trigger] destroyed[k],
                    hits[k],
                    asteroids@,
                ),
        decreases bullets.len() - b,
    {
        let outline = mesh_and_transform_to_points(bullet_mesh, &bullets[b].transform());
        match find_touched(
            bullets[b].position,
            &outline,
            BULLET_MARGIN,
            asteroids,
            asteroid_meshes,
            &spent,
        ) {
            Some((j, contact)) => {
                let destruction = Destruction {
                    bullet: b,
                    asteroid: j,
                    size: asteroids[j].size,
                    score: ScoreEvent(1),
                    explosion: ExplosionEvent { position: contact, is_player: false },
                    fragments: break_up(&asteroids[j]),
                };
                proof {
                    hits = hits.push(BulletHit { bullet: b, asteroid: j, contact });
                }
                spent[j] = true;
                destroyed.push(destruction);
            },
            None => {},
        }
        b += 1;
    }
    proof {
        lemma_nothing_struck_twice(bullets@, bullet_mesh@, asteroids@, asteroid_meshes@);
    }
    destroyed
}

} // verus!

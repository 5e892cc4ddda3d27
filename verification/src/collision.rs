//! Telling whether two outlines touch: a cheap test on the distance of their
//! centres, then an exact test of every edge of the one against every edge of
//! the other.

use vstd::prelude::*;

use crate::asteroid::data::Asteroid;
use crate::units::lemma_product_bound;
use crate::{intersection, lines_intersect, mesh_and_transform_to_points, placed, Point, Transform};

verus! {

/// Whether `a` and `b` are at most `reach` apart.
pub open spec fn spec_within_reach(a: Point, b: Point, reach: int) -> bool {
    reach >= 0 && (a.x - b.x) * (a.x - b.x) + (a.y - b.y) * (a.y - b.y) <= reach * reach
}

/// Whether `a` and `b` are at most `reach` apart.
pub fn within_reach(a: Point, b: Point, reach: i64) -> (near: bool)
    ensures
        near == spec_within_reach(a, b, reach as int),
{
    if reach < 0 {
        return false;
    }
    let dx = a.x as i128 - b.x as i128;
    let dy = a.y as i128 - b.y as i128;
    let r = reach as i128;
    proof {
        lemma_product_bound(dx as int, dx as int, 0x1_0000_0000, 0x1_0000_0000);
        lemma_product_bound(dy as int, dy as int, 0x1_0000_0000, 0x1_0000_0000);
        lemma_product_bound(r as int, r as int, 0x8000_0000_0000_0000, 0x8000_0000_0000_0000);
    }
    dx * dx + dy * dy <= r * r
}

/// The first point in which the segment from `p1` to `p2` crosses an edge of
/// the outline `target`, trying the edges in their order from the edge that
/// starts at corner `from`.
pub open spec fn first_on_edge(p1: Point, p2: Point, target: Seq<Point>, from: int) -> Option<Point>
    decreases target.len() - from,
{
    if from < 0 || from + 1 >= target.len() {
        None
    } else if intersection(p1, p2, target[from], target[from + 1]) is Some {
        intersection(p1, p2, target[from], target[from + 1])
    } else {
        first_on_edge(p1, p2, target, from + 1)
    }
}

/// The first point in which an edge of the outline `mover` crosses an edge of
/// the outline `target`, trying the edges of `mover` in their order from the
/// edge that starts at corner `from`, and for each all the edges of `target`
/// in theirs.
pub open spec fn first_contact_from(mover: Seq<Point>, target: Seq<Point>, from: int) -> Option<
    Point,
>
    decreases mover.len() - from,
{
    if from < 0 || from + 1 >= mover.len() {
        None
    } else if first_on_edge(mover[from], mover[from + 1], target, 0) is Some {
        first_on_edge(mover[from], mover[from + 1], target, 0)
    } else {
        first_contact_from(mover, target, from + 1)
    }
}

/// The first point in which an edge of `mover` crosses an edge of `target`.
pub open spec fn spec_first_contact(mover: Seq<Point>, target: Seq<Point>) -> Option<Point> {
    first_contact_from(mover, target, 0)
}

/// Finds the first point in which an edge of the outline `mover` crosses an
/// edge of the outline `target`.
///
/// An outline's edges join each of its points to the next. The edges of
/// `mover` are tried in their order, and for each of them the edges of
/// `target` in theirs; the search ends at the first crossing.
pub fn first_contact(mover: &Vec<Point>, target: &Vec<Point>) -> (contact: Option<Point>)
    requires
        mover.len() >= 2,
        target.len() >= 2,
    ensures
        contact == spec_first_contact(mover@, target@),
{
    let mut i: usize = 0;
    while i + 1 < mover.len()
        invariant
            mover.len() >= 2,
            target.len() >= 2,
            i + 1 <= mover.len(),
            spec_first_contact(mover@, target@) == first_contact_from(mover@, target@, i as int),
        decreases mover.len() - i,
    {
        let mut j: usize = 0;
        while j + 1 < target.len()
            invariant
                target.len() >= 2,
                i + 1 < mover.len(),
                j + 1 <= target.len(),
                first_on_edge(mover[i as int], mover[i + 1], target@, 0) == first_on_edge(
                    mover[i as int],
                    mover[i + 1],
                    target@,
                    j as int,
                ),
                spec_first_contact(mover@, target@) == first_contact_from(
                    mover@,
                    target@,
                    i as int,
                ),
            decreases target.len() - j,
        {
            let hit = lines_intersect(mover[i], mover[i + 1], target[j], target[j + 1]);
            if hit.is_some() {
                return hit;
            }
            j += 1;
        }
        i += 1;
    }
    None
}

/// Where a mover at `mover_at` with the outline `mover` touches a target at
/// `target_at` with the outline `target`, both outlines as they lie in the
/// plane: nowhere when the centres are more than `reach` apart, else in the
/// first point in which an edge of the one crosses an edge of the other.
pub open spec fn spec_strike(
    mover_at: Point,
    mover: Seq<Point>,
    target_at: Point,
    target: Seq<Point>,
    reach: int,
) -> Option<Point> {
    if spec_within_reach(mover_at, target_at, reach) {
        spec_first_contact(mover, target)
    } else {
        None
    }
}

/// Where a mover at `mover_at`, whose outline lies in the plane as `mover`,
/// touches `asteroid`, whose outline about its centre is `mesh`: nowhere when
/// the mover is further from the asteroid's centre than the extent of the
/// asteroid's class and `margin` together.
pub open spec fn spec_touches(
    mover_at: Point,
    mover: Seq<Point>,
    asteroid: Asteroid,
    mesh: Seq<Point>,
    margin: int,
) -> Option<Point> {
    spec_strike(
        mover_at,
        mover,
        asteroid.position,
        placed(mesh, Transform::spec_at(asteroid.position)),
        asteroid.size.spec_diameter() + margin,
    )
}

/// Tests a mover against an asteroid: first the distance of their centres,
/// and only where that is small enough the edges of their outlines.
pub fn touches(
    mover_at: Point,
    mover: &Vec<Point>,
    asteroid: &Asteroid,
    mesh: &Vec<Point>,
    margin: i32,
) -> (contact: Option<Point>)
    requires
        mover.len() >= 2,
        mesh.len() >= 2,
    ensures
        contact == spec_touches(mover_at, mover@, *asteroid, mesh@, margin as int),
{
    let reach = asteroid.size.diameter() as i64 + margin as i64;
    if within_reach(mover_at, asteroid.position, reach) {
        let target = mesh_and_transform_to_points(mesh, &Transform::at(asteroid.position));
        first_contact(mover, &target)
    } else {
        None
    }
}

/// The first asteroid, from the one at `from` on, that the mover touches and
/// that is not marked in `spent`, with the point of contact. `meshes` holds
/// each asteroid's outline about its centre.
pub open spec fn first_touched(
    mover_at: Point,
    mover: Seq<Point>,
    margin: int,
    asteroids: Seq<Asteroid>,
    meshes: Seq<Vec<Point>>,
    spent: Seq<bool>,
    from: int,
) -> Option<(int, Point)>
    decreases asteroids.len() - from,
{
    if from < 0 || from >= asteroids.len() {
        None
    } else if !spent[from] && spec_touches(mover_at, mover, asteroids[from], meshes[from]@, margin)
        is Some {
        Some((from, spec_touches(mover_at, mover, asteroids[from], meshes[from]@, margin)->Some_0))
    } else {
        first_touched(mover_at, mover, margin, asteroids, meshes, spent, from + 1)
    }
}

/// The asteroid that `first_touched` finds is one that the mover touches in
/// the point given and that is not marked, and no asteroid between `from` and
/// it is both.
pub proof fn lemma_first_touched(
    mover_at: Point,
    mover: Seq<Point>,
    margin: int,
    asteroids: Seq<Asteroid>,
    meshes: Seq<Vec<Point>>,
    spent: Seq<bool>,
    from: int,
)
    requires
        0 <= from,
        first_touched(mover_at, mover, margin, asteroids, meshes, spent, from) is Some,
    ensures
        ({
            let (j, contact) = first_touched(
                mover_at,
                mover,
                margin,
                asteroids,
                meshes,
                spent,
                from,
            )->Some_0;
            &&& from <= j < asteroids.len()
            &&& !spent[j]
            &&& spec_touches(mover_at, mover, asteroids[j], meshes[j]@, margin) == Some(contact)
            &&& forall|i: int|
                from <= i < j ==> spent[i] || spec_touches(
                    mover_at,
                    mover,
                    #[trigger] asteroids[i],
                    meshes[i]@,
                    margin,
                ) is None
        }),
    decreases asteroids.len() - from,
{
    if !spent[from] && spec_touches(mover_at, mover, asteroids[from], meshes[from]@, margin)
        is Some {
    } else {
        lemma_first_touched(mover_at, mover, margin, asteroids, meshes, spent, from + 1);
    }
}

/// Whether every asteroid has an outline of at least one edge.
pub open spec fn outlines_match(asteroids: Seq<Asteroid>, meshes: Seq<Vec<Point>>) -> bool {
    &&& meshes.len() == asteroids.len()
    &&& forall|j: int| 0 <= j < meshes.len() ==> (#[trigger] meshes[j]).len() >= 2
}

/// Finds the first asteroid that the mover touches and that is not marked in
/// `spent`, trying the asteroids in their order.
pub fn find_touched(
    mover_at: Point,
    mover: &Vec<Point>,
    margin: i32,
    asteroids: &Vec<Asteroid>,
    meshes: &Vec<Vec<Point>>,
    spent: &Vec<bool>,
) -> (found: Option<(usize, Point)>)
    requires
        mover.len() >= 2,
        outlines_match(asteroids@, meshes@),
        spent.len() == asteroids.len(),
    ensures
        match first_touched(mover_at, mover@, margin as int, asteroids@, meshes@, spent@, 0) {
            Some((j, contact)) => found == Some((j as usize, contact)) && 0 <= j < asteroids.len(),
            None => found is None,
        },
{
    let mut j: usize = 0;
    while j < asteroids.len()
        invariant
            j <= asteroids.len(),
            mover.len() >= 2,
            outlines_match(asteroids@, meshes@),
            spent.len() == asteroids.len(),
            first_touched(mover_at, mover@, margin as int, asteroids@, meshes@, spent@, 0)
                == first_touched(
                mover_at,
                mover@,
                margin as int,
                asteroids@,
                meshes@,
                spent@,
                j as int,
            ),
        decreases asteroids.len() - j,
    {
        if !spent[j] {
            let contact = touches(mover_at, mover, &asteroids[j], &meshes[j], margin);
            if let Some(point) = contact {
                return Some((j, point));
            }
        }
        j += 1;
    }
    None
}

/// The first crossing of two outlines is a crossing of two of their edges:
/// of the edges that start at the corners returned.
pub proof fn lemma_contact_is_a_crossing(mover: Seq<Point>, target: Seq<Point>) -> (at: (int, int))
    requires
        spec_first_contact(mover, target) is Some,
    ensures
        0 <= at.0,
        at.0 + 1 < mover.len(),
        0 <= at.1,
        at.1 + 1 < target.len(),
        spec_first_contact(mover, target) == intersection(
            mover[at.0],
            mover[at.0 + 1],
            target[at.1],
            target[at.1 + 1],
        ),
{
    lemma_contact_from(mover, target, 0)
}

proof fn lemma_contact_from(mover: Seq<Point>, target: Seq<Point>, from: int) -> (at: (int, int))
    requires
        0 <= from,
        first_contact_from(mover, target, from) is Some,
    ensures
        0 <= at.0,
        at.0 + 1 < mover.len(),
        0 <= at.1,
        at.1 + 1 < target.len(),
        first_contact_from(mover, target, from) == intersection(
            mover[at.0],
            mover[at.0 + 1],
            target[at.1],
            target[at.1 + 1],
        ),
    decreases mover.len() - from,
{
    if first_on_edge(mover[from], mover[from + 1], target, 0) is Some {
        let j = lemma_contact_on_edge(mover[from], mover[from + 1], target, 0);
        (from, j)
    } else {
        lemma_contact_from(mover, target, from + 1)
    }
}

proof fn lemma_contact_on_edge(p1: Point, p2: Point, target: Seq<Point>, from: int) -> (j: int)
    requires
        0 <= from,
        first_on_edge(p1, p2, target, from) is Some,
    ensures
        0 <= j,
        j + 1 < target.len(),
        first_on_edge(p1, p2, target, from) == intersection(p1, p2, target[j], target[j + 1]),
    decreases target.len() - from,
{
    if intersection(p1, p2, target[from], target[from + 1]) is Some {
        from
    } else {
        lemma_contact_on_edge(p1, p2, target, from + 1)
    }
}

/// Two outlines have no first crossing only if no edge of the one crosses an
/// edge of the other.
pub proof fn lemma_no_contact_no_crossing(mover: Seq<Point>, target: Seq<Point>, i: int, j: int)
    requires
        spec_first_contact(mover, target) is None,
        0 <= i,
        i + 1 < mover.len(),
        0 <= j,
        j + 1 < target.len(),
    ensures
        intersection(mover[i], mover[i + 1], target[j], target[j + 1]) is None,
{
    lemma_none_from(mover, target, 0, i);
    lemma_none_on_edge(mover[i], mover[i + 1], target, 0, j);
}

proof fn lemma_none_from(mover: Seq<Point>, target: Seq<Point>, from: int, i: int)
    requires
        first_contact_from(mover, target, from) is None,
        0 <= from <= i,
        i + 1 < mover.len(),
    ensures
        first_on_edge(mover[i], mover[i + 1], target, 0) is None,
    decreases i - from,
{
    if from < i {
        lemma_none_from(mover, target, from + 1, i);
    }
}

proof fn lemma_none_on_edge(p1: Point, p2: Point, target: Seq<Point>, from: int, j: int)
    requires
        first_on_edge(p1, p2, target, from) is None,
        0 <= from <= j,
        j + 1 < target.len(),
    ensures
        intersection(p1, p2, target[j], target[j + 1]) is None,
    decreases j - from,
{
    if from < j {
        lemma_none_on_edge(p1, p2, target, from + 1, j);
    }
}

} // verus!

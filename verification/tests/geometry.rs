use asteroids::collision::{first_contact, touches, within_reach};
use asteroids::asteroid::{Asteroid, AsteroidSize};
use asteroids::units::{div_floor, isqrt, saturate};
use asteroids::{
    lines_intersect, mesh_and_transform_to_points, Point, Rotation, Transform, Viewport,
};

fn p(x: i32, y: i32) -> Point {
    Point { x, y }
}

fn square(half: i32) -> Vec<Point> {
    vec![p(-half, -half), p(half, -half), p(half, half), p(-half, half), p(-half, -half)]
}

fn rock(size: AsteroidSize, at: Point) -> Asteroid {
    Asteroid { size, position: at, direction: p(0, 0), polygon: Vec::new() }
}

#[test]
fn bullet_segment_meets_asteroid_edge() {
    let hit = lines_intersect(p(0, 0), p(0, 5), p(-2, 3), p(2, 3));
    assert_eq!(hit, Some(p(0, 3)));
}

#[test]
fn bullet_segment_meets_asteroid_edge_in_thousandths() {
    let hit = lines_intersect(p(0, 0), p(0, 5_000), p(-2_000, 3_000), p(2_000, 3_000));
    assert_eq!(hit, Some(p(0, 3_000)));
}

#[test]
fn parallel_segments_never_cross() {
    assert_eq!(lines_intersect(p(0, 0), p(10, 0), p(0, 1), p(10, 1)), None);
}

#[test]
fn overlapping_segments_on_one_line_never_cross() {
    assert_eq!(lines_intersect(p(0, 0), p(10, 0), p(5, 0), p(15, 0)), None);
}

#[test]
fn segment_without_length_never_crosses() {
    assert_eq!(lines_intersect(p(3, 3), p(3, 3), p(0, 0), p(6, 6)), None);
}

#[test]
fn segments_that_stop_short_do_not_cross() {
    assert_eq!(lines_intersect(p(0, 0), p(0, 2), p(-2, 3), p(2, 3)), None);
    assert_eq!(lines_intersect(p(0, 0), p(0, 5), p(1, 3), p(2, 3)), None);
}

#[test]
fn crossing_at_an_end_point_counts() {
    assert_eq!(lines_intersect(p(0, 0), p(0, 3), p(-2, 3), p(2, 3)), Some(p(0, 3)));
    assert_eq!(lines_intersect(p(0, 0), p(0, 5), p(0, 3), p(2, 3)), Some(p(0, 3)));
    assert_eq!(lines_intersect(p(0, 0), p(4, 0), p(4, 0), p(4, 4)), Some(p(4, 0)));
}

#[test]
fn crossing_point_is_rounded_down() {
    assert_eq!(lines_intersect(p(0, 0), p(1, 1), p(0, 1), p(1, 0)), Some(p(0, 0)));
    assert_eq!(lines_intersect(p(0, 0), p(-1, -1), p(0, -1), p(-1, 0)), Some(p(-1, -1)));
    assert_eq!(lines_intersect(p(0, 0), p(3, 1), p(1, -5), p(1, 5)), Some(p(1, 0)));
}

#[test]
fn swapping_the_ends_of_the_first_segment_changes_nothing() {
    let segments = [
        (p(0, 0), p(0, 5), p(-2, 3), p(2, 3)),
        (p(0, 0), p(1, 1), p(0, 1), p(1, 0)),
        (p(-7, 2), p(9, -3), p(1, -8), p(2, 11)),
        (p(0, 0), p(10, 0), p(0, 1), p(10, 1)),
        (p(0, 0), p(0, 2), p(-2, 3), p(2, 3)),
        (p(-5_000, -5_000), p(0, 5_000), p(-6_000, 4_000), p(6_000, 4_000)),
    ];
    for (a, b, c, d) in segments {
        assert_eq!(lines_intersect(a, b, c, d), lines_intersect(b, a, c, d));
    }
}

#[test]
fn crossing_point_lies_in_both_bounding_boxes() {
    let hit = lines_intersect(p(-7, 2), p(9, -3), p(1, -8), p(2, 11));
    let point = hit.expect("the segments cross");
    assert!(-7 <= point.x && point.x <= 9);
    assert!(-3 <= point.y && point.y <= 2);
    assert!(1 <= point.x && point.x <= 2);
    assert!(-8 <= point.y && point.y <= 11);
    assert_eq!(point, p(1, -1));
}

#[test]
fn far_apart_end_points_do_not_overflow() {
    let low = i32::MIN;
    let high = i32::MAX;
    let hit = lines_intersect(p(low, low), p(high, high), p(low, high), p(high, low));
    assert_eq!(hit, Some(p(-1, -1)));
}

#[test]
fn transform_without_turn_shifts_every_point() {
    let mesh = vec![p(0, 0), p(0, 5_000)];
    let points = mesh_and_transform_to_points(&mesh, &Transform::at(p(100_000, -20_000)));
    assert_eq!(points, vec![p(100_000, -20_000), p(100_000, -15_000)]);
}

#[test]
fn transform_turns_before_it_shifts() {
    let quarter = Rotation { cos: 0, sin: 1_000 };
    let transform = Transform { translation: p(10_000, 10_000), rotation: quarter };
    let mesh = vec![p(0, 0), p(0, 5_000), p(2_000, 0)];
    let points = mesh_and_transform_to_points(&mesh, &transform);
    assert_eq!(points, vec![p(10_000, 10_000), p(5_000, 10_000), p(10_000, 12_000)]);
}

#[test]
fn transform_rounds_down_and_keeps_order_and_length() {
    let turn = Rotation { cos: 866, sin: 500 };
    let transform = Transform { translation: p(0, 0), rotation: turn };
    let mesh = vec![p(1_001, 0), p(0, 1_001), p(-1_001, -3)];
    let points = mesh_and_transform_to_points(&mesh, &transform);
    assert_eq!(points, vec![p(866, 500), p(-501, 866), p(-866, -504)]);
}

#[test]
fn transform_of_no_points_is_empty() {
    let points = mesh_and_transform_to_points(&Vec::new(), &Transform::at(p(1, 2)));
    assert!(points.is_empty());
}

#[test]
fn identity_rotation_is_one_and_nothing() {
    assert_eq!(Rotation::identity(), Rotation { cos: 1_000, sin: 0 });
    assert_eq!(Transform::at(p(3, 4)).apply(p(10, 20)), p(13, 24));
}

#[test]
fn coordinates_are_pinned_to_the_range() {
    assert_eq!(Transform::at(p(i32::MAX, i32::MIN)).apply(p(5, -5)), p(i32::MAX, i32::MIN));
    assert_eq!(p(i32::MAX, 0).plus(p(1, 1)), p(i32::MAX, 1));
    assert_eq!(saturate(1 << 40), i32::MAX);
    assert_eq!(saturate(-(1 << 40)), i32::MIN);
    assert_eq!(saturate(-7), -7);
}

#[test]
fn quotients_are_rounded_towards_negative_infinity() {
    assert_eq!(div_floor(7, 2), 3);
    assert_eq!(div_floor(-7, 2), -4);
    assert_eq!(div_floor(7, -2), -4);
    assert_eq!(div_floor(-7, -2), 3);
    assert_eq!(div_floor(-8, 2), -4);
    assert_eq!(div_floor(0, -5), 0);
}

#[test]
fn square_roots_are_rounded_down() {
    assert_eq!(isqrt(0), 0);
    assert_eq!(isqrt(1), 1);
    assert_eq!(isqrt(3), 1);
    assert_eq!(isqrt(4), 2);
    assert_eq!(isqrt(250_000), 500);
    assert_eq!(isqrt(999_999), 999);
    assert_eq!(isqrt(u64::MAX as u128), 0xffff_ffff);
    assert_eq!(isqrt(u128::MAX), 0xffff_ffff_ffff_ffff);
}

#[test]
fn resized_keeps_the_direction() {
    assert_eq!(p(3_000, 4_000).resized(10_000), p(6_000, 8_000));
    assert_eq!(p(-3_000, 4_000).resized(10_000), p(-6_000, 8_000));
    assert_eq!(p(600, -800).resized(1_000), p(600, -800));
    assert_eq!(p(0, -7).resized(1_000), p(0, -1_000));
    assert_eq!(p(1, 2).resized(1_000), p(447, 894));
    assert_eq!(p(1, 1).resized(1_000), p(707, 707));
    assert_eq!(p(-1, 1).resized(1_000), p(-708, 707));
    assert_eq!(p(i32::MAX, i32::MIN).resized(1_000), p(707, -708));
}

#[test]
fn resized_leaves_no_length_alone() {
    assert_eq!(p(0, 0).resized(1_000), p(0, 0));
}

#[test]
fn advanced_goes_the_way_of_one_tick() {
    assert_eq!(p(0, 0).advanced(p(10_000, -5_000), 500_000), p(5_000, -2_500));
    assert_eq!(p(100, 100).advanced(p(1, -1), 16_000), p(100, 99));
    assert_eq!(p(7, 7).advanced(p(123_456, 654_321), 0), p(7, 7));
    assert_eq!(p(i32::MAX, 0).advanced(p(1_000_000, 0), 1_000_000), p(i32::MAX, 0));
}

#[test]
fn viewport_excludes_only_what_lies_wholly_outside() {
    let viewport = Viewport { width: 800_000, height: 600_000 };
    assert!(!viewport.excludes(p(0, 0), 15_000));
    assert!(!viewport.excludes(p(415_000, 0), 15_000));
    assert!(viewport.excludes(p(415_001, 0), 15_000));
    assert!(!viewport.excludes(p(-415_000, 0), 15_000));
    assert!(viewport.excludes(p(-415_001, 0), 15_000));
    assert!(!viewport.excludes(p(0, 315_000), 15_000));
    assert!(viewport.excludes(p(0, 315_001), 15_000));
    assert!(viewport.excludes(p(0, -315_001), 15_000));
}

#[test]
fn viewport_of_odd_size_is_halved_exactly() {
    let viewport = Viewport { width: 3, height: 3 };
    assert!(!viewport.excludes(p(1, 0), 0));
    assert!(viewport.excludes(p(2, 0), 0));
    assert!(!viewport.excludes(p(-1, 0), 0));
    assert!(viewport.excludes(p(-2, 0), 0));
}

#[test]
fn reach_is_measured_as_the_crow_flies() {
    assert!(within_reach(p(0, 0), p(3_000, 4_000), 5_000));
    assert!(!within_reach(p(0, 0), p(3_000, 4_000), 4_999));
    assert!(within_reach(p(7, 7), p(7, 7), 0));
    assert!(!within_reach(p(7, 7), p(7, 7), -1));
    assert!(!within_reach(p(i32::MIN, i32::MIN), p(i32::MAX, i32::MAX), i32::MAX as i64));
}

#[test]
fn first_contact_follows_the_order_of_the_edges() {
    let mover = vec![p(0, -10), p(0, 10), p(20, 10)];
    let target = vec![p(-5, 5), p(5, 5), p(5, -5), p(-5, -5), p(-5, 5)];
    assert_eq!(first_contact(&mover, &target), Some(p(0, 5)));
    let turned = vec![p(5, -5), p(-5, -5), p(-5, 5), p(5, 5), p(5, -5)];
    assert_eq!(first_contact(&mover, &turned), Some(p(0, -5)));
}

#[test]
fn first_contact_tries_every_edge_of_the_mover() {
    let mover = vec![p(-20, -20), p(-20, 0), p(0, 0)];
    let target = vec![p(-5, 5), p(5, 5), p(5, -5), p(-5, -5), p(-5, 5)];
    assert_eq!(first_contact(&mover, &target), Some(p(-5, 0)));
}

#[test]
fn outlines_apart_have_no_contact() {
    let mover = vec![p(100, 100), p(110, 100)];
    let target = vec![p(-5, 5), p(5, 5), p(5, -5), p(-5, -5), p(-5, 5)];
    assert_eq!(first_contact(&mover, &target), None);
    let inside = vec![p(-1, 0), p(1, 0)];
    assert_eq!(first_contact(&inside, &target), None);
}

#[test]
fn touching_needs_the_centres_to_be_near() {
    let asteroid = rock(AsteroidSize::Small, p(0, 0));
    let mesh = square(30_000);
    let near = vec![p(0, 18_000), p(0, 40_000)];
    assert_eq!(touches(p(0, 18_000), &near, &asteroid, &mesh, 3_500), Some(p(0, 30_000)));
    assert_eq!(touches(p(0, 18_500), &near, &asteroid, &mesh, 3_500), Some(p(0, 30_000)));
    assert_eq!(touches(p(0, 18_501), &near, &asteroid, &mesh, 3_500), None);
}

#[test]
fn touching_places_the_outline_at_the_asteroid() {
    let asteroid = rock(AsteroidSize::Large, p(100_000, 100_000));
    let mesh = square(40_000);
    let bullet = vec![p(100_000, 58_000), p(100_000, 63_000)];
    let contact = touches(p(100_000, 58_000), &bullet, &asteroid, &mesh, 3_500);
    assert_eq!(contact, Some(p(100_000, 60_000)));
}

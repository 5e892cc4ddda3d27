use asteroids::asteroid::systems::{
    calls_for_spawn, check_asteroid_bounds, despawn_asteroids, entering, entry_velocity,
    move_asteroids, size_for, spawn_asteroids, Edge, Span,
};
use asteroids::asteroid::{
    generate_polygon, polar_vertex, Asteroid, AsteroidParameters, AsteroidSize, PolarPoint,
};
use asteroids::{Point, Rotation, Viewport};

fn at(x: i32, y: i32) -> Point {
    Point { x, y }
}

fn drifting(size: AsteroidSize, position: Point, direction: Point) -> Asteroid {
    Asteroid { size, position, direction, polygon: Vec::new() }
}

fn all_sizes() -> [AsteroidSize; 3] {
    [AsteroidSize::Small, AsteroidSize::Medium, AsteroidSize::Large]
}

#[test]
fn parameters_of_each_class() {
    assert_eq!(
        AsteroidSize::Small.parameters(),
        AsteroidParameters { min_diameter: 8_000, max_diameter: 15_000, number_of_points: 10 }
    );
    assert_eq!(
        AsteroidSize::Medium.parameters(),
        AsteroidParameters { min_diameter: 20_000, max_diameter: 30_000, number_of_points: 20 }
    );
    assert_eq!(
        AsteroidSize::Large.parameters(),
        AsteroidParameters { min_diameter: 40_000, max_diameter: 60_000, number_of_points: 30 }
    );
}

#[test]
fn extent_of_each_class() {
    assert_eq!(AsteroidSize::Small.diameter(), 15_000);
    assert_eq!(AsteroidSize::Medium.diameter(), 30_000);
    assert_eq!(AsteroidSize::Large.diameter(), 60_000);
    assert_eq!(AsteroidSize::Small.radius(), 7_500);
    assert_eq!(AsteroidSize::Medium.radius(), 15_000);
    assert_eq!(AsteroidSize::Large.radius(), 30_000);
}

#[test]
fn damage_of_each_class() {
    assert_eq!(AsteroidSize::Small.damage(), 15);
    assert_eq!(AsteroidSize::Medium.damage(), 30);
    assert_eq!(AsteroidSize::Large.damage(), 50);
}

#[test]
fn each_class_breaks_into_the_next_smaller() {
    assert_eq!(AsteroidSize::Large.smaller(), Some(AsteroidSize::Medium));
    assert_eq!(AsteroidSize::Medium.smaller(), Some(AsteroidSize::Small));
    assert_eq!(AsteroidSize::Small.smaller(), None);
}

#[test]
fn smaller_classes_are_faster() {
    assert_eq!(AsteroidSize::Small.pace(), 10_000);
    assert_eq!(AsteroidSize::Medium.pace(), 5_000);
    assert_eq!(AsteroidSize::Large.pace(), 2_500);
}

#[test]
fn polar_vertex_lies_in_its_sector() {
    assert_eq!(polar_vertex(36_000, 0, 0, 8_000), PolarPoint { angle: 0, radius: 8_000 });
    assert_eq!(polar_vertex(36_000, 3, 1_234, 9_999), PolarPoint { angle: 109_234, radius: 9_999 });
    assert_eq!(
        polar_vertex(12_000, 29, 11_999, 60_000),
        PolarPoint { angle: 359_999, radius: 60_000 }
    );
}

#[test]
fn polar_point_by_its_coordinates() {
    let point = PolarPoint { angle: 90_000, radius: 30_000 };
    assert_eq!(point.cartesian(Rotation { cos: 0, sin: 1_000 }), at(0, 30_000));
    let slanted = PolarPoint { angle: 30_000, radius: 10_001 };
    assert_eq!(slanted.cartesian(Rotation { cos: 866, sin: 500 }), at(8_660, 5_000));
    let back = PolarPoint { angle: 210_000, radius: 10_001 };
    assert_eq!(back.cartesian(Rotation { cos: -866, sin: -500 }), at(-8_661, -5_001));
}

#[test]
fn generated_outline_for_each_class() {
    for size in all_sizes() {
        let parameters = size.parameters();
        for _ in 0..20 {
            let ring = generate_polygon(parameters);
            assert_eq!(ring.len(), parameters.number_of_points + 1);
            assert_eq!(ring[0], ring[parameters.number_of_points]);
            for corner in &ring[..parameters.number_of_points] {
                assert!(parameters.min_diameter <= corner.radius);
                assert!(corner.radius <= parameters.max_diameter);
            }
        }
    }
}

#[test]
fn generated_outline_for_other_parameters() {
    let triangle = AsteroidParameters { min_diameter: 5, max_diameter: 5, number_of_points: 3 };
    for _ in 0..20 {
        let ring = generate_polygon(triangle);
        assert_eq!(ring.len(), 4);
        assert_eq!(ring[0], ring[3]);
        for (i, corner) in ring.iter().take(3).enumerate() {
            assert_eq!(corner.radius, 5);
            assert!(i as i32 * 120_000 <= corner.angle);
            assert!(corner.angle < (i as i32 + 1) * 120_000);
        }
    }
    let uneven = AsteroidParameters { min_diameter: 0, max_diameter: 9, number_of_points: 7 };
    let ring = generate_polygon(uneven);
    assert_eq!(ring.len(), 8);
    assert_eq!(ring[0], ring[7]);
    for (i, corner) in ring.iter().take(7).enumerate() {
        assert!(0 <= corner.radius && corner.radius <= 9);
        assert!(i as i32 * 51_428 <= corner.angle);
        assert!(corner.angle < (i as i32 + 1) * 51_428);
    }
    let dot = AsteroidParameters { min_diameter: 1, max_diameter: 1, number_of_points: 1 };
    let ring = generate_polygon(dot);
    assert_eq!(ring.len(), 2);
    assert_eq!(ring[0], ring[1]);
}

#[test]
fn spawned_outline_has_one_corner_more_than_its_class() {
    for size in all_sizes() {
        let asteroid = Asteroid::spawn_new(size, at(1, 2), at(3, 4));
        assert_eq!(asteroid.polygon.len(), size.parameters().number_of_points + 1);
    }
}

#[test]
fn spawned_outline_is_closed() {
    for size in all_sizes() {
        let asteroid = Asteroid::spawn_new(size, at(0, 0), at(0, 0));
        assert_eq!(asteroid.polygon.first(), asteroid.polygon.last());
    }
}

#[test]
fn spawned_outline_keeps_its_distance_from_the_centre() {
    for size in all_sizes() {
        let parameters = size.parameters();
        for _ in 0..50 {
            let asteroid = Asteroid::spawn_new(size, at(0, 0), at(0, 0));
            for corner in &asteroid.polygon {
                assert!(parameters.min_diameter <= corner.radius);
                assert!(corner.radius <= parameters.max_diameter);
            }
        }
    }
}

#[test]
fn spawned_outline_has_one_corner_in_each_sector() {
    for size in all_sizes() {
        let count = size.parameters().number_of_points;
        let sector = 360_000 / count as i32;
        for _ in 0..50 {
            let asteroid = Asteroid::spawn_new(size, at(0, 0), at(0, 0));
            for (i, corner) in asteroid.polygon.iter().take(count).enumerate() {
                assert!(i as i32 * sector <= corner.angle);
                assert!(corner.angle < (i as i32 + 1) * sector);
            }
        }
    }
}

#[test]
fn spawned_outlines_differ() {
    let mut jittered = false;
    let mut raised = false;
    for _ in 0..50 {
        let asteroid = Asteroid::spawn_new(AsteroidSize::Large, at(0, 0), at(0, 0));
        for (i, corner) in asteroid.polygon.iter().take(30).enumerate() {
            jittered = jittered || corner.angle != i as i32 * 12_000;
            raised = raised || corner.radius != 40_000;
        }
    }
    assert!(jittered);
    assert!(raised);
}

#[test]
fn spawned_asteroid_is_where_and_how_it_was_asked_for() {
    let asteroid = Asteroid::spawn_new(AsteroidSize::Medium, at(-7, 9), at(100, -200));
    assert_eq!(asteroid.size, AsteroidSize::Medium);
    assert_eq!(asteroid.position, at(-7, 9));
    assert_eq!(asteroid.direction, at(100, -200));
}

#[test]
fn asteroids_move_by_their_velocity() {
    let mut asteroids = vec![
        drifting(AsteroidSize::Small, at(0, 0), at(10_000, -20_000)),
        drifting(AsteroidSize::Large, at(100_000, 100_000), at(0, 0)),
        drifting(AsteroidSize::Medium, at(-1, -1), at(-1, 1)),
    ];
    move_asteroids(&mut asteroids, 16_000);
    assert_eq!(asteroids[0].position, at(160, -320));
    assert_eq!(asteroids[1].position, at(100_000, 100_000));
    assert_eq!(asteroids[2].position, at(-2, -1));
    assert_eq!(asteroids[0].direction, at(10_000, -20_000));
    assert_eq!(asteroids[0].size, AsteroidSize::Small);
    assert_eq!(asteroids.len(), 3);
}

#[test]
fn no_time_no_movement() {
    let mut asteroids = vec![drifting(AsteroidSize::Small, at(5, 6), at(10_000, -20_000))];
    move_asteroids(&mut asteroids, 0);
    assert_eq!(asteroids[0].position, at(5, 6));
}

#[test]
fn asteroids_beyond_an_edge_are_listed() {
    let viewport = Viewport { width: 800_000, height: 600_000 };
    let asteroids = vec![
        drifting(AsteroidSize::Small, at(0, 0), at(0, 0)),
        drifting(AsteroidSize::Small, at(415_001, 0), at(0, 0)),
        drifting(AsteroidSize::Small, at(415_000, 0), at(0, 0)),
        drifting(AsteroidSize::Large, at(0, -360_001), at(0, 0)),
        drifting(AsteroidSize::Large, at(415_001, 0), at(0, 0)),
        drifting(AsteroidSize::Medium, at(-430_001, 330_001), at(0, 0)),
    ];
    assert_eq!(check_asteroid_bounds(&asteroids, viewport), vec![1, 3, 5]);
}

#[test]
fn no_asteroids_none_listed() {
    let viewport = Viewport { width: 800_000, height: 600_000 };
    assert!(check_asteroid_bounds(&Vec::new(), viewport).is_empty());
}

#[test]
fn asteroid_that_crosses_the_threshold_is_listed_at_that_tick() {
    let viewport = Viewport { width: 800_000, height: 600_000 };
    let mut asteroids = vec![drifting(AsteroidSize::Small, at(414_990, 0), at(1_000, 0))];
    assert!(check_asteroid_bounds(&asteroids, viewport).is_empty());
    move_asteroids(&mut asteroids, 16_000);
    assert_eq!(asteroids[0].position, at(415_006, 0));
    assert_eq!(check_asteroid_bounds(&asteroids, viewport), vec![0]);
}

#[test]
fn despawn_leaves_nothing() {
    let mut asteroids = vec![drifting(AsteroidSize::Small, at(0, 0), at(0, 0))];
    despawn_asteroids(&mut asteroids);
    assert!(asteroids.is_empty());
}

#[test]
fn a_draw_above_one_calls_for_a_spawn() {
    assert!(!calls_for_spawn(0));
    assert!(!calls_for_spawn(1_000));
    assert!(calls_for_spawn(1_001));
}

#[test]
fn size_thresholds() {
    assert_eq!(size_for(0), AsteroidSize::Small);
    assert_eq!(size_for(1_499), AsteroidSize::Small);
    assert_eq!(size_for(1_500), AsteroidSize::Medium);
    assert_eq!(size_for(2_499), AsteroidSize::Medium);
    assert_eq!(size_for(2_500), AsteroidSize::Large);
    assert_eq!(size_for(60_000), AsteroidSize::Large);
}

#[test]
fn edges_by_number() {
    assert_eq!(Edge::from_draw(0), Edge::Top);
    assert_eq!(Edge::from_draw(1), Edge::Right);
    assert_eq!(Edge::from_draw(2), Edge::Bottom);
    assert_eq!(Edge::from_draw(3), Edge::Left);
}

#[test]
fn entry_lies_beyond_the_edge_by_the_extent() {
    let viewport = Viewport { width: 800_000, height: 600_000 };
    assert_eq!(Edge::Top.entry(0, AsteroidSize::Small, viewport), at(-400_000, 315_000));
    assert_eq!(Edge::Top.entry(799_999, AsteroidSize::Large, viewport), at(399_999, 360_000));
    assert_eq!(Edge::Right.entry(300_000, AsteroidSize::Medium, viewport), at(430_000, 0));
    assert_eq!(Edge::Bottom.entry(400_000, AsteroidSize::Small, viewport), at(0, -315_000));
    assert_eq!(Edge::Left.entry(599_999, AsteroidSize::Large, viewport), at(-460_000, 299_999));
    assert_eq!(Edge::Top.length(viewport), 800_000);
    assert_eq!(Edge::Bottom.length(viewport), 800_000);
    assert_eq!(Edge::Left.length(viewport), 600_000);
    assert_eq!(Edge::Right.length(viewport), 600_000);
}

#[test]
fn aims_point_into_the_viewport() {
    let any = Span { low: -1_000, high: 1_000 };
    assert_eq!(Edge::Top.aim_x(), any);
    assert_eq!(Edge::Top.aim_y(), Span { low: -1_000, high: -100 });
    assert_eq!(Edge::Right.aim_x(), Span { low: -1_000, high: -100 });
    assert_eq!(Edge::Right.aim_y(), any);
    assert_eq!(Edge::Bottom.aim_x(), any);
    assert_eq!(Edge::Bottom.aim_y(), Span { low: 100, high: 1_000 });
    assert_eq!(Edge::Left.aim_x(), Span { low: 100, high: 1_000 });
    assert_eq!(Edge::Left.aim_y(), any);
}

#[test]
fn entry_velocity_is_pace_times_time_factor() {
    assert_eq!(entry_velocity(at(0, -1_000), AsteroidSize::Small, 2_000), at(0, -20_000));
    assert_eq!(entry_velocity(at(600, -800), AsteroidSize::Small, 2_000), at(12_000, -16_000));
    assert_eq!(entry_velocity(at(600, -800), AsteroidSize::Medium, 1_000), at(3_000, -4_000));
    assert_eq!(entry_velocity(at(-600, 800), AsteroidSize::Large, 3_000), at(-4_500, 6_000));
    assert_eq!(entry_velocity(at(0, 0), AsteroidSize::Large, 3_000), at(0, 0));
}

#[test]
fn entering_asteroid_by_the_numbers_drawn() {
    let viewport = Viewport { width: 800_000, height: 600_000 };
    let asteroid = entering(viewport, 3_000, 1_600, Edge::Top, 500_000, at(600, -800));
    assert_eq!(asteroid.size, AsteroidSize::Medium);
    assert_eq!(asteroid.position, at(100_000, 330_000));
    assert_eq!(asteroid.direction, at(9_000, -12_000));
    assert_eq!(asteroid.polygon.len(), 21);
    let asteroid = entering(viewport, 2_000, 0, Edge::Left, 0, at(1_000 - 1, 0));
    assert_eq!(asteroid.size, AsteroidSize::Small);
    assert_eq!(asteroid.position, at(-415_000, -300_000));
    assert_eq!(asteroid.direction, at(20_000, 0));
    let asteroid = entering(viewport, 2_501, 2_500, Edge::Right, 300_000, at(-100 - 1, 0));
    assert_eq!(asteroid.size, AsteroidSize::Large);
    assert_eq!(asteroid.position, at(460_000, 0));
    assert_eq!(asteroid.direction, at(-6_252, 0));
}

#[test]
fn nothing_spawns_while_the_time_factor_is_at_most_one() {
    let viewport = Viewport { width: 800_000, height: 600_000 };
    for _ in 0..100 {
        assert!(spawn_asteroids(viewport, 1_000).is_empty());
        assert!(spawn_asteroids(viewport, 1).is_empty());
        assert!(spawn_asteroids(viewport, 0).is_empty());
        assert!(spawn_asteroids(viewport, -5).is_empty());
    }
}

#[test]
fn spawned_asteroids_enter_over_an_edge() {
    let viewport = Viewport { width: 800_000, height: 600_000 };
    let mut seen = 0;
    for _ in 0..200 {
        for asteroid in spawn_asteroids(viewport, 3_000) {
            seen += 1;
            let extent = asteroid.size.diameter();
            let Point { x, y } = asteroid.position;
            let top = y == 300_000 + extent && -400_000 <= x && x < 400_000;
            let bottom = y == -300_000 - extent && -400_000 <= x && x < 400_000;
            let right = x == 400_000 + extent && -300_000 <= y && y < 300_000;
            let left = x == -400_000 - extent && -300_000 <= y && y < 300_000;
            assert!(top || bottom || right || left);
            let limit = asteroid.size.pace() * 3;
            assert!(asteroid.direction.x.abs() <= limit);
            assert!(asteroid.direction.y.abs() <= limit);
            if top {
                assert!(asteroid.direction.y < 0);
            }
            if bottom {
                assert!(asteroid.direction.y > 0);
            }
            if right {
                assert!(asteroid.direction.x < 0);
            }
            if left {
                assert!(asteroid.direction.x > 0);
            }
            assert_eq!(asteroid.polygon.len(), asteroid.size.parameters().number_of_points + 1);
            assert_eq!(asteroid.polygon.first(), asteroid.polygon.last());
        }
    }
    assert!(seen > 0);
}

#[test]
fn only_small_asteroids_spawn_while_the_time_factor_is_low() {
    let viewport = Viewport { width: 800_000, height: 600_000 };
    for _ in 0..200 {
        for asteroid in spawn_asteroids(viewport, 1_500) {
            assert_eq!(asteroid.size, AsteroidSize::Small);
        }
    }
}

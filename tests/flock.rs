use boids::boids_plugin::{
    add_weighted, align_and_cohesion, apply_acceleration, integrate, separate, update_position,
    update_position_of, update_spatial_tree, wrap_around_screen, wrap_position, AligmentForce,
    Boid, BoidBundle, BoidsPlugin, CohesionForce, ForceMultipliers, MaxForce, MaxSpeed,
    SeparationForce, Velocity, DEFAULT_DESIRED_SEPARATION, DEFAULT_MAX_FORCE, DEFAULT_MAX_SPEED,
    DEFAULT_NEIGHBOR_DISTANCE,
};
use boids::spatial::{KdTreeItem, SpatialTree};
use boids::steering::{alignment_and_cohesion_deltas, separation_delta, steer};
use boids::vector::Vec2i;
use rand::{Rng, SeedableRng};

fn v(x: i64, y: i64) -> Vec2i {
    Vec2i::new(x, y)
}

fn norm_sq(a: Vec2i) -> i128 {
    (a.x as i128) * (a.x as i128) + (a.y as i128) * (a.y as i128)
}

fn boid_at(x: i64, y: i64) -> Boid {
    Boid { position: v(x, y), bundle: BoidBundle::default() }
}

#[test]
fn wrap_past_right_edge_goes_to_left_edge() {
    assert_eq!(wrap_position(v(501, 0), 500, 400), v(-500, 0));
}

#[test]
fn wrap_leaves_inside_point_unchanged() {
    assert_eq!(wrap_position(v(0, 0), 500, 400), v(0, 0));
    assert_eq!(wrap_position(v(500, -400), 500, 400), v(500, -400));
}

#[test]
fn wrap_each_axis_independently() {
    assert_eq!(wrap_position(v(-501, 401), 500, 400), v(500, -400));
    assert_eq!(wrap_position(v(10, -401), 500, 400), v(10, 400));
}

#[test]
fn wrap_stage_keeps_velocity() {
    let mut b = boid_at(501, 0);
    b.bundle.velocity = Velocity(v(7, -3));
    let mut boids = vec![b, boid_at(0, 0)];
    wrap_around_screen(&mut boids, 500, 500);
    assert_eq!(boids[0].position, v(-500, 0));
    assert_eq!(boids[0].bundle.velocity.0, v(7, -3));
    assert_eq!(boids[1].position, v(0, 0));
}

#[test]
fn end_to_end_query_finds_only_the_near_agent() {
    let boids = vec![boid_at(0, 0), boid_at(5, 0), boid_at(100, 100)];
    let mut tree = SpatialTree::new();
    update_spatial_tree(&boids, &mut tree);
    let found = tree.query_within_radius(&v(0, 0), 10);
    assert_eq!(found.len(), 2);
    let others: Vec<KdTreeItem> = found.into_iter().filter(|i| i.entity != 0).collect();
    assert_eq!(others, vec![KdTreeItem { point: v(5, 0), entity: 1 }]);
}

#[test]
fn empty_index_answers_nothing() {
    let tree = SpatialTree::new();
    assert!(tree.query_within_radius(&v(0, 0), 10).is_empty());
    assert!(tree.query_within_radius(&v(3, -4), 1_000_000).is_empty());
    assert!(tree.query_within_radius(&v(0, 0), 0).is_empty());
}

#[test]
fn query_radius_is_strict_and_nonpositive_radius_finds_nothing() {
    let items = vec![
        KdTreeItem { point: v(3, 4), entity: 0 },
        KdTreeItem { point: v(0, 0), entity: 1 },
    ];
    let tree = SpatialTree::build(items);
    let found = tree.query_within_radius(&v(0, 0), 5);
    assert_eq!(found, vec![KdTreeItem { point: v(0, 0), entity: 1 }]);
    assert_eq!(tree.query_within_radius(&v(0, 0), 6).len(), 2);
    assert!(tree.query_within_radius(&v(0, 0), 0).is_empty());
    assert!(tree.query_within_radius(&v(0, 0), -6).is_empty());
}

#[test]
fn duplicate_points_each_returned() {
    let items = vec![
        KdTreeItem { point: v(1, 1), entity: 0 },
        KdTreeItem { point: v(1, 1), entity: 1 },
        KdTreeItem { point: v(1, 1), entity: 2 },
    ];
    let tree = SpatialTree::build(items);
    let mut handles: Vec<usize> = tree.query_within_radius(&v(0, 0), 2).iter().map(|i| i.entity).collect();
    handles.sort();
    assert_eq!(handles, vec![0, 1, 2]);
}

#[test]
fn index_matches_brute_force_on_random_points() {
    let mut rng = rand::rngs::StdRng::seed_from_u64(7);
    for n in 0..60usize {
        let points: Vec<KdTreeItem> = (0..n)
            .map(|i| KdTreeItem { point: v(rng.gen_range(-200..200), rng.gen_range(-200..200)), entity: i })
            .collect();
        let tree = SpatialTree::build(points.clone());
        for _ in 0..10 {
            let center = v(rng.gen_range(-250..250), rng.gen_range(-250..250));
            let radius: i64 = rng.gen_range(-5..150);
            let mut from_index: Vec<usize> = tree.query_within_radius(&center, radius).iter().map(|i| i.entity).collect();
            let mut from_scan: Vec<usize> = boids::spatial::brute_force_within_radius(&points, &center, radius)
                .iter()
                .map(|i| i.entity)
                .collect();
            from_index.sort();
            from_scan.sort();
            assert_eq!(from_index, from_scan);
        }
    }
}

#[test]
fn brute_force_keeps_order() {
    let points = vec![
        KdTreeItem { point: v(9, 0), entity: 4 },
        KdTreeItem { point: v(50, 0), entity: 5 },
        KdTreeItem { point: v(-2, 2), entity: 6 },
    ];
    let found = boids::spatial::brute_force_within_radius(&points, &v(0, 0), 10);
    assert_eq!(found, vec![points[0], points[2]]);
}

#[test]
fn kd_item_coordinates() {
    let item = KdTreeItem { point: v(-3, 8), entity: 2 };
    assert_eq!(item.at(0), -3);
    assert_eq!(item.at(1), 8);
}

#[test]
fn coincident_agents_give_each_other_no_separation() {
    let neighbors = vec![
        KdTreeItem { point: v(10, 10), entity: 0 },
        KdTreeItem { point: v(10, 10), entity: 1 },
    ];
    assert_eq!(separation_delta(v(10, 10), v(0, 0), 100, 10, &neighbors), None);
    let mut boids = vec![boid_at(10, 10), boid_at(10, 10)];
    let mut tree = SpatialTree::new();
    update_spatial_tree(&boids, &mut tree);
    let weights = ForceMultipliers { separation: 2, alignment: 1, cohesion: 1 };
    separate(&mut boids, &weights, &tree, 10_000);
    assert_eq!(boids[0].bundle.separation_force.0, v(0, 0));
    assert_eq!(boids[1].bundle.separation_force.0, v(0, 0));
}

#[test]
fn separation_pushes_away_from_neighbor() {
    // neighbor straight to the right: desired velocity points left at max speed
    let neighbors = vec![
        KdTreeItem { point: v(0, 0), entity: 0 },
        KdTreeItem { point: v(4, 0), entity: 1 },
    ];
    assert_eq!(separation_delta(v(0, 0), v(0, 0), 100, 1000, &neighbors), Some(v(-100, 0)));
    // the steering delta is clamped to the maximum force
    assert_eq!(separation_delta(v(0, 0), v(0, 0), 100, 30, &neighbors), Some(v(-30, 0)));
}

#[test]
fn separation_weighs_closer_neighbors_more() {
    // a neighbor at distance 1 above and one at distance 4 to the left:
    // pushes of 2^20 down and 2^18 right, mean (2^17, -2^19)
    let neighbors = vec![
        KdTreeItem { point: v(0, 1), entity: 1 },
        KdTreeItem { point: v(-4, 0), entity: 2 },
    ];
    let d = separation_delta(v(0, 0), v(0, 0), 1000, 1000, &neighbors).unwrap();
    assert!(d.y < 0 && d.x > 0 && -d.y > 3 * d.x);
    assert!(norm_sq(d) <= 1000 * 1000);
}

#[test]
fn alignment_of_opposite_velocities_cancels() {
    let neighbors = vec![
        KdTreeItem { point: v(1, 0), entity: 1 },
        KdTreeItem { point: v(-1, 0), entity: 2 },
        KdTreeItem { point: v(0, 0), entity: 0 },
    ];
    let velocities = vec![v(3000, 4000), v(1, 0), v(-1, 0)];
    let (alignment, cohesion) =
        alignment_and_cohesion_deltas(0, v(0, 0), v(3000, 4000), 10_000, 1000, &neighbors, &velocities).unwrap();
    assert_eq!(alignment, v(-600, -800));
    // mean neighbor position is the agent's own: no desired direction either
    assert_eq!(cohesion, v(-600, -800));
}

#[test]
fn cohesion_steers_toward_mean_position() {
    let neighbors = vec![
        KdTreeItem { point: v(10, 0), entity: 1 },
        KdTreeItem { point: v(10, 20), entity: 2 },
    ];
    let velocities = vec![v(0, 0), v(0, 0), v(0, 0)];
    let (alignment, cohesion) =
        alignment_and_cohesion_deltas(0, v(0, 10), v(0, 0), 50, 1000, &neighbors, &velocities).unwrap();
    assert_eq!(alignment, v(0, 0));
    assert_eq!(cohesion, v(50, 0));
}

#[test]
fn alignment_ignores_self_and_needs_neighbors() {
    let neighbors = vec![KdTreeItem { point: v(0, 0), entity: 0 }];
    let velocities = vec![v(5, 5)];
    assert_eq!(alignment_and_cohesion_deltas(0, v(0, 0), v(5, 5), 10, 10, &neighbors, &velocities), None);
}

#[test]
fn alignment_follows_mean_velocity() {
    let neighbors = vec![KdTreeItem { point: v(3, 0), entity: 1 }, KdTreeItem { point: v(0, 3), entity: 7 }];
    // handle 7 has no velocity: it counts, with nothing added to the sum
    let velocities = vec![v(0, 0), v(0, 40)];
    let (alignment, _) =
        alignment_and_cohesion_deltas(0, v(0, 0), v(0, 0), 10, 100, &neighbors, &velocities).unwrap();
    assert_eq!(alignment, v(0, 10));
}

#[test]
fn steering_deltas_stay_within_max_force() {
    let velocity = v(-90_000, 40_000);
    let neighbors: Vec<KdTreeItem> = (0..20)
        .map(|i| KdTreeItem { point: v(i * 37 % 200 - 100, i * 53 % 200 - 100), entity: i as usize + 1 })
        .collect();
    let velocities: Vec<Vec2i> = (0..21).map(|i| v(i * 1000 - 10_000, 5000 - i * 700)).collect();
    for max_force in [0i64, 1, 7, 300, 30_000] {
        let s = separation_delta(v(3, -2), velocity, 240_000, max_force, &neighbors).unwrap();
        assert!(norm_sq(s) <= (max_force as i128) * (max_force as i128));
        let (a, c) =
            alignment_and_cohesion_deltas(0, v(3, -2), velocity, 240_000, max_force, &neighbors, &velocities)
                .unwrap();
        assert!(norm_sq(a) <= (max_force as i128) * (max_force as i128));
        assert!(norm_sq(c) <= (max_force as i128) * (max_force as i128));
    }
}

#[test]
fn steer_is_clamped_difference() {
    assert_eq!(steer(v(100, 0), v(40, 0), 1000), v(60, 0));
    assert_eq!(steer(v(0, 0), v(300, 400), 50), v(-30, -40));
}

#[test]
fn integration_clamps_speed_and_zeroes_accumulators() {
    let mut b = BoidBundle::default();
    b.max_speed = MaxSpeed(500);
    b.separation_force = SeparationForce(v(1000, 0));
    b.aligment_force = AligmentForce(v(0, 2000));
    b.cohesion_force = CohesionForce(v(0, -2000));
    let r = integrate(b, 1000);
    assert_eq!(r.velocity.0, v(500, 0));
    assert_eq!(r.separation_force.0, v(0, 0));
    assert_eq!(r.aligment_force.0, v(0, 0));
    assert_eq!(r.cohesion_force.0, v(0, 0));
    assert_eq!(r.acceleration.0, v(0, 0));
    assert_eq!(r.max_speed.0, 500);
}

#[test]
fn integration_scales_by_time_step() {
    let mut b = BoidBundle::default();
    b.velocity = Velocity(v(10, 10));
    b.separation_force = SeparationForce(v(1000, -3000));
    let r = integrate(b, 16);
    assert_eq!(r.velocity.0, v(26, -38));
}

#[test]
fn speed_bound_holds_after_integration() {
    let mut boids: Vec<Boid> = (0..10).map(|i| boid_at(i, -i)).collect();
    for (i, b) in boids.iter_mut().enumerate() {
        let k = i as i64;
        b.bundle.max_speed = MaxSpeed(1000 + 100 * k);
        b.bundle.separation_force = SeparationForce(v(400_000 * (k - 5), 300_000 * k));
        b.bundle.aligment_force = AligmentForce(v(-70_000, 9_000 * k));
    }
    apply_acceleration(&mut boids, 33);
    for b in &boids {
        let m = b.bundle.max_speed.0 as i128;
        assert!(norm_sq(b.bundle.velocity.0) <= m * m);
    }
}

#[test]
fn position_moves_by_velocity_times_step() {
    assert_eq!(update_position_of(v(0, 0), v(1000, -2000), 500), v(500, -1000));
    assert_eq!(update_position_of(v(5, 5), v(-1, 1), 999), v(5, 5));
    let mut boids = vec![boid_at(1, 2)];
    boids[0].bundle.velocity = Velocity(v(3000, 0));
    update_position(&mut boids, 1000);
    assert_eq!(boids[0].position, v(3001, 2));
}

#[test]
fn weighted_accumulation() {
    assert_eq!(add_weighted(v(1, 1), Some(v(3, -4)), 2, 10), v(7, -7));
    assert_eq!(add_weighted(v(1, 1), None, 2, 10), v(1, 1));
}

#[test]
fn default_bundle_and_plugin() {
    let b = BoidBundle::default();
    assert_eq!(b.velocity.0, v(0, 0));
    assert_eq!(b.max_speed.0, DEFAULT_MAX_SPEED);
    assert_eq!(b.max_force.0, DEFAULT_MAX_FORCE);
    assert_eq!(DEFAULT_MAX_SPEED, 240_000);
    assert_eq!(DEFAULT_MAX_FORCE, 30_000);
    let p = BoidsPlugin::build();
    assert!(p.boids.is_empty());
    assert_eq!(p.force_multipliers, ForceMultipliers { separation: 2, alignment: 1, cohesion: 1 });
    assert_eq!(p.desired_separation, DEFAULT_DESIRED_SEPARATION);
    assert_eq!(p.neighbor_distance, DEFAULT_NEIGHBOR_DISTANCE);
    assert!(p.kd_tree.query_within_radius(&v(0, 0), 100).is_empty());
}

#[test]
fn align_stage_uses_index_neighbors() {
    let mut boids = vec![boid_at(0, 0), boid_at(10, 0), boid_at(5000, 5000)];
    boids[1].bundle.velocity = Velocity(v(0, 100));
    let mut tree = SpatialTree::new();
    update_spatial_tree(&boids, &mut tree);
    let weights = ForceMultipliers { separation: 2, alignment: 3, cohesion: 1 };
    align_and_cohesion(&mut boids, &weights, &tree, 20);
    // agent 0 sees agent 1 only: align toward (0, max_speed), cohere toward +x
    assert_eq!(boids[0].bundle.aligment_force.0, v(0, 3 * DEFAULT_MAX_FORCE));
    assert_eq!(boids[0].bundle.cohesion_force.0, v(DEFAULT_MAX_FORCE, 0));
    // the far agent has no neighbor
    assert_eq!(boids[2].bundle.aligment_force.0, v(0, 0));
    assert_eq!(boids[2].bundle.cohesion_force.0, v(0, 0));
}

#[test]
fn tick_moves_a_pair_apart() {
    let mut p = BoidsPlugin::build();
    let a = p.spawn(boid_at(0, 0));
    let b = p.spawn(boid_at(4000, 0));
    assert_eq!((a, b), (0, 1));
    p.tick(500_000, 400_000, 1000);
    let left = p.boids[0];
    let right = p.boids[1];
    assert!(left.position.x < 0);
    assert!(right.position.x > 4000);
    for boid in &p.boids {
        let m = boid.bundle.max_speed.0 as i128;
        assert!(norm_sq(boid.bundle.velocity.0) <= m * m);
        assert_eq!(boid.bundle.separation_force.0, v(0, 0));
    }
}

#[test]
fn tick_wraps_before_moving() {
    let mut p = BoidsPlugin::build();
    p.spawn(boid_at(600_000, 0));
    p.tick(500_000, 400_000, 1000);
    assert_eq!(p.boids[0].position, v(-500_000, 0));
}

#[test]
fn well_formedness_check() {
    assert!(boid_at(0, 0).is_well_formed());
    let mut fast = boid_at(0, 0);
    fast.bundle.velocity = Velocity(v(DEFAULT_MAX_SPEED, 1));
    assert!(!fast.is_well_formed());
    let mut pushed = boid_at(0, 0);
    pushed.bundle.separation_force = SeparationForce(v(1, 0));
    assert!(!pushed.is_well_formed());
    let mut huge = boid_at(0, 0);
    huge.bundle.max_force = MaxForce(-1);
    assert!(!huge.is_well_formed());
}

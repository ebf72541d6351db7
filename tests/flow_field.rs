use boids::boids_plugin::{Boid, BoidBundle};
use boids::flow_field_plugin::{
    compute_flow_field, seek_flow_field, seek_steering, FlowField, FlowFieldSettings,
    SEEK_TARGET_RADIUS,
};
use boids::vector::Vec2i;

fn v(x: i64, y: i64) -> Vec2i {
    Vec2i::new(x, y)
}

fn grid() -> FlowField {
    FlowField {
        field: vec![vec![v(1, 1), v(1, 2)], vec![v(2, 1), v(2, 2)], vec![v(3, 1), v(3, 2)]],
        resolution: 5,
    }
}

#[test]
fn map_rescales_linearly() {
    assert_eq!(boids::flow_field_plugin::map(50, 0, 100, 0, 240), 120);
    assert_eq!(boids::flow_field_plugin::map(5, 0, 10, 100, 200), 150);
    assert_eq!(boids::flow_field_plugin::map(-5, 0, 10, 0, 100), -50);
    assert_eq!(boids::flow_field_plugin::map(1, 0, 3, 0, 10), 3);
}

#[test]
fn lookup_picks_the_cell_under_the_position() {
    let f = grid();
    assert_eq!(f.get_desired_velocity_for_screen_position(Some(v(7, 3))), v(2, 1));
    assert_eq!(f.get_desired_velocity_for_screen_position(Some(v(10, 5))), v(3, 2));
}

#[test]
fn lookup_clamps_to_the_grid() {
    let f = grid();
    assert_eq!(f.get_desired_velocity_for_screen_position(Some(v(-4, 100))), v(1, 2));
    assert_eq!(f.get_desired_velocity_for_screen_position(Some(v(100, -1))), v(3, 1));
}

#[test]
fn lookup_out_of_view_is_zero() {
    assert_eq!(grid().get_desired_velocity_for_screen_position(None), v(0, 0));
}

#[test]
fn flow_field_points_at_target() {
    let world = vec![vec![v(0, 0), v(0, 5)], vec![v(5, 0), v(5, 5)]];
    let field = compute_flow_field(v(10, 10), &world);
    assert_eq!(field, vec![vec![v(10, 10), v(10, 5)], vec![v(5, 10), v(5, 5)]]);
    assert!(compute_flow_field(v(1, 1), &Vec::new()).is_empty());
}

#[test]
fn seek_far_goes_full_speed() {
    assert_eq!(seek_steering(v(300_000, 0), v(0, 0), 240_000, 30_000), v(30_000, 0));
    assert_eq!(seek_steering(v(0, 300_000), v(0, 0), 240_000, 1_000_000), v(0, 240_000));
}

#[test]
fn seek_near_slows_down() {
    assert_eq!(SEEK_TARGET_RADIUS, 100_000);
    assert_eq!(seek_steering(v(50_000, 0), v(0, 0), 240_000, 1_000_000), v(120_000, 0));
    assert_eq!(seek_steering(v(0, 0), v(10, 0), 240_000, 1_000_000), v(-10, 0));
}

#[test]
fn seek_stage_adds_weighted_delta_to_acceleration() {
    let field = FlowField { field: vec![vec![v(300_000, 0)]], resolution: 5 };
    let mut boids = vec![
        Boid { position: v(0, 0), bundle: BoidBundle::default() },
        Boid { position: v(9, 9), bundle: BoidBundle::default() },
    ];
    let settings = FlowFieldSettings { seek_force_per_mille: 500 };
    seek_flow_field(&mut boids, &field, &vec![Some(v(2, 2)), None], &settings);
    assert_eq!(boids[0].bundle.acceleration.0, v(15_000, 0));
    assert_eq!(boids[1].bundle.acceleration.0, v(0, 0));
}

#[test]
fn plugin_defaults_and_recompute() {
    let mut plugin = boids::flow_field_plugin::FlowFieldPlugin::build();
    assert!(plugin.flow_field.field.is_empty());
    assert_eq!(plugin.flow_field.resolution, 5_000);
    assert_eq!(plugin.settings.seek_force_per_mille, 500);
    plugin.target = v(100, -100);
    plugin.recompute(&vec![vec![v(0, 0)], vec![v(100, 0)]]);
    assert_eq!(plugin.flow_field.field, vec![vec![v(100, -100)], vec![v(0, -100)]]);
    assert_eq!(plugin.flow_field.get_desired_velocity_for_screen_position(Some(v(6_000, 0))), v(0, -100));
}

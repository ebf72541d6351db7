//! A secondary steering source: a grid of desired velocities over the
//! viewport, each pointing from its cell toward a target, which agents seek.

use crate::boids_plugin::{
    Acceleration, Boid, BoidBundle, ACCUMULATOR_LIMIT, WEIGHTED_STEP_LIMIT, WEIGHT_LIMIT,
};
use crate::spatial::{point_in_bounds, COORD_LIMIT};
use crate::steering::{steer, steer_spec, SPEED_LIMIT};
use crate::vector::{
    difference, div_toward_zero, length_ceil, length_ceil_of, sub_spec, trunc_div, with_magnitude,
    with_magnitude_spec, Vec2i, UNITS_PER_PIXEL,
};
use vstd::prelude::*;

verus! {

/// Thousandths in one: the seek weight is given in thousandths.
pub const PER_MILLE: i64 = 1000;

/// Within this distance of the target, an agent seeks more slowly the closer it is.
pub const SEEK_TARGET_RADIUS: i64 = 100 * UNITS_PER_PIXEL;

/// Marks an agent that seeks the flow field.
#[derive(Clone, Copy, Debug, PartialEq, Eq, Structural)]
pub struct FlowFieldFollower;

/// Tuning of the flow-field steering: the weight of a seek delta, in thousandths.
#[derive(Clone, Copy, Debug, PartialEq, Eq, Structural)]
pub struct FlowFieldSettings {
    pub seek_force_per_mille: i64,
}

/// The grid of desired velocities: `field[x][y]` belongs to the cell whose
/// viewport corner is `(x * resolution, y * resolution)`.
pub struct FlowField {
    pub field: Vec<Vec<Vec2i>>,
    pub resolution: i64,
}

/// Re-maps `value` from the range `[start1, stop1]` onto `[start2, stop2]`,
/// rounding toward zero.
pub open spec fn map_spec(value: int, start1: int, stop1: int, start2: int, stop2: int) -> int {
    start2 + trunc_div((stop2 - start2) * (value - start1), stop1 - start1)
}

/// Largest absolute argument that [`map`] takes.
pub const MAP_LIMIT: i64 = 0x100_0000_0000;

/// Re-maps `value` from the range `[start1, stop1]` onto `[start2, stop2]`.
pub fn map(value: i64, start1: i64, stop1: i64, start2: i64, stop2: i64) -> (r: i64)
    requires
        -MAP_LIMIT <= value <= MAP_LIMIT,
        -MAP_LIMIT <= start1 < stop1 <= MAP_LIMIT,
        -MAP_LIMIT <= start2 <= MAP_LIMIT,
        -MAP_LIMIT <= stop2 <= MAP_LIMIT,
        i64::MIN <= map_spec(value as int, start1 as int, stop1 as int, start2 as int, stop2 as int)
            <= i64::MAX,
    ensures
        r == map_spec(value as int, start1 as int, stop1 as int, start2 as int, stop2 as int),
{
    let span = stop2 as i128 - start2 as i128;
    let offset = value as i128 - start1 as i128;
    proof {
        assert(-(4 * MAP_LIMIT * MAP_LIMIT) <= span * offset <= 4 * MAP_LIMIT * MAP_LIMIT) by (nonlinear_arith)
            requires
                -2 * MAP_LIMIT <= span <= 2 * MAP_LIMIT,
                -2 * MAP_LIMIT <= offset <= 2 * MAP_LIMIT,
        ;
    }
    let q = div_toward_zero(span * offset, stop1 as i128 - start1 as i128);
    (start2 as i128 + q) as i64
}

/// The cell index along one axis of length `len` for a viewport coordinate:
/// left of the grid is the first cell, past it the last.
pub open spec fn cell_index(coord: int, resolution: int, len: int) -> int {
    let c = if coord < 0 {
        0
    } else {
        coord / resolution
    };
    if c > len - 1 {
        len - 1
    } else {
        c
    }
}

fn cell_index_of(coord: i64, resolution: i64, len: usize) -> (r: usize)
    requires
        resolution > 0,
        len > 0,
    ensures
        r == cell_index(coord as int, resolution as int, len as int),
        r < len,
{
    let c: i64 = if coord < 0 {
        0
    } else {
        coord / resolution
    };
    if c as i128 > len as i128 - 1 {
        len - 1
    } else {
        c as usize
    }
}

/// The speed an agent seeks at, for a desired velocity of length `distance`:
/// full speed far away, slowing in proportion within `SEEK_TARGET_RADIUS`.
pub open spec fn arrival_speed(distance: int, max_speed: int) -> int {
    if distance < SEEK_TARGET_RADIUS {
        map_spec(distance, 0, SEEK_TARGET_RADIUS as int, 0, max_speed)
    } else {
        max_speed
    }
}

/// The seek steering delta, before its weight: the desired velocity scaled to
/// the arrival speed for its length, steered from `velocity`.
pub open spec fn seek_steering_spec(desired: Vec2i, velocity: Vec2i, max_speed: int, max_force: int) -> Vec2i {
    steer_spec(
        with_magnitude_spec(desired, arrival_speed(length_ceil(desired), max_speed)),
        velocity,
        max_force,
    )
}

/// The seek steering delta toward `desired` for an agent moving at `velocity`.
pub fn seek_steering(desired: Vec2i, velocity: Vec2i, max_speed: i64, max_force: i64) -> (r: Vec2i)
    requires
        desired.within(2 * COORD_LIMIT),
        velocity.within(SPEED_LIMIT as int),
        0 <= max_speed <= SPEED_LIMIT,
        0 <= max_force <= SPEED_LIMIT,
    ensures
        r == seek_steering_spec(desired, velocity, max_speed as int, max_force as int),
        r.norm_sq() <= max_force * max_force,
        r.within(max_force as int),
{
    let distance = length_ceil_of(desired);
    let speed = if distance < SEEK_TARGET_RADIUS {
        proof {
            assert(0 <= (max_speed as int) * (distance as int) <= (max_speed as int) * SEEK_TARGET_RADIUS)
                by (nonlinear_arith)
                requires
                    0 <= distance < SEEK_TARGET_RADIUS,
                    0 <= max_speed,
            ;
            lemma_arrival_speed_bound(distance as int, max_speed as int);
        }
        map(distance, 0, SEEK_TARGET_RADIUS, 0, max_speed)
    } else {
        max_speed
    };
    steer(with_magnitude(desired, speed), velocity, max_force)
}

proof fn lemma_arrival_speed_bound(distance: int, max_speed: int)
    requires
        0 <= distance < SEEK_TARGET_RADIUS,
        0 <= max_speed <= SPEED_LIMIT,
    ensures
        0 <= arrival_speed(distance, max_speed) <= max_speed,
{
    let p = max_speed * distance;
    let r = SEEK_TARGET_RADIUS as int;
    assert(0 <= p <= max_speed * r) by (nonlinear_arith)
        requires
            0 <= distance < r,
            0 <= max_speed,
            p == max_speed * distance,
    ;
    vstd::arithmetic::div_mod::lemma_fundamental_div_mod(p, r);
    vstd::arithmetic::div_mod::lemma_mod_pos_bound(p, r);
    let q = p / r;
    assert(0 <= q <= max_speed) by (nonlinear_arith)
        requires
            p == r * q + p % r,
            0 <= p % r < r,
            0 <= p <= max_speed * r,
            r > 0,
    ;
}

impl FlowField {
    /// The grid is rectangular and not empty, the cells are in bounds, and
    /// the resolution is positive.
    pub open spec fn wf(&self) -> bool {
        &&& self.resolution > 0
        &&& self.field@.len() > 0
        &&& self.field@[0]@.len() > 0
        &&& forall|x: int|
            0 <= x < self.field@.len() ==> (#[trigger] self.field@[x])@.len() == self.field@[0]@.len()
        &&& forall|x: int, y: int|
            0 <= x < self.field@.len() && 0 <= y < self.field@[x]@.len() ==> (
            #[trigger] self.field@[x]@[y]).within(2 * COORD_LIMIT)
    }

    /// The desired velocity of the cell under a viewport position, or zero
    /// for a position that is not in view.
    pub open spec fn desired_at_spec(&self, screen_position: Option<Vec2i>) -> Vec2i {
        match screen_position {
            None => Vec2i { x: 0, y: 0 },
            Some(s) => self.field@[cell_index(
                s.x as int,
                self.resolution as int,
                self.field@.len() as int,
            )]@[cell_index(s.y as int, self.resolution as int, self.field@[0]@.len() as int)],
        }
    }

    /// The desired velocity for an agent at `screen_position` in the viewport
    /// (`None` when it is out of view, which gives zero).
    pub fn get_desired_velocity_for_screen_position(&self, screen_position: Option<Vec2i>) -> (r:
        Vec2i)
        requires
            self.wf(),
        ensures
            r == self.desired_at_spec(screen_position),
            r.within(2 * COORD_LIMIT),
    {
        match screen_position {
            None => Vec2i { x: 0, y: 0 },
            Some(s) => {
                let x = cell_index_of(s.x, self.resolution, self.field.len());
                let y = cell_index_of(s.y, self.resolution, self.field[0].len());
                assert(self.field@[x as int]@.len() == self.field@[0]@.len());
                self.field[x][y]
            },
        }
    }
}

/// The flow field toward `target`: each cell holds `target` minus the world
/// position of its viewport corner, given in `cell_world_positions`.
pub fn compute_flow_field(target: Vec2i, cell_world_positions: &Vec<Vec<Vec2i>>) -> (r: Vec<
    Vec<Vec2i>,
>)
    requires
        point_in_bounds(target),
        forall|x: int, y: int|
            0 <= x < cell_world_positions@.len() && 0 <= y < cell_world_positions@[x]@.len()
                ==> point_in_bounds(#[trigger] cell_world_positions@[x]@[y]),
    ensures
        r@.len() == cell_world_positions@.len(),
        forall|x: int|
            0 <= x < r@.len() ==> (#[trigger] r@[x])@.len() == cell_world_positions@[x]@.len(),
        forall|x: int, y: int|
            0 <= x < r@.len() && 0 <= y < r@[x]@.len() ==> #[trigger] r@[x]@[y] == sub_spec(
                target,
                cell_world_positions@[x]@[y],
            ),
{
    let mut field: Vec<Vec<Vec2i>> = Vec::new();
    let mut x: usize = 0;
    while x < cell_world_positions.len()
        invariant
            x <= cell_world_positions@.len(),
            field@.len() == x,
            point_in_bounds(target),
            forall|i: int, j: int|
                0 <= i < cell_world_positions@.len() && 0 <= j < cell_world_positions@[i]@.len()
                    ==> point_in_bounds(#[trigger] cell_world_positions@[i]@[j]),
            forall|i: int| 0 <= i < x ==> (#[trigger] field@[i])@.len() == cell_world_positions@[i]@.len(),
            forall|i: int, j: int|
                0 <= i < x && 0 <= j < field@[i]@.len() ==> #[trigger] field@[i]@[j] == sub_spec(
                    target,
                    cell_world_positions@[i]@[j],
                ),
        decreases cell_world_positions@.len() - x,
    {
        let column = &cell_world_positions[x];
        let mut out: Vec<Vec2i> = Vec::new();
        let mut y: usize = 0;
        while y < column.len()
            invariant
                y <= column@.len(),
                out@.len() == y,
                column == cell_world_positions@[x as int],
                x < cell_world_positions@.len(),
                point_in_bounds(target),
                forall|i: int, j: int|
                    0 <= i < cell_world_positions@.len() && 0 <= j < cell_world_positions@[i]@.len()
                        ==> point_in_bounds(#[trigger] cell_world_positions@[i]@[j]),
                forall|j: int| 0 <= j < y ==> #[trigger] out@[j] == sub_spec(target, column@[j]),
            decreases column@.len() - y,
        {
            assert(point_in_bounds(cell_world_positions@[x as int]@[y as int]));
            out.push(difference(target, column[y]));
            y = y + 1;
        }
        field.push(out);
        x = x + 1;
    }
    field
}

/// The agent after one seek pass: its acceleration grows by the seek delta
/// toward `desired`, weighted in thousandths.
pub open spec fn sought(b: Boid, desired: Vec2i, seek_force_per_mille: int) -> Boid {
    let s = seek_steering_spec(
        desired,
        b.bundle.velocity.0,
        b.bundle.max_speed.0 as int,
        b.bundle.max_force.0 as int,
    );
    let a = b.bundle.acceleration.0;
    Boid {
        bundle: BoidBundle {
            acceleration: Acceleration(
                Vec2i {
                    x: (a.x + trunc_div(s.x * seek_force_per_mille, PER_MILLE as int)) as i64,
                    y: (a.y + trunc_div(s.y * seek_force_per_mille, PER_MILLE as int)) as i64,
                },
            ),
            ..b.bundle
        },
        ..b
    }
}

impl FlowFieldSettings {
    /// The weight lies within the bound that keeps a weighted delta small.
    pub open spec fn wf(self) -> bool {
        -1000 * WEIGHT_LIMIT <= self.seek_force_per_mille <= 1000 * WEIGHT_LIMIT
    }
}

/// Adds to every agent's acceleration its weighted seek delta toward the
/// flow field's desired velocity under it; `screen_positions[i]` is where
/// agent `i` appears in the viewport, or `None` when it is out of view.
pub fn seek_flow_field(
    boids: &mut Vec<Boid>,
    flow_field: &FlowField,
    screen_positions: &Vec<Option<Vec2i>>,
    settings: &FlowFieldSettings,
)
    requires
        flow_field.wf(),
        settings.wf(),
        screen_positions@.len() == old(boids)@.len(),
        forall|i: int|
            0 <= i < old(boids)@.len() ==> {
                &&& (#[trigger] old(boids)@[i]).limits_ok()
                &&& old(boids)@[i].bundle.acceleration.0.within(ACCUMULATOR_LIMIT - WEIGHTED_STEP_LIMIT)
            },
    ensures
        final(boids)@.len() == old(boids)@.len(),
        forall|i: int|
            0 <= i < old(boids)@.len() ==> #[trigger] final(boids)@[i] == sought(
                old(boids)@[i],
                flow_field.desired_at_spec(screen_positions@[i]),
                settings.seek_force_per_mille as int,
            ),
{
    let ghost start = boids@;
    let mut i: usize = 0;
    while i < boids.len()
        invariant
            boids@.len() == start.len(),
            i <= start.len(),
            flow_field.wf(),
            settings.wf(),
            screen_positions@.len() == start.len(),
            forall|j: int|
                0 <= j < start.len() ==> {
                    &&& (#[trigger] start[j]).limits_ok()
                    &&& start[j].bundle.acceleration.0.within(ACCUMULATOR_LIMIT - WEIGHTED_STEP_LIMIT)
                },
            forall|j: int|
                0 <= j < i ==> #[trigger] boids@[j] == sought(
                    start[j],
                    flow_field.desired_at_spec(screen_positions@[j]),
                    settings.seek_force_per_mille as int,
                ),
            forall|j: int| i <= j < start.len() ==> #[trigger] boids@[j] == start[j],
        decreases start.len() - i,
    {
        let b = boids[i];
        assert(start[i as int].limits_ok());
        proof {
            crate::vector::lemma_norm_bounds_components(b.bundle.velocity.0, b.bundle.max_speed.0 as int);
        }
        let desired = flow_field.get_desired_velocity_for_screen_position(screen_positions[i]);
        let s = seek_steering(desired, b.bundle.velocity.0, b.bundle.max_speed.0, b.bundle.max_force.0);
        let k = settings.seek_force_per_mille;
        proof {
            lemma_seek_weight_bound(s.x as int, k as int, b.bundle.max_force.0 as int);
            lemma_seek_weight_bound(s.y as int, k as int, b.bundle.max_force.0 as int);
        }
        let dx = div_toward_zero(s.x as i128 * k as i128, PER_MILLE as i128);
        let dy = div_toward_zero(s.y as i128 * k as i128, PER_MILLE as i128);
        let a = b.bundle.acceleration.0;
        let acceleration = Vec2i { x: a.x + dx as i64, y: a.y + dy as i64 };
        boids.set(i, Boid { bundle: BoidBundle { acceleration: Acceleration(acceleration), ..b.bundle }, ..b });
        i = i + 1;
    }
}

/// A seek delta weighted in thousandths moves an accumulator by at most
/// `WEIGHTED_STEP_LIMIT`.
proof fn lemma_seek_weight_bound(c: int, k: int, m: int)
    requires
        -m <= c <= m,
        0 <= m <= SPEED_LIMIT,
        -1000 * WEIGHT_LIMIT <= k <= 1000 * WEIGHT_LIMIT,
    ensures
        -1000 * WEIGHTED_STEP_LIMIT <= c * k <= 1000 * WEIGHTED_STEP_LIMIT,
        -WEIGHTED_STEP_LIMIT <= trunc_div(c * k, PER_MILLE as int) <= WEIGHTED_STEP_LIMIT,
{
    assert(-1000 * (SPEED_LIMIT * WEIGHT_LIMIT) <= c * k <= 1000 * (SPEED_LIMIT * WEIGHT_LIMIT)) by (nonlinear_arith)
        requires
            -m <= c <= m,
            0 <= m <= SPEED_LIMIT,
            -1000 * WEIGHT_LIMIT <= k <= 1000 * WEIGHT_LIMIT,
    ;
}

/// Default size of a flow-field cell: 5 pixels.
pub const DEFAULT_RESOLUTION: i64 = 5 * UNITS_PER_PIXEL;

/// Default seek weight: one half.
pub const DEFAULT_SEEK_FORCE_PER_MILLE: i64 = 500;

/// The flow-field steering source: the grid, its tuning, and the target the
/// grid points at.
pub struct FlowFieldPlugin {
    pub flow_field: FlowField,
    pub settings: FlowFieldSettings,
    pub target: Vec2i,
}

impl FlowFieldPlugin {
    /// No grid yet, the target at the origin, and the default tuning.
    pub fn build() -> (r: FlowFieldPlugin)
        ensures
            r.flow_field.field@.len() == 0,
            r.flow_field.resolution == DEFAULT_RESOLUTION,
            r.settings.seek_force_per_mille == DEFAULT_SEEK_FORCE_PER_MILLE,
            r.settings.wf(),
            r.target == (Vec2i { x: 0, y: 0 }),
    {
        FlowFieldPlugin {
            flow_field: FlowField { field: Vec::new(), resolution: DEFAULT_RESOLUTION },
            settings: FlowFieldSettings { seek_force_per_mille: DEFAULT_SEEK_FORCE_PER_MILLE },
            target: Vec2i { x: 0, y: 0 },
        }
    }

    /// Recomputes the grid toward the current target; `cell_world_positions`
    /// gives the world position of each cell's viewport corner.
    pub fn recompute(&mut self, cell_world_positions: &Vec<Vec<Vec2i>>)
        requires
            point_in_bounds(old(self).target),
            forall|x: int, y: int|
                0 <= x < cell_world_positions@.len() && 0 <= y < cell_world_positions@[x]@.len()
                    ==> point_in_bounds(#[trigger] cell_world_positions@[x]@[y]),
        ensures
            final(self).target == old(self).target,
            final(self).settings == old(self).settings,
            final(self).flow_field.resolution == old(self).flow_field.resolution,
            final(self).flow_field.field@.len() == cell_world_positions@.len(),
            forall|x: int|
                0 <= x < cell_world_positions@.len() ==> (#[trigger] final(self).flow_field.field@[x])@.len()
                    == cell_world_positions@[x]@.len(),
            forall|x: int, y: int|
                0 <= x < cell_world_positions@.len() && 0 <= y < cell_world_positions@[x]@.len()
                    ==> #[trigger] final(self).flow_field.field@[x]@[y] == sub_spec(
                    old(self).target,
                    cell_world_positions@[x]@[y],
                ),
    {
        self.flow_field.field = compute_flow_field(self.target, cell_world_positions);
    }
}

} // verus!

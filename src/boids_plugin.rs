//! The agents, their per-agent update rules, and the stages of a tick that
//! apply those rules to every agent.

use crate::spatial::{
    answers_within, lemma_found_in_bounds, point_in_bounds, tree_items, KdTreeItem, SpatialTree,
    COORD_LIMIT,
};
use crate::steering::{
    alignment_and_cohesion_deltas, alignment_and_cohesion_spec,
    lemma_alignment_cohesion_order_independent, lemma_separation_order_independent,
    separation_delta, separation_delta_spec, velocities_in_bounds, SPEED_LIMIT,
};
use crate::vector::{clamp_magnitude, clamp_magnitude_spec, trunc_div, Vec2i, UNITS_PER_PIXEL};
use vstd::multiset::Multiset;
use vstd::prelude::*;

verus! {

/// Largest absolute force multiplier.
pub const WEIGHT_LIMIT: i64 = 0x100;

/// Largest absolute component of a force accumulator that the integrator takes.
pub const ACCUMULATOR_LIMIT: i64 = 0x100_0000_0000;

/// Largest time step, in milliseconds.
pub const DT_LIMIT: i64 = 0x1_0000;

/// Largest absolute position coordinate that a position update takes.
pub const POSITION_LIMIT: i64 = 0x100_0000_0000;

/// Milliseconds in one second: velocities are per second, time steps in milliseconds.
pub const MILLIS_PER_SECOND: i64 = 1000;

/// An agent's current velocity, in units per second.
#[derive(Clone, Copy, Debug, PartialEq, Eq, Structural)]
pub struct Velocity(pub Vec2i);

/// Accumulated separation steering, weighted.
#[derive(Clone, Copy, Debug, PartialEq, Eq, Structural)]
pub struct SeparationForce(pub Vec2i);

/// Accumulated alignment steering, weighted.
#[derive(Clone, Copy, Debug, PartialEq, Eq, Structural)]
pub struct AligmentForce(pub Vec2i);

/// Accumulated cohesion steering, weighted.
#[derive(Clone, Copy, Debug, PartialEq, Eq, Structural)]
pub struct CohesionForce(pub Vec2i);

/// Accumulated acceleration from any other steering source.
#[derive(Clone, Copy, Debug, PartialEq, Eq, Structural)]
pub struct Acceleration(pub Vec2i);

/// The largest speed an agent may reach.
#[derive(Clone, Copy, Debug, PartialEq, Eq, Structural)]
pub struct MaxSpeed(pub i64);

/// The largest magnitude of one steering delta.
#[derive(Clone, Copy, Debug, PartialEq, Eq, Structural)]
pub struct MaxForce(pub i64);

/// Marks an agent that the spatial index tracks.
#[derive(Clone, Copy, Debug, PartialEq, Eq, Structural)]
pub struct TrackedByKdTree;

/// The kinematic state of one agent, apart from its position.
#[derive(Clone, Copy, Debug, PartialEq, Eq, Structural)]
pub struct BoidBundle {
    pub velocity: Velocity,
    pub aligment_force: AligmentForce,
    pub separation_force: SeparationForce,
    pub cohesion_force: CohesionForce,
    pub acceleration: Acceleration,
    pub max_speed: MaxSpeed,
    pub max_force: MaxForce,
    pub tracked_by_kd_tree: TrackedByKdTree,
}

/// Default maximum speed: 240 pixels per second.
pub const DEFAULT_MAX_SPEED: i64 = 4 * 60 * UNITS_PER_PIXEL;

/// Default maximum force: 30 pixels per second squared.
pub const DEFAULT_MAX_FORCE: i64 = 30 * UNITS_PER_PIXEL;

impl Default for BoidBundle {
    /// At rest, with no accumulated force, and the default limits.
    fn default() -> (r: BoidBundle)
        ensures
            r.velocity.0 == (Vec2i { x: 0, y: 0 }),
            r.aligment_force.0 == (Vec2i { x: 0, y: 0 }),
            r.separation_force.0 == (Vec2i { x: 0, y: 0 }),
            r.cohesion_force.0 == (Vec2i { x: 0, y: 0 }),
            r.acceleration.0 == (Vec2i { x: 0, y: 0 }),
            r.max_speed.0 == DEFAULT_MAX_SPEED,
            r.max_force.0 == DEFAULT_MAX_FORCE,
    {
        let zero = Vec2i { x: 0, y: 0 };
        BoidBundle {
            velocity: Velocity(zero),
            aligment_force: AligmentForce(zero),
            separation_force: SeparationForce(zero),
            cohesion_force: CohesionForce(zero),
            acceleration: Acceleration(zero),
            max_speed: MaxSpeed(DEFAULT_MAX_SPEED),
            max_force: MaxForce(DEFAULT_MAX_FORCE),
            tracked_by_kd_tree: TrackedByKdTree,
        }
    }
}

/// One agent: where it is, and the rest of its state.
#[derive(Clone, Copy, Debug, PartialEq, Eq, Structural)]
pub struct Boid {
    pub position: Vec2i,
    pub bundle: BoidBundle,
}

impl Boid {
    /// The limits are in range and the velocity is no faster than `max_speed`.
    pub open spec fn limits_ok(self) -> bool {
        &&& 0 <= self.bundle.max_speed.0 <= SPEED_LIMIT
        &&& 0 <= self.bundle.max_force.0 <= SPEED_LIMIT
        &&& self.bundle.velocity.0.norm_sq() <= self.bundle.max_speed.0 * self.bundle.max_speed.0
    }

    /// The state between ticks: limits in range, separation, alignment and
    /// cohesion consumed, and other acceleration within the integrator's bound.
    pub open spec fn wf(self) -> bool {
        &&& self.limits_ok()
        &&& self.bundle.separation_force.0 == Vec2i { x: 0, y: 0 }
        &&& self.bundle.aligment_force.0 == Vec2i { x: 0, y: 0 }
        &&& self.bundle.cohesion_force.0 == Vec2i { x: 0, y: 0 }
        &&& self.bundle.acceleration.0.within(ACCUMULATOR_LIMIT as int)
    }

    /// Whether the agent is in its between-ticks state, as a new agent must be.
    pub fn is_well_formed(&self) -> (r: bool)
        ensures
            r == self.wf(),
    {
        let b = &self.bundle;
        let max_speed = b.max_speed.0;
        if !(0 <= max_speed && max_speed <= SPEED_LIMIT && 0 <= b.max_force.0 && b.max_force.0
            <= SPEED_LIMIT) {
            return false;
        }
        let v = b.velocity.0;
        if !(-SPEED_LIMIT <= v.x && v.x <= SPEED_LIMIT && -SPEED_LIMIT <= v.y && v.y <= SPEED_LIMIT) {
            proof {
                if self.wf() {
                    crate::vector::lemma_norm_bounds_components(v, max_speed as int);
                }
            }
            return false;
        }
        let a = b.acceleration.0;
        let zero = Vec2i { x: 0, y: 0 };
        proof {
            assert(0 <= max_speed * max_speed <= SPEED_LIMIT * SPEED_LIMIT) by (nonlinear_arith)
                requires
                    0 <= max_speed <= SPEED_LIMIT,
            ;
        }
        crate::vector::norm_sq(v) <= max_speed as i128 * max_speed as i128
            && b.separation_force.0 == zero && b.aligment_force.0 == zero && b.cohesion_force.0 == zero
            && -ACCUMULATOR_LIMIT <= a.x && a.x <= ACCUMULATOR_LIMIT && -ACCUMULATOR_LIMIT <= a.y
            && a.y <= ACCUMULATOR_LIMIT
    }
}

/// A coordinate after the toroidal wrap on an axis of half extent `half`.
pub open spec fn wrap_axis(c: int, half: int) -> int {
    if c > half {
        -half
    } else if c < -half {
        half
    } else {
        c
    }
}

/// A position after the toroidal wrap: each axis independently.
pub open spec fn wrap_spec(p: Vec2i, half_width: int, half_height: int) -> Vec2i {
    Vec2i { x: wrap_axis(p.x as int, half_width) as i64, y: wrap_axis(p.y as int, half_height) as i64 }
}

/// The toroidal wrap of one position: past an edge of the viewport, it
/// re-enters at the opposite edge.
pub fn wrap_position(p: Vec2i, half_width: i64, half_height: i64) -> (r: Vec2i)
    requires
        half_width >= 0,
        half_height >= 0,
    ensures
        r == wrap_spec(p, half_width as int, half_height as int),
        -half_width <= r.x <= half_width,
        -half_height <= r.y <= half_height,
{
    let x = if p.x > half_width {
        -half_width
    } else if p.x < -half_width {
        half_width
    } else {
        p.x
    };
    let y = if p.y > half_height {
        -half_height
    } else if p.y < -half_height {
        half_height
    } else {
        p.y
    };
    Vec2i { x, y }
}

/// `v + a * dt / 1000`, each component rounded toward zero.
pub open spec fn advance_spec(v: Vec2i, a: Vec2i, dt_ms: int) -> Vec2i {
    Vec2i {
        x: (v.x + trunc_div(a.x * dt_ms, MILLIS_PER_SECOND as int)) as i64,
        y: (v.y + trunc_div(a.y * dt_ms, MILLIS_PER_SECOND as int)) as i64,
    }
}

/// The sum of an agent's four accumulators.
pub open spec fn total_acceleration(b: BoidBundle) -> Vec2i {
    Vec2i {
        x: (b.acceleration.0.x + b.aligment_force.0.x + b.separation_force.0.x
            + b.cohesion_force.0.x) as i64,
        y: (b.acceleration.0.y + b.aligment_force.0.y + b.separation_force.0.y
            + b.cohesion_force.0.y) as i64,
    }
}

/// The accumulators that the integrator takes lie within its bound.
pub open spec fn accumulators_within(b: BoidBundle, limit: int) -> bool {
    &&& b.acceleration.0.within(limit)
    &&& b.aligment_force.0.within(limit)
    &&& b.separation_force.0.within(limit)
    &&& b.cohesion_force.0.within(limit)
}

/// The agent after integration: velocity advanced by the summed
/// accumulators over `dt_ms` and clamped to `max_speed`, every accumulator
/// zeroed, the rest unchanged.
pub open spec fn integrate_spec(b: BoidBundle, dt_ms: int) -> BoidBundle {
    let zero = Vec2i { x: 0, y: 0 };
    BoidBundle {
        velocity: Velocity(
            clamp_magnitude_spec(
                advance_spec(b.velocity.0, total_acceleration(b), dt_ms),
                b.max_speed.0 as int,
            ),
        ),
        aligment_force: AligmentForce(zero),
        separation_force: SeparationForce(zero),
        cohesion_force: CohesionForce(zero),
        acceleration: Acceleration(zero),
        ..b
    }
}

/// `v + a * dt_ms / 1000` without overflow, for the bounds the integrator keeps.
fn advance(v: Vec2i, a: Vec2i, dt_ms: i64, a_limit: i64) -> (r: Vec2i)
    requires
        v.within(ACCUMULATOR_LIMIT as int),
        a.within(a_limit as int),
        0 < a_limit <= 4 * ACCUMULATOR_LIMIT,
        0 <= dt_ms <= DT_LIMIT,
    ensures
        r == advance_spec(v, a, dt_ms as int),
        r.within(2 * 4 * ACCUMULATOR_LIMIT * DT_LIMIT),
{
    proof {
        lemma_scaled_bound(a.x as int, dt_ms as int, a_limit as int);
        lemma_scaled_bound(a.y as int, dt_ms as int, a_limit as int);
        lemma_product_limit(a_limit as int, dt_ms as int);
    }
    let dx = crate::vector::div_toward_zero(a.x as i128 * dt_ms as i128, MILLIS_PER_SECOND as i128);
    let dy = crate::vector::div_toward_zero(a.y as i128 * dt_ms as i128, MILLIS_PER_SECOND as i128);
    proof {
        lemma_small_quotient(a.x as int * dt_ms as int, 4 * ACCUMULATOR_LIMIT * DT_LIMIT);
        lemma_small_quotient(a.y as int * dt_ms as int, 4 * ACCUMULATOR_LIMIT * DT_LIMIT);
    }
    Vec2i { x: v.x + dx as i64, y: v.y + dy as i64 }
}

proof fn lemma_scaled_bound(a: int, t: int, k: int)
    requires
        -k <= a <= k,
        0 <= t,
    ensures
        -(k * t) <= a * t <= k * t,
{
    assert(-(k * t) <= a * t <= k * t) by (nonlinear_arith)
        requires
            -k <= a <= k,
            0 <= t,
    ;
}

proof fn lemma_product_limit(k: int, t: int)
    requires
        0 < k <= 4 * ACCUMULATOR_LIMIT,
        0 <= t <= DT_LIMIT,
    ensures
        k * t <= 4 * ACCUMULATOR_LIMIT * DT_LIMIT,
{
    assert(k * t <= (4 * ACCUMULATOR_LIMIT) * DT_LIMIT) by (nonlinear_arith)
        requires
            0 < k <= 4 * ACCUMULATOR_LIMIT,
            0 <= t <= DT_LIMIT,
    ;
}

/// Dividing by a thousand, toward zero, keeps a value's bound.
proof fn lemma_small_quotient(a: int, k: int)
    requires
        -k <= a <= k,
    ensures
        -k <= trunc_div(a, MILLIS_PER_SECOND as int) <= k,
{
}

/// One agent's integration step.
pub fn integrate(b: BoidBundle, dt_ms: i64) -> (r: BoidBundle)
    requires
        accumulators_within(b, ACCUMULATOR_LIMIT as int),
        b.velocity.0.within(SPEED_LIMIT as int),
        0 <= b.max_speed.0 <= SPEED_LIMIT,
        0 <= dt_ms <= DT_LIMIT,
    ensures
        r == integrate_spec(b, dt_ms as int),
        r.velocity.0.norm_sq() <= r.max_speed.0 * r.max_speed.0,
{
    let acc = Vec2i {
        x: b.acceleration.0.x + b.aligment_force.0.x + b.separation_force.0.x
            + b.cohesion_force.0.x,
        y: b.acceleration.0.y + b.aligment_force.0.y + b.separation_force.0.y
            + b.cohesion_force.0.y,
    };
    let v = advance(b.velocity.0, acc, dt_ms, 4 * ACCUMULATOR_LIMIT);
    let zero = Vec2i { x: 0, y: 0 };
    BoidBundle {
        velocity: Velocity(clamp_magnitude(v, b.max_speed.0)),
        aligment_force: AligmentForce(zero),
        separation_force: SeparationForce(zero),
        cohesion_force: CohesionForce(zero),
        acceleration: Acceleration(zero),
        ..b
    }
}

/// One agent's position after moving at `velocity` for `dt_ms` milliseconds.
pub fn update_position_of(position: Vec2i, velocity: Vec2i, dt_ms: i64) -> (r: Vec2i)
    requires
        position.within(POSITION_LIMIT as int),
        velocity.within(SPEED_LIMIT as int),
        0 <= dt_ms <= DT_LIMIT,
    ensures
        r == advance_spec(position, velocity, dt_ms as int),
{
    advance(position, velocity, dt_ms, SPEED_LIMIT)
}

/// The weights of the three steering rules.
#[derive(Clone, Copy, Debug, PartialEq, Eq, Structural)]
pub struct ForceMultipliers {
    pub separation: i64,
    pub alignment: i64,
    pub cohesion: i64,
}

impl ForceMultipliers {
    /// Each weight lies in `[-WEIGHT_LIMIT, WEIGHT_LIMIT]`.
    pub open spec fn wf(self) -> bool {
        &&& -WEIGHT_LIMIT <= self.separation <= WEIGHT_LIMIT
        &&& -WEIGHT_LIMIT <= self.alignment <= WEIGHT_LIMIT
        &&& -WEIGHT_LIMIT <= self.cohesion <= WEIGHT_LIMIT
    }
}

/// How far one weighted steering delta can move an accumulator component.
pub const WEIGHTED_STEP_LIMIT: i64 = SPEED_LIMIT * WEIGHT_LIMIT;

/// `acc` plus `delta` times `weight`; `acc` itself when there is no delta.
pub open spec fn add_weighted_spec(acc: Vec2i, delta: Option<Vec2i>, weight: int) -> Vec2i {
    match delta {
        None => acc,
        Some(d) => Vec2i { x: (acc.x + d.x * weight) as i64, y: (acc.y + d.y * weight) as i64 },
    }
}

/// `acc + delta * weight`, or `acc` when there is no delta.
pub fn add_weighted(acc: Vec2i, delta: Option<Vec2i>, weight: i64, max_force: i64) -> (r: Vec2i)
    requires
        acc.within(ACCUMULATOR_LIMIT - WEIGHTED_STEP_LIMIT),
        delta matches Some(d) ==> d.within(max_force as int),
        0 <= max_force <= SPEED_LIMIT,
        -WEIGHT_LIMIT <= weight <= WEIGHT_LIMIT,
    ensures
        r == add_weighted_spec(acc, delta, weight as int),
        r.within(ACCUMULATOR_LIMIT as int),
{
    match delta {
        None => acc,
        Some(d) => {
            proof {
                lemma_weighted_bound(d.x as int, weight as int, max_force as int);
                lemma_weighted_bound(d.y as int, weight as int, max_force as int);
            }
            Vec2i { x: acc.x + d.x * weight, y: acc.y + d.y * weight }
        },
    }
}

proof fn lemma_weighted_bound(c: int, w: int, m: int)
    requires
        -m <= c <= m,
        0 <= m <= SPEED_LIMIT,
        -WEIGHT_LIMIT <= w <= WEIGHT_LIMIT,
    ensures
        -WEIGHTED_STEP_LIMIT <= c * w <= WEIGHTED_STEP_LIMIT,
{
    assert(-(SPEED_LIMIT * WEIGHT_LIMIT) <= c * w <= SPEED_LIMIT * WEIGHT_LIMIT) by (nonlinear_arith)
        requires
            -m <= c <= m,
            0 <= m <= SPEED_LIMIT,
            -WEIGHT_LIMIT <= w <= WEIGHT_LIMIT,
    ;
}

/// What the spatial index is built from: each agent's position, with its
/// index as handle.
pub open spec fn snapshot(boids: Seq<Boid>) -> Seq<KdTreeItem> {
    Seq::new(boids.len(), |i: int| KdTreeItem { point: boids[i].position, entity: i as usize })
}

/// Every agent's velocity, by index.
pub open spec fn velocities_of(boids: Seq<Boid>) -> Seq<Vec2i> {
    Seq::new(boids.len(), |i: int| boids[i].bundle.velocity.0)
}

/// Every agent stands within the index's coordinate bounds.
pub open spec fn positions_in_bounds(boids: Seq<Boid>) -> bool {
    forall|i: int| 0 <= i < boids.len() ==> point_in_bounds(#[trigger] boids[i].position)
}

/// Every agent's limits are in range and its velocity within them.
pub open spec fn all_limits_ok(boids: Seq<Boid>) -> bool {
    forall|i: int| 0 <= i < boids.len() ==> (#[trigger] boids[i]).limits_ok()
}

proof fn lemma_limits_bound_velocity(b: Boid)
    requires
        b.limits_ok(),
    ensures
        b.bundle.velocity.0.within(SPEED_LIMIT as int),
{
    crate::vector::lemma_norm_bounds_components(b.bundle.velocity.0, b.bundle.max_speed.0 as int);
}

/// `after` is every agent of `before` wrapped into the viewport of half
/// extents `half_width` by `half_height`.
pub open spec fn is_wrap_pass(
    before: Seq<Boid>,
    after: Seq<Boid>,
    half_width: int,
    half_height: int,
) -> bool {
    &&& after.len() == before.len()
    &&& forall|i: int|
        0 <= i < before.len() ==> #[trigger] after[i] == (Boid {
            position: wrap_spec(before[i].position, half_width, half_height),
            ..before[i]
        })
}

/// Wraps every agent's position into the viewport of half extents
/// `half_width` by `half_height`; nothing else changes.
pub fn wrap_around_screen(boids: &mut Vec<Boid>, half_width: i64, half_height: i64)
    requires
        half_width >= 0,
        half_height >= 0,
    ensures
        is_wrap_pass(old(boids)@, final(boids)@, half_width as int, half_height as int),
{
    let ghost start = boids@;
    let mut i: usize = 0;
    while i < boids.len()
        invariant
            boids@.len() == start.len(),
            i <= start.len(),
            half_width >= 0,
            half_height >= 0,
            forall|j: int|
                0 <= j < i ==> #[trigger] boids@[j] == (Boid {
                    position: wrap_spec(start[j].position, half_width as int, half_height as int),
                    ..start[j]
                }),
            forall|j: int| i <= j < start.len() ==> #[trigger] boids@[j] == start[j],
        decreases start.len() - i,
    {
        let b = boids[i];
        let position = wrap_position(b.position, half_width, half_height);
        boids.set(i, Boid { position, ..b });
        i = i + 1;
    }
}

/// Rebuilds the spatial index from the agents' current positions.
pub fn update_spatial_tree(boids: &Vec<Boid>, kd_tree: &mut SpatialTree)
    requires
        positions_in_bounds(boids@),
    ensures
        tree_items(*final(kd_tree)) == snapshot(boids@).to_multiset(),
        final(kd_tree).wf(),
{
    let mut raw_vec: Vec<KdTreeItem> = Vec::with_capacity(boids.len());
    let mut i: usize = 0;
    while i < boids.len()
        invariant
            i <= boids@.len(),
            positions_in_bounds(boids@),
            raw_vec@ == snapshot(boids@).take(i as int),
        decreases boids@.len() - i,
    {
        raw_vec.push(KdTreeItem { point: boids[i].position, entity: i });
        i = i + 1;
        proof {
            assert(raw_vec@ =~= snapshot(boids@).take(i as int));
        }
    }
    proof {
        assert(raw_vec@ =~= snapshot(boids@));
    }
    *kd_tree = SpatialTree::build(raw_vec);
}

/// The agent's separation accumulator after one separation pass with the
/// neighbors `neighbors`.
pub open spec fn separated(b: Boid, neighbors: Seq<KdTreeItem>, weight: int) -> Boid {
    Boid {
        bundle: BoidBundle {
            separation_force: SeparationForce(
                add_weighted_spec(
                    b.bundle.separation_force.0,
                    separation_delta_spec(
                        b.position,
                        b.bundle.velocity.0,
                        b.bundle.max_speed.0 as int,
                        b.bundle.max_force.0 as int,
                        neighbors,
                    ),
                    weight,
                ),
            ),
            ..b.bundle
        },
        ..b
    }
}

/// `after` is `before` after one separation pass with the neighbors that a
/// query of `items` within `radius` finds, in whatever order it hands them
/// out (the order does not change the result).
pub open spec fn is_separation_step(
    before: Boid,
    after: Boid,
    items: Multiset<KdTreeItem>,
    radius: int,
    weight: int,
) -> bool {
    &&& exists|neighbors: Seq<KdTreeItem>| #[trigger]
        answers_within(neighbors, items, before.position, radius)
    &&& forall|neighbors: Seq<KdTreeItem>| #[trigger]
        answers_within(neighbors, items, before.position, radius) ==> after == separated(
            before,
            neighbors,
            weight,
        )
}

/// `after` is every agent of `before` after one separation pass.
pub open spec fn is_separation_pass(
    before: Seq<Boid>,
    after: Seq<Boid>,
    items: Multiset<KdTreeItem>,
    radius: int,
    weight: int,
) -> bool {
    &&& after.len() == before.len()
    &&& forall|i: int|
        0 <= i < before.len() ==> is_separation_step(before[i], #[trigger] after[i], items, radius, weight)
}

/// What a force pass asks of every agent: a position in the index's bounds
/// and limits in range.
pub open spec fn ready_for_forces(boids: Seq<Boid>) -> bool {
    forall|i: int|
        0 <= i < boids.len() ==> {
            &&& point_in_bounds(#[trigger] boids[i].position)
            &&& boids[i].limits_ok()
        }
}

/// Every separation accumulator has room for one more weighted delta.
pub open spec fn separation_room(boids: Seq<Boid>) -> bool {
    forall|i: int|
        0 <= i < boids.len() ==> (#[trigger] boids[i]).bundle.separation_force.0.within(
            ACCUMULATOR_LIMIT - WEIGHTED_STEP_LIMIT,
        )
}

/// Every alignment and cohesion accumulator has room for one more weighted delta.
pub open spec fn alignment_cohesion_room(boids: Seq<Boid>) -> bool {
    forall|i: int|
        0 <= i < boids.len() ==> {
            &&& (#[trigger] boids[i]).bundle.aligment_force.0.within(ACCUMULATOR_LIMIT - WEIGHTED_STEP_LIMIT)
            &&& boids[i].bundle.cohesion_force.0.within(ACCUMULATOR_LIMIT - WEIGHTED_STEP_LIMIT)
        }
}

/// Adds to every agent's separation accumulator its weighted separation
/// delta, from the neighbors within `desired_separation` that the index finds
/// around it; nothing else changes.
pub fn separate(
    boids: &mut Vec<Boid>,
    force_multipliers: &ForceMultipliers,
    kd_tree: &SpatialTree,
    desired_separation: i64,
)
    requires
        ready_for_forces(old(boids)@),
        separation_room(old(boids)@),
        force_multipliers.wf(),
        kd_tree.wf(),
        desired_separation <= COORD_LIMIT,
    ensures
        is_separation_pass(
            old(boids)@,
            final(boids)@,
            tree_items(*kd_tree),
            desired_separation as int,
            force_multipliers.separation as int,
        ),
        forall|i: int|
            0 <= i < final(boids)@.len() ==> (#[trigger] final(boids)@[i]).bundle.separation_force.0.within(
                ACCUMULATOR_LIMIT as int,
            ),
{
    let ghost start = boids@;
    let mut i: usize = 0;
    while i < boids.len()
        invariant
            boids@.len() == start.len(),
            i <= start.len(),
            ready_for_forces(start),
            separation_room(start),
            force_multipliers.wf(),
            kd_tree.wf(),
            desired_separation <= COORD_LIMIT,
            forall|j: int|
                0 <= j < i ==> is_separation_step(
                    start[j],
                    #[trigger] boids@[j],
                    tree_items(*kd_tree),
                    desired_separation as int,
                    force_multipliers.separation as int,
                ),
            forall|j: int|
                0 <= j < i ==> (#[trigger] boids@[j]).bundle.separation_force.0.within(
                    ACCUMULATOR_LIMIT as int,
                ),
            forall|j: int| i <= j < start.len() ==> #[trigger] boids@[j] == start[j],
        decreases start.len() - i,
    {
        let b = boids[i];
        assert(point_in_bounds(start[i as int].position));
        assert(start[i as int].bundle.separation_force.0.within(ACCUMULATOR_LIMIT - WEIGHTED_STEP_LIMIT));
        proof {
            lemma_limits_bound_velocity(b);
        }
        let neighbors = kd_tree.query_within_radius(&b.position, desired_separation);
        proof {
            lemma_found_in_bounds(*kd_tree, b.position, desired_separation as int, neighbors@);
        }
        let delta = separation_delta(
            b.position,
            b.bundle.velocity.0,
            b.bundle.max_speed.0,
            b.bundle.max_force.0,
            &neighbors,
        );
        proof {
            if let Some(d) = delta {
                crate::vector::lemma_norm_bounds_components(d, b.bundle.max_force.0 as int);
            }
        }
        let separation = add_weighted(
            b.bundle.separation_force.0,
            delta,
            force_multipliers.separation,
            b.bundle.max_force.0,
        );
        boids.set(
            i,
            Boid {
                bundle: BoidBundle { separation_force: SeparationForce(separation), ..b.bundle },
                ..b
            },
        );
        proof {
            assert(boids@[i as int] == separated(
                start[i as int],
                neighbors@,
                force_multipliers.separation as int,
            ));
            assert forall|other: Seq<KdTreeItem>| #[trigger]
                answers_within(
                    other,
                    tree_items(*kd_tree),
                    start[i as int].position,
                    desired_separation as int,
                ) implies boids@[i as int] == separated(
                start[i as int],
                other,
                force_multipliers.separation as int,
            ) by {
                lemma_separation_order_independent(
                    b.position,
                    b.bundle.velocity.0,
                    b.bundle.max_speed.0 as int,
                    b.bundle.max_force.0 as int,
                    tree_items(*kd_tree),
                    desired_separation as int,
                    neighbors@,
                    other,
                );
            }
        }
        i = i + 1;
    }
}

/// The agent's alignment and cohesion accumulators after one pass with the
/// neighbors `neighbors`, reading neighbor velocities from `velocities`.
pub open spec fn aligned_and_cohered(
    me: int,
    b: Boid,
    neighbors: Seq<KdTreeItem>,
    velocities: Seq<Vec2i>,
    alignment_weight: int,
    cohesion_weight: int,
) -> Boid {
    let deltas = alignment_and_cohesion_spec(
        me,
        b.position,
        b.bundle.velocity.0,
        b.bundle.max_speed.0 as int,
        b.bundle.max_force.0 as int,
        neighbors,
        velocities,
    );
    let (alignment, cohesion) = match deltas {
        None => (None, None),
        Some(d) => (Some(d.0), Some(d.1)),
    };
    Boid {
        bundle: BoidBundle {
            aligment_force: AligmentForce(
                add_weighted_spec(b.bundle.aligment_force.0, alignment, alignment_weight),
            ),
            cohesion_force: CohesionForce(
                add_weighted_spec(b.bundle.cohesion_force.0, cohesion, cohesion_weight),
            ),
            ..b.bundle
        },
        ..b
    }
}

/// `after` is agent `me`, `before`, after one alignment and cohesion pass
/// with the neighbors that a query of `items` within `radius` finds, in
/// whatever order it hands them out (the order does not change the result).
pub open spec fn is_alignment_cohesion_step(
    me: int,
    before: Boid,
    after: Boid,
    items: Multiset<KdTreeItem>,
    radius: int,
    velocities: Seq<Vec2i>,
    force_multipliers: ForceMultipliers,
) -> bool {
    &&& exists|neighbors: Seq<KdTreeItem>| #[trigger]
        answers_within(neighbors, items, before.position, radius)
    &&& forall|neighbors: Seq<KdTreeItem>| #[trigger]
        answers_within(neighbors, items, before.position, radius) ==> after
            == aligned_and_cohered(
            me,
            before,
            neighbors,
            velocities,
            force_multipliers.alignment as int,
            force_multipliers.cohesion as int,
        )
}

/// `after` is every agent of `before` after one alignment and cohesion pass,
/// reading the velocities that the agents of `before` have.
pub open spec fn is_alignment_cohesion_pass(
    before: Seq<Boid>,
    after: Seq<Boid>,
    items: Multiset<KdTreeItem>,
    radius: int,
    force_multipliers: ForceMultipliers,
) -> bool {
    &&& after.len() == before.len()
    &&& forall|i: int|
        0 <= i < before.len() ==> is_alignment_cohesion_step(
            i,
            before[i],
            #[trigger] after[i],
            items,
            radius,
            velocities_of(before),
            force_multipliers,
        )
}

/// Adds to every agent's alignment and cohesion accumulators its weighted
/// deltas, from the other agents within `neighbor_distance` that the index
/// finds around it, with the velocities all agents had before the pass;
/// nothing else changes.
pub fn align_and_cohesion(
    boids: &mut Vec<Boid>,
    force_multipliers: &ForceMultipliers,
    kd_tree: &SpatialTree,
    neighbor_distance: i64,
)
    requires
        ready_for_forces(old(boids)@),
        alignment_cohesion_room(old(boids)@),
        force_multipliers.wf(),
        kd_tree.wf(),
        neighbor_distance <= COORD_LIMIT,
    ensures
        is_alignment_cohesion_pass(
            old(boids)@,
            final(boids)@,
            tree_items(*kd_tree),
            neighbor_distance as int,
            *force_multipliers,
        ),
        forall|i: int|
            0 <= i < final(boids)@.len() ==> {
                &&& (#[trigger] final(boids)@[i]).bundle.aligment_force.0.within(ACCUMULATOR_LIMIT as int)
                &&& final(boids)@[i].bundle.cohesion_force.0.within(ACCUMULATOR_LIMIT as int)
            },
{
    let ghost start = boids@;
    let mut velocities: Vec<Vec2i> = Vec::with_capacity(boids.len());
    let mut k: usize = 0;
    while k < boids.len()
        invariant
            k <= boids@.len(),
            boids@ == start,
            ready_for_forces(start),
            velocities@ == velocities_of(start).take(k as int),
        decreases boids@.len() - k,
    {
        velocities.push(boids[k].bundle.velocity.0);
        k = k + 1;
        proof {
            assert(velocities@ =~= velocities_of(start).take(k as int));
        }
    }
    proof {
        assert(velocities@ =~= velocities_of(start));
        assert forall|j: int| 0 <= j < velocities@.len() implies (
        #[trigger] velocities@[j]).within(SPEED_LIMIT as int) by {
            assert(point_in_bounds(start[j].position));
            assert(start[j].limits_ok());
            lemma_limits_bound_velocity(start[j]);
        }
    }
    let mut i: usize = 0;
    while i < boids.len()
        invariant
            boids@.len() == start.len(),
            i <= start.len(),
            ready_for_forces(start),
            alignment_cohesion_room(start),
            velocities@ == velocities_of(start),
            velocities_in_bounds(velocities@),
            force_multipliers.wf(),
            kd_tree.wf(),
            neighbor_distance <= COORD_LIMIT,
            forall|j: int|
                0 <= j < i ==> is_alignment_cohesion_step(
                    j,
                    start[j],
                    #[trigger] boids@[j],
                    tree_items(*kd_tree),
                    neighbor_distance as int,
                    velocities_of(start),
                    *force_multipliers,
                ),
            forall|j: int|
                0 <= j < i ==> {
                    &&& (#[trigger] boids@[j]).bundle.aligment_force.0.within(ACCUMULATOR_LIMIT as int)
                    &&& boids@[j].bundle.cohesion_force.0.within(ACCUMULATOR_LIMIT as int)
                },
            forall|j: int| i <= j < start.len() ==> #[trigger] boids@[j] == start[j],
        decreases start.len() - i,
    {
        let b = boids[i];
        assert(point_in_bounds(start[i as int].position));
        assert(start[i as int].bundle.aligment_force.0.within(ACCUMULATOR_LIMIT - WEIGHTED_STEP_LIMIT));
        proof {
            lemma_limits_bound_velocity(b);
        }
        let neighbors = kd_tree.query_within_radius(&b.position, neighbor_distance);
        proof {
            lemma_found_in_bounds(*kd_tree, b.position, neighbor_distance as int, neighbors@);
        }
        let deltas = alignment_and_cohesion_deltas(
            i,
            b.position,
            b.bundle.velocity.0,
            b.bundle.max_speed.0,
            b.bundle.max_force.0,
            &neighbors,
            &velocities,
        );
        let (alignment_delta, cohesion_delta) = match deltas {
            None => (None, None),
            Some(d) => (Some(d.0), Some(d.1)),
        };
        proof {
            if let Some(d) = deltas {
                crate::vector::lemma_norm_bounds_components(d.0, b.bundle.max_force.0 as int);
                crate::vector::lemma_norm_bounds_components(d.1, b.bundle.max_force.0 as int);
            }
        }
        let alignment = add_weighted(
            b.bundle.aligment_force.0,
            alignment_delta,
            force_multipliers.alignment,
            b.bundle.max_force.0,
        );
        let cohesion = add_weighted(
            b.bundle.cohesion_force.0,
            cohesion_delta,
            force_multipliers.cohesion,
            b.bundle.max_force.0,
        );
        boids.set(
            i,
            Boid {
                bundle: BoidBundle {
                    aligment_force: AligmentForce(alignment),
                    cohesion_force: CohesionForce(cohesion),
                    ..b.bundle
                },
                ..b
            },
        );
        proof {
            assert(boids@[i as int] == aligned_and_cohered(
                i as int,
                start[i as int],
                neighbors@,
                velocities_of(start),
                force_multipliers.alignment as int,
                force_multipliers.cohesion as int,
            ));
            assert forall|other: Seq<KdTreeItem>| #[trigger]
                answers_within(
                    other,
                    tree_items(*kd_tree),
                    start[i as int].position,
                    neighbor_distance as int,
                ) implies boids@[i as int] == aligned_and_cohered(
                i as int,
                start[i as int],
                other,
                velocities_of(start),
                force_multipliers.alignment as int,
                force_multipliers.cohesion as int,
            ) by {
                lemma_alignment_cohesion_order_independent(
                    i as int,
                    b.position,
                    b.bundle.velocity.0,
                    b.bundle.max_speed.0 as int,
                    b.bundle.max_force.0 as int,
                    velocities_of(start),
                    tree_items(*kd_tree),
                    neighbor_distance as int,
                    neighbors@,
                    other,
                );
            }
        }
        i = i + 1;
    }
}

/// `after` is every agent of `before` integrated over `dt_ms` milliseconds.
pub open spec fn is_integration_pass(before: Seq<Boid>, after: Seq<Boid>, dt_ms: int) -> bool {
    &&& after.len() == before.len()
    &&& forall|i: int|
        0 <= i < before.len() ==> #[trigger] after[i] == (Boid {
            bundle: integrate_spec(before[i].bundle, dt_ms),
            ..before[i]
        })
}

/// Integrates every agent: its velocity advances by its summed accumulators
/// over `dt_ms` milliseconds and is clamped to its maximum speed, and its
/// accumulators are zeroed.
pub fn apply_acceleration(boids: &mut Vec<Boid>, dt_ms: i64)
    requires
        forall|i: int|
            0 <= i < old(boids)@.len() ==> {
                &&& (#[trigger] old(boids)@[i]).limits_ok()
                &&& accumulators_within(old(boids)@[i].bundle, ACCUMULATOR_LIMIT as int)
            },
        0 <= dt_ms <= DT_LIMIT,
    ensures
        is_integration_pass(old(boids)@, final(boids)@, dt_ms as int),
        forall|i: int|
            0 <= i < final(boids)@.len() ==> (#[trigger] final(boids)@[i]).bundle.velocity.0.norm_sq()
                <= final(boids)@[i].bundle.max_speed.0 * final(boids)@[i].bundle.max_speed.0,
{
    let ghost start = boids@;
    let mut i: usize = 0;
    while i < boids.len()
        invariant
            boids@.len() == start.len(),
            i <= start.len(),
            0 <= dt_ms <= DT_LIMIT,
            forall|j: int|
                0 <= j < start.len() ==> {
                    &&& (#[trigger] start[j]).limits_ok()
                    &&& accumulators_within(start[j].bundle, ACCUMULATOR_LIMIT as int)
                },
            forall|j: int|
                0 <= j < i ==> #[trigger] boids@[j] == (Boid {
                    bundle: integrate_spec(start[j].bundle, dt_ms as int),
                    ..start[j]
                }),
            forall|j: int|
                0 <= j < i ==> (#[trigger] boids@[j]).bundle.velocity.0.norm_sq()
                    <= boids@[j].bundle.max_speed.0 * boids@[j].bundle.max_speed.0,
            forall|j: int| i <= j < start.len() ==> #[trigger] boids@[j] == start[j],
        decreases start.len() - i,
    {
        let b = boids[i];
        assert(start[i as int].limits_ok());
        proof {
            lemma_limits_bound_velocity(b);
        }
        let bundle = integrate(b.bundle, dt_ms);
        boids.set(i, Boid { bundle, ..b });
        i = i + 1;
    }
}

/// `after` is every agent of `before` moved by its velocity over `dt_ms`
/// milliseconds.
pub open spec fn is_movement_pass(before: Seq<Boid>, after: Seq<Boid>, dt_ms: int) -> bool {
    &&& after.len() == before.len()
    &&& forall|i: int|
        0 <= i < before.len() ==> #[trigger] after[i] == (Boid {
            position: advance_spec(before[i].position, before[i].bundle.velocity.0, dt_ms),
            ..before[i]
        })
}

/// Moves every agent by its velocity over `dt_ms` milliseconds.
pub fn update_position(boids: &mut Vec<Boid>, dt_ms: i64)
    requires
        forall|i: int|
            0 <= i < old(boids)@.len() ==> {
                &&& (#[trigger] old(boids)@[i]).limits_ok()
                &&& old(boids)@[i].position.within(POSITION_LIMIT as int)
            },
        0 <= dt_ms <= DT_LIMIT,
    ensures
        is_movement_pass(old(boids)@, final(boids)@, dt_ms as int),
{
    let ghost start = boids@;
    let mut i: usize = 0;
    while i < boids.len()
        invariant
            boids@.len() == start.len(),
            i <= start.len(),
            0 <= dt_ms <= DT_LIMIT,
            forall|j: int|
                0 <= j < start.len() ==> {
                    &&& (#[trigger] start[j]).limits_ok()
                    &&& start[j].position.within(POSITION_LIMIT as int)
                },
            forall|j: int|
                0 <= j < i ==> #[trigger] boids@[j] == (Boid {
                    position: advance_spec(start[j].position, start[j].bundle.velocity.0, dt_ms as int),
                    ..start[j]
                }),
            forall|j: int| i <= j < start.len() ==> #[trigger] boids@[j] == start[j],
        decreases start.len() - i,
    {
        let b = boids[i];
        assert(start[i as int].limits_ok());
        proof {
            lemma_limits_bound_velocity(b);
        }
        let position = update_position_of(b.position, b.bundle.velocity.0, dt_ms);
        boids.set(i, Boid { position, ..b });
        i = i + 1;
    }
}

/// Default distance within which neighbors push apart: 10 pixels.
pub const DEFAULT_DESIRED_SEPARATION: i64 = 10 * UNITS_PER_PIXEL;

/// Default distance within which neighbors align and cohere: 20 pixels.
pub const DEFAULT_NEIGHBOR_DISTANCE: i64 = 20 * UNITS_PER_PIXEL;

/// The simulation: the agents, the spatial index over them, and the tuning
/// that every tick reads.
pub struct BoidsPlugin {
    pub boids: Vec<Boid>,
    pub kd_tree: SpatialTree,
    pub force_multipliers: ForceMultipliers,
    pub desired_separation: i64,
    pub neighbor_distance: i64,
}

impl BoidsPlugin {
    /// The tuning is in range and every agent is in its between-ticks state.
    pub open spec fn wf(&self) -> bool {
        &&& self.force_multipliers.wf()
        &&& 0 <= self.desired_separation <= COORD_LIMIT
        &&& 0 <= self.neighbor_distance <= COORD_LIMIT
        &&& forall|i: int| 0 <= i < self.boids@.len() ==> (#[trigger] self.boids@[i]).wf()
    }

    /// A simulation with no agents, an empty index, and the default tuning:
    /// separation weighs 2, alignment and cohesion 1.
    pub fn build() -> (r: BoidsPlugin)
        ensures
            r.wf(),
            r.boids@.len() == 0,
            tree_items(r.kd_tree) == Multiset::<KdTreeItem>::empty(),
            r.force_multipliers == (ForceMultipliers { separation: 2, alignment: 1, cohesion: 1 }),
            r.desired_separation == DEFAULT_DESIRED_SEPARATION,
            r.neighbor_distance == DEFAULT_NEIGHBOR_DISTANCE,
    {
        BoidsPlugin {
            boids: Vec::new(),
            kd_tree: SpatialTree::new(),
            force_multipliers: ForceMultipliers { separation: 2, alignment: 1, cohesion: 1 },
            desired_separation: DEFAULT_DESIRED_SEPARATION,
            neighbor_distance: DEFAULT_NEIGHBOR_DISTANCE,
        }
    }

    /// Adds an agent and returns its handle, its index among the agents.
    pub fn spawn(&mut self, boid: Boid) -> (handle: usize)
        requires
            old(self).wf(),
            boid.wf(),
            old(self).boids@.len() < usize::MAX,
        ensures
            final(self).wf(),
            final(self).boids@ == old(self).boids@.push(boid),
            handle == old(self).boids@.len(),
            final(self).force_multipliers == old(self).force_multipliers,
            final(self).desired_separation == old(self).desired_separation,
            final(self).neighbor_distance == old(self).neighbor_distance,
    {
        let handle = self.boids.len();
        self.boids.push(boid);
        handle
    }

    /// One tick: wrap every agent into the viewport of half extents
    /// `half_width` by `half_height`, rebuild the index, accumulate
    /// separation, then alignment and cohesion, integrate over `dt_ms`
    /// milliseconds, and move every agent. Time is continuous: a fixed-step
    /// run passes the same `dt_ms` every tick.
    pub fn tick(&mut self, half_width: i64, half_height: i64, dt_ms: i64)
        requires
            old(self).wf(),
            0 <= half_width <= COORD_LIMIT,
            0 <= half_height <= COORD_LIMIT,
            0 <= dt_ms <= DT_LIMIT,
        ensures
            final(self).wf(),
            final(self).boids@.len() == old(self).boids@.len(),
            final(self).force_multipliers == old(self).force_multipliers,
            final(self).desired_separation == old(self).desired_separation,
            final(self).neighbor_distance == old(self).neighbor_distance,
            exists|
                wrapped: Seq<Boid>,
                separated: Seq<Boid>,
                steered: Seq<Boid>,
                integrated: Seq<Boid>,
            |
                #![trigger
                    is_wrap_pass(old(self).boids@, wrapped, half_width as int, half_height as int),
                    is_separation_pass(
                        wrapped,
                        separated,
                        tree_items(final(self).kd_tree),
                        old(self).desired_separation as int,
                        old(self).force_multipliers.separation as int,
                    ),
                    is_alignment_cohesion_pass(
                        separated,
                        steered,
                        tree_items(final(self).kd_tree),
                        old(self).neighbor_distance as int,
                        old(self).force_multipliers,
                    ),
                    is_integration_pass(steered, integrated, dt_ms as int)]
                {
                    &&& is_wrap_pass(old(self).boids@, wrapped, half_width as int, half_height as int)
                    &&& tree_items(final(self).kd_tree) == snapshot(wrapped).to_multiset()
                    &&& is_separation_pass(
                        wrapped,
                        separated,
                        tree_items(final(self).kd_tree),
                        old(self).desired_separation as int,
                        old(self).force_multipliers.separation as int,
                    )
                    &&& is_alignment_cohesion_pass(
                        separated,
                        steered,
                        tree_items(final(self).kd_tree),
                        old(self).neighbor_distance as int,
                        old(self).force_multipliers,
                    )
                    &&& is_integration_pass(steered, integrated, dt_ms as int)
                    &&& is_movement_pass(integrated, final(self).boids@, dt_ms as int)
                },
    {
        let ghost start = self.boids@;
        wrap_around_screen(&mut self.boids, half_width, half_height);
        let ghost wrapped = self.boids@;
        assert forall|i: int| 0 <= i < wrapped.len() implies point_in_bounds(
            #[trigger] wrapped[i].position,
        ) && wrapped[i].limits_ok() by {
            assert(start[i].wf());
        }
        update_spatial_tree(&self.boids, &mut self.kd_tree);
        assert forall|i: int| 0 <= i < wrapped.len() implies (#[trigger] wrapped[i]).bundle.separation_force.0.within(
            ACCUMULATOR_LIMIT - WEIGHTED_STEP_LIMIT,
        ) by {
            assert(start[i].wf());
        }
        separate(&mut self.boids, &self.force_multipliers, &self.kd_tree, self.desired_separation);
        let ghost separated_boids = self.boids@;
        assert forall|i: int| 0 <= i < separated_boids.len() implies {
            &&& point_in_bounds(#[trigger] separated_boids[i].position)
            &&& separated_boids[i].limits_ok()
            &&& separated_boids[i].bundle.separation_force.0.within(ACCUMULATOR_LIMIT as int)
            &&& separated_boids[i].bundle.aligment_force.0.within(ACCUMULATOR_LIMIT - WEIGHTED_STEP_LIMIT)
            &&& separated_boids[i].bundle.cohesion_force.0.within(ACCUMULATOR_LIMIT - WEIGHTED_STEP_LIMIT)
            &&& separated_boids[i].bundle.acceleration == wrapped[i].bundle.acceleration
        } by {
            assert(start[i].wf());
            assert(point_in_bounds(wrapped[i].position));
            assert(is_separation_step(
                wrapped[i],
                separated_boids[i],
                tree_items(self.kd_tree),
                self.desired_separation as int,
                self.force_multipliers.separation as int,
            ));
        }
        align_and_cohesion(&mut self.boids, &self.force_multipliers, &self.kd_tree, self.neighbor_distance);
        let ghost steered = self.boids@;
        assert forall|i: int| 0 <= i < steered.len() implies {
            &&& (#[trigger] steered[i]).limits_ok()
            &&& accumulators_within(steered[i].bundle, ACCUMULATOR_LIMIT as int)
            &&& steered[i].position.within(POSITION_LIMIT as int)
            &&& steered[i].bundle.max_speed == start[i].bundle.max_speed
            &&& steered[i].bundle.max_force == start[i].bundle.max_force
        } by {
            assert(start[i].wf());
            assert(point_in_bounds(separated_boids[i].position));
            assert(is_alignment_cohesion_step(
                i,
                separated_boids[i],
                steered[i],
                tree_items(self.kd_tree),
                self.neighbor_distance as int,
                velocities_of(separated_boids),
                self.force_multipliers,
            ));
        }
        apply_acceleration(&mut self.boids, dt_ms);
        let ghost integrated = self.boids@;
        assert forall|i: int| 0 <= i < integrated.len() implies {
            &&& (#[trigger] integrated[i]).limits_ok()
            &&& integrated[i].position.within(POSITION_LIMIT as int)
        } by {
            assert(steered[i].limits_ok());
        }
        update_position(&mut self.boids, dt_ms);
        assert forall|i: int| 0 <= i < self.boids@.len() implies (#[trigger] self.boids@[i]).wf() by {
            assert(integrated[i].limits_ok());
        }
        assert(is_wrap_pass(start, wrapped, half_width as int, half_height as int));
        assert(is_separation_pass(
            wrapped,
            separated_boids,
            tree_items(self.kd_tree),
            self.desired_separation as int,
            self.force_multipliers.separation as int,
        ));
        assert(is_alignment_cohesion_pass(
            separated_boids,
            steered,
            tree_items(self.kd_tree),
            self.neighbor_distance as int,
            self.force_multipliers,
        ));
        assert(is_integration_pass(steered, integrated, dt_ms as int));
    }
}

} // verus!

//! The three steering rules: separation, alignment and cohesion. Each turns
//! an agent's neighbors into a steering delta no longer than its maximum
//! force.

use crate::spatial::{
    answers_within, dist_sq, dist_sq_of, point_in_bounds, KdTreeItem, COORD_LIMIT,
};
use vstd::multiset::Multiset;
use crate::vector::{
    clamp_magnitude, clamp_magnitude_spec, difference, div_toward_zero, sub_spec, trunc_div,
    with_magnitude, with_magnitude_spec, Vec2i,
};
use vstd::prelude::*;

verus! {

/// Largest maximum speed, maximum force and velocity component an agent may have.
pub const SPEED_LIMIT: i64 = 0x100_0000;

/// Scale of a separation push: a neighbor at distance `d` pushes with
/// magnitude about `SEPARATION_GAIN / d`.
pub const SEPARATION_GAIN: i64 = 0x10_0000;

/// The steering delta from `velocity` toward `desired`, no longer than `max_force`.
pub open spec fn steer_spec(desired: Vec2i, velocity: Vec2i, max_force: int) -> Vec2i {
    clamp_magnitude_spec(sub_spec(desired, velocity), max_force)
}

/// `desired - velocity`, clamped to length `max_force`.
pub fn steer(desired: Vec2i, velocity: Vec2i, max_force: i64) -> (r: Vec2i)
    requires
        desired.within(SPEED_LIMIT as int),
        velocity.within(SPEED_LIMIT as int),
        0 <= max_force <= SPEED_LIMIT,
    ensures
        r == steer_spec(desired, velocity, max_force as int),
        r.norm_sq() <= max_force * max_force,
        r.within(max_force as int),
{
    clamp_magnitude(difference(desired, velocity), max_force)
}

/// The mean of a sum over `count` values, each component rounded toward zero.
pub open spec fn average(sum_x: int, sum_y: int, count: int) -> Vec2i {
    Vec2i { x: trunc_div(sum_x, count) as i64, y: trunc_div(sum_y, count) as i64 }
}

/// The push of a neighbor at `other` on an agent at `position`: the unit
/// vector away from the neighbor divided by the distance, times
/// `SEPARATION_GAIN`, which is `(position - other) * SEPARATION_GAIN / d^2`.
pub open spec fn separation_push(position: Vec2i, other: Vec2i) -> Vec2i {
    Vec2i {
        x: trunc_div((position.x - other.x) * SEPARATION_GAIN, dist_sq(position, other)) as i64,
        y: trunc_div((position.y - other.y) * SEPARATION_GAIN, dist_sq(position, other)) as i64,
    }
}

/// The summed pushes of `neighbors` and how many pushed, as `(x, y, count)`;
/// a neighbor at the agent's own position pushes nothing and is not counted.
pub open spec fn separation_sum(position: Vec2i, neighbors: Seq<KdTreeItem>) -> (int, int, int)
    decreases neighbors.len(),
{
    if neighbors.len() == 0 {
        (0, 0, 0)
    } else {
        let rest = separation_sum(position, neighbors.drop_last());
        let other = neighbors.last().point;
        if dist_sq(position, other) == 0 {
            rest
        } else {
            let push = separation_push(position, other);
            (rest.0 + push.x, rest.1 + push.y, rest.2 + 1)
        }
    }
}

/// The separation steering delta, before its weight: none when no neighbor
/// pushed; else the mean push, scaled to `max_speed`, steered from `velocity`.
pub open spec fn separation_delta_spec(
    position: Vec2i,
    velocity: Vec2i,
    max_speed: int,
    max_force: int,
    neighbors: Seq<KdTreeItem>,
) -> Option<Vec2i> {
    let s = separation_sum(position, neighbors);
    if s.2 == 0 {
        None
    } else {
        Some(
            steer_spec(with_magnitude_spec(average(s.0, s.1, s.2), max_speed), velocity, max_force),
        )
    }
}

/// A quotient rounded toward zero of a value in `[-l * g, l * g]` by `l` lies in `[-g, g]`.
proof fn lemma_trunc_div_bound(a: int, l: int, g: int)
    requires
        l > 0,
        g >= 0,
        -(l * g) <= a <= l * g,
    ensures
        -g <= trunc_div(a, l) <= g,
{
    let p = if a >= 0 { a } else { -a };
    vstd::arithmetic::div_mod::lemma_fundamental_div_mod(p, l);
    vstd::arithmetic::div_mod::lemma_mod_pos_bound(p, l);
    let q = p / l;
    let r = p % l;
    assert(0 <= q <= g) by (nonlinear_arith)
        requires
            p == l * q + r,
            0 <= r < l,
            0 <= p <= l * g,
            l > 0,
    ;
}

/// A push has no component beyond `SEPARATION_GAIN`.
proof fn lemma_push_bound(position: Vec2i, other: Vec2i)
    requires
        dist_sq(position, other) > 0,
    ensures
        separation_push(position, other).within(SEPARATION_GAIN as int),
        -SEPARATION_GAIN <= trunc_div((position.x - other.x) * SEPARATION_GAIN, dist_sq(position, other)) <= SEPARATION_GAIN,
        -SEPARATION_GAIN <= trunc_div((position.y - other.y) * SEPARATION_GAIN, dist_sq(position, other)) <= SEPARATION_GAIN,
{
    let dx = position.x - other.x;
    let dy = position.y - other.y;
    let d2 = dist_sq(position, other);
    let g = SEPARATION_GAIN as int;
    assert(-(d2 * g) <= dx * g <= d2 * g && -(d2 * g) <= dy * g <= d2 * g) by (nonlinear_arith)
        requires
            d2 == dx * dx + dy * dy,
            g > 0,
    ;
    lemma_trunc_div_bound(dx * g, d2, g);
    lemma_trunc_div_bound(dy * g, d2, g);
}

/// The separation steering delta of an agent at `position` moving at
/// `velocity`, from the neighbors that the index found around it.
pub fn separation_delta(
    position: Vec2i,
    velocity: Vec2i,
    max_speed: i64,
    max_force: i64,
    neighbors: &Vec<KdTreeItem>,
) -> (r: Option<Vec2i>)
    requires
        point_in_bounds(position),
        forall|i: int| 0 <= i < neighbors@.len() ==> point_in_bounds(#[trigger] neighbors@[i].point),
        velocity.within(SPEED_LIMIT as int),
        0 <= max_speed <= SPEED_LIMIT,
        0 <= max_force <= SPEED_LIMIT,
    ensures
        r == separation_delta_spec(position, velocity, max_speed as int, max_force as int, neighbors@),
        r matches Some(d) ==> d.norm_sq() <= max_force * max_force,
{
    let ghost g = SEPARATION_GAIN as int;
    let mut sx: i128 = 0;
    let mut sy: i128 = 0;
    let mut count: usize = 0;
    let mut i: usize = 0;
    proof {
        assert(neighbors@.take(0) =~= Seq::<KdTreeItem>::empty());
    }
    while i < neighbors.len()
        invariant
            i <= neighbors@.len(),
            count <= i,
            point_in_bounds(position),
            forall|j: int| 0 <= j < neighbors@.len() ==> point_in_bounds(#[trigger] neighbors@[j].point),
            separation_sum(position, neighbors@.take(i as int)) == (sx as int, sy as int, count as int),
            -(count * g) <= sx <= count * g,
            -(count * g) <= sy <= count * g,
            g == SEPARATION_GAIN,
        decreases neighbors@.len() - i,
    {
        let other = neighbors[i].point;
        let d2 = dist_sq_of(position, other);
        proof {
            assert(neighbors@.take(i + 1).drop_last() =~= neighbors@.take(i as int));
            assert(neighbors@.take(i + 1).last() == neighbors@[i as int]);
        }
        if d2 != 0 {
            proof {
                lemma_push_bound(position, other);
            }
            let dx = (position.x - other.x) as i128;
            let dy = (position.y - other.y) as i128;
            let px = div_toward_zero(dx * SEPARATION_GAIN as i128, d2 as i128);
            let py = div_toward_zero(dy * SEPARATION_GAIN as i128, d2 as i128);
            sx = sx + px;
            sy = sy + py;
            count = count + 1;
        }
        i = i + 1;
    }
    proof {
        assert(neighbors@.take(neighbors@.len() as int) =~= neighbors@);
    }
    if count == 0 {
        None
    } else {
        proof {
            lemma_trunc_div_bound(sx as int, count as int, g);
            lemma_trunc_div_bound(sy as int, count as int, g);
        }
        let mean = Vec2i {
            x: div_toward_zero(sx, count as i128) as i64,
            y: div_toward_zero(sy, count as i128) as i64,
        };
        let desired = with_magnitude(mean, max_speed);
        Some(steer(desired, velocity, max_force))
    }
}

/// The sums over the neighbors of agent `me`, other than itself, as
/// `(position x, position y, velocity x, velocity y, count)`. A neighbor's
/// velocity is `velocities[entity]`, or nothing for a handle past its end.
pub open spec fn neighbor_sums(me: int, neighbors: Seq<KdTreeItem>, velocities: Seq<Vec2i>) -> (
    int,
    int,
    int,
    int,
    int,
)
    decreases neighbors.len(),
{
    if neighbors.len() == 0 {
        (0, 0, 0, 0, 0)
    } else {
        let rest = neighbor_sums(me, neighbors.drop_last(), velocities);
        let item = neighbors.last();
        if item.entity == me {
            rest
        } else {
            let v = if item.entity < velocities.len() {
                velocities[item.entity as int]
            } else {
                Vec2i { x: 0, y: 0 }
            };
            (rest.0 + item.point.x, rest.1 + item.point.y, rest.2 + v.x, rest.3 + v.y, rest.4 + 1)
        }
    }
}

/// The alignment steering delta, before its weight: the neighbors' mean
/// velocity, scaled to `max_speed`, steered from `velocity`.
pub open spec fn alignment_delta_spec(
    velocity: Vec2i,
    max_speed: int,
    max_force: int,
    sums: (int, int, int, int, int),
) -> Vec2i {
    steer_spec(with_magnitude_spec(average(sums.2, sums.3, sums.4), max_speed), velocity, max_force)
}

/// The cohesion steering delta, before its weight: the direction from
/// `position` to the neighbors' mean position, scaled to `max_speed`, steered
/// from `velocity`.
pub open spec fn cohesion_delta_spec(
    position: Vec2i,
    velocity: Vec2i,
    max_speed: int,
    max_force: int,
    sums: (int, int, int, int, int),
) -> Vec2i {
    steer_spec(
        with_magnitude_spec(sub_spec(average(sums.0, sums.1, sums.4), position), max_speed),
        velocity,
        max_force,
    )
}

/// The alignment and cohesion deltas of agent `me`, or none when it has no
/// neighbor but itself.
pub open spec fn alignment_and_cohesion_spec(
    me: int,
    position: Vec2i,
    velocity: Vec2i,
    max_speed: int,
    max_force: int,
    neighbors: Seq<KdTreeItem>,
    velocities: Seq<Vec2i>,
) -> Option<(Vec2i, Vec2i)> {
    let sums = neighbor_sums(me, neighbors, velocities);
    if sums.4 == 0 {
        None
    } else {
        Some(
            (
                alignment_delta_spec(velocity, max_speed, max_force, sums),
                cohesion_delta_spec(position, velocity, max_speed, max_force, sums),
            ),
        )
    }
}

/// Every velocity has no component beyond `SPEED_LIMIT`.
pub open spec fn velocities_in_bounds(velocities: Seq<Vec2i>) -> bool {
    forall|i: int| 0 <= i < velocities.len() ==> (#[trigger] velocities[i]).within(SPEED_LIMIT as int)
}

/// The alignment and cohesion steering deltas of agent `me` at `position`
/// moving at `velocity`, from the neighbors that the index found around it;
/// `velocities` holds every agent's velocity by handle.
pub fn alignment_and_cohesion_deltas(
    me: usize,
    position: Vec2i,
    velocity: Vec2i,
    max_speed: i64,
    max_force: i64,
    neighbors: &Vec<KdTreeItem>,
    velocities: &Vec<Vec2i>,
) -> (r: Option<(Vec2i, Vec2i)>)
    requires
        point_in_bounds(position),
        forall|i: int| 0 <= i < neighbors@.len() ==> point_in_bounds(#[trigger] neighbors@[i].point),
        velocity.within(SPEED_LIMIT as int),
        velocities_in_bounds(velocities@),
        0 <= max_speed <= SPEED_LIMIT,
        0 <= max_force <= SPEED_LIMIT,
    ensures
        r == alignment_and_cohesion_spec(
            me as int,
            position,
            velocity,
            max_speed as int,
            max_force as int,
            neighbors@,
            velocities@,
        ),
        r matches Some(d) ==> d.0.norm_sq() <= max_force * max_force && d.1.norm_sq() <= max_force
            * max_force,
{
    let ghost c = COORD_LIMIT as int;
    let ghost v = SPEED_LIMIT as int;
    let mut px: i128 = 0;
    let mut py: i128 = 0;
    let mut vx: i128 = 0;
    let mut vy: i128 = 0;
    let mut count: usize = 0;
    let mut i: usize = 0;
    proof {
        assert(neighbors@.take(0) =~= Seq::<KdTreeItem>::empty());
    }
    while i < neighbors.len()
        invariant
            i <= neighbors@.len(),
            count <= i,
            forall|j: int| 0 <= j < neighbors@.len() ==> point_in_bounds(#[trigger] neighbors@[j].point),
            velocities_in_bounds(velocities@),
            neighbor_sums(me as int, neighbors@.take(i as int), velocities@) == (
                px as int,
                py as int,
                vx as int,
                vy as int,
                count as int,
            ),
            -(count * c) <= px <= count * c,
            -(count * c) <= py <= count * c,
            -(count * v) <= vx <= count * v,
            -(count * v) <= vy <= count * v,
            c == COORD_LIMIT,
            v == SPEED_LIMIT,
        decreases neighbors@.len() - i,
    {
        let item = neighbors[i];
        proof {
            assert(neighbors@.take(i + 1).drop_last() =~= neighbors@.take(i as int));
            assert(neighbors@.take(i + 1).last() == neighbors@[i as int]);
        }
        if item.entity != me {
            let other_velocity = if item.entity < velocities.len() {
                velocities[item.entity]
            } else {
                Vec2i { x: 0, y: 0 }
            };
            px = px + item.point.x as i128;
            py = py + item.point.y as i128;
            vx = vx + other_velocity.x as i128;
            vy = vy + other_velocity.y as i128;
            count = count + 1;
        }
        i = i + 1;
    }
    proof {
        assert(neighbors@.take(neighbors@.len() as int) =~= neighbors@);
    }
    if count == 0 {
        return None;
    }
    proof {
        lemma_trunc_div_bound(px as int, count as int, c);
        lemma_trunc_div_bound(py as int, count as int, c);
        lemma_trunc_div_bound(vx as int, count as int, v);
        lemma_trunc_div_bound(vy as int, count as int, v);
    }
    let mean_velocity = Vec2i {
        x: div_toward_zero(vx, count as i128) as i64,
        y: div_toward_zero(vy, count as i128) as i64,
    };
    let alignment = steer(with_magnitude(mean_velocity, max_speed), velocity, max_force);
    let mean_position = Vec2i {
        x: div_toward_zero(px, count as i128) as i64,
        y: div_toward_zero(py, count as i128) as i64,
    };
    let toward = difference(mean_position, position);
    let cohesion = steer(with_magnitude(toward, max_speed), velocity, max_force);
    Some((alignment, cohesion))
}

/// A neighbor standing at the agent's own position adds nothing to its
/// separation: neither a push nor a count.
pub proof fn lemma_coincident_neighbor_adds_nothing(
    position: Vec2i,
    neighbors: Seq<KdTreeItem>,
    item: KdTreeItem,
)
    requires
        item.point == position,
    ensures
        separation_sum(position, neighbors.push(item)) == separation_sum(position, neighbors),
{
    assert(neighbors.push(item).drop_last() =~= neighbors);
    assert(neighbors.push(item).last() == item);
    assert(dist_sq(position, item.point) == 0);
}

/// Neighbors that all stand at the agent's own position (the agent itself, or
/// others coincident with it) give it no separation delta.
pub proof fn lemma_coincident_neighbors_give_no_separation(
    position: Vec2i,
    velocity: Vec2i,
    max_speed: int,
    max_force: int,
    neighbors: Seq<KdTreeItem>,
)
    requires
        forall|i: int| 0 <= i < neighbors.len() ==> (#[trigger] neighbors[i]).point == position,
    ensures
        separation_delta_spec(position, velocity, max_speed, max_force, neighbors) is None,
    decreases neighbors.len(),
{
    lemma_coincident_sum_is_zero(position, neighbors);
}

proof fn lemma_coincident_sum_is_zero(position: Vec2i, neighbors: Seq<KdTreeItem>)
    requires
        forall|i: int| 0 <= i < neighbors.len() ==> (#[trigger] neighbors[i]).point == position,
    ensures
        separation_sum(position, neighbors) == (0int, 0int, 0int),
    decreases neighbors.len(),
{
    if neighbors.len() > 0 {
        let rest = neighbors.drop_last();
        assert forall|i: int| 0 <= i < rest.len() implies (#[trigger] rest[i]).point == position by {
            assert(rest[i] == neighbors[i]);
        }
        lemma_coincident_sum_is_zero(position, rest);
        assert(neighbors[neighbors.len() - 1].point == position);
        assert(neighbors.last() == neighbors[neighbors.len() - 1]);
        assert(dist_sq(position, neighbors.last().point) == 0);
    }
}

/// Neighbor velocities that cancel out average to zero, which normalizes to
/// a desired velocity of zero: the alignment delta is then the agent's own
/// velocity reversed, clamped to `max_force`.
pub proof fn lemma_alignment_cancellation(
    velocity: Vec2i,
    max_speed: int,
    max_force: int,
    sums: (int, int, int, int, int),
)
    requires
        sums.2 == 0,
        sums.3 == 0,
        sums.4 > 0,
    ensures
        alignment_delta_spec(velocity, max_speed, max_force, sums) == clamp_magnitude_spec(
            sub_spec(Vec2i { x: 0, y: 0 }, velocity),
            max_force,
        ),
{
    assert(trunc_div(0, sums.4) == 0) by {
        assert(0int / sums.4 == 0) by (nonlinear_arith)
            requires
                sums.4 > 0,
        ;
    }
    assert(average(sums.2, sums.3, sums.4) == Vec2i { x: 0, y: 0 });
}

/// What one neighbor adds to [`separation_sum`].
pub open spec fn separation_contribution(position: Vec2i, item: KdTreeItem) -> (int, int, int) {
    if dist_sq(position, item.point) == 0 {
        (0, 0, 0)
    } else {
        let push = separation_push(position, item.point);
        (push.x as int, push.y as int, 1)
    }
}

/// What one neighbor adds to [`neighbor_sums`].
pub open spec fn neighbor_contribution(me: int, item: KdTreeItem, velocities: Seq<Vec2i>) -> (
    int,
    int,
    int,
    int,
    int,
) {
    if item.entity == me {
        (0, 0, 0, 0, 0)
    } else {
        let v = if item.entity < velocities.len() {
            velocities[item.entity as int]
        } else {
            Vec2i { x: 0, y: 0 }
        };
        (item.point.x as int, item.point.y as int, v.x as int, v.y as int, 1)
    }
}

/// Taking any one neighbor out of the sequence takes out its contribution.
proof fn lemma_separation_sum_remove(position: Vec2i, s: Seq<KdTreeItem>, k: int)
    requires
        0 <= k < s.len(),
    ensures
        ({
            let a = separation_sum(position, s);
            let b = separation_sum(position, s.remove(k));
            let c = separation_contribution(position, s[k]);
            a == (b.0 + c.0, b.1 + c.1, b.2 + c.2)
        }),
    decreases s.len(),
{
    if k == s.len() - 1 {
        assert(s.remove(k) =~= s.drop_last());
    } else {
        lemma_separation_sum_remove(position, s.drop_last(), k);
        assert(s.remove(k).drop_last() =~= s.drop_last().remove(k));
        assert(s.remove(k).last() == s.last());
        assert(s.drop_last()[k] == s[k]);
    }
}

proof fn lemma_neighbor_sums_remove(me: int, s: Seq<KdTreeItem>, velocities: Seq<Vec2i>, k: int)
    requires
        0 <= k < s.len(),
    ensures
        ({
            let a = neighbor_sums(me, s, velocities);
            let b = neighbor_sums(me, s.remove(k), velocities);
            let c = neighbor_contribution(me, s[k], velocities);
            a == (b.0 + c.0, b.1 + c.1, b.2 + c.2, b.3 + c.3, b.4 + c.4)
        }),
    decreases s.len(),
{
    if k == s.len() - 1 {
        assert(s.remove(k) =~= s.drop_last());
    } else {
        lemma_neighbor_sums_remove(me, s.drop_last(), velocities, k);
        assert(s.remove(k).drop_last() =~= s.drop_last().remove(k));
        assert(s.remove(k).last() == s.last());
        assert(s.drop_last()[k] == s[k]);
    }
}

/// Two sequences that hold the same items, as often, have the same
/// separation sum and the same neighbor sums.
proof fn lemma_sums_permutation(
    position: Vec2i,
    me: int,
    velocities: Seq<Vec2i>,
    s1: Seq<KdTreeItem>,
    s2: Seq<KdTreeItem>,
)
    requires
        s1.to_multiset() == s2.to_multiset(),
    ensures
        separation_sum(position, s1) == separation_sum(position, s2),
        neighbor_sums(me, s1, velocities) == neighbor_sums(me, s2, velocities),
    decreases s1.len(),
{
    broadcast use vstd::seq_lib::group_to_multiset_ensures;
    if s1.len() == 0 {
        assert(s2.to_multiset().len() == 0);
        assert(s2.len() == 0);
    } else {
        let x = s1.last();
        let n = s1.len() - 1;
        assert(s1.contains(x)) by {
            assert(s1[n] == x);
        }
        assert(s1.to_multiset().count(x) > 0);
        assert(s2.contains(x));
        let k = choose|k: int| 0 <= k < s2.len() && s2[k] == x;
        assert(s1.remove(n) =~= s1.drop_last());
        assert(s1.drop_last().to_multiset() =~= s1.to_multiset().remove(x));
        assert(s2.remove(k).to_multiset() =~= s2.to_multiset().remove(x));
        lemma_sums_permutation(position, me, velocities, s1.drop_last(), s2.remove(k));
        lemma_separation_sum_remove(position, s1, n);
        lemma_separation_sum_remove(position, s2, k);
        lemma_neighbor_sums_remove(me, s1, velocities, n);
        lemma_neighbor_sums_remove(me, s2, velocities, k);
    }
}

/// Two answers to one query hold the same items, as often.
proof fn lemma_answers_agree(
    n1: Seq<KdTreeItem>,
    n2: Seq<KdTreeItem>,
    items: Multiset<KdTreeItem>,
    center: Vec2i,
    radius: int,
)
    requires
        answers_within(n1, items, center, radius),
        answers_within(n2, items, center, radius),
    ensures
        n1.to_multiset() =~= n2.to_multiset(),
{
    assert forall|item: KdTreeItem| n1.to_multiset().count(item) == n2.to_multiset().count(item) by {
        assert(answers_within(n1, items, center, radius));
    }
}

/// The separation delta does not depend on the order in which the index
/// hands out the neighbors: any two answers to the same query give the same
/// delta.
pub proof fn lemma_separation_order_independent(
    position: Vec2i,
    velocity: Vec2i,
    max_speed: int,
    max_force: int,
    items: Multiset<KdTreeItem>,
    radius: int,
    n1: Seq<KdTreeItem>,
    n2: Seq<KdTreeItem>,
)
    requires
        answers_within(n1, items, position, radius),
        answers_within(n2, items, position, radius),
    ensures
        separation_delta_spec(position, velocity, max_speed, max_force, n1) == separation_delta_spec(
            position,
            velocity,
            max_speed,
            max_force,
            n2,
        ),
{
    lemma_answers_agree(n1, n2, items, position, radius);
    lemma_sums_permutation(position, 0, Seq::empty(), n1, n2);
}

/// The alignment and cohesion deltas do not depend on the order in which the
/// index hands out the neighbors: any two answers to the same query give the
/// same deltas.
pub proof fn lemma_alignment_cohesion_order_independent(
    me: int,
    position: Vec2i,
    velocity: Vec2i,
    max_speed: int,
    max_force: int,
    velocities: Seq<Vec2i>,
    items: Multiset<KdTreeItem>,
    radius: int,
    n1: Seq<KdTreeItem>,
    n2: Seq<KdTreeItem>,
)
    requires
        answers_within(n1, items, position, radius),
        answers_within(n2, items, position, radius),
    ensures
        alignment_and_cohesion_spec(me, position, velocity, max_speed, max_force, n1, velocities)
            == alignment_and_cohesion_spec(
            me,
            position,
            velocity,
            max_speed,
            max_force,
            n2,
            velocities,
        ),
{
    lemma_answers_agree(n1, n2, items, position, radius);
    lemma_sums_permutation(position, me, velocities, n1, n2);
}

} // verus!

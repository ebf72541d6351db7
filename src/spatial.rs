//! The spatial index: a snapshot of agent positions, rebuilt every tick and
//! answering radius queries.

use crate::vector::Vec2i;
use vstd::multiset::Multiset;
use vstd::prelude::*;

verus! {

/// Largest absolute coordinate that the index holds, and largest query radius.
pub const COORD_LIMIT: i64 = 0x1000_0000;

/// One indexed agent: where it stood when the index was built, and its handle.
#[derive(Clone, Copy, Debug, PartialEq, Eq, Structural)]
pub struct KdTreeItem {
    pub point: Vec2i,
    pub entity: usize,
}

impl KdTreeItem {
    /// The coordinate of the point on axis `k` (0 for x, 1 for y).
    pub fn at(&self, k: usize) -> (r: i64)
        requires
            k < 2,
        ensures
            r == (if k == 0 { self.point.x } else { self.point.y }),
    {
        if k == 0 {
            self.point.x
        } else {
            self.point.y
        }
    }
}

/// Both coordinates of `p` lie in `[-COORD_LIMIT, COORD_LIMIT]`.
pub open spec fn point_in_bounds(p: Vec2i) -> bool {
    p.within(COORD_LIMIT as int)
}

/// The squared Euclidean distance between two points.
pub open spec fn dist_sq(a: Vec2i, b: Vec2i) -> int {
    (a.x - b.x) * (a.x - b.x) + (a.y - b.y) * (a.y - b.y)
}

/// `item` lies strictly within `radius` of `center`; no point does when
/// `radius <= 0`.
pub open spec fn in_radius(item: KdTreeItem, center: Vec2i, radius: int) -> bool {
    radius > 0 && dist_sq(item.point, center) < radius * radius
}

/// [`in_radius`] as a predicate on items.
pub open spec fn in_radius_of(center: Vec2i, radius: int) -> spec_fn(KdTreeItem) -> bool {
    |item: KdTreeItem| in_radius(item, center, radius)
}

/// `found` holds each item of `items` within `radius` of `center`, as many
/// times as `items` does, and nothing else.
pub open spec fn answers_within(
    found: Seq<KdTreeItem>,
    items: Multiset<KdTreeItem>,
    center: Vec2i,
    radius: int,
) -> bool {
    forall|item: KdTreeItem| #[trigger]
        found.to_multiset().count(item) == if in_radius(item, center, radius) {
            items.count(item)
        } else {
            0
        }
}

/// A kd-tree over agent positions. The tree is held opaquely: its type is
/// bound by an outside trait, so Verus cannot take it as a declared type.
#[verifier::external_body]
pub struct SpatialTree {
    tree: kd_tree::KdMap<[i64; 2], usize>,
}

/// The items that a spatial tree holds.
pub uninterp spec fn tree_items(t: SpatialTree) -> Multiset<KdTreeItem>;

/// Relies on kd_tree::KdTreeN::par_build: the tree holds the given items,
/// reordered.
#[verifier::external_body]
fn par_build(items: Vec<KdTreeItem>) -> (r: SpatialTree)
    ensures
        tree_items(r) == items@.to_multiset(),
{
    let pairs: Vec<([i64; 2], usize)> = items.into_iter().map(
        |i: KdTreeItem| ([i.point.x, i.point.y], i.entity),
    ).collect();
    SpatialTree { tree: kd_tree::KdMap::par_build(pairs) }
}

/// Relies on kd_tree::KdSliceN::within_radius: the items whose squared
/// distance to `center` is below `radius * radius`, each as often as the tree
/// holds it; all arithmetic stays within `i64` for these bounds.
#[verifier::external_body]
fn within_radius(t: &SpatialTree, center: Vec2i, radius: i64) -> (r: Vec<KdTreeItem>)
    requires
        t.wf(),
        point_in_bounds(center),
        0 < radius <= COORD_LIMIT,
    ensures
        answers_within(r@, tree_items(*t), center, radius as int),
{
    t.tree.within_radius(&[center.x, center.y], radius).into_iter().map(
        |&(p, e): &([i64; 2], usize)| KdTreeItem { point: Vec2i { x: p[0], y: p[1] }, entity: e },
    ).collect()
}

impl SpatialTree {
    /// Every item lies within the coordinate bounds.
    pub open spec fn wf(self) -> bool {
        forall|item: KdTreeItem| #[trigger]
            tree_items(self).count(item) > 0 ==> point_in_bounds(item.point)
    }

    /// An index that holds nothing.
    pub fn new() -> (r: SpatialTree)
        ensures
            tree_items(r) == Multiset::<KdTreeItem>::empty(),
            r.wf(),
    {
        let r = par_build(Vec::new());
        proof {
            broadcast use vstd::seq_lib::group_to_multiset_ensures;
            assert(Seq::<KdTreeItem>::empty().to_multiset() =~= Multiset::empty()) by {
                assert(Seq::<KdTreeItem>::empty().to_multiset().len() == 0);
            }
        }
        r
    }

    /// An index over exactly the given items.
    pub fn build(items: Vec<KdTreeItem>) -> (r: SpatialTree)
        requires
            forall|i: int| 0 <= i < items@.len() ==> point_in_bounds(#[trigger] items@[i].point),
        ensures
            tree_items(r) == items@.to_multiset(),
            r.wf(),
    {
        let ghost s = items@;
        let r = par_build(items);
        proof {
            broadcast use vstd::seq_lib::group_to_multiset_ensures;
            assert forall|item: KdTreeItem| #[trigger]
                tree_items(r).count(item) > 0 implies point_in_bounds(item.point) by {
                assert(s.contains(item));
            }
        }
        r
    }

    /// Every indexed item strictly within `radius` of `point`, as often as it
    /// was indexed; nothing when `radius <= 0`.
    pub fn query_within_radius(&self, point: &Vec2i, radius: i64) -> (r: Vec<KdTreeItem>)
        requires
            self.wf(),
            point_in_bounds(*point),
            radius <= COORD_LIMIT,
        ensures
            answers_within(r@, tree_items(*self), *point, radius as int),
    {
        if radius <= 0 {
            let r: Vec<KdTreeItem> = Vec::new();
            proof {
                broadcast use vstd::seq_lib::group_to_multiset_ensures;
                assert(r@.to_multiset().len() == 0);
            }
            r
        } else {
            within_radius(self, *point, radius)
        }
    }
}

/// The squared distance between two points in bounds.
pub(crate) fn dist_sq_of(a: Vec2i, b: Vec2i) -> (r: i64)
    requires
        point_in_bounds(a),
        point_in_bounds(b),
    ensures
        r == dist_sq(a, b),
        r >= 0,
{
    let dx = a.x - b.x;
    let dy = a.y - b.y;
    proof {
        lemma_diff_square(dx as int);
        lemma_diff_square(dy as int);
    }
    dx * dx + dy * dy
}

proof fn lemma_diff_square(d: int)
    requires
        -2 * COORD_LIMIT <= d <= 2 * COORD_LIMIT,
    ensures
        0 <= d * d <= 4 * COORD_LIMIT * COORD_LIMIT,
{
    assert(0 <= d * d <= 4 * COORD_LIMIT * COORD_LIMIT) by (nonlinear_arith)
        requires
            -2 * COORD_LIMIT <= d <= 2 * COORD_LIMIT,
    ;
}

/// The items of `points` strictly within `radius` of `center`, in their
/// order, found by checking every one.
pub fn brute_force_within_radius(points: &Vec<KdTreeItem>, center: &Vec2i, radius: i64) -> (r: Vec<
    KdTreeItem,
>)
    requires
        forall|i: int| 0 <= i < points@.len() ==> point_in_bounds(#[trigger] points@[i].point),
        point_in_bounds(*center),
        radius <= COORD_LIMIT,
    ensures
        r@ == points@.filter(in_radius_of(*center, radius as int)),
{
    let ghost pred = in_radius_of(*center, radius as int);
    let mut r: Vec<KdTreeItem> = Vec::new();
    let mut i: usize = 0;
    proof {
        reveal(Seq::filter);
        assert(points@.take(0) =~= Seq::<KdTreeItem>::empty());
    }
    while i < points.len()
        invariant
            i <= points@.len(),
            forall|j: int| 0 <= j < points@.len() ==> point_in_bounds(#[trigger] points@[j].point),
            point_in_bounds(*center),
            radius <= COORD_LIMIT,
            pred == in_radius_of(*center, radius as int),
            r@ == points@.take(i as int).filter(pred),
        decreases points@.len() - i,
    {
        let item = points[i];
        let inside = if radius > 0 {
            proof {
                lemma_diff_square(radius as int);
            }
            dist_sq_of(item.point, *center) < radius * radius
        } else {
            false
        };
        proof {
            reveal(Seq::filter);
            assert(points@.take(i + 1).drop_last() =~= points@.take(i as int));
            assert(points@.take(i + 1).last() == item);
        }
        if inside {
            r.push(item);
        }
        i = i + 1;
    }
    proof {
        assert(points@.take(points@.len() as int) =~= points@);
    }
    r
}

/// Filtering keeps each kept value as often as the sequence holds it.
proof fn lemma_filter_count<A>(s: Seq<A>, p: spec_fn(A) -> bool, x: A)
    ensures
        s.filter(p).to_multiset().count(x) == if p(x) {
            s.to_multiset().count(x)
        } else {
            0
        },
    decreases s.len(),
{
    broadcast use vstd::seq_lib::group_to_multiset_ensures;
    reveal(Seq::filter);
    if s.len() == 0 {
        assert(s.to_multiset().len() == 0);
        assert(s.filter(p).to_multiset().len() == 0);
    } else {
        let d = s.drop_last();
        lemma_filter_count(d, p, x);
        assert(s =~= d.push(s.last()));
        assert(s.to_multiset() =~= d.to_multiset().insert(s.last()));
        if p(s.last()) {
            assert(s.filter(p) == d.filter(p).push(s.last()));
        } else {
            assert(s.filter(p) == d.filter(p));
        }
    }
}

/// The index agrees with checking every point: a query on an index built from
/// `points` finds the same items, counted with multiplicity, as a brute-force
/// scan of `points` with the same center and radius.
pub proof fn lemma_index_matches_brute_force(
    points: Seq<KdTreeItem>,
    t: SpatialTree,
    center: Vec2i,
    radius: int,
    found: Seq<KdTreeItem>,
)
    requires
        tree_items(t) == points.to_multiset(),
        answers_within(found, tree_items(t), center, radius),
    ensures
        found.to_multiset() =~= points.filter(in_radius_of(center, radius)).to_multiset(),
{
    assert forall|item: KdTreeItem|
        found.to_multiset().count(item) == points.filter(in_radius_of(center, radius)).to_multiset().count(item) by {
        lemma_filter_count(points, in_radius_of(center, radius), item);
    }
}

/// An index built from no points answers every query with nothing.
pub proof fn lemma_empty_index_finds_nothing(
    t: SpatialTree,
    center: Vec2i,
    radius: int,
    found: Seq<KdTreeItem>,
)
    requires
        tree_items(t) == Multiset::<KdTreeItem>::empty(),
        answers_within(found, tree_items(t), center, radius),
    ensures
        found.len() == 0,
{
    broadcast use vstd::seq_lib::group_to_multiset_ensures;
    if found.len() > 0 {
        assert(found.contains(found[0]));
        assert(found.to_multiset().count(found[0]) > 0);
    }
}

/// What a query on a well-formed index finds lies within the coordinate bounds.
pub proof fn lemma_found_in_bounds(t: SpatialTree, center: Vec2i, radius: int, found: Seq<KdTreeItem>)
    requires
        t.wf(),
        answers_within(found, tree_items(t), center, radius),
    ensures
        forall|k: int| 0 <= k < found.len() ==> point_in_bounds(#[trigger] found[k].point),
{
    broadcast use vstd::seq_lib::group_to_multiset_ensures;
    assert forall|k: int| 0 <= k < found.len() implies point_in_bounds(#[trigger] found[k].point) by {
        assert(found.contains(found[k]));
        assert(found.to_multiset().count(found[k]) > 0);
    }
}

} // verus!

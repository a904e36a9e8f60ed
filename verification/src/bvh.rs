//! A bounding volume hierarchy: a binary tree over (object, box) pairs that
//! lets a ray query visit only the objects whose boxes it could plausibly
//! hit. Nodes live in one flat arena and refer to each other by index —
//! children always sit below their parent — so there is no self-referential
//! ownership. The tree prunes by box only: leaves are reported
//! unconditionally and exact geometry testing is the caller's job.

use vstd::prelude::*;
use vstd::multiset::Multiset;
use vstd::seq_lib::{
    lemma_multiset_commutative, to_multiset_build, to_multiset_contains, to_multiset_insert,
    to_multiset_remove,
};
use crate::aabb::{
    lemma_box_le_transitive, lemma_grow_contains, lemma_slab_monotone, spec_aabb_ordered,
    spec_box_le, spec_slab_hit, Aabb,
};
use crate::interval::Interval;
use crate::ray::Ray;
use crate::scene::ObjectId;

verus! {

/// Identifier for a node in the BVH: its arena position.
#[derive(Debug, Clone, Copy, PartialEq, Eq, Structural)]
pub(crate) struct NodeId(pub(crate) usize);

/// A node in the BVH. A leaf remembers, as ghost data, the bounding box it
/// was built from, so that the pruning guarantee can speak about it.
pub(crate) enum BvhNode {
    /// A leaf node containing an object ID.
    Leaf(ObjectId, Ghost<Aabb>),
    /// A branch node containing two child nodes and a bounding box that
    /// contains everything beneath them.
    Branch { left: NodeId, right: NodeId, bounding_box: Aabb },
}

/// A bounding volume hierarchy for a scene.
pub struct Bvh {
    /// The nodes in the BVH.
    pub(crate) nodes: Vec<BvhNode>,
    /// The root node of the BVH, absent when it was built over nothing.
    pub(crate) root: Option<NodeId>,
}

/// The (object, box) pairs at the leaves under a node.
pub(crate) open spec fn spec_subtree_pairs(nodes: Seq<BvhNode>, n: int) -> Multiset<
    (ObjectId, Aabb),
>
    decreases n,
{
    if 0 <= n < nodes.len() {
        match nodes[n] {
            BvhNode::Leaf(oid, gb) => Multiset::empty().insert((oid, gb@)),
            BvhNode::Branch { left, right, .. } => {
                if left.0 < n && right.0 < n {
                    spec_subtree_pairs(nodes, left.0 as int).add(
                        spec_subtree_pairs(nodes, right.0 as int),
                    )
                } else {
                    Multiset::empty()
                }
            },
        }
    } else {
        Multiset::empty()
    }
}

/// Structural and geometric well-formedness of the subtree at a node:
/// children sit strictly below their parent in the arena, and a branch's
/// box contains the box of every pair beneath it.
pub(crate) open spec fn spec_node_ok(nodes: Seq<BvhNode>, n: int) -> bool
    decreases n,
{
    &&& 0 <= n < nodes.len()
    &&& match nodes[n] {
        BvhNode::Leaf(..) => true,
        BvhNode::Branch { left, right, bounding_box } => {
            &&& left.0 < n
            &&& right.0 < n
            &&& spec_node_ok(nodes, left.0 as int)
            &&& spec_node_ok(nodes, right.0 as int)
            &&& forall|p: (ObjectId, Aabb)|
                #[trigger] spec_subtree_pairs(nodes, left.0 as int).contains(p) ==> spec_box_le(
                    p.1,
                    bounding_box,
                )
            &&& forall|p: (ObjectId, Aabb)|
                #[trigger] spec_subtree_pairs(nodes, right.0 as int).contains(p) ==> spec_box_le(
                    p.1,
                    bounding_box,
                )
        },
    }
}

/// A branch's stored box is not merely an upper bound of what lies beneath
/// it but the least one — exactly the grow-fold union of the boxes of the
/// pairs in its subtree.
pub(crate) open spec fn spec_node_boxes_exact(nodes: Seq<BvhNode>, n: int) -> bool
    decreases n,
{
    &&& 0 <= n < nodes.len()
    &&& match nodes[n] {
        BvhNode::Leaf(..) => true,
        BvhNode::Branch { left, right, bounding_box } => {
            &&& left.0 < n
            &&& right.0 < n
            &&& spec_node_boxes_exact(nodes, left.0 as int)
            &&& spec_node_boxes_exact(nodes, right.0 as int)
            &&& forall|b2: Aabb|
                #![trigger spec_box_le(bounding_box, b2)]
                (forall|p: (ObjectId, Aabb)|
                    #[trigger] spec_subtree_pairs(nodes, n).contains(p) ==> spec_box_le(p.1, b2))
                    ==> spec_box_le(bounding_box, b2)
        },
    }
}

/// Every branch box of the hierarchy is exactly the union of the boxes
/// beneath it: together with the containment half of well-formedness, the
/// stored boxes are the grow-folds the build computes.
pub closed spec fn spec_bvh_boxes_exact(b: Bvh) -> bool {
    match b.root {
        None => true,
        Some(r) => spec_node_boxes_exact(b.nodes@, r.0 as int),
    }
}

/// The number of nodes in the subtree at a node; the measure of the
/// traversal.
pub(crate) open spec fn spec_subtree_size(nodes: Seq<BvhNode>, n: int) -> nat
    decreases n,
{
    if 0 <= n < nodes.len() {
        match nodes[n] {
            BvhNode::Leaf(..) => 1,
            BvhNode::Branch { left, right, .. } => {
                if left.0 < n && right.0 < n {
                    1 + spec_subtree_size(nodes, left.0 as int) + spec_subtree_size(
                        nodes,
                        right.0 as int,
                    )
                } else {
                    1
                }
            },
        }
    } else {
        1
    }
}

/// The sum of subtree sizes over a traversal stack.
pub(crate) open spec fn spec_stack_size(nodes: Seq<BvhNode>, s: Seq<NodeId>) -> nat
    decreases s.len(),
{
    if s.len() == 0 {
        0
    } else {
        spec_stack_size(nodes, s.drop_last()) + spec_subtree_size(nodes, s.last().0 as int)
    }
}

/// The number of leaf nodes in the arena.
pub(crate) open spec fn spec_count_leaves(nodes: Seq<BvhNode>) -> int
    decreases nodes.len(),
{
    if nodes.len() == 0 {
        0
    } else {
        spec_count_leaves(nodes.drop_last()) + if nodes.last() is Leaf {
            1int
        } else {
            0int
        }
    }
}

/// How many nodes the hierarchy's arena holds.
pub closed spec fn spec_bvh_node_count(b: Bvh) -> int {
    b.nodes@.len() as int
}

/// How many of the arena's nodes are leaves; the rest are branches.
pub closed spec fn spec_bvh_leaf_count(b: Bvh) -> int {
    spec_count_leaves(b.nodes@)
}

/// The hierarchy is well formed: its root, if any, heads a well-formed
/// subtree.
pub closed spec fn spec_bvh_wf(b: Bvh) -> bool {
    match b.root {
        None => true,
        Some(r) => spec_node_ok(b.nodes@, r.0 as int),
    }
}

/// The (object, box) pairs the hierarchy was built over.
pub closed spec fn spec_bvh_pairs(b: Bvh) -> Multiset<(ObjectId, Aabb)> {
    match b.root {
        None => Multiset::empty(),
        Some(r) => spec_subtree_pairs(b.nodes@, r.0 as int),
    }
}

/// The multiset of an empty sequence is empty.
proof fn lemma_empty_to_multiset<A>()
    ensures
        Seq::<A>::empty().to_multiset() =~= Multiset::<A>::empty(),
{
    broadcast use vstd::multiset::group_multiset_axioms;

    assert forall|x: A| Seq::<A>::empty().to_multiset().count(x) == 0 by {
        to_multiset_contains(Seq::<A>::empty(), x);
        assert(!Seq::<A>::empty().contains(x));
    }
}

/// The bounding box stored at the root, when the root is a branch; a
/// hierarchy over a single pair has a leaf root and no box of its own.
pub closed spec fn spec_bvh_root_box(b: Bvh) -> Option<Aabb> {
    match b.root {
        None => None,
        Some(r) => if 0 <= r.0 < b.nodes@.len() {
            match b.nodes@[r.0 as int] {
                BvhNode::Leaf(..) => None,
                BvhNode::Branch { bounding_box, .. } => Some(bounding_box),
            }
        } else {
            None
        },
    }
}

/// The exact pruning semantics of a traversal rooted at a node: a pair is
/// visited when it sits at a leaf every branch box above which — this
/// node's included — passes the slab test. A leaf itself is visited
/// unconditionally.
pub(crate) open spec fn spec_node_visits(
    nodes: Seq<BvhNode>,
    n: int,
    ray: Ray,
    time: Interval,
    p: (ObjectId, Aabb),
) -> bool
    decreases n,
{
    &&& 0 <= n < nodes.len()
    &&& match nodes[n] {
        BvhNode::Leaf(oid, gb) => p == (oid, gb@),
        BvhNode::Branch { left, right, bounding_box } => {
            &&& left.0 < n
            &&& right.0 < n
            &&& spec_slab_hit(bounding_box, ray, time)
            &&& (spec_node_visits(nodes, left.0 as int, ray, time, p) || spec_node_visits(
                nodes,
                right.0 as int,
                ray,
                time,
            p))
        },
    }
}

/// Whether the traversal of the whole hierarchy visits this pair: it sits
/// at a leaf all of whose enclosing branch boxes pass the slab test.
pub closed spec fn spec_bvh_visits(b: Bvh, ray: Ray, time: Interval, p: (ObjectId, Aabb)) -> bool {
    match b.root {
        None => false,
        Some(r) => spec_node_visits(b.nodes@, r.0 as int, ray, time, p),
    }
}

/// Whether some visited pair carries the given object id.
pub open spec fn spec_visits_carry(b: Bvh, ray: Ray, time: Interval, id: ObjectId) -> bool {
    exists|p: (ObjectId, Aabb)| #[trigger] spec_bvh_visits(b, ray, time, p) && p.0 == id
}

/// Whether no pair of the collection repeats and no two pairs share an
/// object id: the shape of a collection built over one scene's objects.
pub open spec fn spec_pairs_ids_distinct(ms: Multiset<(ObjectId, Aabb)>) -> bool {
    &&& forall|p: (ObjectId, Aabb), q: (ObjectId, Aabb)|
        #![trigger ms.contains(p), ms.contains(q)]
        ms.contains(p) && ms.contains(q) && p.0 == q.0 ==> p == q
    &&& forall|p: (ObjectId, Aabb)| #[trigger] ms.count(p) <= 1
}

/// The pairs waiting under all stacked subtrees, with multiplicity.
pub(crate) open spec fn spec_stack_pairs(nodes: Seq<BvhNode>, s: Seq<NodeId>) -> Multiset<
    (ObjectId, Aabb),
>
    decreases s.len(),
{
    if s.len() == 0 {
        Multiset::empty()
    } else {
        spec_stack_pairs(nodes, s.drop_last()).add(
            spec_subtree_pairs(nodes, s.last().0 as int),
        )
    }
}

/// Appending one node adds one leaf to the count exactly when it is a
/// leaf.
proof fn lemma_push_count_leaves(nodes: Seq<BvhNode>, node: BvhNode)
    ensures
        spec_count_leaves(nodes.push(node)) == spec_count_leaves(nodes) + if node is Leaf {
            1int
        } else {
            0int
        },
{
    assert(nodes.push(node).drop_last() =~= nodes);
    assert(nodes.push(node).last() == node);
}

/// A sequence that repeats a value at two positions counts it at least
/// twice.
proof fn lemma_seq_count_two<A>(s: Seq<A>, k: int, l: int)
    requires
        0 <= k < l < s.len(),
        s[k] == s[l],
    ensures
        s.to_multiset().count(s[k]) >= 2,
{
    broadcast use vstd::multiset::group_multiset_axioms;

    to_multiset_remove(s, l);
    s.remove_ensures(l);
    assert(s.remove(l)[k] == s[k]);
    assert(s.remove(l).contains(s[k]));
    to_multiset_contains(s.remove(l), s[k]);
}

/// Whether some pair of the collection carries the given object id.
pub open spec fn spec_pairs_carry(ms: Multiset<(ObjectId, Aabb)>, id: ObjectId) -> bool {
    exists|p: (ObjectId, Aabb)| #[trigger] ms.contains(p) && p.0 == id
}

/// Whether an id has been recorded in the candidate list.
pub open spec fn spec_id_recorded(ids: Seq<ObjectId>, id: ObjectId) -> bool {
    exists|k: int| 0 <= k < ids.len() && ids[k] == id
}

/// Whether a pair still waits under some stacked subtree.
spec fn spec_in_stack(nodes: Seq<BvhNode>, s: Seq<NodeId>, p: (ObjectId, Aabb)) -> bool {
    exists|k: int| 0 <= k < s.len() && #[trigger] spec_subtree_pairs(nodes, s[k].0 as int).contains(
        p,
    )
}

/// Whether some stacked subtree's traversal still visits the pair.
spec fn spec_visits_in_stack(
    nodes: Seq<BvhNode>,
    s: Seq<NodeId>,
    ray: Ray,
    time: Interval,
    p: (ObjectId, Aabb),
) -> bool {
    exists|k: int|
        0 <= k < s.len() && #[trigger] spec_node_visits(nodes, s[k].0 as int, ray, time, p)
}

/// Appending nodes to the arena changes nothing about existing subtrees.
proof fn lemma_subtree_frame(n1: Seq<BvhNode>, n2: Seq<BvhNode>, n: int)
    requires
        n1.len() <= n2.len(),
        forall|i: int| 0 <= i < n1.len() ==> n2[i] == n1[i],
        0 <= n < n1.len(),
    ensures
        spec_subtree_pairs(n2, n) == spec_subtree_pairs(n1, n),
        spec_node_ok(n2, n) == spec_node_ok(n1, n),
        spec_subtree_size(n2, n) == spec_subtree_size(n1, n),
        spec_node_boxes_exact(n2, n) == spec_node_boxes_exact(n1, n),
    decreases n,
{
    match n1[n] {
        BvhNode::Leaf(..) => {},
        BvhNode::Branch { left, right, .. } => {
            if left.0 < n && right.0 < n {
                lemma_subtree_frame(n1, n2, left.0 as int);
                lemma_subtree_frame(n1, n2, right.0 as int);
            }
        },
    }
}

/// The key the builder sorts by: the start of a pair's box along an axis.
pub(crate) open spec fn spec_pair_key(p: (ObjectId, Aabb), axis: int) -> i64 {
    crate::aabb::spec_aabb_axis(p.1, axis).start
}

fn pair_key(p: &(ObjectId, Aabb), axis: usize) -> (k: i64)
    requires
        axis < 3,
    ensures
        k == spec_pair_key(*p, axis as int),
{
    p.1.component(axis).start
}

/// The range `[lo, hi)` of the sequence is ordered by key.
pub(crate) open spec fn spec_sorted_by_key(
    s: Seq<(ObjectId, Aabb)>,
    axis: int,
    lo: int,
    hi: int,
) -> bool {
    forall|m: int, n: int|
        lo <= m <= n < hi ==> spec_pair_key(#[trigger] s[m], axis) <= spec_pair_key(
            #[trigger] s[n],
            axis,
        )
}

/// Sorts pairs by the start of their box along an axis, by stable
/// insertion: afterwards the range is ordered by that key, and the pairs
/// are exactly the pairs before.
fn sort_pairs(v: &mut Vec<(ObjectId, Aabb)>, axis: usize)
    requires
        axis < 3,
    ensures
        final(v)@.len() == old(v)@.len(),
        final(v)@.to_multiset() == old(v)@.to_multiset(),
        spec_sorted_by_key(final(v)@, axis as int, 0, final(v)@.len() as int),
{
    let mut i: usize = 1;
    while i < v.len()
        invariant
            axis < 3,
            i >= 1,
            v@.len() == old(v)@.len(),
            v@.to_multiset() == old(v)@.to_multiset(),
            spec_sorted_by_key(v@, axis as int, 0, i as int),
        decreases v@.len() - i,
    {
        let x = v[i];
        let mut pos: usize = i;
        while pos > 0 && pair_key(&v[pos - 1], axis) > pair_key(&x, axis)
            invariant
                axis < 3,
                pos <= i < v@.len(),
                x == v@[i as int],
                forall|m: int|
                    pos <= m < i ==> spec_pair_key(#[trigger] v@[m], axis as int)
                        > spec_pair_key(x, axis as int),
            decreases pos,
        {
            pos = pos - 1;
        }
        if pos < i {
            let ghost before = v@;
            let moved = v.remove(i);
            v.insert(pos, moved);
            proof {
                broadcast use vstd::multiset::group_multiset_axioms;

                to_multiset_remove(before, i as int);
                to_multiset_insert(before.remove(i as int), pos as int, moved);
                to_multiset_contains(before, moved);
                assert(before.contains(moved));
                assert(v@.to_multiset() =~= before.to_multiset());

                // The element landed between its lower and higher
                // neighbors, so the prefix stays ordered.
                before.remove_ensures(i as int);
                before.remove(i as int).insert_ensures(pos as int, moved);
                assert forall|m: int, n: int|
                    0 <= m <= n < i + 1 implies spec_pair_key(#[trigger] v@[m], axis as int)
                    <= spec_pair_key(#[trigger] v@[n], axis as int) by {
                    assert(forall|k: int| 0 <= k < pos ==> #[trigger] v@[k] == before[k]);
                    assert(v@[pos as int] == moved);
                    assert(forall|k: int|
                        pos < k < i + 1 ==> #[trigger] v@[k] == before[k - 1]);
                }
            }
        }
        i = i + 1;
    }
    proof {
        if v@.len() == 0 {
            assert(spec_sorted_by_key(v@, axis as int, 0, 0));
        }
    }
}

/// The box containing every box in a range of pairs, folded with `grow`
/// from the empty box. It is the least such box: anything containing every
/// box of the range contains the fold.
fn fold_boxes(items: &Vec<(ObjectId, Aabb)>, start: usize, end: usize) -> (bb: Aabb)
    requires
        start <= end <= items@.len(),
    ensures
        forall|k: int| start <= k < end ==> spec_box_le(#[trigger] items@[k].1, bb),
        forall|b2: Aabb|
            #![trigger spec_box_le(bb, b2)]
            (forall|k: int| start <= k < end ==> spec_box_le(#[trigger] items@[k].1, b2))
                ==> spec_box_le(bb, b2),
{
    let mut bb = Aabb::empty();
    let mut i: usize = start;
    while i < end
        invariant
            start <= i <= end <= items@.len(),
            forall|k: int| start <= k < i ==> spec_box_le(#[trigger] items@[k].1, bb),
            forall|b2: Aabb|
                #![trigger spec_box_le(bb, b2)]
                (forall|k: int| start <= k < i ==> spec_box_le(#[trigger] items@[k].1, b2))
                    ==> spec_box_le(bb, b2),
        decreases end - i,
    {
        let ghost prev = bb;
        bb.grow(&items[i].1);
        proof {
            lemma_grow_contains(prev, items@[i as int].1);
            assert forall|k: int| start <= k < i + 1 implies spec_box_le(
                #[trigger] items@[k].1,
                bb,
            ) by {
                if k < i {
                    lemma_box_le_transitive(items@[k].1, prev, bb);
                }
            }
            assert forall|b2: Aabb|
                (forall|k: int| start <= k < i + 1 ==> spec_box_le(#[trigger] items@[k].1, b2))
                implies #[trigger] spec_box_le(bb, b2) by {
                assert(spec_box_le(prev, b2));
                crate::aabb::lemma_grow_least(prev, items@[i as int].1, b2);
            }
        }
        i = i + 1;
    }
    bb
}

impl Bvh {
    /// Creates a new bounding volume hierarchy for the given objects and
    /// their bounding boxes. An empty input produces a hierarchy with no
    /// root, which reports no candidates for any ray.
    pub fn new(objects: Vec<(ObjectId, Aabb)>) -> (r: Bvh)
        ensures
            spec_bvh_wf(r),
            spec_bvh_pairs(r) == objects@.to_multiset(),
            spec_bvh_boxes_exact(r),
            objects@.len() == 0 ==> spec_bvh_node_count(r) == 0,
            objects@.len() > 0 ==> spec_bvh_node_count(r) == 2 * objects@.len() - 1
                && spec_bvh_leaf_count(r) == objects@.len(),
    {
        let mut objects = objects;
        let ghost input = objects@;
        let mut nodes: Vec<BvhNode> = Vec::new();

        let mut root: Option<NodeId> = None;
        if objects.len() > 0 {
            let object_count = objects.len();

            // Recursively build the BVH tree
            root = Some(Self::build_tree(&mut nodes, &mut objects, 0, object_count));
            proof {
                assert(input.subrange(0, input.len() as int) =~= input);
            }
        } else {
            proof {
                assert(input =~= Seq::empty());
                lemma_empty_to_multiset::<(ObjectId, Aabb)>();
            }
        }

        Bvh { nodes, root }
    }

    /// Builds the subtree for the pair range `[start, end)`: a single pair
    /// becomes a leaf; a longer range is sorted along the widest axis of
    /// its overall box, split at the middle, and built on both sides.
    /// Returns the id of the created node, which is the arena's new top.
    fn build_tree(
        nodes: &mut Vec<BvhNode>,
        objects: &mut Vec<(ObjectId, Aabb)>,
        start: usize,
        end: usize,
    ) -> (nid: NodeId)
        requires
            start < end <= old(objects)@.len(),
        ensures
            final(objects)@.len() == old(objects)@.len(),
            forall|k: int|
                (0 <= k < start || end <= k < old(objects)@.len()) ==> final(objects)@[k]
                    == old(objects)@[k],
            final(objects)@.subrange(start as int, end as int).to_multiset() == old(
                objects,
            )@.subrange(start as int, end as int).to_multiset(),
            final(nodes)@.len() == old(nodes)@.len() + 2 * (end - start) - 1,
            spec_count_leaves(final(nodes)@) == spec_count_leaves(old(nodes)@) + (end - start),
            forall|i: int| 0 <= i < old(nodes)@.len() ==> final(nodes)@[i] == old(nodes)@[i],
            nid.0 == final(nodes)@.len() - 1,
            spec_node_ok(final(nodes)@, nid.0 as int),
            spec_node_boxes_exact(final(nodes)@, nid.0 as int),
            spec_subtree_pairs(final(nodes)@, nid.0 as int) == old(objects)@.subrange(
                start as int,
                end as int,
            ).to_multiset(),
        decreases end - start,
    {
        let span = end - start;

        if span == 1 {
            // Create a leaf node
            let (object_id, bb) = objects[start];
            let node = BvhNode::Leaf(object_id, Ghost(bb));
            nodes.push(node);
            proof {
                broadcast use to_multiset_build;

                let sub = objects@.subrange(start as int, end as int);
                assert(sub =~= Seq::empty().push((object_id, bb)));
                lemma_push_count_leaves(old(nodes)@, node);
                lemma_empty_to_multiset::<(ObjectId, Aabb)>();
                assert(sub.to_multiset() =~= Multiset::empty().insert((object_id, bb)));
                let n = nodes@.len() - 1;
                assert(nodes@[n] == BvhNode::Leaf(object_id, Ghost(bb)));
                assert(spec_subtree_pairs(nodes@, n) == Multiset::empty().insert(
                    (object_id, bb),
                ));
                assert(spec_node_ok(nodes@, n));
                assert(spec_node_boxes_exact(nodes@, n));
            }
            NodeId(nodes.len() - 1)
        } else {
            // Calculate the bounding box containing all objects in range
            let bounding_box = fold_boxes(objects, start, end);

            // Find the axis with the largest extent
            let axis = bounding_box.largest_axis();

            // Sort the objects in range based on that axis
            Self::sort_range(objects, start, end, axis);

            let ghost sorted = objects@;
            proof {
                // Containment carries from positions to the sorted range's
                // multiset of pairs.
                assert forall|p: (ObjectId, Aabb)|
                    #[trigger] sorted.subrange(start as int, end as int).to_multiset().contains(
                        p,
                    ) implies spec_box_le(p.1, bounding_box) by {
                    let pre = old(objects)@.subrange(start as int, end as int);
                    let cur = sorted.subrange(start as int, end as int);
                    to_multiset_contains(cur, p);
                    to_multiset_contains(pre, p);
                    assert(pre.contains(p));
                    let j = choose|j: int| 0 <= j < pre.len() && pre[j] == p;
                    assert(old(objects)@[start + j] == p);
                }
            }

            // Split the objects into two groups
            let mid = start + span / 2;

            // Create the sub nodes
            let left = Self::build_tree(nodes, objects, start, mid);
            let ghost nodes2 = nodes@;
            let ghost state2 = objects@;
            let right = Self::build_tree(nodes, objects, mid, end);
            let ghost nodes3 = nodes@;
            let ghost state3 = objects@;

            proof {
                broadcast use vstd::multiset::group_multiset_axioms;

                // The left subtree is untouched by building the right one.
                lemma_subtree_frame(nodes2, nodes3, left.0 as int);
                assert(state3.subrange(start as int, mid as int) =~= state2.subrange(
                    start as int,
                    mid as int,
                ));
                assert(state2.subrange(mid as int, end as int) =~= sorted.subrange(
                    mid as int,
                    end as int,
                ));
            }

            // Create the branch node
            nodes.push(BvhNode::Branch { left, right, bounding_box });

            proof {
                broadcast use vstd::multiset::group_multiset_axioms;

                lemma_push_count_leaves(nodes3, BvhNode::Branch { left, right, bounding_box });
                let nodes4 = nodes@;
                let n = nodes4.len() - 1;
                lemma_subtree_frame(nodes3, nodes4, left.0 as int);
                lemma_subtree_frame(nodes3, nodes4, right.0 as int);

                let ms_left = sorted.subrange(start as int, mid as int).to_multiset();
                let ms_right = sorted.subrange(mid as int, end as int).to_multiset();
                let ms_all = sorted.subrange(start as int, end as int).to_multiset();
                assert(sorted.subrange(start as int, end as int) =~= sorted.subrange(
                    start as int,
                    mid as int,
                ) + sorted.subrange(mid as int, end as int));
                lemma_multiset_commutative(
                    sorted.subrange(start as int, mid as int),
                    sorted.subrange(mid as int, end as int),
                );
                assert(ms_all == ms_left.add(ms_right));

                assert(spec_subtree_pairs(nodes4, left.0 as int) == ms_left);
                assert(spec_subtree_pairs(nodes4, right.0 as int) == ms_right);
                assert(nodes4[n] == BvhNode::Branch { left, right, bounding_box });
                assert(spec_subtree_pairs(nodes4, n) == ms_left.add(ms_right));
                assert forall|p: (ObjectId, Aabb)|
                    #[trigger] spec_subtree_pairs(nodes4, left.0 as int).contains(p)
                    implies spec_box_le(p.1, bounding_box) by {
                    assert(ms_all.contains(p));
                }
                assert forall|p: (ObjectId, Aabb)|
                    #[trigger] spec_subtree_pairs(nodes4, right.0 as int).contains(p)
                    implies spec_box_le(p.1, bounding_box) by {
                    assert(ms_all.contains(p));
                }
                assert(spec_node_ok(nodes4, n as int));

                // The branch box is the least box over its subtree: any box
                // over the subtree's pairs covers every pair of the range
                // the fold ran over, so it covers the fold.
                assert forall|b2: Aabb|
                    (forall|p: (ObjectId, Aabb)|
                        #[trigger] spec_subtree_pairs(nodes4, n).contains(p) ==> spec_box_le(
                            p.1,
                            b2,
                        )) implies #[trigger] spec_box_le(bounding_box, b2) by {
                    let pre = old(objects)@;
                    assert forall|k: int|
                        start <= k < end implies spec_box_le(#[trigger] pre[k].1, b2) by {
                        let sub = pre.subrange(start as int, end as int);
                        assert(sub[k - start] == pre[k]);
                        assert(sub.contains(pre[k]));
                        to_multiset_contains(sub, pre[k]);
                        assert(ms_all.contains(pre[k]));
                        assert(spec_subtree_pairs(nodes4, n).contains(pre[k]));
                    }
                }
                assert(spec_node_boxes_exact(nodes4, n as int));

                // The final contents of the range carry the same pairs.
                assert(state3.subrange(start as int, end as int) =~= state3.subrange(
                    start as int,
                    mid as int,
                ) + state3.subrange(mid as int, end as int));
                lemma_multiset_commutative(
                    state3.subrange(start as int, mid as int),
                    state3.subrange(mid as int, end as int),
                );
                assert(state3.subrange(start as int, mid as int).to_multiset() == ms_left);
                assert(state3.subrange(mid as int, end as int).to_multiset() == ms_right);
            }
            NodeId(nodes.len() - 1)
        }
    }

    /// Sorts the pair range `[start, end)` along an axis; pairs outside the
    /// range stay put, and inside it only the order changes.
    fn sort_range(objects: &mut Vec<(ObjectId, Aabb)>, start: usize, end: usize, axis: usize)
        requires
            axis < 3,
            start <= end <= old(objects)@.len(),
        ensures
            final(objects)@.len() == old(objects)@.len(),
            forall|k: int|
                (0 <= k < start || end <= k < old(objects)@.len()) ==> final(objects)@[k]
                    == old(objects)@[k],
            final(objects)@.subrange(start as int, end as int).to_multiset() == old(
                objects,
            )@.subrange(start as int, end as int).to_multiset(),
    {
        // Copy the range out, sort the copy, and write it back.
        let mut chunk: Vec<(ObjectId, Aabb)> = Vec::new();
        let mut k = start;
        while k < end
            invariant
                start <= k <= end <= objects@.len(),
                chunk@ =~= objects@.subrange(start as int, k as int),
            decreases end - k,
        {
            chunk.push(objects[k]);
            proof {
                assert(chunk@ =~= objects@.subrange(start as int, k as int + 1));
            }
            k = k + 1;
        }

        sort_pairs(&mut chunk, axis);

        let mut k: usize = 0;
        while k < chunk.len()
            invariant
                chunk@.len() == end - start,
                start <= end <= objects@.len(),
                k <= chunk@.len(),
                objects@.len() == old(objects)@.len(),
                forall|j: int|
                    (0 <= j < start || end <= j < objects@.len()) ==> objects@[j] == old(
                        objects,
                    )@[j],
                forall|j: int| 0 <= j < k ==> objects@[start + j] == #[trigger] chunk@[j],
                forall|j: int|
                    k <= j < chunk@.len() ==> #[trigger] objects@[start + j] == old(
                        objects,
                    )@[start + j],
            decreases chunk@.len() - k,
        {
            objects.set(start + k, chunk[k]);
            k = k + 1;
        }
        proof {
            assert(objects@.subrange(start as int, end as int) =~= chunk@);
        }
    }

    /// Checks for intersections between the ray and the boxes in the
    /// hierarchy, over an explicit stack. A branch's children are explored
    /// only when the branch's box passes the slab test — a root box the ray
    /// misses prunes everything — while a leaf's object is recorded
    /// unconditionally: exact geometry is the caller's job. Returns the
    /// candidate object ids, in no guaranteed order, or nothing when no
    /// candidate was reached. Every recorded id comes from a pair of the
    /// build input and, when those pairs were distinct, appears at most
    /// once; every pair whose box is a real box that the ray meets inside
    /// the interval is recorded.
    pub fn hit(&self, ray: &Ray, time: Interval) -> (r: Option<Vec<ObjectId>>)
        requires
            spec_bvh_wf(*self),
        ensures
            r matches Some(ids) ==> ids@.len() > 0,
            r matches Some(ids) ==> forall|k: int|
                0 <= k < ids@.len() ==> spec_pairs_carry(spec_bvh_pairs(*self), #[trigger] ids@[k]),
            forall|p: (ObjectId, Aabb)|
                #![trigger spec_bvh_pairs(*self).contains(p)]
                spec_bvh_pairs(*self).contains(p) && spec_aabb_ordered(p.1) && spec_slab_hit(
                    p.1,
                    *ray,
                    time,
                ) ==> (r matches Some(ids) && spec_id_recorded(ids@, p.0)),
            (spec_bvh_root_box(*self) matches Some(bb) && !spec_slab_hit(bb, *ray, time)) ==> r
                is None,
            r matches Some(ids) ==> forall|k: int|
                0 <= k < ids@.len() ==> spec_visits_carry(*self, *ray, time, #[trigger] ids@[k]),
            forall|p: (ObjectId, Aabb)|
                #![trigger spec_bvh_visits(*self, *ray, time, p)]
                spec_bvh_visits(*self, *ray, time, p) ==> (r matches Some(ids)
                    && spec_id_recorded(ids@, p.0)),
            spec_pairs_ids_distinct(spec_bvh_pairs(*self)) ==> (r matches Some(ids)
                ==> forall|k: int, l: int|
                    #![trigger ids@[k], ids@[l]]
                    0 <= k < l < ids@.len() ==> ids@[k] != ids@[l]),
    {
        let mut hit_objects: Vec<ObjectId> = Vec::new();
        let ghost all = spec_bvh_pairs(*self);
        let ghost mut rec: Seq<(ObjectId, Aabb)> = Seq::empty();

        // Start at the root node or return early if there is no root node
        let mut stack: Vec<NodeId> = Vec::new();
        match self.root {
            None => {
                proof {
                    broadcast use vstd::multiset::group_multiset_axioms;

                    assert(forall|p: (ObjectId, Aabb)| !spec_bvh_pairs(*self).contains(p));
                    assert(forall|p: (ObjectId, Aabb)| !spec_bvh_visits(*self, *ray, time, p));
                }
                return None;
            },
            Some(r) => {
                stack.push(r);
                proof {
                    broadcast use vstd::multiset::group_multiset_axioms;

                    assert(stack@.len() == 1 && stack@[0] == r);
                    assert(spec_subtree_pairs(self.nodes@, stack@[0].0 as int) == all);
                    assert forall|p: (ObjectId, Aabb)| #[trigger] all.contains(p)
                        implies spec_in_stack(self.nodes@, stack@, p) by {
                        assert(spec_subtree_pairs(self.nodes@, stack@[0].0 as int).contains(p));
                    }
                    assert forall|p: (ObjectId, Aabb)|
                        #[trigger] spec_bvh_visits(*self, *ray, time, p)
                        implies spec_visits_in_stack(self.nodes@, stack@, *ray, time, p) by {
                        assert(spec_node_visits(self.nodes@, stack@[0].0 as int, *ray, time, p));
                    }
                    lemma_empty_to_multiset::<(ObjectId, Aabb)>();
                    assert(stack@.drop_last().len() == 0);
                    assert(spec_stack_pairs(self.nodes@, stack@.drop_last())
                        == Multiset::<(ObjectId, Aabb)>::empty());
                    assert(stack@.last() == r);
                    assert(spec_stack_pairs(self.nodes@, stack@)
                        == Multiset::<(ObjectId, Aabb)>::empty().add(all));
                    assert(spec_stack_pairs(self.nodes@, stack@) =~= all);
                }
            },
        }

        while stack.len() > 0
            invariant
                spec_bvh_wf(*self),
                all == spec_bvh_pairs(*self),
                forall|k: int|
                    0 <= k < stack@.len() ==> spec_node_ok(
                        self.nodes@,
                        #[trigger] stack@[k].0 as int,
                    ),
                forall|k: int, p: (ObjectId, Aabb)|
                    0 <= k < stack@.len() && #[trigger] spec_subtree_pairs(
                        self.nodes@,
                        stack@[k].0 as int,
                    ).contains(p) ==> all.contains(p),
                forall|k: int|
                    0 <= k < hit_objects@.len() ==> spec_pairs_carry(
                        all,
                        #[trigger] hit_objects@[k],
                    ),
                forall|p: (ObjectId, Aabb)|
                    #![trigger all.contains(p)]
                    all.contains(p) && spec_aabb_ordered(p.1) && spec_slab_hit(p.1, *ray, time)
                        ==> spec_id_recorded(hit_objects@, p.0) || spec_in_stack(
                        self.nodes@,
                        stack@,
                        p,
                    ),
                rec.len() == hit_objects@.len(),
                forall|k: int| 0 <= k < rec.len() ==> (#[trigger] rec[k]).0 == hit_objects@[k],
                forall|p: (ObjectId, Aabb)|
                    #[trigger] rec.to_multiset().count(p) + spec_stack_pairs(
                        self.nodes@,
                        stack@,
                    ).count(p) <= all.count(p),
                (spec_bvh_root_box(*self) matches Some(bb) && !spec_slab_hit(bb, *ray, time))
                    ==> (hit_objects@.len() == 0 && (stack@.len() == 0 || (stack@.len() == 1
                    && self.root == Some(stack@[0])))),
                forall|k: int, p: (ObjectId, Aabb)|
                    0 <= k < stack@.len() && #[trigger] spec_node_visits(
                        self.nodes@,
                        stack@[k].0 as int,
                        *ray,
                        time,
                        p,
                    ) ==> spec_bvh_visits(*self, *ray, time, p),
                forall|k: int|
                    0 <= k < hit_objects@.len() ==> spec_visits_carry(
                        *self,
                        *ray,
                        time,
                        #[trigger] hit_objects@[k],
                    ),
                forall|p: (ObjectId, Aabb)|
                    #![trigger spec_bvh_visits(*self, *ray, time, p)]
                    spec_bvh_visits(*self, *ray, time, p) ==> spec_id_recorded(
                        hit_objects@,
                        p.0,
                    ) || spec_visits_in_stack(self.nodes@, stack@, *ray, time, p),
            decreases spec_stack_size(self.nodes@, stack@),
        {
            broadcast use vstd::multiset::group_multiset_axioms;

            let ghost stack1 = stack@;
            let ghost hits1 = hit_objects@;
            let node_id = stack.pop().unwrap();
            proof {
                assert(spec_node_ok(self.nodes@, stack1[stack1.len() - 1].0 as int));
                assert(stack@ =~= stack1.drop_last());
                assert(stack1.last() == node_id);
                assert(spec_stack_size(self.nodes@, stack1) == spec_stack_size(
                    self.nodes@,
                    stack@,
                ) + spec_subtree_size(self.nodes@, node_id.0 as int));
            }
            let ghost n = node_id.0 as int;
            let ghost popped = spec_subtree_pairs(self.nodes@, n);
            proof {
                assert(spec_stack_pairs(self.nodes@, stack1) == spec_stack_pairs(
                    self.nodes@,
                    stack@,
                ).add(popped));
            }

            match &self.nodes[node_id.0] {
                BvhNode::Leaf(object_id, gb) => {
                    hit_objects.push(*object_id);
                    let ghost rec1 = rec;
                    proof {
                        rec = rec1.push((*object_id, gb@));
                        assert(popped == Multiset::empty().insert((*object_id, gb@)));
                        assert(popped.contains((*object_id, gb@)));
                        assert(all.contains((*object_id, gb@)));
                        assert(hit_objects@[hits1.len() as int] == *object_id);
                        // Every pair of the popped leaf is the leaf's own
                        // pair, which is now recorded.
                        assert forall|p: (ObjectId, Aabb)| #[trigger]
                            popped.contains(p) implies p == (*object_id, gb@) by {
                            assert(Multiset::empty().insert((*object_id, gb@)).count(p) > 0);
                        }
                        assert(spec_subtree_size(self.nodes@, n) == 1);

                        assert forall|k: int|
                            0 <= k < hit_objects@.len() implies spec_pairs_carry(
                            all,
                            #[trigger] hit_objects@[k],
                        ) by {
                            if k < hits1.len() {
                                assert(hit_objects@[k] == hits1[k]);
                            } else {
                                let w = (*object_id, gb@);
                                assert(all.contains(w) && w.0 == hit_objects@[k]);
                            }
                        }
                        assert forall|p: (ObjectId, Aabb)|
                            #[trigger] all.contains(p) && spec_aabb_ordered(p.1) && spec_slab_hit(
                                p.1,
                                *ray,
                                time,
                            ) implies spec_id_recorded(hit_objects@, p.0) || spec_in_stack(
                            self.nodes@,
                            stack@,
                            p,
                        ) by {
                            if spec_id_recorded(hits1, p.0) {
                                let k = choose|k: int| 0 <= k < hits1.len() && hits1[k] == p.0;
                                assert(hit_objects@[k] == p.0);
                            } else if spec_in_stack(self.nodes@, stack1, p) {
                                let k = choose|k: int|
                                    0 <= k < stack1.len() && #[trigger] spec_subtree_pairs(
                                        self.nodes@,
                                        stack1[k].0 as int,
                                    ).contains(p);
                                if k < stack1.len() - 1 {
                                    assert(stack@[k] == stack1[k]);
                                    assert(spec_subtree_pairs(
                                        self.nodes@,
                                        stack@[k].0 as int,
                                    ).contains(p));
                                } else {
                                    assert(popped.contains(p));
                                    assert(hit_objects@[hits1.len() as int] == p.0);
                                }
                            }
                        }

                        // Bookkeeping: the leaf's pair moved from the stack
                        // side to the recorded side.
                        let pair = (*object_id, gb@);
                        assert(rec.to_multiset() =~= rec1.to_multiset().insert(pair)) by {
                            to_multiset_build(rec1, pair);
                        }
                        assert forall|p: (ObjectId, Aabb)|
                            #[trigger] rec.to_multiset().count(p) + spec_stack_pairs(
                                self.nodes@,
                                stack@,
                            ).count(p) <= all.count(p) by {
                            assert(spec_stack_pairs(self.nodes@, stack1).count(p)
                                == spec_stack_pairs(self.nodes@, stack@).count(p)
                                + popped.count(p));
                            if p != pair {
                                assert(popped.count(p) == 0);
                                assert(rec.to_multiset().count(p) == rec1.to_multiset().count(p));
                            } else {
                                assert(popped.count(p) == 1);
                                assert(rec.to_multiset().count(p)
                                    == rec1.to_multiset().count(p) + 1);
                            }
                        }

                        // A hierarchy whose root box missed never reaches a
                        // leaf.
                        let rb = spec_bvh_root_box(*self);
                        if rb is Some && !spec_slab_hit(rb->0, *ray, time) {
                            assert(stack1.len() == 1 && self.root == Some(stack1[0]));
                            assert(false);
                        }

                        // The traversal reached this leaf, so its pair is
                        // visited; every other waiting visit still waits.
                        assert(spec_node_visits(self.nodes@, n, *ray, time, pair));
                        assert(spec_bvh_visits(*self, *ray, time, pair));
                        assert forall|k: int|
                            0 <= k < hit_objects@.len() implies spec_visits_carry(
                            *self,
                            *ray,
                            time,
                            #[trigger] hit_objects@[k],
                        ) by {
                            if k < hits1.len() {
                                assert(hit_objects@[k] == hits1[k]);
                            } else {
                                assert(spec_bvh_visits(*self, *ray, time, pair) && pair.0
                                    == hit_objects@[k]);
                            }
                        }
                        assert forall|p: (ObjectId, Aabb)|
                            #[trigger] spec_bvh_visits(*self, *ray, time, p)
                            implies spec_id_recorded(hit_objects@, p.0) || spec_visits_in_stack(
                            self.nodes@,
                            stack@,
                            *ray,
                            time,
                            p,
                        ) by {
                            if spec_id_recorded(hits1, p.0) {
                                let k = choose|k: int| 0 <= k < hits1.len() && hits1[k] == p.0;
                                assert(hit_objects@[k] == p.0);
                            } else if spec_visits_in_stack(self.nodes@, stack1, *ray, time, p) {
                                let k = choose|k: int|
                                    0 <= k < stack1.len() && #[trigger] spec_node_visits(
                                        self.nodes@,
                                        stack1[k].0 as int,
                                        *ray,
                                        time,
                                        p,
                                    );
                                if k < stack1.len() - 1 {
                                    assert(stack@[k] == stack1[k]);
                                    assert(spec_node_visits(
                                        self.nodes@,
                                        stack@[k].0 as int,
                                        *ray,
                                        time,
                                        p,
                                    ));
                                } else {
                                    assert(p == pair);
                                    assert(hit_objects@[hits1.len() as int] == p.0);
                                }
                            }
                        }
                        assert forall|k: int, p: (ObjectId, Aabb)|
                            0 <= k < stack@.len() && #[trigger] spec_node_visits(
                                self.nodes@,
                                stack@[k].0 as int,
                                *ray,
                                time,
                                p,
                            ) implies spec_bvh_visits(*self, *ray, time, p) by {
                            assert(stack@[k] == stack1[k]);
                        }
                    }
                },
                BvhNode::Branch { left, right, bounding_box } => {
                    proof {
                        assert(popped == spec_subtree_pairs(self.nodes@, left.0 as int).add(
                            spec_subtree_pairs(self.nodes@, right.0 as int),
                        ));
                        assert(spec_subtree_size(self.nodes@, n) == 1 + spec_subtree_size(
                            self.nodes@,
                            left.0 as int,
                        ) + spec_subtree_size(self.nodes@, right.0 as int));
                    }
                    if bounding_box.hit(ray, time) {
                        let ghost mid_stack = stack@;
                        stack.push(*left);
                        let ghost with_left = stack@;
                        stack.push(*right);
                        proof {
                            assert(with_left.drop_last() =~= mid_stack);
                            assert(with_left.last() == *left);
                            assert(stack@.drop_last() =~= with_left);
                            assert(stack@.last() == *right);
                            assert(spec_stack_size(self.nodes@, with_left) == spec_stack_size(
                                self.nodes@,
                                mid_stack,
                            ) + spec_subtree_size(self.nodes@, left.0 as int));
                            assert(spec_stack_size(self.nodes@, stack@) == spec_stack_size(
                                self.nodes@,
                                with_left,
                            ) + spec_subtree_size(self.nodes@, right.0 as int));
                            assert(stack@[stack@.len() - 2] == *left);
                            assert(stack@[stack@.len() - 1] == *right);

                            // Bookkeeping: splitting the branch moves its
                            // pairs onto its two children, none lost, none
                            // duplicated.
                            assert(spec_stack_pairs(self.nodes@, with_left) == spec_stack_pairs(
                                self.nodes@,
                                mid_stack,
                            ).add(spec_subtree_pairs(self.nodes@, left.0 as int)));
                            assert(spec_stack_pairs(self.nodes@, stack@) == spec_stack_pairs(
                                self.nodes@,
                                with_left,
                            ).add(spec_subtree_pairs(self.nodes@, right.0 as int)));
                            assert forall|p: (ObjectId, Aabb)|
                                #[trigger] rec.to_multiset().count(p) + spec_stack_pairs(
                                    self.nodes@,
                                    stack@,
                                ).count(p) <= all.count(p) by {
                                assert(spec_stack_pairs(self.nodes@, stack1).count(p)
                                    == spec_stack_pairs(self.nodes@, mid_stack).count(p)
                                    + popped.count(p));
                                assert(popped.count(p) == spec_subtree_pairs(
                                    self.nodes@,
                                    left.0 as int,
                                ).count(p) + spec_subtree_pairs(
                                    self.nodes@,
                                    right.0 as int,
                                ).count(p));
                            }

                            // A hierarchy whose root box missed never takes
                            // this arm.
                            let rb = spec_bvh_root_box(*self);
                            if rb is Some && !spec_slab_hit(rb->0, *ray, time) {
                                assert(stack1.len() == 1 && self.root == Some(stack1[0]));
                                assert(rb->0 == *bounding_box);
                                assert(false);
                            }

                            // The branch box passed, so a visit through the
                            // branch is a visit through one of its children.
                            assert forall|p: (ObjectId, Aabb)|
                                #[trigger] spec_node_visits(self.nodes@, n, *ray, time, p)
                                implies spec_node_visits(
                                self.nodes@,
                                left.0 as int,
                                *ray,
                                time,
                                p,
                            ) || spec_node_visits(
                                self.nodes@,
                                right.0 as int,
                                *ray,
                                time,
                                p,
                            ) by {}
                            assert forall|k: int, p: (ObjectId, Aabb)|
                                0 <= k < stack@.len() && #[trigger] spec_node_visits(
                                    self.nodes@,
                                    stack@[k].0 as int,
                                    *ray,
                                    time,
                                    p,
                                ) implies spec_bvh_visits(*self, *ray, time, p) by {
                                if k < stack@.len() - 2 {
                                    assert(stack@[k] == stack1[k]);
                                } else {
                                    assert(spec_node_visits(self.nodes@, n, *ray, time, p));
                                }
                            }
                            assert forall|p: (ObjectId, Aabb)|
                                #[trigger] spec_bvh_visits(*self, *ray, time, p)
                                implies spec_id_recorded(hit_objects@, p.0)
                                || spec_visits_in_stack(
                                self.nodes@,
                                stack@,
                                *ray,
                                time,
                                p,
                            ) by {
                                if !spec_id_recorded(hits1, p.0) && spec_visits_in_stack(
                                    self.nodes@,
                                    stack1,
                                    *ray,
                                    time,
                                    p,
                                ) {
                                    let k = choose|k: int|
                                        0 <= k < stack1.len() && #[trigger] spec_node_visits(
                                            self.nodes@,
                                            stack1[k].0 as int,
                                            *ray,
                                            time,
                                            p,
                                        );
                                    if k < stack1.len() - 1 {
                                        assert(stack@[k] == stack1[k]);
                                        assert(spec_node_visits(
                                            self.nodes@,
                                            stack@[k].0 as int,
                                            *ray,
                                            time,
                                            p,
                                        ));
                                    } else {
                                        let kl = stack@.len() - 2;
                                        let kr = stack@.len() - 1;
                                        assert(spec_node_visits(
                                            self.nodes@,
                                            stack@[kl].0 as int,
                                            *ray,
                                            time,
                                            p,
                                        ) || spec_node_visits(
                                            self.nodes@,
                                            stack@[kr].0 as int,
                                            *ray,
                                            time,
                                            p,
                                        ));
                                    }
                                }
                            }
                            assert forall|k: int, p: (ObjectId, Aabb)|
                                0 <= k < stack@.len() && #[trigger] spec_subtree_pairs(
                                    self.nodes@,
                                    stack@[k].0 as int,
                                ).contains(p) implies all.contains(p) by {
                                if k < stack@.len() - 2 {
                                    assert(stack@[k] == stack1[k]);
                                } else {
                                    assert(popped.contains(p));
                                }
                            }
                            // Each pair under the popped branch now waits
                            // under one of the two children.
                            assert forall|p: (ObjectId, Aabb)|
                                #[trigger] all.contains(p) && spec_aabb_ordered(p.1)
                                    && spec_slab_hit(p.1, *ray, time) implies spec_id_recorded(
                                hit_objects@,
                                p.0,
                            ) || spec_in_stack(self.nodes@, stack@, p) by {
                                if !spec_id_recorded(hits1, p.0) && spec_in_stack(
                                    self.nodes@,
                                    stack1,
                                    p,
                                ) {
                                    let k = choose|k: int|
                                        0 <= k < stack1.len() && #[trigger] spec_subtree_pairs(
                                            self.nodes@,
                                            stack1[k].0 as int,
                                        ).contains(p);
                                    if k < stack1.len() - 1 {
                                        assert(stack@[k] == stack1[k]);
                                        assert(spec_subtree_pairs(
                                            self.nodes@,
                                            stack@[k].0 as int,
                                        ).contains(p));
                                    } else {
                                        assert(popped.contains(p));
                                        let kl = stack@.len() - 2;
                                        let kr = stack@.len() - 1;
                                        assert(spec_subtree_pairs(
                                            self.nodes@,
                                            stack@[kl].0 as int,
                                        ).contains(p) || spec_subtree_pairs(
                                            self.nodes@,
                                            stack@[kr].0 as int,
                                        ).contains(p));
                                    }
                                }
                            }
                        }
                    } else {
                        proof {
                            // No pair under this branch passes the slab
                            // test: each is contained in the branch box,
                            // which the ray missed.
                            assert forall|p: (ObjectId, Aabb)|
                                #[trigger] popped.contains(p) && spec_aabb_ordered(p.1)
                                    && spec_slab_hit(p.1, *ray, time) implies false by {
                                assert(spec_subtree_pairs(self.nodes@, left.0 as int).contains(p)
                                    || spec_subtree_pairs(self.nodes@, right.0 as int).contains(p));
                                assert(spec_box_le(p.1, *bounding_box));
                                lemma_slab_monotone(p.1, *bounding_box, *ray, time);
                            }
                            assert(spec_subtree_size(self.nodes@, n) >= 1);
                            assert forall|p: (ObjectId, Aabb)|
                                #[trigger] all.contains(p) && spec_aabb_ordered(p.1)
                                    && spec_slab_hit(p.1, *ray, time) implies spec_id_recorded(
                                hit_objects@,
                                p.0,
                            ) || spec_in_stack(self.nodes@, stack@, p) by {
                                if !spec_id_recorded(hits1, p.0) && spec_in_stack(
                                    self.nodes@,
                                    stack1,
                                    p,
                                ) {
                                    let k = choose|k: int|
                                        0 <= k < stack1.len() && #[trigger] spec_subtree_pairs(
                                            self.nodes@,
                                            stack1[k].0 as int,
                                        ).contains(p);
                                    assert(k < stack1.len() - 1);
                                    assert(stack@[k] == stack1[k]);
                                    assert(spec_subtree_pairs(
                                        self.nodes@,
                                        stack@[k].0 as int,
                                    ).contains(p));
                                }
                            }

                            // Bookkeeping: dropping the pruned subtree only
                            // shrinks the stack side.
                            assert forall|p: (ObjectId, Aabb)|
                                #[trigger] rec.to_multiset().count(p) + spec_stack_pairs(
                                    self.nodes@,
                                    stack@,
                                ).count(p) <= all.count(p) by {
                                assert(spec_stack_pairs(self.nodes@, stack1).count(p)
                                    == spec_stack_pairs(self.nodes@, stack@).count(p)
                                    + popped.count(p));
                            }

                            // The failed box means nothing is visited
                            // through this branch.
                            assert forall|p: (ObjectId, Aabb)|
                                #[trigger] spec_node_visits(self.nodes@, n, *ray, time, p)
                                implies false by {}
                            assert forall|k: int, p: (ObjectId, Aabb)|
                                0 <= k < stack@.len() && #[trigger] spec_node_visits(
                                    self.nodes@,
                                    stack@[k].0 as int,
                                    *ray,
                                    time,
                                    p,
                                ) implies spec_bvh_visits(*self, *ray, time, p) by {
                                assert(stack@[k] == stack1[k]);
                            }
                            assert forall|p: (ObjectId, Aabb)|
                                #[trigger] spec_bvh_visits(*self, *ray, time, p)
                                implies spec_id_recorded(hit_objects@, p.0)
                                || spec_visits_in_stack(
                                self.nodes@,
                                stack@,
                                *ray,
                                time,
                                p,
                            ) by {
                                if !spec_id_recorded(hits1, p.0) && spec_visits_in_stack(
                                    self.nodes@,
                                    stack1,
                                    *ray,
                                    time,
                                    p,
                                ) {
                                    let k = choose|k: int|
                                        0 <= k < stack1.len() && #[trigger] spec_node_visits(
                                            self.nodes@,
                                            stack1[k].0 as int,
                                            *ray,
                                            time,
                                            p,
                                        );
                                    assert(k < stack1.len() - 1);
                                    assert(stack@[k] == stack1[k]);
                                    assert(spec_node_visits(
                                        self.nodes@,
                                        stack@[k].0 as int,
                                        *ray,
                                        time,
                                        p,
                                    ));
                                }
                            }
                        }
                    }
                },
            }
        }

        proof {
            broadcast use vstd::multiset::group_multiset_axioms;

            // The stack is empty, so every candidate the pruning guarantee
            // owes has been recorded.
            assert forall|p: (ObjectId, Aabb)|
                #[trigger] all.contains(p) && spec_aabb_ordered(p.1) && spec_slab_hit(
                    p.1,
                    *ray,
                    time,
                ) implies spec_id_recorded(hit_objects@, p.0) by {
                assert(!spec_in_stack(self.nodes@, stack@, p));
            }

            // The stack is empty, so every visited pair is recorded.
            assert forall|p: (ObjectId, Aabb)|
                #[trigger] spec_bvh_visits(*self, *ray, time, p) implies spec_id_recorded(
                hit_objects@,
                p.0,
            ) by {
                assert(!spec_visits_in_stack(self.nodes@, stack@, *ray, time, p));
            }

            // With distinct build pairs, no id can have been recorded
            // twice: each recording consumed one pair of the collection.
            if spec_pairs_ids_distinct(all) {
                assert forall|k: int, l: int|
                    #![trigger hit_objects@[k], hit_objects@[l]]
                    0 <= k < l < hit_objects@.len() implies hit_objects@[k]
                    != hit_objects@[l] by {
                    if hit_objects@[k] == hit_objects@[l] {
                        let pk = rec[k];
                        let pl = rec[l];
                        assert(rec.contains(pk));
                        assert(rec.contains(pl));
                        to_multiset_contains(rec, pk);
                        to_multiset_contains(rec, pl);
                        assert(rec.to_multiset().count(pk) + spec_stack_pairs(
                            self.nodes@,
                            stack@,
                        ).count(pk) <= all.count(pk));
                        assert(rec.to_multiset().count(pl) + spec_stack_pairs(
                            self.nodes@,
                            stack@,
                        ).count(pl) <= all.count(pl));
                        assert(all.contains(pk));
                        assert(all.contains(pl));
                        if pk == pl {
                            lemma_seq_count_two(rec, k, l);
                        } else {
                            assert(pk.0 == pl.0);
                        }
                        assert(false);
                    }
                }
            }
        }
        if hit_objects.len() == 0 {
            proof {
                assert forall|p: (ObjectId, Aabb)|
                    #[trigger] all.contains(p) && spec_aabb_ordered(p.1) && spec_slab_hit(
                        p.1,
                        *ray,
                        time,
                    ) implies false by {
                    assert(spec_id_recorded(hit_objects@, p.0));
                    let k = choose|k: int|
                        0 <= k < hit_objects@.len() && hit_objects@[k] == p.0;
                }
            }
            None
        } else {
            Some(hit_objects)
        }
    }
}

} // verus!

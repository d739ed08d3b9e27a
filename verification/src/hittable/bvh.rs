//! The bounding-volume hierarchy: a binary tree of boxes that prunes
//! nearest-hit queries.

use vstd::prelude::*;
use vstd::seq_lib::group_to_multiset_ensures;
use crate::fx::{COORD_MAX, T_MAX};
use crate::ray::{Ray, wf_ray};
use crate::rng::RandomSource;
use crate::vec3::Vec3;
use crate::hittable::{HitRecord, HittableStruct, HittableKey, hit_spec, wf_hittable, no_medium, materials_within, bbox_spec, rec_ok, surrounding_box, surrounding_box_s, lemma_bbox_in_universe};
use crate::hittable::aabb::{AABB, wf_aabb, aabb_hit_s};

verus! {

/// An internal node of the hierarchy: its box, a left child and an
/// optional right child (a single element has no right sibling). The box
/// is computed once at construction, from the union of the children's
/// boxes.
#[derive(Debug)]
pub struct BvhNode {
    pub left: Box<HittableStruct>,
    pub right: Option<Box<HittableStruct>>,
    pub bbox: AABB,
}

pub open spec fn wf_bvh_node(b: BvhNode) -> bool
    decreases b, 0int,
{
    &&& wf_hittable(*b.left)
    &&& (b.right matches Some(rb) ==> wf_hittable(*rb))
    &&& wf_aabb(b.bbox)
}

pub open spec fn bvh_no_medium(b: BvhNode) -> bool
    decreases b, 0int,
{
    &&& no_medium(*b.left)
    &&& (b.right matches Some(rb) ==> no_medium(*rb))
}

pub open spec fn bvh_materials_within(b: BvhNode, mlen: int) -> bool
    decreases b, 0int,
{
    &&& materials_within(*b.left, mlen)
    &&& (b.right matches Some(rb) ==> materials_within(*rb, mlen))
}

/// Traversal: prune by the node's own box, query the left subtree, then
/// query the right subtree with the window shrunk to the left's best
/// parameter, and return the closer of the two.
pub open spec fn bvh_hit_spec(b: BvhNode, r: Ray, tmin: int, tmax: int) -> Option<HitRecord>
    decreases b, 1int,
{
    if !aabb_hit_s(b.bbox, r, tmin, tmax) {
        None
    } else {
        let lh = hit_spec(*b.left, r, tmin, tmax);
        let w = match lh {
            Some(rec) => rec.t as int,
            None => tmax,
        };
        let rh = match b.right {
            Some(rb) => hit_spec(*rb, r, tmin, w),
            None => None,
        };
        match rh {
            Some(rec) => Some(rec),
            None => lh,
        }
    }
}

/// The leaves a hierarchy is built over: any shape that is not itself a
/// node stands as one leaf.
pub open spec fn leaves_of(s: HittableStruct) -> Seq<HittableStruct>
    decreases s, 2int,
{
    if s.key == HittableKey::BvhNode && s.bvh_node is Some {
        node_leaves(*s.bvh_node->0)
    } else {
        seq![s]
    }
}

pub open spec fn node_leaves(b: BvhNode) -> Seq<HittableStruct>
    decreases b, 3int,
{
    leaves_of(*b.left) + match b.right {
        Some(rb) => leaves_of(*rb),
        None => Seq::empty(),
    }
}

/// One box containing another, componentwise.
pub open spec fn contains_box(big: AABB, small: AABB) -> bool {
    &&& big.min.x <= small.min.x
    &&& big.min.y <= small.min.y
    &&& big.min.z <= small.min.z
    &&& small.max.x <= big.max.x
    &&& small.max.y <= big.max.y
    &&& small.max.z <= big.max.z
}

/// The shape the builder gives every hierarchy: each node's box is
/// exactly the union of its children's boxes (the left child's box alone
/// where there is no right sibling), and the same holds below.
pub open spec fn node_boxes_linked(b: BvhNode, t0: int, t1: int) -> bool
    decreases b, 9int,
{
    &&& bbox_spec(*b.left, t0, t1) is Some
    &&& struct_boxes_linked(*b.left, t0, t1)
    &&& match b.right {
        Some(rb) => bbox_spec(*rb, t0, t1) is Some
            && b.bbox == surrounding_box_s(bbox_spec(*b.left, t0, t1)->0, bbox_spec(*rb, t0, t1)->0)
            && struct_boxes_linked(*rb, t0, t1),
        None => b.bbox == bbox_spec(*b.left, t0, t1)->0,
    }
}

pub open spec fn struct_boxes_linked(s: HittableStruct, t0: int, t1: int) -> bool
    decreases s, 10int,
{
    if s.key == HittableKey::BvhNode && s.bvh_node is Some {
        node_boxes_linked(*s.bvh_node->0, t0, t1)
    } else {
        true
    }
}

/// A leaf's own box flags every hit the leaf can report: the leaf-level
/// conservativeness that exact real arithmetic guarantees of these
/// shapes. In the truncated fixed-point model a hit parameter and a slab
/// quotient can round in opposite directions at a box face, so this is
/// the one premise of the acceleration-structure law that is assumed of
/// the scene rather than proved.
pub open spec fn leaf_self_covered(leaf: HittableStruct, t0: int, t1: int) -> bool {
    bbox_spec(leaf, t0, t1) matches Some(b) && leaf_covered_by(leaf, b)
}

impl BvhNode {
    /// Prune by the node's box, then return the nearest hit of the two
    /// subtrees within `(t_min, t_max]`.
    pub fn hit(&self, r: &Ray, t_min: i64, t_max: i64, rec: &mut HitRecord, rng: &mut RandomSource) -> (res: bool)
        requires
            wf_bvh_node(*self),
            wf_ray(*r),
            -T_MAX <= t_min <= T_MAX,
            -T_MAX <= t_max <= T_MAX,
        ensures
            bvh_no_medium(*self) ==> res == (bvh_hit_spec(*self, *r, t_min as int, t_max as int) is Some),
            bvh_no_medium(*self) && res ==> Some(*final(rec)) == bvh_hit_spec(*self, *r, t_min as int, t_max as int),
            !res ==> *final(rec) == *old(rec),
            res ==> rec_ok(*final(rec), t_min as int, t_max as int),
            res ==> final(rec).material is Some,
            res ==> forall|m: int| bvh_materials_within(*self, m) ==> final(rec).material->0 < m,
        decreases *self,
    {
        if !self.bbox.hit(r, t_min, t_max) {
            return false;
        }
        let left_hit = self.left.hit(r, t_min, t_max, rec, rng);
        let window = if left_hit { rec.t } else { t_max };
        let right_hit = match &self.right {
            Some(rb) => rb.hit(r, t_min, window, rec, rng),
            None => false,
        };
        let res = left_hit || right_hit;
        proof {
            if res {
                assert forall|m: int| bvh_materials_within(*self, m) implies rec.material->0 < m by {
                    assert(materials_within(*self.left, m));
                    if self.right is Some {
                        assert(materials_within(*self.right->0, m));
                    }
                }
            }
        }
        res
    }

    /// The precomputed box.
    pub fn bounding_box(&self, _time0: i64, _time1: i64, output_box: &mut AABB) -> (res: bool)
        ensures
            res,
            *final(output_box) == self.bbox,
    {
        *output_box = self.bbox;
        true
    }
}

/// The coordinate by which construction orders a shape on an axis: its
/// box's minimum on that axis.
pub open spec fn axis_key_s(b: AABB, axis: i64) -> i64 {
    if axis == 0 {
        b.min.x
    } else if axis == 1 {
        b.min.y
    } else {
        b.min.z
    }
}

/// The box minimum of one shape along an axis; fails when the shape has
/// no box.
fn axis_key(s: &HittableStruct, axis: i64, time0: i64, time1: i64) -> (r: Option<i64>)
    requires
        wf_hittable(*s),
        -COORD_MAX <= time0 <= COORD_MAX,
        -COORD_MAX <= time1 <= COORD_MAX,
    ensures
        r is Some <==> bbox_spec(*s, time0 as int, time1 as int) is Some,
        r matches Some(k) ==> k == axis_key_s(bbox_spec(*s, time0 as int, time1 as int)->0, axis),
{
    let mut b = AABB::new(&Vec3::zero(), &Vec3::zero());
    if !s.bounding_box(time0, time1, &mut b) {
        return None;
    }
    if axis == 0 {
        Some(b.min.x)
    } else if axis == 1 {
        Some(b.min.y)
    } else {
        Some(b.min.z)
    }
}

/// Order a collection by box minimum along an axis, selection-style; the
/// result holds the same shapes. Fails when a shape has no box.
fn sort_by_axis(objects: Vec<HittableStruct>, axis: i64, time0: i64, time1: i64) -> (r: Option<Vec<HittableStruct>>)
    requires
        forall|i: int| 0 <= i < objects@.len() ==> wf_hittable(#[trigger] objects@[i]),
        forall|i: int| 0 <= i < objects@.len() ==> (#[trigger] objects@[i]).key != HittableKey::BvhNode,
        -COORD_MAX <= time0 <= COORD_MAX,
        -COORD_MAX <= time1 <= COORD_MAX,
    ensures
        r matches Some(v) ==> v@.to_multiset() == objects@.to_multiset(),
        r matches Some(v) ==> v@.len() == objects@.len(),
        r matches Some(v) ==> forall|i: int| 0 <= i < v@.len() ==> wf_hittable(#[trigger] v@[i]),
        r matches Some(v) ==> forall|i: int| 0 <= i < v@.len() ==> (#[trigger] v@[i]).key != HittableKey::BvhNode,
        (forall|i: int| 0 <= i < objects@.len()
            ==> bbox_spec(#[trigger] objects@[i], time0 as int, time1 as int) is Some) ==> r is Some,
        r matches Some(v) ==> ((forall|i: int| 0 <= i < objects@.len()
            ==> bbox_spec(#[trigger] objects@[i], time0 as int, time1 as int) is Some)
            ==> (forall|i: int| 0 <= i < v@.len()
                ==> bbox_spec(#[trigger] v@[i], time0 as int, time1 as int) is Some)),
{
    broadcast use group_to_multiset_ensures;
    broadcast use vstd::multiset::group_multiset_axioms;

    let ghost all_boxed = forall|i: int| 0 <= i < objects@.len()
        ==> bbox_spec(#[trigger] objects@[i], time0 as int, time1 as int) is Some;
    let mut src = objects;
    let mut dst: Vec<HittableStruct> = Vec::new();
    let ghost orig = src@.to_multiset();
    let ghost total = src@.len();
    while src.len() > 0
        invariant
            dst@.to_multiset().add(src@.to_multiset()) == orig,
            dst@.len() + src@.len() == total,
            forall|i: int| 0 <= i < src@.len() ==> wf_hittable(#[trigger] src@[i]),
            forall|i: int| 0 <= i < dst@.len() ==> wf_hittable(#[trigger] dst@[i]),
            forall|i: int| 0 <= i < src@.len() ==> (#[trigger] src@[i]).key != HittableKey::BvhNode,
            forall|i: int| 0 <= i < dst@.len() ==> (#[trigger] dst@[i]).key != HittableKey::BvhNode,
            all_boxed == (forall|i: int| 0 <= i < objects@.len()
                ==> bbox_spec(#[trigger] objects@[i], time0 as int, time1 as int) is Some),
            all_boxed ==> forall|i: int| 0 <= i < src@.len()
                ==> bbox_spec(#[trigger] src@[i], time0 as int, time1 as int) is Some,
            all_boxed ==> forall|i: int| 0 <= i < dst@.len()
                ==> bbox_spec(#[trigger] dst@[i], time0 as int, time1 as int) is Some,
            -COORD_MAX <= time0 <= COORD_MAX,
            -COORD_MAX <= time1 <= COORD_MAX,
        decreases src@.len(),
    {
        let mut best: usize = 0;
        let bk = axis_key(&src[0], axis, time0, time1);
        if bk.is_none() {
            proof {
                if all_boxed {
                    assert(bbox_spec(src@[0], time0 as int, time1 as int) is Some);
                }
            }
            return None;
        }
        let mut best_key = bk.unwrap();
        let mut j: usize = 1;
        while j < src.len()
            invariant
                0 <= best < src@.len(),
                1 <= j <= src@.len(),
                src@.len() >= 1,
                forall|i: int| 0 <= i < src@.len() ==> wf_hittable(#[trigger] src@[i]),
                all_boxed == (forall|i: int| 0 <= i < objects@.len()
                    ==> bbox_spec(#[trigger] objects@[i], time0 as int, time1 as int) is Some),
                all_boxed ==> forall|i: int| 0 <= i < src@.len()
                    ==> bbox_spec(#[trigger] src@[i], time0 as int, time1 as int) is Some,
                -COORD_MAX <= time0 <= COORD_MAX,
                -COORD_MAX <= time1 <= COORD_MAX,
            decreases src@.len() - j,
        {
            let k = axis_key(&src[j], axis, time0, time1);
            if k.is_none() {
                proof {
                    if all_boxed {
                        assert(bbox_spec(src@[j as int], time0 as int, time1 as int) is Some);
                    }
                }
                return None;
            }
            let kv = k.unwrap();
            if kv < best_key {
                best = j;
                best_key = kv;
            }
            j = j + 1;
        }
        let ghost pre = src@;
        let ghost dst_pre = dst@;
        let x = src.remove(best);
        dst.push(x);
        proof {
            pre.to_multiset_ensures();
            dst_pre.to_multiset_ensures();
            assert(src@.to_multiset() =~= pre.to_multiset().remove(x));
            assert(pre.to_multiset().contains(x));
            assert(dst@ == dst_pre.push(x));
            assert(dst_pre.push(x).to_multiset() =~= dst_pre.to_multiset().insert(x));
            assert(dst@.to_multiset() =~= dst_pre.to_multiset().insert(x));
            assert forall|e: HittableStruct| #[trigger] dst@.to_multiset().add(src@.to_multiset()).count(e)
                == orig.count(e) by {
                assert(dst@.to_multiset().count(e) == dst_pre.to_multiset().insert(x).count(e));
                assert(src@.to_multiset().count(e) == pre.to_multiset().remove(x).count(e));
                if e == x {
                    assert(dst_pre.to_multiset().insert(x).count(e) == dst_pre.to_multiset().count(e) + 1);
                    assert(pre.to_multiset().count(x) >= 1);
                    assert(pre.to_multiset().remove(x).count(e) == pre.to_multiset().count(e) - 1);
                } else {
                    assert(dst_pre.to_multiset().insert(x).count(e) == dst_pre.to_multiset().count(e));
                    assert(pre.to_multiset().remove(x).count(e) == pre.to_multiset().count(e));
                }
            }
            assert(dst@.to_multiset().add(src@.to_multiset()) =~= orig);
        }
    }
    Some(dst)
}

impl BvhNode {
    /// Build a hierarchy over a collection, consuming and reordering it:
    /// one element becomes a childless-right node, two become an ordered
    /// pair along a random axis, more are sorted along a random axis and
    /// split at the middle. Fails (`None`) exactly when the collection is
    /// empty or some element has no bounding box; a built node carries the
    /// union of its children's boxes at every level.
    pub fn new(objects: Vec<HittableStruct>, time0: i64, time1: i64, rng: &mut RandomSource) -> (r: Option<BvhNode>)
        requires
            forall|i: int| 0 <= i < objects@.len() ==> wf_hittable(#[trigger] objects@[i]),
            forall|i: int| 0 <= i < objects@.len() ==> (#[trigger] objects@[i]).key != HittableKey::BvhNode,
            -COORD_MAX <= time0 <= COORD_MAX,
            -COORD_MAX <= time1 <= COORD_MAX,
        ensures
            r matches Some(n) ==> wf_bvh_node(n),
            r matches Some(n) ==> node_leaves(n).to_multiset() == objects@.to_multiset(),
            r matches Some(n) ==> node_boxes_linked(n, time0 as int, time1 as int),
            objects@.len() > 0 && (forall|i: int| 0 <= i < objects@.len()
                ==> bbox_spec(#[trigger] objects@[i], time0 as int, time1 as int) is Some) ==> r is Some,
        decreases objects@.len(),
    {
        broadcast use group_to_multiset_ensures;

        let n = objects.len();
        if n == 0 {
            return None;
        }
        let axis = rng.next_in_range(0, 2);
        if n == 1 {
            let mut v = objects;
            let ghost pre = v@;
            let x = v.remove(0);
            proof {
                assert(x == objects@[0]);
            }
            let mut b = AABB::new(&Vec3::zero(), &Vec3::zero());
            if !x.bounding_box(time0, time1, &mut b) {
                return None;
            }
            proof {
                lemma_bbox_in_universe(x, time0 as int, time1 as int);
                assert(pre =~= seq![x]);
                assert(seq![x].to_multiset() =~= Seq::<HittableStruct>::empty().push(x).to_multiset());
            }
            let node = BvhNode { left: Box::new(x), right: None, bbox: b };
            proof {
                assert(node_leaves(node) =~= seq![*node.left]);
                assert(struct_boxes_linked(*node.left, time0 as int, time1 as int));
                assert(node_boxes_linked(node, time0 as int, time1 as int));
            }
            return Some(node);
        }
        if n == 2 {
            let mut v = objects;
            let ghost pre = v@;
            let second = v.remove(1);
            let first = v.remove(0);
            proof {
                assert(second == objects@[1]);
                assert(first == objects@[0]);
            }
            let ka = axis_key(&first, axis, time0, time1);
            let kb = axis_key(&second, axis, time0, time1);
            if ka.is_none() || kb.is_none() {
                return None;
            }
            let (lo, hi) = if ka.unwrap() <= kb.unwrap() {
                (first, second)
            } else {
                (second, first)
            };
            let mut b0 = AABB::new(&Vec3::zero(), &Vec3::zero());
            let mut b1 = AABB::new(&Vec3::zero(), &Vec3::zero());
            if !lo.bounding_box(time0, time1, &mut b0) {
                return None;
            }
            if !hi.bounding_box(time0, time1, &mut b1) {
                return None;
            }
            proof {
                lemma_bbox_in_universe(lo, time0 as int, time1 as int);
                lemma_bbox_in_universe(hi, time0 as int, time1 as int);
            }
            let bbox = surrounding_box(&b0, &b1);
            let node = BvhNode { left: Box::new(lo), right: Some(Box::new(hi)), bbox };
            proof {
                assert(pre =~= seq![*node.left, *node.right->0] || pre =~= seq![*node.right->0, *node.left]);
                assert(node_leaves(node) =~= seq![*node.left] + seq![*node.right->0]);
                lemma_two_elem_multiset(*node.left, *node.right->0);
                assert(node_leaves(node).to_multiset() == pre.to_multiset());
                assert(struct_boxes_linked(*node.left, time0 as int, time1 as int));
                assert(struct_boxes_linked(*node.right->0, time0 as int, time1 as int));
                assert(node_boxes_linked(node, time0 as int, time1 as int));
            }
            return Some(node);
        }
        let ghost all_boxed = forall|i: int| 0 <= i < objects@.len()
            ==> bbox_spec(#[trigger] objects@[i], time0 as int, time1 as int) is Some;
        let sorted = sort_by_axis(objects, axis, time0, time1);
        if sorted.is_none() {
            return None;
        }
        let mut left_vec = sorted.unwrap();
        let ghost sorted_seq = left_vec@;
        let mid = left_vec.len() / 2;
        let right_vec = left_vec.split_off(mid);
        let ghost left_seq = left_vec@;
        let ghost right_seq = right_vec@;
        proof {
            if all_boxed {
                assert forall|i: int| 0 <= i < left_seq.len() implies bbox_spec(
                    #[trigger] left_seq[i], time0 as int, time1 as int) is Some by {
                    assert(left_seq[i] == sorted_seq[i]);
                }
                assert forall|i: int| 0 <= i < right_seq.len() implies bbox_spec(
                    #[trigger] right_seq[i], time0 as int, time1 as int) is Some by {
                    assert(right_seq[i] == sorted_seq[mid as int + i]);
                }
            }
        }
        let left_node = Self::new(left_vec, time0, time1, rng);
        let right_node = match left_node {
            Some(_) => Self::new(right_vec, time0, time1, rng),
            None => None,
        };
        if left_node.is_none() || right_node.is_none() {
            return None;
        }
        let ln = left_node.unwrap();
        let rn = right_node.unwrap();
        let left_struct = wrap_node(ln);
        let right_struct = wrap_node(rn);
        let mut b0 = AABB::new(&Vec3::zero(), &Vec3::zero());
        let mut b1 = AABB::new(&Vec3::zero(), &Vec3::zero());
        let got0 = left_struct.bounding_box(time0, time1, &mut b0);
        let got1 = right_struct.bounding_box(time0, time1, &mut b1);
        proof {
            assert(got0 && got1);
            lemma_bbox_in_universe(left_struct, time0 as int, time1 as int);
            lemma_bbox_in_universe(right_struct, time0 as int, time1 as int);
        }
        let bbox = surrounding_box(&b0, &b1);
        let node = BvhNode { left: Box::new(left_struct), right: Some(Box::new(right_struct)), bbox };
        proof {
            assert(leaves_of(*node.left) =~= node_leaves(ln));
            assert(leaves_of(*node.right->0) =~= node_leaves(rn));
            vstd::seq_lib::lemma_multiset_commutative(leaves_of(*node.left), leaves_of(*node.right->0));
            assert(left_seq + right_seq =~= sorted_seq);
            vstd::seq_lib::lemma_multiset_commutative(left_seq, right_seq);
            assert(bbox_spec(*node.left, time0 as int, time1 as int) == Some(ln.bbox));
            assert(bbox_spec(*node.right->0, time0 as int, time1 as int) == Some(rn.bbox));
            assert(struct_boxes_linked(*node.left, time0 as int, time1 as int));
            assert(struct_boxes_linked(*node.right->0, time0 as int, time1 as int));
            assert(node_boxes_linked(node, time0 as int, time1 as int));
        }
        Some(node)
    }
}

/// Wrap a node as a dispatchable shape.
fn wrap_node(n: BvhNode) -> (r: HittableStruct)
    requires
        wf_bvh_node(n),
    ensures
        r.key == HittableKey::BvhNode,
        r.bvh_node matches Some(b) && *b == n,
        wf_hittable(r),
        leaves_of(r) == node_leaves(n),
{
    let mut h = HittableStruct::new(HittableKey::BvhNode);
    h.bvh_node = Some(Box::new(n));
    h
}

/// A leaf is covered by a box when every hit the leaf can report, in any
/// window, is also flagged by the box's slab test: the conservativeness
/// that bounding volumes promise.
pub open spec fn leaf_covered_by(leaf: HittableStruct, bx: AABB) -> bool {
    forall|r: Ray, a: int, w: int| (#[trigger] hit_spec(leaf, r, a, w)) is Some ==> aabb_hit_s(bx, r, a, w)
}

/// Every node of a hierarchy covers the leaves below it.
pub open spec fn node_cover(b: BvhNode) -> bool
    decreases b, 4int,
{
    &&& (forall|i: int| 0 <= i < node_leaves(b).len() ==> leaf_covered_by(#[trigger] node_leaves(b)[i], b.bbox))
    &&& cover_chain(*b.left)
    &&& (b.right matches Some(rb) ==> cover_chain(*rb))
}

/// The coverage invariant over a whole shape tree: trivial for anything
/// that is not a hierarchy node.
pub open spec fn cover_chain(s: HittableStruct) -> bool
    decreases s, 5int,
{
    if s.key == HittableKey::BvhNode && s.bvh_node is Some {
        node_cover(*s.bvh_node->0)
    } else {
        true
    }
}

/// The acceleration-structure law: against the same shapes, in the same
/// order, hierarchy traversal reports exactly what a linear scan reports,
/// for every ray and window, as long as every node's box covers its
/// leaves' hits.
pub proof fn lemma_bvh_traversal_matches_list(s: HittableStruct, r: Ray, tmin: int, tmax: int)
    requires
        cover_chain(s),
    ensures
        hit_spec(s, r, tmin, tmax) == crate::hittable::hittable_list::list_hit_upto(
            leaves_of(s), leaves_of(s).len() as int, r, tmin, tmax),
    decreases s, 6int,
{
    if s.key == HittableKey::BvhNode && s.bvh_node is Some {
        lemma_node_traversal_matches_list(*s.bvh_node->0, r, tmin, tmax);
    } else {
        let ls = leaves_of(s);
        assert(ls =~= seq![s]);
        assert(crate::hittable::hittable_list::list_hit_upto(ls, 0, r, tmin, tmax) is None);
    }
}

/// The same law, stated on a node: traversal with box pruning equals the
/// linear fold over the node's leaves.
pub proof fn lemma_node_traversal_matches_list(n: BvhNode, r: Ray, tmin: int, tmax: int)
    requires
        node_cover(n),
    ensures
        bvh_hit_spec(n, r, tmin, tmax) == crate::hittable::hittable_list::list_hit_upto(
            node_leaves(n), node_leaves(n).len() as int, r, tmin, tmax),
    decreases n, 7int,
{
    let ls = node_leaves(n);
    if !aabb_hit_s(n.bbox, r, tmin, tmax) {
        assert forall|i: int, w: int| 0 <= i < ls.len() && w <= tmax implies #[trigger] hit_spec(
            ls[i], r, tmin, w) is None by {
            if hit_spec(ls[i], r, tmin, w) is Some {
                assert(leaf_covered_by(ls[i], n.bbox));
                assert(aabb_hit_s(n.bbox, r, tmin, w));
                crate::hittable::aabb::lemma_aabb_hit_window_mono(n.bbox, r, tmin, w, tmax);
            }
        }
        crate::hittable::hittable_list::lemma_list_hit_all_none(ls, ls.len() as int, r, tmin, tmax);
    } else {
        lemma_bvh_traversal_matches_list(*n.left, r, tmin, tmax);
        let lh = hit_spec(*n.left, r, tmin, tmax);
        let w = match lh {
            Some(rec) => rec.t as int,
            None => tmax,
        };
        let lls = leaves_of(*n.left);
        match n.right {
            Some(rb) => {
                lemma_bvh_traversal_matches_list(*rb, r, tmin, w);
                let rls = leaves_of(*rb);
                crate::hittable::hittable_list::lemma_list_hit_concat(lls, rls, r, tmin, tmax);
                assert(ls =~= lls + rls);
            },
            None => {
                crate::hittable::hittable_list::lemma_list_hit_concat(
                    lls, Seq::<HittableStruct>::empty(), r, tmin, tmax);
                assert(ls =~= lls + Seq::<HittableStruct>::empty());
                assert(crate::hittable::hittable_list::list_hit_upto(
                    Seq::<HittableStruct>::empty(), 0, r, tmin, w) is None);
            },
        }
    }
}

/// Coverage survives enlarging the box: a leaf covered by a small box is
/// covered by any box containing it, in particular by every union on the
/// way up the tree.
pub proof fn lemma_cover_widen(leaf: HittableStruct, small: AABB, big: AABB)
    requires
        leaf_covered_by(leaf, small),
        big.min.x <= small.min.x,
        big.min.y <= small.min.y,
        big.min.z <= small.min.z,
        small.max.x <= big.max.x,
        small.max.y <= big.max.y,
        small.max.z <= big.max.z,
    ensures
        leaf_covered_by(leaf, big),
{
    assert forall|r: Ray, a: int, w: int| (#[trigger] hit_spec(leaf, r, a, w)) is Some implies aabb_hit_s(
        big, r, a, w) by {
        assert(aabb_hit_s(small, r, a, w));
        crate::hittable::aabb::lemma_aabb_hit_mono(small, big, r, a, w);
    }
}

/// The law stated against a flat group: a hierarchy and a linear list
/// holding the same shapes in the same order answer every query alike.
pub proof fn lemma_bvh_matches_flat_group(n: BvhNode, l: crate::hittable::hittable_list::HittableList, r: Ray, tmin: int, tmax: int)
    requires
        node_cover(n),
        l.objects@ == node_leaves(n),
    ensures
        bvh_hit_spec(n, r, tmin, tmax) == crate::hittable::hittable_list::list_hit_spec(l, r, tmin, tmax),
{
    lemma_node_traversal_matches_list(n, r, tmin, tmax);
}

/// The union encloses both of its arguments.
proof fn lemma_union_contains(a: AABB, b: AABB)
    ensures
        contains_box(surrounding_box_s(a, b), a),
        contains_box(surrounding_box_s(a, b), b),
{
}

/// Containment is transitive.
proof fn lemma_contains_trans(a: AABB, b: AABB, c: AABB)
    requires
        contains_box(a, b),
        contains_box(b, c),
    ensures
        contains_box(a, c),
{
}

/// Below a linked shape, every leaf has a box of its own, contained in
/// the shape's box.
proof fn lemma_struct_leaf_boxes_contained(s: HittableStruct, t0: int, t1: int)
    requires
        struct_boxes_linked(s, t0, t1),
        bbox_spec(s, t0, t1) is Some,
    ensures
        forall|i: int| 0 <= i < leaves_of(s).len() ==> (bbox_spec(#[trigger] leaves_of(s)[i], t0, t1) is Some
            && contains_box(bbox_spec(s, t0, t1)->0, bbox_spec(leaves_of(s)[i], t0, t1)->0)),
    decreases s, 11int,
{
    if s.key == HittableKey::BvhNode && s.bvh_node is Some {
        lemma_node_leaf_boxes_contained(*s.bvh_node->0, t0, t1);
        assert(leaves_of(s) == node_leaves(*s.bvh_node->0));
        assert(bbox_spec(s, t0, t1)->0 == s.bvh_node->0.bbox);
    } else {
        assert(leaves_of(s) =~= seq![s]);
    }
}

/// Below a linked node, every leaf has a box of its own, contained in
/// the node's box: the conservative enclosure the construction unions
/// guarantee.
pub proof fn lemma_node_leaf_boxes_contained(n: BvhNode, t0: int, t1: int)
    requires
        node_boxes_linked(n, t0, t1),
    ensures
        forall|i: int| 0 <= i < node_leaves(n).len() ==> (bbox_spec(#[trigger] node_leaves(n)[i], t0, t1) is Some
            && contains_box(n.bbox, bbox_spec(node_leaves(n)[i], t0, t1)->0)),
    decreases n, 12int,
{
    let lb = bbox_spec(*n.left, t0, t1)->0;
    lemma_struct_leaf_boxes_contained(*n.left, t0, t1);
    let lls = leaves_of(*n.left);
    match n.right {
        Some(rb) => {
            let rbx = bbox_spec(*rb, t0, t1)->0;
            lemma_struct_leaf_boxes_contained(*rb, t0, t1);
            let rls = leaves_of(*rb);
            lemma_union_contains(lb, rbx);
            assert(node_leaves(n) == lls + rls);
            assert forall|i: int| 0 <= i < node_leaves(n).len() implies (bbox_spec(
                #[trigger] node_leaves(n)[i], t0, t1) is Some
                && contains_box(n.bbox, bbox_spec(node_leaves(n)[i], t0, t1)->0)) by {
                if i < lls.len() {
                    assert(node_leaves(n)[i] == lls[i]);
                    lemma_contains_trans(n.bbox, lb, bbox_spec(lls[i], t0, t1)->0);
                } else {
                    assert(node_leaves(n)[i] == rls[i - lls.len()]);
                    lemma_contains_trans(n.bbox, rbx, bbox_spec(rls[i - lls.len()], t0, t1)->0);
                }
            }
        },
        None => {
            assert(node_leaves(n) =~= lls);
        },
    }
}

/// Coverage lifts from the leaves to every node of a linked hierarchy:
/// once each leaf's own box flags its hits, each node's union box flags
/// the hits of everything below it.
pub proof fn lemma_node_cover_from_links(n: BvhNode, t0: int, t1: int)
    requires
        node_boxes_linked(n, t0, t1),
        forall|i: int| 0 <= i < node_leaves(n).len() ==> leaf_self_covered(#[trigger] node_leaves(n)[i], t0, t1),
    ensures
        node_cover(n),
    decreases n, 13int,
{
    lemma_node_leaf_boxes_contained(n, t0, t1);
    assert forall|i: int| 0 <= i < node_leaves(n).len() implies leaf_covered_by(
        #[trigger] node_leaves(n)[i], n.bbox) by {
        let leaf = node_leaves(n)[i];
        let own = bbox_spec(leaf, t0, t1)->0;
        lemma_cover_widen(leaf, own, n.bbox);
    }
    let lls = leaves_of(*n.left);
    assert forall|i: int| 0 <= i < lls.len() implies leaf_self_covered(#[trigger] lls[i], t0, t1) by {
        assert(lls[i] == node_leaves(n)[i]);
    }
    lemma_struct_cover_from_links(*n.left, t0, t1);
    match n.right {
        Some(rb) => {
            let rls = leaves_of(*rb);
            assert forall|i: int| 0 <= i < rls.len() implies leaf_self_covered(#[trigger] rls[i], t0, t1) by {
                assert(node_leaves(n) == lls + rls);
                assert(rls[i] == node_leaves(n)[lls.len() + i]);
            }
            lemma_struct_cover_from_links(*rb, t0, t1);
        },
        None => {
        },
    }
}

proof fn lemma_struct_cover_from_links(s: HittableStruct, t0: int, t1: int)
    requires
        struct_boxes_linked(s, t0, t1),
        forall|i: int| 0 <= i < leaves_of(s).len() ==> leaf_self_covered(#[trigger] leaves_of(s)[i], t0, t1),
    ensures
        cover_chain(s),
    decreases s, 14int,
{
    if s.key == HittableKey::BvhNode && s.bvh_node is Some {
        assert(leaves_of(s) == node_leaves(*s.bvh_node->0));
        lemma_node_cover_from_links(*s.bvh_node->0, t0, t1);
    }
}

/// The acceleration-structure law with its premise reduced to the leaf
/// level: a freshly built hierarchy (whose boxes are the construction
/// unions) answers every query exactly as the linear scan over its
/// leaves does, as long as each leaf's own box flags that leaf's hits.
pub proof fn lemma_bvh_matches_list_from_leaf_coverage(n: BvhNode, l: crate::hittable::hittable_list::HittableList, r: Ray, tmin: int, tmax: int, t0: int, t1: int)
    requires
        node_boxes_linked(n, t0, t1),
        forall|i: int| 0 <= i < node_leaves(n).len() ==> leaf_self_covered(#[trigger] node_leaves(n)[i], t0, t1),
        l.objects@ == node_leaves(n),
    ensures
        bvh_hit_spec(n, r, tmin, tmax) == crate::hittable::hittable_list::list_hit_spec(l, r, tmin, tmax),
{
    lemma_node_cover_from_links(n, t0, t1);
    lemma_node_traversal_matches_list(n, r, tmin, tmax);
}

proof fn lemma_two_elem_multiset(a: HittableStruct, b: HittableStruct)
    ensures
        (seq![a] + seq![b]).to_multiset() == (seq![b] + seq![a]).to_multiset(),
        (seq![a, b]).to_multiset() == (seq![a] + seq![b]).to_multiset(),
        (seq![b, a]).to_multiset() == (seq![b] + seq![a]).to_multiset(),
{
    broadcast use group_to_multiset_ensures;

    vstd::seq_lib::lemma_multiset_commutative(seq![a], seq![b]);
    vstd::seq_lib::lemma_multiset_commutative(seq![b], seq![a]);
    assert(seq![a] + seq![b] =~= seq![a, b]);
    assert(seq![b] + seq![a] =~= seq![b, a]);
}

} // verus!

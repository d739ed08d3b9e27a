//! A flat, unordered group of intersectables, scanned linearly.

use vstd::prelude::*;
use crate::fx::T_MAX;
use crate::ray::{Ray, wf_ray};
use crate::rng::RandomSource;
use crate::hittable::{HitRecord, HittableStruct, hit_spec, wf_hittable, no_medium, materials_within, bbox_spec, rec_ok, surrounding_box, surrounding_box_s};
use crate::hittable::aabb::AABB;

verus! {

/// An ordered collection of intersectables; `hit` reports the nearest
/// accepted intersection by shrinking the search window to the best
/// parameter found so far.
#[derive(Debug)]
pub struct HittableList {
    pub objects: Vec<HittableStruct>,
}

pub open spec fn wf_list(l: HittableList) -> bool
    decreases l, 0int,
{
    forall|i: int| 0 <= i < l.objects@.len() ==> wf_hittable(#[trigger] l.objects@[i])
}

pub open spec fn list_no_medium(l: HittableList) -> bool
    decreases l, 0int,
{
    forall|i: int| 0 <= i < l.objects@.len() ==> no_medium(#[trigger] l.objects@[i])
}

pub open spec fn list_materials_within(l: HittableList, mlen: int) -> bool
    decreases l, 0int,
{
    forall|i: int| 0 <= i < l.objects@.len() ==> materials_within(#[trigger] l.objects@[i], mlen)
}

/// Every medium-free member misses the window: what a group's `false`
/// answer guarantees even when the group also holds participating media.
pub open spec fn list_det_miss(l: HittableList, r: Ray, tmin: int, tmax: int) -> bool
    decreases l, 1int,
{
    forall|i: int| 0 <= i < l.objects@.len() && no_medium(#[trigger] l.objects@[i])
        ==> hit_spec(l.objects@[i], r, tmin, tmax) is None
}

/// The nearest hit among the first `n` children: each later child is
/// queried with the window shrunk to the best parameter so far, so it can
/// only replace the record with one at most as far.
pub open spec fn list_hit_upto(objects: Seq<HittableStruct>, n: int, r: Ray, tmin: int, tmax: int) -> Option<HitRecord>
    decreases objects, n,
{
    if n <= 0 || n > objects.len() {
        None
    } else {
        let prev = list_hit_upto(objects, n - 1, r, tmin, tmax);
        let w = match prev {
            Some(rec) => rec.t as int,
            None => tmax,
        };
        match hit_spec(objects[n - 1], r, tmin, w) {
            Some(rec2) => Some(rec2),
            None => prev,
        }
    }
}

pub open spec fn list_hit_spec(l: HittableList, r: Ray, tmin: int, tmax: int) -> Option<HitRecord>
    decreases l, 1int,
{
    list_hit_upto(l.objects@, l.objects@.len() as int, r, tmin, tmax)
}

/// The union of the boxes of the first `n` children; `None` if there are
/// none or any child is unbounded.
pub open spec fn list_bbox_upto(objects: Seq<HittableStruct>, n: int, t0: int, t1: int) -> Option<AABB>
    decreases objects, n,
{
    if n <= 0 || n > objects.len() {
        None
    } else if n == 1 {
        bbox_spec(objects[0], t0, t1)
    } else {
        match (list_bbox_upto(objects, n - 1, t0, t1), bbox_spec(objects[n - 1], t0, t1)) {
            (Some(b0), Some(b1)) => Some(surrounding_box_s(b0, b1)),
            _ => None,
        }
    }
}

pub open spec fn list_bbox_spec(l: HittableList, t0: int, t1: int) -> Option<AABB>
    decreases l, 1int,
{
    list_bbox_upto(l.objects@, l.objects@.len() as int, t0, t1)
}

impl HittableList {
    pub fn new() -> (r: HittableList)
        ensures
            r.objects@ =~= Seq::<HittableStruct>::empty(),
    {
        HittableList { objects: Vec::new() }
    }

    pub fn add(&mut self, object: HittableStruct)
        ensures
            final(self).objects@ == old(self).objects@.push(object),
    {
        self.objects.push(object);
    }

    pub fn clear(&mut self)
        ensures
            final(self).objects@ =~= Seq::<HittableStruct>::empty(),
    {
        self.objects.clear();
    }

    /// The nearest accepted hit among the children within `(t_min, t_max]`.
    pub fn hit(&self, r: &Ray, t_min: i64, t_max: i64, rec: &mut HitRecord, rng: &mut RandomSource) -> (res: bool)
        requires
            wf_list(*self),
            wf_ray(*r),
            -T_MAX <= t_min <= T_MAX,
            -T_MAX <= t_max <= T_MAX,
        ensures
            list_no_medium(*self) ==> res == (list_hit_spec(*self, *r, t_min as int, t_max as int) is Some),
            list_no_medium(*self) && res ==> Some(*final(rec)) == list_hit_spec(*self, *r, t_min as int, t_max as int),
            !res ==> *final(rec) == *old(rec),
            !res ==> list_det_miss(*self, *r, t_min as int, t_max as int),
            res ==> rec_ok(*final(rec), t_min as int, t_max as int),
            res ==> final(rec).material is Some,
            res ==> forall|m: int| list_materials_within(*self, m) ==> final(rec).material->0 < m,
        decreases *self,
    {
        let ghost all_det = list_no_medium(*self);
        let mut hit_anything = false;
        let mut closest_so_far = t_max;
        let mut i: usize = 0;
        while i < self.objects.len()
            invariant
                wf_list(*self),
                wf_ray(*r),
                -T_MAX <= t_min <= T_MAX,
                -T_MAX <= t_max <= T_MAX,
                0 <= i <= self.objects@.len(),
                all_det == list_no_medium(*self),
                t_min < closest_so_far ==> closest_so_far <= t_max,
                hit_anything ==> t_min < closest_so_far <= t_max,
                !hit_anything ==> closest_so_far == t_max,
                !hit_anything ==> forall|j: int| 0 <= j < i as int && no_medium(#[trigger] self.objects@[j])
                    ==> hit_spec(self.objects@[j], *r, t_min as int, t_max as int) is None,
                all_det ==> hit_anything == (list_hit_upto(self.objects@, i as int, *r, t_min as int, t_max as int) is Some),
                all_det && hit_anything ==> Some(*rec) == list_hit_upto(self.objects@, i as int, *r, t_min as int, t_max as int),
                all_det && hit_anything ==> closest_so_far == rec.t,
                !hit_anything ==> *rec == *old(rec),
                hit_anything ==> rec_ok(*rec, t_min as int, t_max as int),
                hit_anything ==> rec.material is Some,
                hit_anything ==> forall|m: int| list_materials_within(*self, m) ==> rec.material->0 < m,
            decreases self.objects@.len() - i,
        {
            let ghost prev_spec = list_hit_upto(self.objects@, i as int, *r, t_min as int, t_max as int);
            let child_hit = self.objects[i].hit(r, t_min, closest_so_far, rec, rng);
            if child_hit {
                hit_anything = true;
                closest_so_far = rec.t;
            }
            proof {
                if all_det {
                    assert(no_medium(self.objects@[i as int]));
                }
                if !hit_anything && no_medium(self.objects@[i as int]) {
                    assert(hit_spec(self.objects@[i as int], *r, t_min as int, t_max as int) is None);
                }
                if hit_anything {
                    assert(forall|m: int| list_materials_within(*self, m) ==> materials_within(#[trigger] self.objects@[i as int], m));
                }
            }
            i = i + 1;
        }
        hit_anything
    }

    /// The union of all children's boxes; fails if the list is empty or
    /// any child is unbounded.
    pub fn bounding_box(&self, time0: i64, time1: i64, output_box: &mut AABB) -> (res: bool)
        requires
            wf_list(*self),
            -crate::fx::COORD_MAX <= time0 <= crate::fx::COORD_MAX,
            -crate::fx::COORD_MAX <= time1 <= crate::fx::COORD_MAX,
        ensures
            res == (list_bbox_spec(*self, time0 as int, time1 as int) is Some),
            res ==> Some(*final(output_box)) == list_bbox_spec(*self, time0 as int, time1 as int),
            !res ==> *final(output_box) == *old(output_box),
        decreases *self,
    {
        if self.objects.len() == 0 {
            return false;
        }
        let mut acc = AABB::new(&crate::vec3::Vec3::zero(), &crate::vec3::Vec3::zero());
        let mut temp = AABB::new(&crate::vec3::Vec3::zero(), &crate::vec3::Vec3::zero());
        let mut i: usize = 0;
        while i < self.objects.len()
            invariant
                wf_list(*self),
                -crate::fx::COORD_MAX <= time0 <= crate::fx::COORD_MAX,
                -crate::fx::COORD_MAX <= time1 <= crate::fx::COORD_MAX,
                0 <= i <= self.objects@.len(),
                self.objects@.len() >= 1,
                i > 0 ==> Some(acc) == list_bbox_upto(self.objects@, i as int, time0 as int, time1 as int),
            decreases self.objects@.len() - i,
        {
            let ok = self.objects[i].bounding_box(time0, time1, &mut temp);
            if !ok {
                proof {
                    lemma_list_bbox_none(self.objects@, self.objects@.len() as int, i as int, time0 as int, time1 as int);
                }
                return false;
            }
            if i == 0 {
                acc = temp.clone();
            } else {
                acc = surrounding_box(&acc, &temp);
            }
            i = i + 1;
        }
        *output_box = acc;
        true
    }
}

/// The nearest-hit fold reads only the first `n` elements.
pub proof fn lemma_list_hit_prefix(s1: Seq<HittableStruct>, s2: Seq<HittableStruct>, n: int, r: Ray, tmin: int, tmax: int)
    requires
        0 <= n <= s1.len(),
        n <= s2.len(),
        forall|i: int| 0 <= i < n ==> s1[i] == s2[i],
    ensures
        list_hit_upto(s1, n, r, tmin, tmax) == list_hit_upto(s2, n, r, tmin, tmax),
    decreases n,
{
    if n > 0 {
        lemma_list_hit_prefix(s1, s2, n - 1, r, tmin, tmax);
    }
}

/// Folding over a concatenation is folding the first part, then folding
/// the second with the window shrunk to the first part's best parameter.
pub proof fn lemma_list_hit_concat(s1: Seq<HittableStruct>, s2: Seq<HittableStruct>, r: Ray, tmin: int, tmax: int)
    ensures
        list_hit_upto(s1 + s2, s1.len() as int + s2.len() as int, r, tmin, tmax) == ({
            let p1 = list_hit_upto(s1, s1.len() as int, r, tmin, tmax);
            let w = match p1 {
                Some(rec) => rec.t as int,
                None => tmax,
            };
            match list_hit_upto(s2, s2.len() as int, r, tmin, w) {
                Some(rec2) => Some(rec2),
                None => p1,
            }
        }),
    decreases s2.len(),
{
    let n1 = s1.len() as int;
    let n2 = s2.len() as int;
    if n2 == 0 {
        assert(s2 =~= Seq::empty());
        assert((s1 + s2).len() == n1);
        lemma_list_hit_prefix(s1 + s2, s1, n1, r, tmin, tmax);
        assert(list_hit_upto(s2, 0, r, tmin, tmax) is None);
    } else {
        let s2p = s2.drop_last();
        lemma_list_hit_concat(s1, s2p, r, tmin, tmax);
        assert forall|i: int| 0 <= i < n1 + n2 - 1 implies (s1 + s2)[i] == (s1 + s2p)[i] by {
            if i < n1 {
                assert((s1 + s2)[i] == s1[i]);
                assert((s1 + s2p)[i] == s1[i]);
            } else {
                assert((s1 + s2)[i] == s2[i - n1]);
                assert((s1 + s2p)[i] == s2p[i - n1]);
                assert(s2p[i - n1] == s2[i - n1]);
            }
        }
        lemma_list_hit_prefix(s1 + s2, s1 + s2p, n1 + n2 - 1, r, tmin, tmax);
        assert((s1 + s2)[n1 + n2 - 1] == s2[n2 - 1]);
        let full = list_hit_upto(s1 + s2, n1 + n2, r, tmin, tmax);
        let prev_full = list_hit_upto(s1 + s2, n1 + n2 - 1, r, tmin, tmax);
        let p1 = list_hit_upto(s1, n1, r, tmin, tmax);
        let w1 = match p1 {
            Some(rec) => rec.t as int,
            None => tmax,
        };
        let q_prev = list_hit_upto(s2p, n2 - 1, r, tmin, w1);
        lemma_list_hit_prefix(s2, s2p, n2 - 1, r, tmin, w1);
        assert(prev_full == (match q_prev {
            Some(rec2) => Some(rec2),
            None => p1,
        }));
        assert(list_hit_upto(s2, n2 - 1, r, tmin, w1) == q_prev);
    }
}

/// Where no element can be met within any window below the bound, the
/// fold reports nothing.
pub proof fn lemma_list_hit_all_none(objects: Seq<HittableStruct>, n: int, r: Ray, tmin: int, tmax: int)
    requires
        n <= objects.len(),
        forall|i: int, w: int| 0 <= i < n && w <= tmax ==> #[trigger] crate::hittable::hit_spec(objects[i], r, tmin, w) is None,
    ensures
        list_hit_upto(objects, n, r, tmin, tmax) is None,
    decreases n,
{
    if n > 0 {
        lemma_list_hit_all_none(objects, n - 1, r, tmin, tmax);
        assert(crate::hittable::hit_spec(objects[n - 1], r, tmin, tmax) is None);
    }
}

/// If one child has no box, no prefix that includes it has one.
proof fn lemma_list_bbox_none(objects: Seq<HittableStruct>, n: int, i: int, t0: int, t1: int)
    requires
        0 <= i < n,
        bbox_spec(objects[i], t0, t1) is None,
    ensures
        list_bbox_upto(objects, n, t0, t1) is None,
    decreases n,
{
    if i < n - 1 {
        lemma_list_bbox_none(objects, n - 1, i, t0, t1);
    }
}

} // verus!

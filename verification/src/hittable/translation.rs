//! A decorator that shifts a wrapped shape by a fixed offset.

use vstd::prelude::*;
use crate::fx::{COORD_MAX, T_MAX, P_MAX, ORIGIN_MAX};
use crate::ray::{Ray, wf_ray};
use crate::rng::RandomSource;
use crate::vec3::{Vec3, Point3, in_bounds, add_s, sub_s};
use crate::hittable::{HitRecord, HittableStruct, hit_spec, wf_hittable, no_medium, materials_within, bbox_spec, rec_ok};
use crate::hittable::aabb::AABB;

verus! {

/// A wrapped shape displaced by `offset`: rays are shifted into the
/// child's frame, the hit point is shifted back; the normal is invariant
/// under translation.
#[derive(Debug)]
pub struct Translation {
    pub ptr: Box<HittableStruct>,
    pub offset: Vec3,
}

pub open spec fn wf_translation(t: Translation) -> bool
    decreases t, 0int,
{
    &&& in_bounds(t.offset, COORD_MAX as int)
    &&& wf_hittable(*t.ptr)
}

pub open spec fn translation_no_medium(t: Translation) -> bool
    decreases t, 0int,
{
    no_medium(*t.ptr)
}

pub open spec fn translation_materials_within(t: Translation, mlen: int) -> bool
    decreases t, 0int,
{
    materials_within(*t.ptr, mlen)
}

/// Query the child with the origin shifted by `-offset`, then shift the
/// reported point back by `+offset`; a query or a hit that would leave
/// the supported universe reports no hit.
pub open spec fn translation_hit_spec(t: Translation, r: Ray, tmin: int, tmax: int) -> Option<HitRecord>
    decreases t, 1int,
{
    let mo = sub_s(r.origin, t.offset);
    if !in_bounds(mo, ORIGIN_MAX as int) {
        None
    } else {
        let moved = Ray { origin: mo, direction: r.direction, time: r.time };
        match hit_spec(*t.ptr, moved, tmin, tmax) {
            None => None,
            Some(rec) => {
                let p2 = add_s(rec.p, t.offset);
                if !in_bounds(p2, P_MAX as int) {
                    None
                } else {
                    Some(HitRecord { p: p2, ..rec })
                }
            },
        }
    }
}

/// The child's box shifted by `offset`, clamped to the box universe.
pub open spec fn clamp_c(v: int, lim: int) -> int {
    if v < -lim {
        -lim
    } else if v > lim {
        lim
    } else {
        v
    }
}

pub open spec fn shift_clamp_s(p: Point3, off: Vec3) -> Point3 {
    Point3 {
        x: clamp_c(p.x + off.x, 0x4000000) as i64,
        y: clamp_c(p.y + off.y, 0x4000000) as i64,
        z: clamp_c(p.z + off.z, 0x4000000) as i64,
    }
}

pub open spec fn translation_bbox_s(t: Translation, t0: int, t1: int) -> Option<AABB>
    decreases t, 1int,
{
    match bbox_spec(*t.ptr, t0, t1) {
        None => None,
        Some(b) => Some(AABB { min: shift_clamp_s(b.min, t.offset), max: shift_clamp_s(b.max, t.offset) }),
    }
}

/// Shift a corner and clamp it to the box universe.
fn shift_clamp(p: &Point3, off: &Vec3) -> (r: Point3)
    requires
        in_bounds(*p, 0x7000000000000000),
        in_bounds(*off, COORD_MAX as int),
    ensures
        r == shift_clamp_s(*p, *off),
{
    let x0 = p.x + off.x;
    let y0 = p.y + off.y;
    let z0 = p.z + off.z;
    Point3 {
        x: if x0 < -0x4000000 { -0x4000000 } else if x0 > 0x4000000 { 0x4000000 } else { x0 },
        y: if y0 < -0x4000000 { -0x4000000 } else if y0 > 0x4000000 { 0x4000000 } else { y0 },
        z: if z0 < -0x4000000 { -0x4000000 } else if z0 > 0x4000000 { 0x4000000 } else { z0 },
    }
}

impl Translation {
    pub fn new(ptr: HittableStruct, offset: &Vec3) -> (r: Translation)
        ensures
            *r.ptr == ptr,
            r.offset == *offset,
    {
        Translation { ptr: Box::new(ptr), offset: *offset }
    }

    pub fn hit(&self, r: &Ray, t_min: i64, t_max: i64, rec: &mut HitRecord, rng: &mut RandomSource) -> (res: bool)
        requires
            wf_translation(*self),
            wf_ray(*r),
            -T_MAX <= t_min <= T_MAX,
            -T_MAX <= t_max <= T_MAX,
        ensures
            translation_no_medium(*self) ==> res == (translation_hit_spec(*self, *r, t_min as int, t_max as int) is Some),
            translation_no_medium(*self) && res ==> Some(*final(rec)) == translation_hit_spec(*self, *r, t_min as int, t_max as int),
            !res ==> *final(rec) == *old(rec),
            res ==> rec_ok(*final(rec), t_min as int, t_max as int),
            res ==> final(rec).material is Some,
            res ==> forall|m: int| translation_materials_within(*self, m) ==> final(rec).material->0 < m,
        decreases *self,
    {
        let ox = r.origin.x - self.offset.x;
        let oy = r.origin.y - self.offset.y;
        let oz = r.origin.z - self.offset.z;
        if ox < -ORIGIN_MAX || ox > ORIGIN_MAX || oy < -ORIGIN_MAX || oy > ORIGIN_MAX || oz < -ORIGIN_MAX || oz > ORIGIN_MAX {
            return false;
        }
        let moved = Ray { origin: Point3 { x: ox, y: oy, z: oz }, direction: r.direction, time: r.time };
        let mut tmp = *rec;
        if !self.ptr.hit(&moved, t_min, t_max, &mut tmp, rng) {
            return false;
        }
        let px = tmp.p.x + self.offset.x;
        let py = tmp.p.y + self.offset.y;
        let pz = tmp.p.z + self.offset.z;
        if px < -P_MAX || px > P_MAX || py < -P_MAX || py > P_MAX || pz < -P_MAX || pz > P_MAX {
            return false;
        }
        tmp.p = Point3 { x: px, y: py, z: pz };
        proof {
            assert forall|m: int| translation_materials_within(*self, m) implies tmp.material->0 < m by {
                assert(materials_within(*self.ptr, m));
            }
        }
        *rec = tmp;
        true
    }

    pub fn bounding_box(&self, time0: i64, time1: i64, output_box: &mut AABB) -> (res: bool)
        requires
            wf_translation(*self),
            -COORD_MAX <= time0 <= COORD_MAX,
            -COORD_MAX <= time1 <= COORD_MAX,
        ensures
            res == (translation_bbox_s(*self, time0 as int, time1 as int) is Some),
            res ==> Some(*final(output_box)) == translation_bbox_s(*self, time0 as int, time1 as int),
            !res ==> *final(output_box) == *old(output_box),
        decreases *self,
    {
        let mut temp = AABB::new(&Vec3::zero(), &Vec3::zero());
        if !self.ptr.bounding_box(time0, time1, &mut temp) {
            return false;
        }
        proof {
            crate::hittable::lemma_bbox_in_universe(*self.ptr, time0 as int, time1 as int);
        }
        let small = shift_clamp(&temp.min, &self.offset);
        let big = shift_clamp(&temp.max, &self.offset);
        *output_box = AABB { min: small, max: big };
        true
    }
}

/// A translation changes only the hit point: the facing flag and the
/// stored normal come through from the child untouched, so the
/// front-face convention survives the decorator.
pub proof fn lemma_translation_preserves_face(t: Translation, r: Ray, tmin: int, tmax: int)
    ensures
        translation_hit_spec(t, r, tmin, tmax) matches Some(rec) ==> ({
            let moved = Ray { origin: sub_s(r.origin, t.offset), direction: r.direction, time: r.time };
            hit_spec(*t.ptr, moved, tmin, tmax) matches Some(rec0)
                && rec.front_face == rec0.front_face && rec.normal == rec0.normal
        }),
{
}

/// The round-trip law: translating a shape by `v` and then by `-v`
/// behaves exactly like the shape itself, for every ray and window whose
/// shifted origin and hit point stay inside the supported universe.
#[verifier::rlimit(100)]
#[verifier::spinoff_prover]
pub proof fn lemma_translate_round_trip(s: HittableStruct, outer: Translation, inner: Translation, v: Vec3, r: Ray, tmin: int, tmax: int)
    requires
        wf_hittable(s),
        wf_ray(r),
        in_bounds(v, COORD_MAX as int),
        *inner.ptr == s,
        inner.offset == v,
        (*outer.ptr).key == crate::hittable::HittableKey::Translation,
        (*outer.ptr).translation == Some(inner),
        outer.offset == crate::vec3::neg_s(v),
        in_bounds(add_s(r.origin, v), ORIGIN_MAX as int),
        hit_spec(s, r, tmin, tmax) matches Some(rec) ==> in_bounds(add_s(rec.p, v), P_MAX as int),
        hit_spec(s, r, tmin, tmax) matches Some(rec) ==> in_bounds(rec.p, P_MAX as int),
    ensures
        translation_hit_spec(outer, r, tmin, tmax) == hit_spec(s, r, tmin, tmax),
{
    let mo = sub_s(r.origin, outer.offset);
    let moved = Ray { origin: mo, direction: r.direction, time: r.time };
    assert(mo == add_s(r.origin, v)) by {
    }
    assert(hit_spec(*outer.ptr, moved, tmin, tmax) == translation_hit_spec(inner, moved, tmin, tmax)) by {
    }
    assert(sub_s(moved.origin, v) == r.origin) by {
    }
    assert((Ray { origin: sub_s(moved.origin, v), direction: r.direction, time: r.time }) == r) by {
    }
    match hit_spec(s, r, tmin, tmax) {
        None => {
            assert(translation_hit_spec(inner, moved, tmin, tmax) is None) by {
            }
            assert(translation_hit_spec(outer, r, tmin, tmax) is None) by {
            }
        },
        Some(rec) => {
            let p1 = add_s(rec.p, v);
            let rec1 = HitRecord { p: p1, ..rec };
            assert(in_bounds(p1, P_MAX as int)) by {
            }
            assert(translation_hit_spec(inner, moved, tmin, tmax) == Some(rec1)) by {
            }
            assert(add_s(rec1.p, outer.offset) == rec.p) by {
            }
            assert(translation_hit_spec(outer, r, tmin, tmax) == Some(HitRecord { p: add_s(rec1.p, outer.offset), ..rec1 })) by {
            }
            assert((HitRecord { p: add_s(rec1.p, outer.offset), ..rec1 }) == rec) by {
            }
        },
    }
}

} // verus!

//! Axis-aligned bounding boxes and the slab intersection test.

use vstd::prelude::*;
use crate::fx::{tdiv, tdiv128, lemma_tdiv_range, lemma_tdiv_ordered, lemma_mul_bound};
use crate::fx::{imax, imin, BOX_LIM, T_MAX, ORIGIN_MAX, DIR_MAX};
use crate::ray::{Ray, wf_ray};
use crate::vec3::{Vec3, Point3, in_bounds};

verus! {

/// An axis-aligned box, stored as its componentwise minimum and maximum
/// corners.
#[derive(Clone, Copy, Debug, PartialEq, Eq, Structural)]
pub struct AABB {
    pub min: Point3,
    pub max: Point3,
}

/// Boxes the engine works with: corners within scene bounds.
pub open spec fn wf_aabb(b: AABB) -> bool {
    &&& in_bounds(b.min, BOX_LIM as int)
    &&& in_bounds(b.max, BOX_LIM as int)
}

/// One axis of the slab test: intersect the running parameter window `w`
/// with the window in which the ray's coordinate lies between `lo` and
/// `hi`. A zero direction component passes the axis exactly when the
/// origin's coordinate lies inside the slab, and otherwise yields an empty
/// window; window emptiness (`w.1 <= w.0`) is absorbing.
pub open spec fn slab_s(lo: int, hi: int, o: int, d: int, w: (int, int)) -> (int, int) {
    if d == 0 {
        if lo <= o <= hi {
            w
        } else {
            (1, 0)
        }
    } else if d > 0 {
        (imax(w.0, tdiv((lo - o) * 1024, d)), imin(w.1, tdiv((hi - o) * 1024, d)))
    } else {
        (imax(w.0, tdiv((o - hi) * 1024, -d)), imin(w.1, tdiv((o - lo) * 1024, -d)))
    }
}

/// The slab test: the ray meets the box within the open window
/// `(tmin, tmax)` iff a nonempty window survives all three axes.
pub open spec fn aabb_hit_s(b: AABB, r: Ray, tmin: int, tmax: int) -> bool {
    let w1 = slab_s(b.min.x as int, b.max.x as int, r.origin.x as int, r.direction.x as int, (tmin, tmax));
    let w2 = slab_s(b.min.y as int, b.max.y as int, r.origin.y as int, r.direction.y as int, w1);
    let w3 = slab_s(b.min.z as int, b.max.z as int, r.origin.z as int, r.direction.z as int, w2);
    w3.0 < w3.1
}

/// One exec axis of the slab test.
fn slab_exec(lo: i64, hi: i64, o: i64, d: i64, w: (i128, i128)) -> (res: (i128, i128))
    requires
        -BOX_LIM <= lo <= BOX_LIM,
        -BOX_LIM <= hi <= BOX_LIM,
        -ORIGIN_MAX <= o <= ORIGIN_MAX,
        -DIR_MAX <= d <= DIR_MAX,
        -0x20000000000 <= w.0 <= 0x20000000000,
        -0x20000000000 <= w.1 <= 0x20000000000,
    ensures
        (res.0 as int, res.1 as int) == slab_s(lo as int, hi as int, o as int, d as int, (w.0 as int, w.1 as int)),
        -0x20000000000 <= res.0 <= 0x20000000000,
        -0x20000000000 <= res.1 <= 0x20000000000,
{
    if d == 0 {
        if lo <= o && o <= hi {
            w
        } else {
            (1, 0)
        }
    } else {
        proof {
            lemma_mul_bound(lo as int - o as int, 1024, 0x80000000, 1024);
            lemma_mul_bound(hi as int - o as int, 1024, 0x80000000, 1024);
            lemma_mul_bound(o as int - lo as int, 1024, 0x80000000, 1024);
            lemma_mul_bound(o as int - hi as int, 1024, 0x80000000, 1024);
            if d > 0 {
                lemma_tdiv_range((lo as int - o as int) * 1024, d as int);
                lemma_tdiv_range((hi as int - o as int) * 1024, d as int);
            } else {
                lemma_tdiv_range((o as int - hi as int) * 1024, -(d as int));
                lemma_tdiv_range((o as int - lo as int) * 1024, -(d as int));
            }
        }
        let t0: i128;
        let t1: i128;
        if d > 0 {
            t0 = tdiv128((lo as i128 - o as i128) * 1024, d as i128);
            t1 = tdiv128((hi as i128 - o as i128) * 1024, d as i128);
        } else {
            t0 = tdiv128((o as i128 - hi as i128) * 1024, -(d as i128));
            t1 = tdiv128((o as i128 - lo as i128) * 1024, -(d as i128));
        }
        let n0 = if w.0 >= t0 { w.0 } else { t0 };
        let n1 = if w.1 <= t1 { w.1 } else { t1 };
        (n0, n1)
    }
}

impl AABB {
    pub fn new(small: &Point3, big: &Point3) -> (r: AABB)
        ensures
            r == (AABB { min: *small, max: *big }),
    {
        AABB { min: *small, max: *big }
    }

    /// The slab test against the window `(t_min, t_max)`.
    pub fn hit(&self, r: &Ray, t_min: i64, t_max: i64) -> (res: bool)
        requires
            wf_aabb(*self),
            wf_ray(*r),
            -T_MAX <= t_min <= T_MAX,
            -T_MAX <= t_max <= T_MAX,
        ensures
            res == aabb_hit_s(*self, *r, t_min as int, t_max as int),
    {
        let w0 = (t_min as i128, t_max as i128);
        let w1 = slab_exec(self.min.x, self.max.x, r.origin.x, r.direction.x, w0);
        let w2 = slab_exec(self.min.y, self.max.y, r.origin.y, r.direction.y, w1);
        let w3 = slab_exec(self.min.z, self.max.z, r.origin.z, r.direction.z, w2);
        w3.0 < w3.1
    }
}

/// An empty window stays empty through any further axis.
proof fn lemma_slab_empty_absorb(lo: int, hi: int, o: int, d: int, w: (int, int))
    requires
        w.1 <= w.0,
    ensures
        slab_s(lo, hi, o, d, w).1 <= slab_s(lo, hi, o, d, w).0,
{
}

/// One axis of the slab test is monotone in the slab: a wider slab and a
/// wider window keep containing the narrower window, unless the narrow
/// window has already become empty.
proof fn lemma_slab_mono(lo_i: int, hi_i: int, lo_o: int, hi_o: int, o: int, d: int, wi: (int, int), wo: (int, int))
    requires
        lo_o <= lo_i,
        hi_i <= hi_o,
        wo.0 <= wi.0,
        wi.1 <= wo.1,
    ensures
        ({
            let ri = slab_s(lo_i, hi_i, o, d, wi);
            let ro = slab_s(lo_o, hi_o, o, d, wo);
            ri.1 <= ri.0 || (ro.0 <= ri.0 && ri.1 <= ro.1)
        }),
{
    if d > 0 {
        lemma_tdiv_ordered((lo_o - o) * 1024, (lo_i - o) * 1024, d);
        lemma_tdiv_ordered((hi_i - o) * 1024, (hi_o - o) * 1024, d);
    } else if d < 0 {
        lemma_tdiv_ordered((o - hi_o) * 1024, (o - hi_i) * 1024, -d);
        lemma_tdiv_ordered((o - lo_i) * 1024, (o - lo_o) * 1024, -d);
    }
}

/// A box that contains another sees every ray window the inner box sees:
/// enlarging a box can only turn misses into hits, never hits into misses.
pub proof fn lemma_aabb_hit_mono(inner: AABB, outer: AABB, r: Ray, tmin: int, tmax: int)
    requires
        outer.min.x <= inner.min.x,
        outer.min.y <= inner.min.y,
        outer.min.z <= inner.min.z,
        inner.max.x <= outer.max.x,
        inner.max.y <= outer.max.y,
        inner.max.z <= outer.max.z,
        aabb_hit_s(inner, r, tmin, tmax),
    ensures
        aabb_hit_s(outer, r, tmin, tmax),
{
    let w0 = (tmin, tmax);
    let i1 = slab_s(inner.min.x as int, inner.max.x as int, r.origin.x as int, r.direction.x as int, w0);
    let i2 = slab_s(inner.min.y as int, inner.max.y as int, r.origin.y as int, r.direction.y as int, i1);
    let i3 = slab_s(inner.min.z as int, inner.max.z as int, r.origin.z as int, r.direction.z as int, i2);
    let o1 = slab_s(outer.min.x as int, outer.max.x as int, r.origin.x as int, r.direction.x as int, w0);
    let o2 = slab_s(outer.min.y as int, outer.max.y as int, r.origin.y as int, r.direction.y as int, o1);
    let o3 = slab_s(outer.min.z as int, outer.max.z as int, r.origin.z as int, r.direction.z as int, o2);
    lemma_slab_mono(inner.min.x as int, inner.max.x as int, outer.min.x as int, outer.max.x as int,
        r.origin.x as int, r.direction.x as int, w0, w0);
    if i1.1 <= i1.0 {
        lemma_slab_empty_absorb(inner.min.y as int, inner.max.y as int, r.origin.y as int, r.direction.y as int, i1);
        lemma_slab_empty_absorb(inner.min.z as int, inner.max.z as int, r.origin.z as int, r.direction.z as int, i2);
    } else {
        lemma_slab_mono(inner.min.y as int, inner.max.y as int, outer.min.y as int, outer.max.y as int,
            r.origin.y as int, r.direction.y as int, i1, o1);
        if i2.1 <= i2.0 {
            lemma_slab_empty_absorb(inner.min.z as int, inner.max.z as int, r.origin.z as int, r.direction.z as int, i2);
        } else {
            lemma_slab_mono(inner.min.z as int, inner.max.z as int, outer.min.z as int, outer.max.z as int,
                r.origin.z as int, r.direction.z as int, i2, o2);
        }
    }
}

/// Widening the search window can only turn a slab miss into a hit,
/// never a hit into a miss.
pub proof fn lemma_aabb_hit_window_mono(b: AABB, r: Ray, tmin: int, w1: int, w2: int)
    requires
        w1 <= w2,
        aabb_hit_s(b, r, tmin, w1),
    ensures
        aabb_hit_s(b, r, tmin, w2),
{
    let i1 = slab_s(b.min.x as int, b.max.x as int, r.origin.x as int, r.direction.x as int, (tmin, w1));
    let i2 = slab_s(b.min.y as int, b.max.y as int, r.origin.y as int, r.direction.y as int, i1);
    let i3 = slab_s(b.min.z as int, b.max.z as int, r.origin.z as int, r.direction.z as int, i2);
    let o1 = slab_s(b.min.x as int, b.max.x as int, r.origin.x as int, r.direction.x as int, (tmin, w2));
    let o2 = slab_s(b.min.y as int, b.max.y as int, r.origin.y as int, r.direction.y as int, o1);
    let o3 = slab_s(b.min.z as int, b.max.z as int, r.origin.z as int, r.direction.z as int, o2);
    lemma_slab_mono(b.min.x as int, b.max.x as int, b.min.x as int, b.max.x as int,
        r.origin.x as int, r.direction.x as int, (tmin, w1), (tmin, w2));
    if i1.1 <= i1.0 {
        lemma_slab_empty_absorb(b.min.y as int, b.max.y as int, r.origin.y as int, r.direction.y as int, i1);
        lemma_slab_empty_absorb(b.min.z as int, b.max.z as int, r.origin.z as int, r.direction.z as int, i2);
    } else {
        lemma_slab_mono(b.min.y as int, b.max.y as int, b.min.y as int, b.max.y as int,
            r.origin.y as int, r.direction.y as int, i1, o1);
        if i2.1 <= i2.0 {
            lemma_slab_empty_absorb(b.min.z as int, b.max.z as int, r.origin.z as int, r.direction.z as int, i2);
        } else {
            lemma_slab_mono(b.min.z as int, b.max.z as int, b.min.z as int, b.max.z as int,
                r.origin.z as int, r.direction.z as int, i2, o2);
        }
    }
}

/// Negating the ray (origin and direction) together with reflecting the
/// box through the coordinate origin leaves the slab test unchanged: the
/// symmetry of the slab test under a direction sign swap with swapped
/// min/max expectations.
pub proof fn lemma_aabb_hit_mirror(b: AABB, r: Ray, tmin: int, tmax: int)
    requires
        wf_aabb(b),
        wf_ray(r),
    ensures
        ({
            let mb = AABB {
                min: Point3 { x: (-b.max.x) as i64, y: (-b.max.y) as i64, z: (-b.max.z) as i64 },
                max: Point3 { x: (-b.min.x) as i64, y: (-b.min.y) as i64, z: (-b.min.z) as i64 },
            };
            let mr = Ray {
                origin: Point3 { x: (-r.origin.x) as i64, y: (-r.origin.y) as i64, z: (-r.origin.z) as i64 },
                direction: Vec3 { x: (-r.direction.x) as i64, y: (-r.direction.y) as i64, z: (-r.direction.z) as i64 },
                time: r.time,
            };
            aabb_hit_s(b, r, tmin, tmax) == aabb_hit_s(mb, mr, tmin, tmax)
        }),
{
}

} // verus!

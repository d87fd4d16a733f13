//! Geometric primitives: the sphere and the plane, each with an
//! intersection test, a surface normal, and a material.

use vstd::prelude::*;
use crate::effects::Material;
use crate::fx::{spec_add, spec_sub, spec_mul, spec_div, spec_sqrt, fx_add, fx_sub, fx_mul, fx_div,
    fx_sqrt, isqrt, lemma_isqrt_bracket, lemma_square_bounds, FX_MAX, SCALE};
use crate::math::{Vec3, v_sub, v_dot, v_normalize, lemma_normalize_keeps_orientation};
use vstd::arithmetic::div_mod::{lemma_div_is_ordered, lemma_div_multiples_vanish, lemma_div_of0};

verus! {

/// A sphere: a center, a radius, and a material.
#[derive(Clone, Copy, Debug, PartialEq, Eq, Structural)]
pub struct Sphere {
    pub center: Vec3,
    pub radius: i64,
    pub material: Material,
}

/// Nearest nonnegative ray parameter at which a ray meets a sphere, if any.
///
/// Projects the vector from the origin to the center onto the direction,
/// compares the squared center distance with the squared radius, and takes
/// the nearer nonnegative root.
pub open spec fn spec_sphere_intersect(s: Sphere, origin: Vec3, dir: Vec3) -> Option<i64> {
    let l: Vec3 = v_sub(s.center, origin);
    let tca: int = v_dot(l, dir);
    let d2: int = spec_sub(v_dot(l, l), spec_mul(tca, tca));
    let r2: int = spec_mul(s.radius as int, s.radius as int);
    if d2 > r2 {
        None
    } else {
        let thc: int = spec_sqrt(spec_sub(r2, d2));
        let t0: int = spec_sub(tca, thc);
        let t1: int = spec_add(tca, thc);
        if t0 < 0 {
            if t1 < 0 {
                None
            } else {
                Some(t1 as i64)
            }
        } else {
            Some(t0 as i64)
        }
    }
}

impl Sphere {
    /// Pack a center, a radius, and a material into a sphere.
    pub fn new(center: Vec3, radius: i64, material: Material) -> (r: Sphere)
        ensures
            r.center == center,
            r.radius == radius,
            r.material == material,
    {
        Sphere { center, radius, material }
    }

    /// Distance along the ray to the nearest intersection ahead of the
    /// origin, or `None` when the ray misses the sphere.  The direction is
    /// expected to be unit length.
    pub fn ray_intersect(&self, origin: &Vec3, dir: &Vec3) -> (r: Option<i64>)
        ensures
            r == spec_sphere_intersect(*self, *origin, *dir),
    {
        let origin_to_center: Vec3 = self.center.sub(*origin);
        let result: i64 = origin_to_center.dot(*dir);
        let distance_squared: i64 = fx_sub(origin_to_center.dot(origin_to_center), fx_mul(result, result));
        let radius_squared: i64 = fx_mul(self.radius, self.radius);
        if distance_squared > radius_squared {
            return None;
        }
        let dist_to_intersection: i64 = fx_sqrt(fx_sub(radius_squared, distance_squared));
        let mut t: i64 = fx_sub(result, dist_to_intersection);
        let t1: i64 = fx_add(result, dist_to_intersection);
        if t < 0 {
            t = t1;
        }
        if t < 0 {
            return None;
        }
        return Some(t);
    }

    /// The sphere's material, by value.
    pub fn material(&self) -> (r: Material)
        ensures
            r == self.material,
    {
        self.material
    }

    /// Outward unit normal at a surface point: the normalized offset of the
    /// point from the center.
    pub fn compute_normal(&self, point: &Vec3) -> (r: Vec3)
        ensures
            r == v_normalize(v_sub(*point, self.center)),
    {
        point.sub(self.center).normalize()
    }
}

/// A ray whose origin lies outside a sphere and whose direction points
/// away from it never hits the sphere: when the origin-to-center vector
/// has a nonpositive projection onto the direction and a squared length
/// above the squared radius, the intersection test reports a miss.
pub proof fn lemma_sphere_miss_when_pointing_away(s: Sphere, origin: Vec3, dir: Vec3)
    requires
        v_dot(v_sub(s.center, origin), dir) <= 0,
        v_dot(v_sub(s.center, origin), v_sub(s.center, origin)) > spec_mul(
            s.radius as int,
            s.radius as int,
        ),
    ensures
        spec_sphere_intersect(s, origin, dir) is None,
{
    let l: Vec3 = v_sub(s.center, origin);
    let tca: int = v_dot(l, dir);
    let ll: int = v_dot(l, l);
    let m: int = spec_mul(tca, tca);
    let r2: int = spec_mul(s.radius as int, s.radius as int);
    let d2: int = spec_sub(ll, m);
    lemma_square_bounds(l.x as int);
    lemma_square_bounds(l.y as int);
    lemma_square_bounds(l.z as int);
    lemma_square_bounds(tca);
    lemma_square_bounds(s.radius as int);
    assert(0 <= ll <= FX_MAX as int);
    assert(d2 == ll - m);
    if d2 <= r2 {
        let k: int = spec_sub(r2, d2);
        assert(k == r2 - ll + m);
        assert(0 <= k <= m - 1);
        let u: int = -tca;
        assert(u >= 0);
        assert(tca * tca == u * u) by (nonlinear_arith)
            requires
                u == -tca,
        ;
        assert(u >= 1) by {
            if u == 0 {
                assert(tca * tca == 0) by (nonlinear_arith)
                    requires
                        tca == 0,
                ;
                lemma_div_of0(SCALE as int);
                assert(m == 0);
            }
        }
        let thc: int = spec_sqrt(k);
        if k == 0 {
            assert(thc == 0);
        } else {
            assert(k * (SCALE as int) >= k);
            lemma_isqrt_bracket(k * (SCALE as int));
            assert(thc == isqrt(k * (SCALE as int)));
            if thc >= u {
                assert(u * u <= thc * thc) by (nonlinear_arith)
                    requires
                        0 <= u,
                        u <= thc,
                ;
                assert(thc * thc <= k * (SCALE as int));
                lemma_div_is_ordered(u * u, k * 65536, 65536);
                assert(k * 65536 == 65536 * k) by (nonlinear_arith);
                lemma_div_multiples_vanish(k, 65536);
                assert((u * u) / 65536 <= k);
                assert(m <= k);
                assert(false);
            }
        }
        assert(thc < u);
        assert(spec_add(tca, thc) < 0);
        assert(spec_sub(tca, thc) < 0);
    }
}

/// Whatever the sphere intersection test returns is a distance at or
/// ahead of the ray origin: it is never negative.
pub proof fn lemma_sphere_intersect_nonneg(s: Sphere, origin: Vec3, dir: Vec3)
    ensures
        match spec_sphere_intersect(s, origin, dir) {
            Some(t) => t >= 0,
            None => true,
        },
{
}

/// The sphere's surface normal at a point is oriented along the offset
/// from the center to that point: normalization scales the offset but
/// never flips any component's sign.
pub proof fn lemma_sphere_normal_oriented(s: Sphere, point: Vec3)
    ensures
        ({
            let offset = v_sub(point, s.center);
            let normal = v_normalize(offset);
            (offset.x > 0 ==> normal.x >= 0) && (offset.x < 0 ==> normal.x <= 0) && (offset.x == 0
                ==> normal.x == 0) && (offset.y > 0 ==> normal.y >= 0) && (offset.y < 0
                ==> normal.y <= 0) && (offset.y == 0 ==> normal.y == 0) && (offset.z > 0
                ==> normal.z >= 0) && (offset.z < 0 ==> normal.z <= 0) && (offset.z == 0
                ==> normal.z == 0)
        }),
{
    lemma_normalize_keeps_orientation(v_sub(point, s.center));
}

/// A plane: a fixed normal, a point it passes through, and a material.
#[derive(Clone, Copy, Debug, PartialEq, Eq, Structural)]
pub struct Plane {
    pub normal: Vec3,
    pub point: Vec3,
    pub material: Material,
}

/// Ray parameter at which a ray meets a plane, if the two are not parallel.
///
/// The parameter is returned unfiltered: a ray that leaves the plane behind
/// its origin yields a negative value, and callers must defend against it.
pub open spec fn spec_plane_intersect(p: Plane, origin: Vec3, dir: Vec3) -> Option<i64> {
    let denom: int = v_dot(p.normal, dir);
    if denom == 0 {
        None
    } else {
        Some(
            spec_div(spec_sub(v_dot(p.normal, p.point), v_dot(p.normal, origin)), denom) as i64,
        )
    }
}

impl Plane {
    /// Pack a normal, a point on the plane, and a material into a plane.
    pub fn new(normal: Vec3, point: Vec3, material: Material) -> (r: Plane)
        ensures
            r.normal == normal,
            r.point == point,
            r.material == material,
    {
        Plane { normal, point, material }
    }

    /// Ray parameter of the meeting point with the plane, or `None` for a
    /// parallel ray.  A negative parameter (a hit behind the origin) is
    /// passed through unfiltered, and callers must defend against it.
    pub fn ray_intersect(&self, origin: &Vec3, dir: &Vec3) -> (r: Option<i64>)
        ensures
            r == spec_plane_intersect(*self, *origin, *dir),
    {
        let temp: i64 = self.normal.dot(*dir);
        if temp == 0 {
            return None;
        }
        let t: i64 = fx_div(fx_sub(self.normal.dot(self.point), self.normal.dot(*origin)), temp);
        return Some(t);
    }

    /// The plane's material, by value.
    pub fn material(&self) -> (r: Material)
        ensures
            r == self.material,
    {
        self.material
    }

    /// The plane's fixed normal, normalized; its sign is not corrected to
    /// face the incoming ray.
    pub fn compute_normal(&self, _point: &Vec3) -> (r: Vec3)
        ensures
            r == v_normalize(self.normal),
    {
        self.normal.normalize()
    }
}

} // verus!

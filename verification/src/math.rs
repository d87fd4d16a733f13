//! Vector algebra over fixed-point scalars: dot product, normalization,
//! reflection and Snell refraction, plus the scalar `max`/`min` helpers.

use vstd::prelude::*;
use crate::fx::{
    FX_ONE, FX_TWO, spec_add, spec_sub, spec_neg, spec_mul, spec_div, spec_sqrt, spec_max,
    spec_min, fx_add, fx_sub, fx_neg, fx_mul, fx_div, fx_sqrt, abs_i, lemma_spec_mul_rem,
    lemma_spec_mul_two, lemma_square_bounds, lemma_div_sign, lemma_isqrt_bracket,
    lemma_isqrt_bounds, lemma_tdiv_rem, isqrt, tdiv,
};

verus! {

/// A three-component vector of fixed-point scalars; a point or a direction.
#[derive(Clone, Copy, Debug, PartialEq, Eq, Structural)]
pub struct Vec3 {
    pub x: i64,
    pub y: i64,
    pub z: i64,
}

/// A four-component vector of fixed-point scalars; the material albedo weights.
#[derive(Clone, Copy, Debug, PartialEq, Eq, Structural)]
pub struct Vec4 {
    pub x: i64,
    pub y: i64,
    pub z: i64,
    pub w: i64,
}

/// The zero vector.
pub open spec fn zero_vec() -> Vec3 {
    Vec3 { x: 0, y: 0, z: 0 }
}

/// Component-wise saturating sum.
pub open spec fn v_add(a: Vec3, b: Vec3) -> Vec3 {
    Vec3 {
        x: spec_add(a.x as int, b.x as int) as i64,
        y: spec_add(a.y as int, b.y as int) as i64,
        z: spec_add(a.z as int, b.z as int) as i64,
    }
}

/// Component-wise saturating difference.
pub open spec fn v_sub(a: Vec3, b: Vec3) -> Vec3 {
    Vec3 {
        x: spec_sub(a.x as int, b.x as int) as i64,
        y: spec_sub(a.y as int, b.y as int) as i64,
        z: spec_sub(a.z as int, b.z as int) as i64,
    }
}

/// Component-wise saturating product with a scalar.
pub open spec fn v_scale(a: Vec3, s: int) -> Vec3 {
    Vec3 {
        x: spec_mul(a.x as int, s) as i64,
        y: spec_mul(a.y as int, s) as i64,
        z: spec_mul(a.z as int, s) as i64,
    }
}

/// Component-wise saturating quotient by a scalar.
pub open spec fn v_div(a: Vec3, s: int) -> Vec3 {
    Vec3 {
        x: spec_div(a.x as int, s) as i64,
        y: spec_div(a.y as int, s) as i64,
        z: spec_div(a.z as int, s) as i64,
    }
}

/// Dot product: saturating sum of the component products.
pub open spec fn v_dot(a: Vec3, b: Vec3) -> int {
    spec_add(
        spec_add(spec_mul(a.x as int, b.x as int), spec_mul(a.y as int, b.y as int)),
        spec_mul(a.z as int, b.z as int),
    )
}

/// Euclidean length: square root of the dot product with itself.
pub open spec fn v_magnitude(a: Vec3) -> int {
    spec_sqrt(v_dot(a, a))
}

/// Each component divided by the length (the zero vector stays zero).
pub open spec fn v_normalize(a: Vec3) -> Vec3 {
    v_div(a, v_magnitude(a))
}

impl Vec3 {
    /// Pack three scalars into a vector.
    pub fn new(x: i64, y: i64, z: i64) -> (r: Vec3)
        ensures
            r.x == x,
            r.y == y,
            r.z == z,
    {
        Vec3 { x, y, z }
    }

    /// Component-wise saturating sum.
    pub fn add(self, other: Vec3) -> (r: Vec3)
        ensures
            r == v_add(self, other),
    {
        Vec3 { x: fx_add(self.x, other.x), y: fx_add(self.y, other.y), z: fx_add(self.z, other.z) }
    }

    /// Component-wise saturating difference.
    pub fn sub(self, other: Vec3) -> (r: Vec3)
        ensures
            r == v_sub(self, other),
    {
        Vec3 { x: fx_sub(self.x, other.x), y: fx_sub(self.y, other.y), z: fx_sub(self.z, other.z) }
    }

    /// Component-wise saturating product with a scalar.
    pub fn scale(self, s: i64) -> (r: Vec3)
        ensures
            r == v_scale(self, s as int),
    {
        Vec3 { x: fx_mul(self.x, s), y: fx_mul(self.y, s), z: fx_mul(self.z, s) }
    }

    /// Component-wise saturating quotient by a scalar.
    pub fn div(self, s: i64) -> (r: Vec3)
        ensures
            r == v_div(self, s as int),
    {
        Vec3 { x: fx_div(self.x, s), y: fx_div(self.y, s), z: fx_div(self.z, s) }
    }

    /// Dot product with another vector.
    pub fn dot(self, other: Vec3) -> (r: i64)
        ensures
            r as int == v_dot(self, other),
    {
        fx_add(fx_add(fx_mul(self.x, other.x), fx_mul(self.y, other.y)), fx_mul(self.z, other.z))
    }

    /// Euclidean length.
    pub fn magnitude(self) -> (r: i64)
        ensures
            r as int == v_magnitude(self),
    {
        fx_sqrt(self.dot(self))
    }

    /// Scale to unit length (the zero vector stays zero).
    pub fn normalize(self) -> (r: Vec3)
        ensures
            r == v_normalize(self),
    {
        let m: i64 = self.magnitude();
        self.div(m)
    }
}

/// The larger of two scalars.
pub fn max(v1: i64, v2: i64) -> (r: i64)
    ensures
        r as int == spec_max(v1 as int, v2 as int),
{
    if v2 > v1 {
        return v2;
    }
    return v1;
}

/// The smaller of two scalars.
pub fn min(v1: i64, v2: i64) -> (r: i64)
    ensures
        r as int == spec_min(v1 as int, v2 as int),
{
    if v2 > v1 {
        return v1;
    }
    return v2;
}

/// Mirror `i` about the surface normal `n`: `i - n * (2 * dot(i, n))`.
pub open spec fn spec_reflect(i: Vec3, n: Vec3) -> Vec3 {
    v_sub(i, v_scale(v_scale(n, v_dot(i, n)), FX_TWO as int))
}

/// Mirror the incident direction about the surface normal.
pub fn reflect(i: &Vec3, n: &Vec3) -> (r: Vec3)
    ensures
        r == spec_reflect(*i, *n),
{
    i.sub(n.scale(i.dot(*n)).scale(FX_TWO))
}

/// Normalizing never flips a vector: each component of the normalized
/// vector keeps the sign of the original component (or collapses to
/// zero), so the result is oriented the same way.
pub proof fn lemma_normalize_keeps_orientation(v: Vec3)
    ensures
        v.x > 0 ==> v_normalize(v).x >= 0,
        v.x < 0 ==> v_normalize(v).x <= 0,
        v.x == 0 ==> v_normalize(v).x == 0,
        v.y > 0 ==> v_normalize(v).y >= 0,
        v.y < 0 ==> v_normalize(v).y <= 0,
        v.y == 0 ==> v_normalize(v).y == 0,
        v.z > 0 ==> v_normalize(v).z >= 0,
        v.z < 0 ==> v_normalize(v).z <= 0,
        v.z == 0 ==> v_normalize(v).z == 0,
{
    let m: int = v_magnitude(v);
    if m > 0 {
        lemma_div_sign(v.x as int, m);
        lemma_div_sign(v.y as int, m);
        lemma_div_sign(v.z as int, m);
    } else {
        assert(m >= 0) by {
            if v_dot(v, v) > 0 {
                lemma_isqrt_bracket(v_dot(v, v) * 65536);
            }
        }
    }
}

/// One component's share of the normalization identity: dividing by the
/// vector's length and squaring leaves per-component remainders bounded
/// by the length and by one scaling unit.
proof fn lemma_normalize_component(vc: int, g: int)
    requires
        abs_i(vc) <= g + 2,
        65536 <= g <= 33554431,
    ensures
        ({
            let r = spec_div(vc, g);
            let a = vc * 65536 - g * r;
            let h = spec_mul(r, r);
            let b = r * r - 65536 * h;
            abs_i(r) <= 65539 && abs_i(a) <= g - 1 && 0 <= b <= 65535 && 0 <= h <= 65546 && abs_i(
                vc * a,
            ) <= g * g + g && a * a <= g * g && 0 <= (g * g) * b <= (g * g) * 65535 && 65536 * ((g
                * g) * h) == 4294967296 * (vc * vc) - 131072 * (vc * a) + a * a - (g * g) * b
        }),
{
    let t: int = tdiv(vc * 65536, g);
    lemma_tdiv_rem(vc * 65536, g);
    assert(abs_i(vc * 65536) <= (g + 2) * 65536) by (nonlinear_arith)
        requires
            abs_i(vc) <= g + 2,
    ;
    assert(-((g + 2) * 65536) <= g * t <= (g + 2) * 65536);
    assert(abs_i(t) <= 65539) by (nonlinear_arith)
        requires
            g >= 65536,
            -((g + 2) * 65536) <= g * t <= (g + 2) * 65536,
    ;
    let r: int = spec_div(vc, g);
    assert(r == t);
    let a: int = vc * 65536 - g * r;
    assert(abs_i(a) <= g - 1);
    let h: int = spec_mul(r, r);
    lemma_spec_mul_rem(r, r);
    assert(r * r >= 0) by (nonlinear_arith);
    lemma_tdiv_rem(r * r, 65536);
    let b: int = r * r - 65536 * h;
    assert(0 <= b <= 65535);
    assert(r * r <= 65539 * 65539) by (nonlinear_arith)
        requires
            abs_i(r) <= 65539,
    ;
    assert(0 <= h <= 65546);
    assert(abs_i(vc * a) <= g * g + g) by (nonlinear_arith)
        requires
            abs_i(vc) <= g + 2,
            abs_i(a) <= g - 1,
            g >= 65536,
    ;
    assert(a * a <= g * g) by (nonlinear_arith)
        requires
            abs_i(a) <= g - 1,
            g >= 1,
    ;
    assert(0 <= (g * g) * b <= (g * g) * 65535) by (nonlinear_arith)
        requires
            g >= 1,
            0 <= b <= 65535,
    ;
    assert(65536 * ((g * g) * h) == 4294967296 * (vc * vc) - 131072 * (vc * a) + a * a - (g * g)
        * b) by (nonlinear_arith)
        requires
            g * r == vc * 65536 - a,
            65536 * h == r * r - b,
    ;
}

/// Normalizing a vector of at least unit length yields a vector whose
/// squared length, and so whose length, sits within sixteen scaling
/// units of one: the fixed-point rendering of unit magnitude.
#[verifier::rlimit(100)]
pub proof fn lemma_normalize_magnitude(v: Vec3)
    requires
        abs_i(v.x as int) <= 16777216,
        abs_i(v.y as int) <= 16777216,
        abs_i(v.z as int) <= 16777216,
        v_magnitude(v) >= FX_ONE as int,
    ensures
        abs_i(v_dot(v_normalize(v), v_normalize(v)) - FX_ONE as int) <= 16,
        abs_i(v_magnitude(v_normalize(v)) - FX_ONE as int) <= 16,
{
    let vx = v.x as int;
    let vy = v.y as int;
    let vz = v.z as int;
    let nn1 = spec_mul(vx, vx);
    let nn2 = spec_mul(vy, vy);
    let nn3 = spec_mul(vz, vz);
    lemma_spec_mul_rem(vx, vx);
    lemma_spec_mul_rem(vy, vy);
    lemma_spec_mul_rem(vz, vz);
    lemma_square_bounds(vx);
    lemma_square_bounds(vy);
    lemma_square_bounds(vz);
    assert(vx * vx >= 0 && vy * vy >= 0 && vz * vz >= 0) by (nonlinear_arith);
    lemma_tdiv_rem(vx * vx, 65536);
    lemma_tdiv_rem(vy * vy, 65536);
    lemma_tdiv_rem(vz * vz, 65536);
    let q1 = vx * vx - 65536 * nn1;
    let q2 = vy * vy - 65536 * nn2;
    let q3 = vz * vz - 65536 * nn3;
    assert(0 <= q1 <= 65535 && 0 <= q2 <= 65535 && 0 <= q3 <= 65535);
    assert(vx * vx <= 281474976710656 && vy * vy <= 281474976710656 && vz * vz
        <= 281474976710656) by (nonlinear_arith)
        requires
            abs_i(vx) <= 16777216,
            abs_i(vy) <= 16777216,
            abs_i(vz) <= 16777216,
    ;
    assert(nn1 <= 4294967296 && nn2 <= 4294967296 && nn3 <= 4294967296);
    let ll = v_dot(v, v);
    assert(ll == nn1 + nn2 + nn3);
    assert(0 <= ll <= 12884901888);
    let g = v_magnitude(v);
    assert(ll >= 1 && g == isqrt(ll * 65536));
    lemma_isqrt_bracket(ll * 65536);
    lemma_isqrt_bounds(ll * 65536, 33554431);
    assert((33554432int) * 33554432int > ll * 65536);
    assert(65536 <= g <= 33554431);
    let e = 65536 * ll - g * g;
    assert((g + 1) * (g + 1) == g * g + 2 * g + 1) by (nonlinear_arith);
    assert(0 <= e <= 2 * g);
    assert(nn1 <= ll && nn2 <= ll && nn3 <= ll);
    assert(abs_i(vx) <= g + 2 && abs_i(vy) <= g + 2 && abs_i(vz) <= g + 2) by (nonlinear_arith)
        requires
            vx * vx <= 65536 * ll + 65535,
            vy * vy <= 65536 * ll + 65535,
            vz * vz <= 65536 * ll + 65535,
            65536 * ll < (g + 1) * (g + 1),
            g >= 65536,
    ;
    lemma_normalize_component(vx, g);
    lemma_normalize_component(vy, g);
    lemma_normalize_component(vz, g);
    let r1 = spec_div(vx, g);
    let r2 = spec_div(vy, g);
    let r3 = spec_div(vz, g);
    assert(v_normalize(v).x as int == r1);
    assert(v_normalize(v).y as int == r2);
    assert(v_normalize(v).z as int == r3);
    let h1 = spec_mul(r1, r1);
    let h2 = spec_mul(r2, r2);
    let h3 = spec_mul(r3, r3);
    let dotn = v_dot(v_normalize(v), v_normalize(v));
    assert(dotn == h1 + h2 + h3);
    let a1 = vx * 65536 - g * r1;
    let a2 = vy * 65536 - g * r2;
    let a3 = vz * 65536 - g * r3;
    let b1 = r1 * r1 - 65536 * h1;
    let b2 = r2 * r2 - 65536 * h2;
    let b3 = r3 * r3 - 65536 * h3;
    assert((g * g) * h1 + (g * g) * h2 + (g * g) * h3 == (g * g) * dotn) by (nonlinear_arith)
        requires
            dotn == h1 + h2 + h3,
    ;
    let spread = (g * g) * dotn - 65536 * (g * g);
    assert(65536 * spread == 4294967296 * (q1 + q2 + q3) + 4294967296 * e - 131072 * (vx * a1 + vy
        * a2 + vz * a3) + (a1 * a1 + a2 * a2 + a3 * a3) - ((g * g) * b1 + (g * g) * b2 + (g * g)
        * b3));
    assert(g * g >= 4294967296) by (nonlinear_arith)
        requires
            g >= 65536,
    ;
    assert(4294967296 * (q1 + q2 + q3) <= 196605 * (g * g)) by (nonlinear_arith)
        requires
            0 <= q1 + q2 + q3 <= 196605,
            g * g >= 4294967296,
    ;
    assert(4294967296 * e <= 131072 * (g * g)) by (nonlinear_arith)
        requires
            0 <= e <= 2 * g,
            g >= 65536,
    ;
    assert(-(393222 * (g * g)) <= 131072 * (vx * a1 + vy * a2 + vz * a3) <= 393222 * (g
        * g)) by (nonlinear_arith)
        requires
            abs_i(vx * a1) <= g * g + g,
            abs_i(vy * a2) <= g * g + g,
            abs_i(vz * a3) <= g * g + g,
            g >= 65536,
    ;
    assert(a1 * a1 >= 0 && a2 * a2 >= 0 && a3 * a3 >= 0) by (nonlinear_arith);
    assert(-(917507 * (g * g)) <= 65536 * spread <= 917507 * (g * g));
    assert(abs_i(dotn - 65536) <= 14) by (nonlinear_arith)
        requires
            spread == (g * g) * dotn - 65536 * (g * g),
            -(917507 * (g * g)) <= 65536 * spread <= 917507 * (g * g),
            g * g >= 1,
    ;
    assert(dotn * 65536 >= 65520 * 65536);
    lemma_isqrt_bounds(dotn * 65536, 65520);
    lemma_isqrt_bounds(dotn * 65536, 65551);
    assert((65520int) * 65520int <= dotn * 65536);
    assert(dotn * 65536 < (65552int) * 65552int);
    assert(v_magnitude(v_normalize(v)) == isqrt(dotn * 65536));
}

/// One component's share of the reflection identity: relates the rounded
/// products that `reflect` and the dot products build from a component
/// pair to their exact integer counterparts, each off by a remainder
/// smaller than one scaling unit.
proof fn lemma_reflect_component(ic: int, nc: int, d: int)
    requires
        abs_i(ic) <= 65536,
        abs_i(nc) <= 65536,
        abs_i(d) <= 196611,
    ensures
        ({
            let m = spec_mul(ic, nc);
            let nn = spec_mul(nc, nc);
            let w = spec_mul(nc, d);
            let g = spec_mul(ic - 2 * w, nc);
            let r = ic * nc - 65536 * m;
            let q = nc * nc - 65536 * nn;
            let s = nc * d - 65536 * w;
            let t = (ic - 2 * w) * nc - 65536 * g;
            abs_i(m) <= 65537 && 0 <= nn <= 65537 && abs_i(w) <= 196612 && abs_i(g) <= 458769
                && abs_i(r) < 65536 && abs_i(q) < 65536 && abs_i(s) < 65536 && abs_i(t) < 65536
                && abs_i(s * nc) <= 4294901760 && spec_mul(w, FX_TWO as int) == 2 * w
                && 4294967296 * g == 4294967296 * m + 65536 * r - 131072 * (nn * d) - 2 * (q * d)
                + 2 * (s * nc) - 65536 * t
        }),
{
    let m = spec_mul(ic, nc);
    let nn = spec_mul(nc, nc);
    let w = spec_mul(nc, d);
    lemma_spec_mul_rem(ic, nc);
    lemma_spec_mul_rem(nc, nc);
    lemma_spec_mul_rem(nc, d);
    lemma_square_bounds(nc);
    assert(abs_i(ic * nc) <= 4294967296 && abs_i(nc * nc) <= 4294967296 && abs_i(nc * d)
        <= 65536 * 196611) by (nonlinear_arith)
        requires
            abs_i(ic) <= 65536,
            abs_i(nc) <= 65536,
            abs_i(d) <= 196611,
    ;
    assert(abs_i(m) <= 65537);
    assert(0 <= nn <= 65537);
    assert(abs_i(w) <= 196612);
    lemma_spec_mul_two(w);
    let refc = ic - 2 * w;
    assert(abs_i(refc) <= 458760);
    let g = spec_mul(refc, nc);
    lemma_spec_mul_rem(refc, nc);
    assert(abs_i(refc * nc) <= 458760 * 65536) by (nonlinear_arith)
        requires
            abs_i(refc) <= 458760,
            abs_i(nc) <= 65536,
    ;
    assert(abs_i(g) <= 458769);
    let r = ic * nc - 65536 * m;
    let q = nc * nc - 65536 * nn;
    let s = nc * d - 65536 * w;
    let t = refc * nc - 65536 * g;
    assert(abs_i(s * nc) <= 4294901760) by (nonlinear_arith)
        requires
            abs_i(s) <= 65535,
            abs_i(nc) <= 65536,
    ;
    assert(65536 * (refc * nc) == 65536 * (ic * nc) - 2 * (65536 * (w * nc))) by (nonlinear_arith)
        requires
            refc == ic - 2 * w,
    ;
    assert(65536 * (w * nc) == (nc * nc) * d - s * nc) by (nonlinear_arith)
        requires
            65536 * w == nc * d - s,
    ;
    assert((nc * nc) * d == 65536 * (nn * d) + q * d) by (nonlinear_arith)
        requires
            nc * nc == 65536 * nn + q,
    ;
    assert(65536 * (ic * nc) == 4294967296 * m + 65536 * r);
    assert(4294967296 * g == 65536 * (refc * nc) - 65536 * t);
}

/// For a unit normal, the projection of the reflected direction onto the
/// normal is the negated projection of the incident direction, up to a
/// few scaling units of rounding: the exact identity of real arithmetic
/// cannot survive truncation, so the deviation is pinned down instead.
#[verifier::rlimit(100)]
pub proof fn lemma_reflect_dot_negates(i: Vec3, n: Vec3)
    requires
        abs_i(i.x as int) <= FX_ONE as int,
        abs_i(i.y as int) <= FX_ONE as int,
        abs_i(i.z as int) <= FX_ONE as int,
        abs_i(n.x as int) <= FX_ONE as int,
        abs_i(n.y as int) <= FX_ONE as int,
        abs_i(n.z as int) <= FX_ONE as int,
        v_dot(n, n) == FX_ONE as int,
    ensures
        abs_i(v_dot(spec_reflect(i, n), n) + v_dot(i, n)) <= 32,
{
    let ix = i.x as int;
    let iy = i.y as int;
    let iz = i.z as int;
    let nx = n.x as int;
    let ny = n.y as int;
    let nz = n.z as int;
    let m1 = spec_mul(ix, nx);
    let m2 = spec_mul(iy, ny);
    let m3 = spec_mul(iz, nz);
    lemma_spec_mul_rem(ix, nx);
    lemma_spec_mul_rem(iy, ny);
    lemma_spec_mul_rem(iz, nz);
    assert(abs_i(ix * nx) <= 4294967296 && abs_i(iy * ny) <= 4294967296 && abs_i(iz * nz)
        <= 4294967296) by (nonlinear_arith)
        requires
            abs_i(ix) <= 65536,
            abs_i(iy) <= 65536,
            abs_i(iz) <= 65536,
            abs_i(nx) <= 65536,
            abs_i(ny) <= 65536,
            abs_i(nz) <= 65536,
    ;
    assert(abs_i(m1) <= 65537 && abs_i(m2) <= 65537 && abs_i(m3) <= 65537);
    let d = v_dot(i, n);
    assert(d == m1 + m2 + m3);
    assert(abs_i(d) <= 196611);
    lemma_reflect_component(ix, nx, d);
    lemma_reflect_component(iy, ny, d);
    lemma_reflect_component(iz, nz, d);
    let nn1 = spec_mul(nx, nx);
    let nn2 = spec_mul(ny, ny);
    let nn3 = spec_mul(nz, nz);
    assert(nn1 + nn2 + nn3 == 65536);
    let w1 = spec_mul(nx, d);
    let w2 = spec_mul(ny, d);
    let w3 = spec_mul(nz, d);
    let g1 = spec_mul(ix - 2 * w1, nx);
    let g2 = spec_mul(iy - 2 * w2, ny);
    let g3 = spec_mul(iz - 2 * w3, nz);
    assert(spec_reflect(i, n).x as int == ix - 2 * w1);
    assert(spec_reflect(i, n).y as int == iy - 2 * w2);
    assert(spec_reflect(i, n).z as int == iz - 2 * w3);
    let dr = v_dot(spec_reflect(i, n), n);
    assert(dr == g1 + g2 + g3);
    let r_sum = (ix * nx - 65536 * m1) + (iy * ny - 65536 * m2) + (iz * nz - 65536 * m3);
    let q_sum = (nx * nx - 65536 * nn1) + (ny * ny - 65536 * nn2) + (nz * nz - 65536 * nn3);
    let t_sum = ((ix - 2 * w1) * nx - 65536 * g1) + ((iy - 2 * w2) * ny - 65536 * g2) + ((iz - 2
        * w3) * nz - 65536 * g3);
    let sn_sum = (nx * d - 65536 * w1) * nx + (ny * d - 65536 * w2) * ny + (nz * d - 65536 * w3)
        * nz;
    assert(nn1 * d + nn2 * d + nn3 * d == 65536 * d) by (nonlinear_arith)
        requires
            nn1 + nn2 + nn3 == 65536,
    ;
    assert((nx * nx - 65536 * nn1) * d + (ny * ny - 65536 * nn2) * d + (nz * nz - 65536 * nn3) * d
        == q_sum * d) by (nonlinear_arith)
        requires
            q_sum == (nx * nx - 65536 * nn1) + (ny * ny - 65536 * nn2) + (nz * nz - 65536 * nn3),
    ;
    assert(4294967296 * (g1 + g2 + g3) == 4294967296 * (m1 + m2 + m3) + 65536 * r_sum - 131072 * (
    65536 * d) - 2 * (q_sum * d) + 2 * sn_sum - 65536 * t_sum);
    assert(4294967296 * (dr + d) == 65536 * r_sum - 2 * (q_sum * d) + 2 * sn_sum - 65536 * t_sum);
    assert(abs_i(q_sum * d) <= 38655754455) by (nonlinear_arith)
        requires
            abs_i(q_sum) <= 196605,
            abs_i(d) <= 196611,
    ;
    assert(abs_i(65536 * r_sum) <= 12884705280);
    assert(abs_i(65536 * t_sum) <= 12884705280);
    assert(abs_i(2 * sn_sum) <= 25769410560);
    assert(abs_i(4294967296 * (dr + d)) <= 128851000000);
    assert(abs_i(dr + d) <= 32);
}

/// Cosine of the incidence angle, clamped to [-1, 1] and negated.
pub open spec fn spec_refract_cosi(i: Vec3, n: Vec3) -> int {
    spec_neg(spec_max(-FX_ONE as int, spec_min(FX_ONE as int, v_dot(i, n))))
}

/// The discriminant of Snell's law; negative means total internal reflection.
pub open spec fn spec_refract_k(i: Vec3, n: Vec3, refractive_index: int) -> int {
    let cosi0: int = spec_refract_cosi(i, n);
    let cosi: int = if cosi0 < 0 {
        spec_neg(cosi0)
    } else {
        cosi0
    };
    let eta: int = if cosi0 < 0 {
        spec_div(refractive_index, FX_ONE as int)
    } else {
        spec_div(FX_ONE as int, refractive_index)
    };
    spec_sub(
        FX_ONE as int,
        spec_mul(spec_mul(eta, eta), spec_sub(FX_ONE as int, spec_mul(cosi, cosi))),
    )
}

/// Refract `i` through a surface with normal `n` by Snell's law; the zero
/// vector stands for total internal reflection.
pub open spec fn spec_refract(i: Vec3, n: Vec3, refractive_index: int) -> Vec3 {
    let cosi0: int = spec_refract_cosi(i, n);
    let cosi: int = if cosi0 < 0 {
        spec_neg(cosi0)
    } else {
        cosi0
    };
    let eta: int = if cosi0 < 0 {
        spec_div(refractive_index, FX_ONE as int)
    } else {
        spec_div(FX_ONE as int, refractive_index)
    };
    let normal: Vec3 = if cosi0 < 0 {
        v_scale(n, spec_neg(FX_ONE as int))
    } else {
        v_scale(n, FX_ONE as int)
    };
    let k: int = spec_refract_k(i, n, refractive_index);
    if k < 0 {
        zero_vec()
    } else {
        v_add(v_scale(i, eta), v_scale(normal, spec_sub(spec_mul(eta, cosi), spec_sqrt(k))))
    }
}

/// Bend the incident direction through the surface by Snell's law, with the
/// zero vector standing for total internal reflection.
pub fn refract(i: &Vec3, n: &Vec3, refractive_index: i64) -> (r: Vec3)
    ensures
        r == spec_refract(*i, *n, refractive_index as int),
        spec_refract_k(*i, *n, refractive_index as int) < 0 ==> r == zero_vec(),
{
    let mut cosi: i64 = fx_neg(max(-FX_ONE, min(FX_ONE, i.dot(*n))));
    let mut etai: i64 = FX_ONE;
    let mut etat: i64 = refractive_index;
    let normal: Vec3 = if cosi < 0 {
        cosi = fx_neg(cosi);
        let temp: i64 = etat;
        etat = etai;
        etai = temp;
        n.scale(fx_neg(FX_ONE))
    } else {
        n.scale(FX_ONE)
    };
    let eta: i64 = fx_div(etai, etat);
    let k: i64 = fx_sub(FX_ONE, fx_mul(fx_mul(eta, eta), fx_sub(FX_ONE, fx_mul(cosi, cosi))));
    if k < 0 {
        Vec3::new(0, 0, 0)
    } else {
        i.scale(eta).add(normal.scale(fx_sub(fx_mul(eta, cosi), fx_sqrt(k))))
    }
}

} // verus!

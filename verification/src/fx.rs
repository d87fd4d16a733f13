//! Fixed-point scalar arithmetic.
//!
//! A scalar is an `i64` counting units of `1/SCALE` (so `SCALE` itself
//! stands for the real number one).  All operations saturate at
//! `FX_MAX` in magnitude instead of overflowing, and products and
//! quotients round toward zero; the spec functions below give each
//! operation its exact mathematical meaning.

use vstd::prelude::*;
use vstd::arithmetic::div_mod::{lemma_div_nonincreasing, lemma_div_of0, lemma_div_pos_is_pos,
    lemma_div_is_ordered, lemma_div_multiples_vanish, lemma_fundamental_div_mod,
    lemma_mod_division_less_than_divisor};

verus! {

/// Number of raw units in one: a scalar `a` stands for the real number `a / SCALE`.
pub const SCALE: i64 = 65536;

/// The scalar one.
pub const FX_ONE: i64 = 65536;

/// The scalar two.
pub const FX_TWO: i64 = 131072;

/// Largest raw magnitude a scalar may take (2^62 - 1); arithmetic saturates here.
pub const FX_MAX: i64 = 4611686018427387903;

/// Clamp an unbounded integer into the representable scalar range.
pub open spec fn sat(x: int) -> int {
    if x > FX_MAX {
        FX_MAX as int
    } else if x < -(FX_MAX as int) {
        -(FX_MAX as int)
    } else {
        x
    }
}

/// Absolute value of an integer.
pub open spec fn abs_i(x: int) -> int {
    if x < 0 {
        -x
    } else {
        x
    }
}

/// Division rounding toward zero (total: zero divisor gives zero).
pub open spec fn tdiv(p: int, q: int) -> int {
    if q == 0 {
        0
    } else if (p < 0) == (q < 0) {
        abs_i(p) / abs_i(q)
    } else {
        -(abs_i(p) / abs_i(q))
    }
}

/// Saturating sum of two scalars.
pub open spec fn spec_add(a: int, b: int) -> int {
    sat(a + b)
}

/// Saturating difference of two scalars.
pub open spec fn spec_sub(a: int, b: int) -> int {
    sat(a - b)
}

/// Saturating negation of a scalar.
pub open spec fn spec_neg(a: int) -> int {
    sat(-a)
}

/// Saturating fixed-point product: `a * b / SCALE`, rounded toward zero.
pub open spec fn spec_mul(a: int, b: int) -> int {
    sat(tdiv(a * b, SCALE as int))
}

/// Saturating fixed-point quotient: `a * SCALE / b`, rounded toward zero
/// (total: a zero divisor gives zero).
pub open spec fn spec_div(a: int, b: int) -> int {
    if b == 0 {
        0
    } else {
        sat(tdiv(a * (SCALE as int), b))
    }
}

/// The larger of two scalars.
pub open spec fn spec_max(a: int, b: int) -> int {
    if b > a {
        b
    } else {
        a
    }
}

/// The smaller of two scalars.
pub open spec fn spec_min(a: int, b: int) -> int {
    if b > a {
        a
    } else {
        b
    }
}

/// Integer square root: the largest `r >= 0` with `r * r <= n` (zero for `n < 1`).
pub open spec fn isqrt(n: int) -> int
    decreases n,
{
    if n < 1 {
        0
    } else {
        let r: int = isqrt(n - 1);
        if (r + 1) * (r + 1) <= n {
            r + 1
        } else {
            r
        }
    }
}

/// `isqrt` is nonnegative and brackets its argument between consecutive squares.
pub proof fn lemma_isqrt_bracket(n: int)
    requires
        n >= 0,
    ensures
        0 <= isqrt(n),
        isqrt(n) * isqrt(n) <= n,
        n < (isqrt(n) + 1) * (isqrt(n) + 1),
    decreases n,
{
    if n >= 1 {
        lemma_isqrt_bracket(n - 1);
        let r: int = isqrt(n - 1);
        if (r + 1) * (r + 1) <= n {
            assert(n <= (r + 1) * (r + 1)) by {
                assert(n - 1 < (r + 1) * (r + 1));
            }
            assert(n < (r + 2) * (r + 2)) by (nonlinear_arith)
                requires
                    n == (r + 1) * (r + 1),
                    r >= 0,
            ;
        }
    }
}

/// Any nonnegative value bracketed between consecutive squares is the square root.
pub proof fn lemma_isqrt_unique(n: int, s: int)
    requires
        n >= 0,
        s >= 0,
        s * s <= n,
        n < (s + 1) * (s + 1),
    ensures
        s == isqrt(n),
{
    lemma_isqrt_bracket(n);
    let r: int = isqrt(n);
    if s < r {
        assert((s + 1) * (s + 1) <= r * r) by (nonlinear_arith)
            requires
                0 <= s,
                s < r,
        ;
    }
    if r < s {
        assert((r + 1) * (r + 1) <= s * s) by (nonlinear_arith)
            requires
                0 <= r,
                r < s,
        ;
    }
}

/// Squeeze the integer square root between explicit squares.
pub proof fn lemma_isqrt_bounds(n: int, k: int)
    requires
        n >= 0,
        k >= 0,
    ensures
        k * k <= n ==> isqrt(n) >= k,
        n < (k + 1) * (k + 1) ==> isqrt(n) <= k,
{
    lemma_isqrt_bracket(n);
    let r: int = isqrt(n);
    if k * k <= n && r < k {
        assert((r + 1) * (r + 1) <= k * k) by (nonlinear_arith)
            requires
                0 <= r,
                r < k,
        ;
    }
    if n < (k + 1) * (k + 1) && r > k {
        assert((k + 1) * (k + 1) <= r * r) by (nonlinear_arith)
            requires
                0 <= k,
                k < r,
        ;
    }
}

/// Fixed-point square root: `isqrt(a * SCALE)`, zero for nonpositive input.
pub open spec fn spec_sqrt(a: int) -> int {
    if a <= 0 {
        0
    } else {
        isqrt(a * (SCALE as int))
    }
}

/// Fixed-point power with a natural exponent: `n`-fold saturating product,
/// with the scalar one for exponent zero.
pub open spec fn spec_pow(a: int, n: nat) -> int
    decreases n,
{
    if n == 0 {
        FX_ONE as int
    } else {
        spec_mul(a, spec_pow(a, (n - 1) as nat))
    }
}

/// Multiplying by zero gives zero.
pub proof fn lemma_mul_zero(a: int)
    ensures
        spec_mul(a, 0) == 0,
        spec_mul(0, a) == 0,
{
    lemma_div_of0(SCALE as int);
}

/// Multiplying an in-range scalar by the scalar one leaves it unchanged.
pub proof fn lemma_mul_one(a: int)
    requires
        -(FX_MAX as int) <= a <= FX_MAX as int,
    ensures
        spec_mul(a, FX_ONE as int) == a,
{
    if a >= 0 {
        assert(a * 65536 == 65536 * a) by (nonlinear_arith);
        lemma_div_multiples_vanish(a, 65536);
    } else {
        assert(a * 65536 < 0 && -(a * 65536) == 65536 * (-a)) by (nonlinear_arith)
            requires
                a < 0,
        ;
        lemma_div_multiples_vanish(-a, 65536);
    }
}

/// A scalar times itself is nonnegative and in range.
pub proof fn lemma_square_bounds(a: int)
    ensures
        0 <= spec_mul(a, a) <= FX_MAX as int,
{
    assert(a * a >= 0) by (nonlinear_arith);
    lemma_div_pos_is_pos(a * a, SCALE as int);
}

/// Dividing a channel that is at most the (positive) brightest channel by
/// that channel lands at or below the scalar one.
pub proof fn lemma_div_channel(c: int, maxc: int)
    requires
        maxc > FX_ONE as int,
        c <= maxc,
    ensures
        -(FX_MAX as int) <= spec_div(c, maxc) <= FX_ONE as int,
{
    if c >= 0 {
        assert(c * 65536 <= maxc * 65536) by (nonlinear_arith)
            requires
                c <= maxc,
        ;
        lemma_div_is_ordered(c * 65536, maxc * 65536, maxc);
        lemma_div_multiples_vanish(65536, maxc);
        assert((maxc * 65536) / maxc == 65536);
        lemma_div_pos_is_pos(c * 65536, maxc);
    } else {
        assert(c * 65536 < 0) by (nonlinear_arith)
            requires
                c < 0,
        ;
        lemma_div_pos_is_pos(abs_i(c * 65536), maxc);
    }
}

/// A product of nonnegative scalars is nonnegative.
pub proof fn lemma_mul_nonneg(a: int, b: int)
    requires
        a >= 0,
        b >= 0,
    ensures
        spec_mul(a, b) >= 0,
{
    assert(a * b >= 0) by (nonlinear_arith)
        requires
            a >= 0,
            b >= 0,
    ;
    lemma_div_pos_is_pos(a * b, SCALE as int);
}

/// A power of a nonnegative scalar is nonnegative.
pub proof fn lemma_pow_nonneg(a: int, n: nat)
    requires
        a >= 0,
    ensures
        spec_pow(a, n) >= 0,
    decreases n,
{
    if n > 0 {
        lemma_pow_nonneg(a, (n - 1) as nat);
        lemma_mul_nonneg(a, spec_pow(a, (n - 1) as nat));
    }
}

/// Division by a positive scalar keeps the dividend's sign (or yields
/// zero).
pub proof fn lemma_div_sign(a: int, b: int)
    requires
        b > 0,
    ensures
        a > 0 ==> spec_div(a, b) >= 0,
        a < 0 ==> spec_div(a, b) <= 0,
        a == 0 ==> spec_div(a, b) == 0,
{
    if a == 0 {
        lemma_div_of0(b);
    } else if a > 0 {
        lemma_div_pos_is_pos(a * 65536, b);
    } else {
        lemma_div_pos_is_pos(abs_i(a * 65536), b);
        assert(a * 65536 < 0) by (nonlinear_arith)
            requires
                a < 0,
        ;
    }
}

/// Division toward zero leaves a remainder smaller than the divisor whose
/// sign matches the dividend's.
pub proof fn lemma_tdiv_rem(p: int, q: int)
    requires
        q > 0,
    ensures
        p >= 0 ==> tdiv(p, q) >= 0 && 0 <= p - q * tdiv(p, q) < q,
        p < 0 ==> tdiv(p, q) <= 0 && -q < p - q * tdiv(p, q) <= 0,
{
    if p >= 0 {
        lemma_fundamental_div_mod(p, q);
        lemma_mod_division_less_than_divisor(p, q);
        lemma_div_pos_is_pos(p, q);
    } else {
        lemma_fundamental_div_mod(-p, q);
        lemma_mod_division_less_than_divisor(-p, q);
        lemma_div_pos_is_pos(-p, q);
        assert(q * ((-p) / q) == -(q * tdiv(p, q))) by (nonlinear_arith)
            requires
                tdiv(p, q) == -((-p) / q),
        ;
    }
}

/// Exact division of a multiple: scaling by a positive factor and dividing
/// it back out returns the original value.
pub proof fn lemma_tdiv_multiple(a: int, q: int)
    requires
        q > 0,
    ensures
        tdiv(a * q, q) == a,
{
    if a >= 0 {
        assert(a * q >= 0 && a * q == q * a) by (nonlinear_arith)
            requires
                a >= 0,
                q > 0,
        ;
        lemma_div_multiples_vanish(a, q);
    } else {
        assert(a * q < 0 && -(a * q) == q * (-a)) by (nonlinear_arith)
            requires
                a < 0,
                q > 0,
        ;
        lemma_div_multiples_vanish(-a, q);
    }
}

/// For moderate operands the fixed-point product neither saturates nor
/// strays more than one scaling unit from the exact ratio.
pub proof fn lemma_spec_mul_rem(a: int, b: int)
    requires
        abs_i(a) <= 33554432,
        abs_i(b) <= 33554432,
    ensures
        abs_i(spec_mul(a, b)) <= 17179869184,
        abs_i(a * b - (SCALE as int) * spec_mul(a, b)) < SCALE as int,
{
    assert(abs_i(a * b) <= 1125899906842624) by (nonlinear_arith)
        requires
            abs_i(a) <= 33554432,
            abs_i(b) <= 33554432,
    ;
    lemma_tdiv_rem(a * b, SCALE as int);
}

/// For a moderate operand, doubling through the fixed-point product is
/// exact.
pub proof fn lemma_spec_mul_two(w: int)
    requires
        abs_i(w) <= 67108864,
    ensures
        spec_mul(w, FX_TWO as int) == 2 * w,
{
    assert(w * 131072 == (2 * w) * 65536) by (nonlinear_arith);
    lemma_tdiv_multiple(2 * w, 65536);
}

/// Clamp a wide intermediate into the scalar range.
fn sat64(s: i128) -> (r: i64)
    ensures
        r as int == sat(s as int),
{
    if s > FX_MAX as i128 {
        FX_MAX
    } else if s < -(FX_MAX as i128) {
        -FX_MAX
    } else {
        s as i64
    }
}

/// Saturating addition.
pub fn fx_add(a: i64, b: i64) -> (r: i64)
    ensures
        r as int == spec_add(a as int, b as int),
{
    sat64(a as i128 + b as i128)
}

/// Saturating subtraction.
pub fn fx_sub(a: i64, b: i64) -> (r: i64)
    ensures
        r as int == spec_sub(a as int, b as int),
{
    sat64(a as i128 - b as i128)
}

/// Saturating negation.
pub fn fx_neg(a: i64) -> (r: i64)
    ensures
        r as int == spec_neg(a as int),
{
    sat64(-(a as i128))
}

/// Divide a wide intermediate by a nonzero divisor, rounding toward zero.
fn tdiv128(p: i128, q: i128) -> (r: i128)
    requires
        q != 0,
        p != i128::MIN,
        q != i128::MIN,
    ensures
        r as int == tdiv(p as int, q as int),
{
    let pa: u128 = if p < 0 {
        (-p) as u128
    } else {
        p as u128
    };
    let qa: u128 = if q < 0 {
        (-q) as u128
    } else {
        q as u128
    };
    let m: u128 = pa / qa;
    proof {
        lemma_div_nonincreasing(pa as int, qa as int);
    }
    if (p < 0) != (q < 0) {
        -(m as i128)
    } else {
        m as i128
    }
}

/// Saturating fixed-point multiplication.
pub fn fx_mul(a: i64, b: i64) -> (r: i64)
    ensures
        r as int == spec_mul(a as int, b as int),
{
    proof {
        lemma_mul_i64_in_i128(a as int, b as int);
    }
    let p: i128 = (a as i128) * (b as i128);
    sat64(tdiv128(p, SCALE as i128))
}

/// A product of two 64-bit values stays strictly inside the 128-bit range.
proof fn lemma_mul_i64_in_i128(a: int, b: int)
    requires
        i64::MIN <= a <= i64::MAX,
        i64::MIN <= b <= i64::MAX,
    ensures
        i128::MIN < a * b,
        a * b <= i128::MAX,
{
    assert(i128::MIN < a * b && a * b <= i128::MAX) by (nonlinear_arith)
        requires
            -9223372036854775808 <= a <= 9223372036854775807,
            -9223372036854775808 <= b <= 9223372036854775807,
    ;
}

/// Saturating fixed-point division (total: a zero divisor gives zero).
pub fn fx_div(a: i64, b: i64) -> (r: i64)
    ensures
        r as int == spec_div(a as int, b as int),
{
    if b == 0 {
        return 0;
    }
    let p: i128 = (a as i128) * 65536;
    sat64(tdiv128(p, b as i128))
}

/// Integer square root of a wide nonnegative value by bisection.
fn isqrt_exec(n: u128) -> (r: u64)
    requires
        n as int <= (i64::MAX as int) * (SCALE as int),
    ensures
        r as int == isqrt(n as int),
        r < 1099511627776u64,
{
    let mut lo: u64 = 0;
    let mut hi: u64 = 1099511627776;  // 2^40: its square tops the largest input
    proof {
        assert((1099511627776int) * 1099511627776int > (i64::MAX as int) * (SCALE as int));
    }
    while lo + 1 < hi
        invariant
            lo < hi,
            hi <= 1099511627776u64,
            (lo as int) * (lo as int) <= n as int,
            (n as int) < (hi as int) * (hi as int),
        decreases hi - lo,
    {
        let mid: u64 = lo + (hi - lo) / 2;
        proof {
            assert(0 <= (mid as int) * (mid as int) <= 1208925819614629174706176) by (nonlinear_arith)
                requires
                    0 <= mid as int <= 1099511627776,
            ;
        }
        if (mid as u128) * (mid as u128) <= n {
            lo = mid;
        } else {
            hi = mid;
        }
    }
    proof {
        lemma_isqrt_unique(n as int, lo as int);
    }
    lo
}

/// Saturating fixed-point square root (zero for nonpositive input).
pub fn fx_sqrt(a: i64) -> (r: i64)
    ensures
        r as int == spec_sqrt(a as int),
{
    if a <= 0 {
        return 0;
    }
    let n: u128 = (a as u128) * 65536;
    isqrt_exec(n) as i64
}

/// Saturating fixed-point power with a natural exponent.
pub fn fx_pow(a: i64, n: u32) -> (r: i64)
    ensures
        r as int == spec_pow(a as int, n as nat),
{
    let mut r: i64 = FX_ONE;
    let mut i: u32 = 0;
    while i < n
        invariant
            i <= n,
            r as int == spec_pow(a as int, i as nat),
        decreases n - i,
    {
        r = fx_mul(a, r);
        i = i + 1;
    }
    r
}

} // verus!

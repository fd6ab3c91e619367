//! Fixed-point arithmetic for the color model.
//!
//! Every quantity of the color pipeline is an `i64` holding the real value
//! times [`SCALE`]. One scale unit is `10^-7`, which represents the
//! seven-decimal sRGB matrix constants exactly. The nonlinear pieces of the
//! pipeline (powers with fractional exponents, the sine of the oscillators)
//! are computed with integer binary searches and a rational approximation,
//! each pinned down by an exact contract.

use vstd::prelude::*;
use vstd::arithmetic::div_mod::lemma_div_is_ordered;
use vstd::arithmetic::div_mod::lemma_div_multiples_vanish;

verus! {

/// Number of fixed-point units in 1.0.
pub const SCALE: i64 = 10_000_000;

/// Largest magnitude accepted by [`fmul`] for either factor.
pub const FMUL_MAX: i64 = 1_000_000_000_000;

/// Largest magnitude accepted by [`fdiv_clamp`] for the numerator.
pub const FDIV_MAX: i64 = 1_000_000_000_000;

/// Largest magnitude accepted by [`lerp`] for either endpoint.
pub const LERP_MAX: i64 = 500_000_000_000;

/// Signed division by [`SCALE`], rounding toward zero.
pub open spec fn spec_scale_down(p: int) -> int {
    if p >= 0 {
        p / (SCALE as int)
    } else {
        -((-p) / (SCALE as int))
    }
}

/// Fixed-point product: `a * b` brought back to scale, rounded toward zero.
pub open spec fn spec_fmul(a: int, b: int) -> int {
    spec_scale_down(a * b)
}

/// Fixed-point quotient `a / b` at scale, rounded toward zero.
pub open spec fn spec_fdiv(a: int, b: int) -> int {
    if a >= 0 {
        (a * (SCALE as int)) / b
    } else {
        -((-a * (SCALE as int)) / b)
    }
}

/// `x` forced into `[lo, hi]`.
pub open spec fn spec_clamp(x: int, lo: int, hi: int) -> int {
    if x < lo {
        lo
    } else if x > hi {
        hi
    } else {
        x
    }
}

/// Linear interpolation from `a` to `b` by `t` (`t` at scale).
pub open spec fn spec_lerp(a: int, b: int, t: int) -> int {
    a + spec_fmul(t, b - a)
}

/// A product is bounded in magnitude by the product of bounds on the
/// magnitudes of its factors.
pub proof fn lemma_mul_magnitude_bound(a: int, b: int, aa: int, bb: int)
    requires
        -aa <= a <= aa,
        -bb <= b <= bb,
        0 <= aa,
        0 <= bb,
    ensures
        -(aa * bb) <= a * b <= aa * bb,
{
    vstd::arithmetic::mul::lemma_mul_nonnegative(aa, bb);
    if a >= 0 && b >= 0 {
        vstd::arithmetic::mul::lemma_mul_nonnegative(a, b);
        vstd::arithmetic::mul::lemma_mul_upper_bound(a, aa, b, bb);
    } else if a >= 0 && b < 0 {
        vstd::arithmetic::mul::lemma_mul_unary_negation(a, b);
        vstd::arithmetic::mul::lemma_mul_nonnegative(a, -b);
        vstd::arithmetic::mul::lemma_mul_upper_bound(a, aa, -b, bb);
    } else if a < 0 && b >= 0 {
        vstd::arithmetic::mul::lemma_mul_unary_negation(a, b);
        vstd::arithmetic::mul::lemma_mul_nonnegative(-a, b);
        vstd::arithmetic::mul::lemma_mul_upper_bound(-a, aa, b, bb);
    } else {
        vstd::arithmetic::mul::lemma_mul_cancels_negatives(a, b);
        vstd::arithmetic::mul::lemma_mul_nonnegative(-a, -b);
        vstd::arithmetic::mul::lemma_mul_upper_bound(-a, aa, -b, bb);
    }
}

/// The fixed-point product is bounded by the product of bounds on its
/// factors, brought back to scale.
pub proof fn lemma_fmul_bound(a: int, b: int, aa: int, bb: int)
    requires
        -aa <= a <= aa,
        -bb <= b <= bb,
        0 <= aa,
        0 <= bb,
    ensures
        -((aa * bb) / (SCALE as int)) <= spec_fmul(a, b) <= (aa * bb) / (SCALE as int),
{
    let p = a * b;
    lemma_mul_magnitude_bound(a, b, aa, bb);
    if p >= 0 {
        lemma_div_is_ordered(p, aa * bb, SCALE as int);
    } else {
        lemma_div_is_ordered(-p, aa * bb, SCALE as int);
    }
}

/// Scaling a value in `[0, SCALE]` against `d` lands between `0` and `d`.
pub proof fn lemma_fmul_in_hull(t: int, d: int)
    requires
        0 <= t <= SCALE as int,
    ensures
        d >= 0 ==> 0 <= spec_fmul(t, d) <= d,
        d < 0 ==> d <= spec_fmul(t, d) <= 0,
{
    let s = SCALE as int;
    if d >= 0 {
        assert(0 <= t * d <= s * d) by (nonlinear_arith)
            requires
                0 <= t <= s,
                0 <= d,
        ;
        lemma_div_is_ordered(t * d, s * d, s);
        lemma_div_multiples_vanish(d, s);
    } else {
        assert(0 <= t * (-d) <= s * (-d)) by (nonlinear_arith)
            requires
                0 <= t <= s,
                d < 0,
        ;
        assert(t * (-d) == -(t * d)) by (nonlinear_arith);
        lemma_div_is_ordered(t * (-d), s * (-d), s);
        lemma_div_multiples_vanish(-d, s);
    }
}

/// Interpolation by `t = 0` is the start value; by `t = SCALE`, the end
/// value, both exactly.
pub proof fn lemma_lerp_endpoints(a: int, b: int)
    ensures
        spec_lerp(a, b, 0) == a,
        spec_lerp(a, b, SCALE as int) == b,
{
    let s = SCALE as int;
    let d = b - a;
    assert(spec_fmul(0, d) == 0);
    if d >= 0 {
        lemma_div_multiples_vanish(d, s);
        assert(s * d == d * s) by (nonlinear_arith);
        assert(spec_fmul(s, d) == d);
    } else {
        lemma_div_multiples_vanish(-d, s);
        assert(-(s * d) == s * (-d)) by (nonlinear_arith);
        assert(s * (-d) == (-d) * s) by (nonlinear_arith);
        assert(spec_fmul(s, d) == d);
    }
}

/// A value in an interpolation's hull keeps any symmetric bound on its
/// endpoints.
pub proof fn lemma_lerp_in_hull(a: int, b: int, t: int, m: int)
    requires
        0 <= t <= SCALE as int,
        -m <= a <= m,
        -m <= b <= m,
    ensures
        -m <= spec_lerp(a, b, t) <= m,
{
    lemma_fmul_in_hull(t, b - a);
}

/// Fixed-point multiplication, exact to the spec-level definition.
pub fn fmul(a: i64, b: i64) -> (r: i64)
    requires
        -FMUL_MAX <= a <= FMUL_MAX,
        -FMUL_MAX <= b <= FMUL_MAX,
    ensures
        r as int == spec_fmul(a as int, b as int),
{
    proof {
        lemma_fmul_bound(a as int, b as int, FMUL_MAX as int, FMUL_MAX as int);
        assert(-(FMUL_MAX as int) * (FMUL_MAX as int) <= (a as int) * (b as int)
            <= (FMUL_MAX as int) * (FMUL_MAX as int)) by (nonlinear_arith)
            requires
                -FMUL_MAX <= a <= FMUL_MAX,
                -FMUL_MAX <= b <= FMUL_MAX,
        ;
    }
    let p: i128 = (a as i128) * (b as i128);
    if p >= 0 {
        let q: u128 = (p as u128) / (SCALE as u128);
        q as i64
    } else {
        let m: u128 = ((-p) as u128) / (SCALE as u128);
        -(m as i64)
    }
}

/// Clamp an `i64` into `[lo, hi]`.
pub fn clamp_i64(x: i64, lo: i64, hi: i64) -> (r: i64)
    requires
        lo <= hi,
    ensures
        r as int == spec_clamp(x as int, lo as int, hi as int),
{
    if x < lo {
        lo
    } else if x > hi {
        hi
    } else {
        x
    }
}

/// Fixed-point division with the quotient forced into `[lo, hi]`.
///
/// The clamp makes the operation total over its whole input range: without
/// it a near-zero denominator would push the quotient outside every machine
/// bound. Callers pick clamp bounds wide enough that they never bite on
/// values the color model actually produces.
pub fn fdiv_clamp(a: i64, b: i64, lo: i64, hi: i64) -> (r: i64)
    requires
        1 <= b,
        -FDIV_MAX <= a <= FDIV_MAX,
        lo <= hi,
    ensures
        r as int == spec_clamp(spec_fdiv(a as int, b as int), lo as int, hi as int),
{
    proof {
        if a >= 0 {
            lemma_div_is_ordered((a as int) * (SCALE as int), (FDIV_MAX as int) * (SCALE as int), b as int);
            lemma_div_is_ordered_by_denom((FDIV_MAX as int) * (SCALE as int), 1, b as int);
        } else {
            lemma_div_is_ordered((-(a as int)) * (SCALE as int), (FDIV_MAX as int) * (SCALE as int), b as int);
            lemma_div_is_ordered_by_denom((FDIV_MAX as int) * (SCALE as int), 1, b as int);
        }
    }
    let q: i128 = if a >= 0 {
        (((a as u128) * (SCALE as u128)) / (b as u128)) as i128
    } else {
        -(((((-(a as i128)) as u128) * (SCALE as u128)) / (b as u128)) as i128)
    };
    let lo128: i128 = lo as i128;
    let hi128: i128 = hi as i128;
    if q < lo128 {
        lo
    } else if q > hi128 {
        hi
    } else {
        q as i64
    }
}

/// Dividing a fixed nonnegative numerator by a larger denominator gives a
/// smaller quotient.
proof fn lemma_div_is_ordered_by_denom(x: int, y: int, z: int)
    requires
        0 <= x,
        1 <= y <= z,
    ensures
        x / y >= x / z,
{
    vstd::arithmetic::div_mod::lemma_div_is_ordered_by_denominator(x, y, z);
}

/// The square of `r`.
pub open spec fn sq(r: int) -> int {
    r * r
}

/// The cube of `r`.
pub open spec fn cube(r: int) -> int {
    r * r * r
}

/// The fifth power of `r`.
pub open spec fn pow5(r: int) -> int {
    r * r * r * r * r
}

/// `r` is the fixed-point square root of `v`, rounded down.
pub open spec fn is_sqrt(v: int, r: int) -> bool {
    &&& 0 <= r
    &&& sq(r) <= v * (SCALE as int) < sq(r + 1)
}

/// `r` is the fixed-point cube root of `v`, rounded down.
pub open spec fn is_cbrt(v: int, r: int) -> bool {
    &&& 0 <= r
    &&& cube(r) <= v * (SCALE as int) * (SCALE as int) < cube(r + 1)
}

/// `r` is the fixed-point fifth root of `v`, rounded down.
pub open spec fn is_root5(v: int, r: int) -> bool {
    &&& 0 <= r
    &&& pow5(r) <= v * (SCALE as int) * (SCALE as int) * (SCALE as int) * (SCALE as int)
        < pow5(r + 1)
}

/// The fixed-point square root of `v`.
pub open spec fn spec_sqrt(v: int) -> int {
    choose|r: int| is_sqrt(v, r)
}

/// The fixed-point cube root of `v`.
pub open spec fn spec_cbrt(v: int) -> int {
    choose|r: int| is_cbrt(v, r)
}

/// The fixed-point fifth root of `v`.
pub open spec fn spec_root5(v: int) -> int {
    choose|r: int| is_root5(v, r)
}

/// Powers of nonnegative values are monotone.
proof fn lemma_pow_mono(a: int, b: int)
    requires
        0 <= a <= b,
    ensures
        sq(a) <= sq(b),
        cube(a) <= cube(b),
        pow5(a) <= pow5(b),
{
    assert(a * a <= b * b && a * a * a <= b * b * b
        && a * a * a * a * a <= b * b * b * b * b) by (nonlinear_arith)
        requires
            0 <= a <= b,
    ;
}

/// There is only one rounded-down square root, and [`spec_sqrt`] is it.
pub proof fn lemma_sqrt_unique(v: int, r: int)
    requires
        is_sqrt(v, r),
    ensures
        spec_sqrt(v) == r,
{
    assert(exists|x: int| is_sqrt(v, x));
    let s = spec_sqrt(v);
    assert(is_sqrt(v, s));
    if s < r {
        lemma_pow_mono(s + 1, r);
    }
    if r < s {
        lemma_pow_mono(r + 1, s);
    }
}

/// There is only one rounded-down cube root, and [`spec_cbrt`] is it.
pub proof fn lemma_cbrt_unique(v: int, r: int)
    requires
        is_cbrt(v, r),
    ensures
        spec_cbrt(v) == r,
{
    assert(exists|x: int| is_cbrt(v, x));
    let s = spec_cbrt(v);
    assert(is_cbrt(v, s));
    if s < r {
        lemma_pow_mono(s + 1, r);
    }
    if r < s {
        lemma_pow_mono(r + 1, s);
    }
}

/// There is only one rounded-down fifth root, and [`spec_root5`] is it.
pub proof fn lemma_root5_unique(v: int, r: int)
    requires
        is_root5(v, r),
    ensures
        spec_root5(v) == r,
{
    assert(exists|x: int| is_root5(v, x));
    let s = spec_root5(v);
    assert(is_root5(v, s));
    if s < r {
        lemma_pow_mono(s + 1, r);
    }
    if r < s {
        lemma_pow_mono(r + 1, s);
    }
}

/// Fixed-point square root of `v` in `[0, SCALE]`, rounded down, by binary
/// search.
pub fn fsqrt(v: i64) -> (r: i64)
    requires
        0 <= v <= SCALE,
    ensures
        r as int == spec_sqrt(v as int),
        is_sqrt(v as int, r as int),
        0 <= r <= SCALE,
{
    let vs: u128 = (v as u128) * (SCALE as u128);
    let mut lo: u64 = 0;
    let mut hi: u64 = (SCALE as u64) + 1;
    proof {
        let vi = v as int;
        let s = SCALE as int;
        assert(vi * s <= s * s < sq(s + 1)) by (nonlinear_arith)
            requires
                0 <= vi <= s,
                s == SCALE as int,
        ;
    }
    while lo + 1 < hi
        invariant
            0 <= lo < hi <= SCALE as u64 + 1,
            sq(lo as int) <= (v as int) * (SCALE as int),
            (v as int) * (SCALE as int) < sq(hi as int),
            vs == (v as int) * (SCALE as int),
        decreases hi - lo,
    {
        let mid: u64 = lo + (hi - lo) / 2;
        proof {
            let m = mid as int;
            assert(m * m <= 200_000_000_000_000int) by (nonlinear_arith)
                requires
                    0 <= m <= 10_000_001,
            ;
        }
        let m2: u128 = (mid as u128) * (mid as u128);
        if m2 <= vs {
            lo = mid;
        } else {
            hi = mid;
        }
    }
    proof {
        lemma_sqrt_unique(v as int, lo as int);
    }
    lo as i64
}

/// Fixed-point cube root of `v` in `[0, SCALE]`, rounded down, by binary
/// search.
pub fn fcbrt(v: i64) -> (r: i64)
    requires
        0 <= v <= SCALE,
    ensures
        r as int == spec_cbrt(v as int),
        is_cbrt(v as int, r as int),
        0 <= r <= SCALE,
{
    let vs: u128 = (v as u128) * (SCALE as u128) * (SCALE as u128);
    let mut lo: u64 = 0;
    let mut hi: u64 = (SCALE as u64) + 1;
    proof {
        let vi = v as int;
        let s = SCALE as int;
        assert(vi * s * s <= s * s * s < cube(s + 1)) by (nonlinear_arith)
            requires
                0 <= vi <= s,
                s == SCALE as int,
        ;
    }
    while lo + 1 < hi
        invariant
            0 <= lo < hi <= SCALE as u64 + 1,
            cube(lo as int) <= (v as int) * (SCALE as int) * (SCALE as int),
            (v as int) * (SCALE as int) * (SCALE as int) < cube(hi as int),
            vs == (v as int) * (SCALE as int) * (SCALE as int),
        decreases hi - lo,
    {
        let mid: u64 = lo + (hi - lo) / 2;
        proof {
            let m = mid as int;
            assert(m * m <= 200_000_000_000_000int
                && m * m * m <= 2_000_000_000_000_000_000_000int) by (nonlinear_arith)
                requires
                    0 <= m <= 10_000_001,
            ;
        }
        let m3: u128 = (mid as u128) * (mid as u128) * (mid as u128);
        if m3 <= vs {
            lo = mid;
        } else {
            hi = mid;
        }
    }
    proof {
        lemma_cbrt_unique(v as int, lo as int);
    }
    lo as i64
}

/// Fixed-point fifth root of `v` in `[0, SCALE]`, rounded down, by binary
/// search.
pub fn froot5(v: i64) -> (r: i64)
    requires
        0 <= v <= SCALE,
    ensures
        r as int == spec_root5(v as int),
        is_root5(v as int, r as int),
        0 <= r <= SCALE,
{
    let vs: u128 = (v as u128) * (SCALE as u128) * (SCALE as u128) * (SCALE as u128)
        * (SCALE as u128);
    let mut lo: u64 = 0;
    let mut hi: u64 = (SCALE as u64) + 1;
    proof {
        let vi = v as int;
        let s = SCALE as int;
        assert(vi * s * s * s * s <= s * s * s * s * s < pow5(s + 1)) by (nonlinear_arith)
            requires
                0 <= vi <= s,
                s == SCALE as int,
        ;
    }
    while lo + 1 < hi
        invariant
            0 <= lo < hi <= SCALE as u64 + 1,
            pow5(lo as int) <= (v as int) * (SCALE as int) * (SCALE as int) * (SCALE as int)
                * (SCALE as int),
            (v as int) * (SCALE as int) * (SCALE as int) * (SCALE as int) * (SCALE as int)
                < pow5(hi as int),
            vs == (v as int) * (SCALE as int) * (SCALE as int) * (SCALE as int) * (SCALE as int),
        decreases hi - lo,
    {
        let mid: u64 = lo + (hi - lo) / 2;
        proof {
            let m = mid as int;
            assert(m * m <= 200_000_000_000_000int
                && m * m * m <= 2_000_000_000_000_000_000_000int
                && m * m * m * m <= 20_000_000_000_000_000_000_000_000_000int
                && m * m * m * m * m
                    <= 200_000_000_000_000_000_000_000_000_000_000_000int) by (nonlinear_arith)
                requires
                    0 <= m <= 10_000_001,
            ;
        }
        let m5: u128 = (mid as u128) * (mid as u128) * (mid as u128) * (mid as u128)
            * (mid as u128);
        if m5 <= vs {
            lo = mid;
        } else {
            hi = mid;
        }
    }
    proof {
        lemma_root5_unique(v as int, lo as int);
    }
    lo as i64
}

/// Strictly larger nonnegative bases have strictly larger powers.
proof fn lemma_pow_mono_strict(a: int, b: int)
    requires
        0 <= a < b,
    ensures
        sq(a) < sq(b),
        cube(a) < cube(b),
        pow5(a) < pow5(b),
{
    assert(a * a < b * b && a * a * a < b * b * b
        && a * a * a * a * a < b * b * b * b * b) by (nonlinear_arith)
        requires
            0 <= a < b,
    ;
}

/// Every nonnegative integer has a rounded-down square root.
proof fn lemma_sq_root_exists(n: int)
    requires
        0 <= n,
    ensures
        exists|r: int| 0 <= r && sq(r) <= n < sq(#[trigger] (r + 1)),
    decreases n,
{
    if n == 0 {
        assert(0 <= 0int && sq(0int) <= n < sq(0int + 1));
    } else {
        lemma_sq_root_exists(n - 1);
        let r0 = choose|r: int| 0 <= r && sq(r) <= n - 1 < sq(#[trigger] (r + 1));
        if n < sq(r0 + 1) {
            assert(0 <= r0 && sq(r0) <= n < sq(r0 + 1));
        } else {
            lemma_pow_mono_strict(r0 + 1, r0 + 2);
            assert(0 <= r0 + 1 && sq(r0 + 1) <= n < sq(r0 + 1 + 1));
        }
    }
}

/// Every nonnegative integer has a rounded-down cube root.
proof fn lemma_cube_root_exists(n: int)
    requires
        0 <= n,
    ensures
        exists|r: int| 0 <= r && cube(r) <= n < cube(#[trigger] (r + 1)),
    decreases n,
{
    if n == 0 {
        assert(0 <= 0int && cube(0int) <= n < cube(0int + 1));
    } else {
        lemma_cube_root_exists(n - 1);
        let r0 = choose|r: int| 0 <= r && cube(r) <= n - 1 < cube(#[trigger] (r + 1));
        if n < cube(r0 + 1) {
            assert(0 <= r0 && cube(r0) <= n < cube(r0 + 1));
        } else {
            lemma_pow_mono_strict(r0 + 1, r0 + 2);
            assert(0 <= r0 + 1 && cube(r0 + 1) <= n < cube(r0 + 1 + 1));
        }
    }
}

/// Every nonnegative integer has a rounded-down fifth root.
proof fn lemma_pow5_root_exists(n: int)
    requires
        0 <= n,
    ensures
        exists|r: int| 0 <= r && pow5(r) <= n < pow5(#[trigger] (r + 1)),
    decreases n,
{
    if n == 0 {
        assert(0 <= 0int && pow5(0int) <= n < pow5(0int + 1));
    } else {
        lemma_pow5_root_exists(n - 1);
        let r0 = choose|r: int| 0 <= r && pow5(r) <= n - 1 < pow5(#[trigger] (r + 1));
        if n < pow5(r0 + 1) {
            assert(0 <= r0 && pow5(r0) <= n < pow5(r0 + 1));
        } else {
            lemma_pow_mono_strict(r0 + 1, r0 + 2);
            assert(0 <= r0 + 1 && pow5(r0 + 1) <= n < pow5(r0 + 1 + 1));
        }
    }
}

/// For a nonnegative radicand, [`spec_sqrt`] really is the rounded-down
/// square root.
pub proof fn lemma_sqrt_def(v: int)
    requires
        0 <= v,
    ensures
        is_sqrt(v, spec_sqrt(v)),
{
    lemma_sq_root_exists(v * (SCALE as int));
    let r0 = choose|r: int| 0 <= r && sq(r) <= v * (SCALE as int) < sq(#[trigger] (r + 1));
    assert(is_sqrt(v, r0));
}

/// For a nonnegative radicand, [`spec_cbrt`] really is the rounded-down
/// cube root.
pub proof fn lemma_cbrt_def(v: int)
    requires
        0 <= v,
    ensures
        is_cbrt(v, spec_cbrt(v)),
{
    vstd::arithmetic::mul::lemma_mul_nonnegative(v * (SCALE as int), SCALE as int);
    lemma_cube_root_exists(v * (SCALE as int) * (SCALE as int));
    let n = v * (SCALE as int) * (SCALE as int);
    let r0 = choose|r: int| 0 <= r && cube(r) <= n < cube(#[trigger] (r + 1));
    assert(is_cbrt(v, r0));
}

/// For a nonnegative radicand, [`spec_root5`] really is the rounded-down
/// fifth root.
pub proof fn lemma_root5_def(v: int)
    requires
        0 <= v,
    ensures
        is_root5(v, spec_root5(v)),
{
    vstd::arithmetic::mul::lemma_mul_nonnegative(v * (SCALE as int), SCALE as int);
    vstd::arithmetic::mul::lemma_mul_nonnegative(
        v * (SCALE as int) * (SCALE as int),
        SCALE as int,
    );
    vstd::arithmetic::mul::lemma_mul_nonnegative(
        v * (SCALE as int) * (SCALE as int) * (SCALE as int),
        SCALE as int,
    );
    let n = v * (SCALE as int) * (SCALE as int) * (SCALE as int) * (SCALE as int);
    lemma_pow5_root_exists(n);
    let r0 = choose|r: int| 0 <= r && pow5(r) <= n < pow5(#[trigger] (r + 1));
    assert(is_root5(v, r0));
}

/// The rounded-down roots are monotone in the radicand.
pub proof fn lemma_roots_monotone(v1: int, v2: int)
    requires
        0 <= v1 <= v2,
    ensures
        0 <= spec_sqrt(v1) <= spec_sqrt(v2),
        0 <= spec_cbrt(v1) <= spec_cbrt(v2),
        0 <= spec_root5(v1) <= spec_root5(v2),
{
    lemma_sqrt_def(v1);
    lemma_sqrt_def(v2);
    lemma_cbrt_def(v1);
    lemma_cbrt_def(v2);
    lemma_root5_def(v1);
    lemma_root5_def(v2);
    let s = SCALE as int;
    assert(v1 * s <= v2 * s);
    assert(v1 * s * s <= v2 * s * s && v1 * s * s * s * s <= v2 * s * s * s * s)
        by (nonlinear_arith)
        requires
            0 <= v1 <= v2,
            s == SCALE as int,
    ;
    if spec_sqrt(v1) > spec_sqrt(v2) {
        lemma_pow_mono(spec_sqrt(v2) + 1, spec_sqrt(v1));
    }
    if spec_cbrt(v1) > spec_cbrt(v2) {
        lemma_pow_mono(spec_cbrt(v2) + 1, spec_cbrt(v1));
    }
    if spec_root5(v1) > spec_root5(v2) {
        lemma_pow_mono(spec_root5(v2) + 1, spec_root5(v1));
    }
}

/// The fixed-point product is monotone in both factors over nonnegative
/// values.
pub proof fn lemma_fmul_monotone_nonneg(a1: int, b1: int, a2: int, b2: int)
    requires
        0 <= a1 <= a2,
        0 <= b1 <= b2,
    ensures
        0 <= spec_fmul(a1, b1) <= spec_fmul(a2, b2),
{
    vstd::arithmetic::mul::lemma_mul_nonnegative(a1, b1);
    vstd::arithmetic::mul::lemma_mul_upper_bound(a1, a2, b1, b2);
    lemma_div_is_ordered(a1 * b1, a2 * b2, SCALE as int);
    vstd::arithmetic::div_mod::lemma_div_basics_4(a1 * b1, SCALE as int);
}

/// `x` raised to the power 12/5 for `x` in `[0, SCALE]`: the exponent of
/// the inverse sRGB companding curve.
pub open spec fn spec_pow_frac_up(x: int) -> int {
    spec_fmul(spec_fmul(x, x), spec_root5(spec_fmul(x, x)))
}

/// `x` raised to the power 5/12 for `x` in `[0, SCALE]`: the exponent of
/// the forward sRGB companding curve. The twelfth root is taken first and
/// raised to the fifth power afterwards: the other order would push a
/// dark channel's fifth power below one fixed-point unit and lose it.
pub open spec fn spec_pow_frac_down(x: int) -> int {
    let r = spec_sqrt(spec_sqrt(spec_cbrt(x)));
    spec_fmul(spec_fmul(spec_fmul(spec_fmul(r, r), r), r), r)
}

/// `x^(12/5)` at scale, for `x` in `[0, SCALE]`: `x^2 * (x^2)^(1/5)`.
pub fn pow_frac_up(x: i64) -> (r: i64)
    requires
        0 <= x <= SCALE,
    ensures
        r as int == spec_pow_frac_up(x as int),
        0 <= r <= SCALE,
{
    proof {
        lemma_fmul_in_hull(x as int, x as int);
    }
    let x2: i64 = fmul(x, x);
    let r5: i64 = froot5(x2);
    proof {
        lemma_fmul_in_hull(x2 as int, r5 as int);
    }
    fmul(x2, r5)
}

/// `x^(5/12)` at scale, for `x` in `[0, SCALE]`: the fifth power of the
/// twelfth root (the square root of the square root of the cube root).
pub fn pow_frac_down(x: i64) -> (r: i64)
    requires
        0 <= x <= SCALE,
    ensures
        r as int == spec_pow_frac_down(x as int),
        0 <= r <= SCALE,
{
    let c: i64 = fcbrt(x);
    let s1: i64 = fsqrt(c);
    let r1: i64 = fsqrt(s1);
    proof {
        lemma_fmul_in_hull(r1 as int, r1 as int);
    }
    let r2: i64 = fmul(r1, r1);
    proof {
        lemma_fmul_in_hull(r2 as int, r1 as int);
    }
    let r3: i64 = fmul(r2, r1);
    proof {
        lemma_fmul_in_hull(r3 as int, r1 as int);
    }
    let r4: i64 = fmul(r3, r1);
    proof {
        lemma_fmul_in_hull(r4 as int, r1 as int);
    }
    fmul(r4, r1)
}

/// Plain integer division rounded toward zero.
pub open spec fn spec_div_trunc(a: int, b: int) -> int {
    if a >= 0 {
        a / b
    } else {
        -((-a) / b)
    }
}

/// Plain integer division by a positive divisor, rounded toward zero.
pub fn div_trunc(a: i64, b: i64) -> (r: i64)
    requires
        1 <= b,
        -FDIV_MAX <= a <= FDIV_MAX,
    ensures
        r as int == spec_div_trunc(a as int, b as int),
        -FDIV_MAX <= r <= FDIV_MAX,
{
    proof {
        if a >= 0 {
            vstd::arithmetic::div_mod::lemma_div_basics_5(a as int, b as int);
            vstd::arithmetic::div_mod::lemma_div_basics_4(a as int, b as int);
        } else {
            vstd::arithmetic::div_mod::lemma_div_basics_5(-(a as int), b as int);
            vstd::arithmetic::div_mod::lemma_div_basics_4(-(a as int), b as int);
        }
    }
    if a >= 0 {
        ((a as u64) / (b as u64)) as i64
    } else {
        -((((-a) as u64) / (b as u64)) as i64)
    }
}

/// The fixed-point quotient is monotone in a nonnegative numerator.
pub proof fn lemma_fdiv_monotone_nonneg(a1: int, a2: int, b: int)
    requires
        0 <= a1 <= a2,
        1 <= b,
    ensures
        0 <= spec_fdiv(a1, b) <= spec_fdiv(a2, b),
{
    lemma_div_is_ordered(a1 * (SCALE as int), a2 * (SCALE as int), b);
    vstd::arithmetic::div_mod::lemma_div_basics_4(a1 * (SCALE as int), b);
}

/// The inverse-companding power `x^(12/5)` is monotone on `[0, SCALE]`.
pub proof fn lemma_pow_frac_up_monotone(x1: int, x2: int)
    requires
        0 <= x1 <= x2 <= SCALE as int,
    ensures
        0 <= spec_pow_frac_up(x1) <= spec_pow_frac_up(x2),
{
    lemma_fmul_monotone_nonneg(x1, x1, x2, x2);
    let a1 = spec_fmul(x1, x1);
    let a2 = spec_fmul(x2, x2);
    lemma_roots_monotone(a1, a2);
    lemma_fmul_monotone_nonneg(a1, spec_root5(a1), a2, spec_root5(a2));
}

/// The forward-companding power `x^(5/12)` is monotone on `[0, SCALE]`.
pub proof fn lemma_pow_frac_down_monotone(x1: int, x2: int)
    requires
        0 <= x1 <= x2 <= SCALE as int,
    ensures
        0 <= spec_pow_frac_down(x1) <= spec_pow_frac_down(x2),
{
    lemma_roots_monotone(x1, x2);
    lemma_roots_monotone(spec_cbrt(x1), spec_cbrt(x2));
    lemma_roots_monotone(spec_sqrt(spec_cbrt(x1)), spec_sqrt(spec_cbrt(x2)));
    let r1 = spec_sqrt(spec_sqrt(spec_cbrt(x1)));
    let r2 = spec_sqrt(spec_sqrt(spec_cbrt(x2)));
    lemma_fmul_monotone_nonneg(r1, r1, r2, r2);
    lemma_fmul_monotone_nonneg(spec_fmul(r1, r1), r1, spec_fmul(r2, r2), r2);
    lemma_fmul_monotone_nonneg(
        spec_fmul(spec_fmul(r1, r1), r1),
        r1,
        spec_fmul(spec_fmul(r2, r2), r2),
        r2,
    );
    lemma_fmul_monotone_nonneg(
        spec_fmul(spec_fmul(spec_fmul(r1, r1), r1), r1),
        r1,
        spec_fmul(spec_fmul(spec_fmul(r2, r2), r2), r2),
        r2,
    );
}

/// One full turn, in fixed-point degrees.
pub const DEG_FULL: i64 = 360 * SCALE;

/// Half a turn, in fixed-point degrees.
pub const DEG_HALF: i64 = 180 * SCALE;

/// A quarter turn, in fixed-point degrees.
pub const DEG_QUARTER: i64 = 90 * SCALE;

/// Largest angle increment accepted by [`add_angle`].
pub const ANGLE_STEP_MAX: i64 = 1_000_000_000_000;

/// The sine is exact at the four quarter points of the turn.
pub proof fn lemma_sin_quarter_points()
    ensures
        spec_sin_deg(0) == 0,
        spec_sin_deg(DEG_QUARTER as int) == SCALE as int,
        spec_sin_deg(DEG_HALF as int) == 0,
        spec_sin_deg((DEG_HALF + DEG_QUARTER) as int) == -(SCALE as int),
{
    let s_ = SCALE as int;
    let d = DEG_HALF as int;
    let x = DEG_QUARTER as int;
    assert(0 * (d - 0) == 0) by (nonlinear_arith);
    assert(0int / s_ == 0);
    assert(spec_half_sin(0) == 0);
    assert(x * (d - x) == 810_000_000_000_000_000) by (nonlinear_arith)
        requires
            x == 900_000_000,
            d == 1_800_000_000,
    ;
    assert(810_000_000_000_000_000int / s_ == 81_000_000_000int);
    let p = 81_000_000_000int;
    assert(4 * p * s_ == 3_240_000_000_000_000_000) by (nonlinear_arith)
        requires
            p == 81_000_000_000,
            s_ == 10_000_000,
    ;
    assert(3_240_000_000_000_000_000int / (40500 * s_ - p) == 10_000_000);
    assert(spec_half_sin(x) == SCALE as int);
    assert(d * (d - d) == 0) by (nonlinear_arith);
    assert(spec_half_sin(d) == 0);
}

/// Rational approximation of the sine over the first half turn, at scale.
/// It is exact at 0, a quarter turn and half a turn, and within about
/// 0.002 of the real sine everywhere between.
pub open spec fn spec_half_sin(x: int) -> int {
    let p = (x * (DEG_HALF as int - x)) / (SCALE as int);
    (4 * p * (SCALE as int)) / (40500 * (SCALE as int) - p)
}

/// The sine of an angle in `[0, DEG_FULL)` fixed-point degrees, at scale.
pub open spec fn spec_sin_deg(x: int) -> int {
    if x <= DEG_HALF as int {
        spec_half_sin(x)
    } else {
        -spec_half_sin(x - DEG_HALF as int)
    }
}

/// The cosine of an angle in `[0, DEG_FULL)` fixed-point degrees, at scale.
pub open spec fn spec_cos_deg(x: int) -> int {
    if x + (DEG_QUARTER as int) < (DEG_FULL as int) {
        spec_sin_deg(x + DEG_QUARTER as int)
    } else {
        spec_sin_deg(x + DEG_QUARTER as int - DEG_FULL as int)
    }
}

/// The half-turn sine stays within `[0, SCALE]`, and its intermediate
/// quantities stay within the bounds the executable code needs.
pub proof fn lemma_half_sin_bounds(x: int)
    requires
        0 <= x <= DEG_HALF as int,
    ensures
        0 <= x * ((DEG_HALF as int) - x) <= 810_000_000_000_000_000,
        0 <= (x * ((DEG_HALF as int) - x)) / (SCALE as int) <= 81_000_000_000,
        0 <= spec_half_sin(x) <= SCALE as int,
{
    let s = SCALE as int;
    let d = DEG_HALF as int;
    let prod = x * (d - x);
    assert((2 * x - d) * (2 * x - d) >= 0) by (nonlinear_arith);
    assert(0 <= prod && 4 * prod <= 3_240_000_000_000_000_000) by (nonlinear_arith)
        requires
            0 <= x <= d,
            d == 1_800_000_000,
            prod == x * (d - x),
            (2 * x - d) * (2 * x - d) >= 0,
    ;
    let p = prod / s;
    lemma_div_is_ordered(prod, 810_000_000_000_000_000, s);
    assert(810_000_000_000_000_000int / s == 81_000_000_000int);
    vstd::arithmetic::div_mod::lemma_div_basics_4(prod, s);
    let num = 4 * p * s;
    let den = 40500 * s - p;
    assert(num == 40_000_000 * p) by (nonlinear_arith)
        requires
            s == 10_000_000,
            num == 4 * p * s,
    ;
    assert(den * s == 10_000_000 * den) by (nonlinear_arith)
        requires
            s == 10_000_000,
    ;
    assert(num <= den * s);
    assert(den >= 324_000_000_000);
    lemma_div_is_ordered(num, den * s, den);
    lemma_div_multiples_vanish(s, den);
    vstd::arithmetic::div_mod::lemma_div_basics_4(num, den);
}

/// Sine of the first half turn: numerator and denominator of the rational
/// approximation, evaluated exactly.
fn half_sin(x: i64) -> (r: i64)
    requires
        0 <= x <= DEG_HALF,
    ensures
        r as int == spec_half_sin(x as int),
        0 <= r <= SCALE,
{
    proof {
        lemma_half_sin_bounds(x as int);
    }
    let prod: u128 = (x as u128) * ((DEG_HALF - x) as u128);
    let p: u128 = prod / (SCALE as u128);
    let num: u128 = 4 * p * (SCALE as u128);
    let den: u128 = 40500 * (SCALE as u128) - p;
    let r: u128 = num / den;
    r as i64
}

/// The sine of an angle in `[0, DEG_FULL)` fixed-point degrees, at scale,
/// exact to [`spec_sin_deg`].
pub fn sin_deg(x: i64) -> (r: i64)
    requires
        0 <= x < DEG_FULL,
    ensures
        r as int == spec_sin_deg(x as int),
        -SCALE <= r <= SCALE,
{
    if x <= DEG_HALF {
        half_sin(x)
    } else {
        -half_sin(x - DEG_HALF)
    }
}

/// The cosine of an angle in `[0, DEG_FULL)` fixed-point degrees, at scale,
/// exact to [`spec_cos_deg`].
pub fn cos_deg(x: i64) -> (r: i64)
    requires
        0 <= x < DEG_FULL,
    ensures
        r as int == spec_cos_deg(x as int),
        -SCALE <= r <= SCALE,
{
    if x + DEG_QUARTER < DEG_FULL {
        sin_deg(x + DEG_QUARTER)
    } else {
        sin_deg(x + DEG_QUARTER - DEG_FULL)
    }
}

/// Advance an angle by a nonnegative step, wrapping at a full turn.
pub fn add_angle(a: i64, d: i64) -> (r: i64)
    requires
        0 <= a < DEG_FULL,
        0 <= d <= ANGLE_STEP_MAX,
    ensures
        r as int == (a + d) % (DEG_FULL as int),
        0 <= r < DEG_FULL,
{
    let sum: u64 = (a as u64) + (d as u64);
    let r: u64 = sum % (DEG_FULL as u64);
    r as i64
}

/// Linear interpolation from `a` to `b` by `t` in `[0, SCALE]`. The result
/// stays between `a` and `b`; `t = 0` gives `a` and `t = SCALE` gives `b`
/// exactly.
pub fn lerp(a: i64, b: i64, t: i64) -> (r: i64)
    requires
        -LERP_MAX <= a <= LERP_MAX,
        -LERP_MAX <= b <= LERP_MAX,
        0 <= t <= SCALE,
    ensures
        r as int == spec_lerp(a as int, b as int, t as int),
{
    proof {
        lemma_fmul_in_hull(t as int, b as int - a as int);
    }
    let d: i64 = b - a;
    let step: i64 = fmul(t, d);
    a + step
}

} // verus!

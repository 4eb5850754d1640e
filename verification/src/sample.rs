//! Fixed-point sample arithmetic.
//!
//! A `Sample` is an `i64` holding a Q16.16 fixed-point amplitude: the value
//! `v` stands for `v / 65536`. Gains and interpolation weights use the same
//! scale, so `FRAC_ONE` is the fixed-point `1.0`. Multiplication divides the
//! wide product by `FRAC_ONE`, truncating toward zero, and every result is
//! saturated into the `i64` range.

use vstd::prelude::*;

verus! {

/// Fixed-point 1.0: the denominator of the Q16.16 scale.
pub const FRAC_ONE: i64 = 65536;

/// Saturation of a mathematical integer into the `i64` range.
pub open spec fn sat64(x: int) -> int {
    if x > i64::MAX as int {
        i64::MAX as int
    } else if x < i64::MIN as int {
        i64::MIN as int
    } else {
        x
    }
}

/// Saturation of a nonnegative mathematical integer into the `u64` range
/// (negative values saturate to 0).
pub open spec fn sat_u64_spec(x: int) -> int {
    if x > u64::MAX as int {
        u64::MAX as int
    } else if x < 0 {
        0
    } else {
        x
    }
}

/// Division truncating toward zero (the semantics of `/` on machine integers),
/// for a positive divisor.
pub open spec fn tzdiv(p: int, d: int) -> int
    recommends
        d > 0,
{
    if p >= 0 {
        p / d
    } else {
        -((-p) / d)
    }
}

/// The exact value of scaling sample `s` by the fixed-point factor `w`.
pub open spec fn scale_spec(s: int, w: int) -> int {
    tzdiv(s * w, FRAC_ONE as int)
}

/// The exact value of interpolating from `a` to `b` with fixed-point weight
/// `w` (`w == 0` gives `a`, `w == FRAC_ONE` gives `b`).
pub open spec fn lerp_spec(a: int, b: int, w: int) -> int {
    a + tzdiv((b - a) * w, FRAC_ONE as int)
}

/// Saturates a wide intermediate result into `i64`.
fn sat_narrow(q: i128) -> (r: i64)
    ensures
        r as int == sat64(q as int),
{
    if q > i64::MAX as i128 {
        i64::MAX
    } else if q < i64::MIN as i128 {
        i64::MIN
    } else {
        q as i64
    }
}

/// Saturating addition of two samples.
pub fn sat_add(a: i64, b: i64) -> (r: i64)
    ensures
        r as int == sat64(a + b),
{
    sat_narrow(a as i128 + b as i128)
}

proof fn lemma_mul_bounds(s: int, w: int, lo: int, hi: int, wmax: int)
    requires
        lo <= s <= hi,
        0 <= w <= wmax,
        lo <= 0 <= hi,
    ensures
        lo * wmax <= s * w <= hi * wmax,
{
    assert(lo * wmax <= s * w <= hi * wmax) by (nonlinear_arith)
        requires
            lo <= s <= hi,
            0 <= w <= wmax,
            lo <= 0 <= hi,
    ;
}

/// The product of two `u64` values fits in `u128`.
pub proof fn lemma_mul_u64_bound(a: int, b: int)
    requires
        0 <= a <= u64::MAX as int,
        0 <= b <= u64::MAX as int,
    ensures
        0 <= a * b <= (u64::MAX as int) * (u64::MAX as int),
        a * b <= u128::MAX as int,
{
    assert(0 <= a * b <= (u64::MAX as int) * (u64::MAX as int)) by (nonlinear_arith)
        requires
            0 <= a <= u64::MAX as int,
            0 <= b <= u64::MAX as int,
    ;
}

proof fn lemma_tzdiv_product(s: int, w: int, p: int)
    requires
        w >= 0,
        p == s * w,
    ensures
        s >= 0 ==> p >= 0 && tzdiv(p, FRAC_ONE as int) == p / (FRAC_ONE as int),
        s < 0 ==> -p >= 0 && tzdiv(p, FRAC_ONE as int) == -((-p) / (FRAC_ONE as int)),
{
    if s >= 0 {
        assert(p >= 0) by (nonlinear_arith)
            requires
                s >= 0,
                w >= 0,
                p == s * w,
        ;
    } else {
        assert(p <= 0) by (nonlinear_arith)
            requires
                s < 0,
                w >= 0,
                p == s * w,
        ;
        if p == 0 {
            assert(tzdiv(p, FRAC_ONE as int) == 0);
            assert(-((-p) / (FRAC_ONE as int)) == 0);
        }
    }
}

/// Scales sample `s` by the nonnegative fixed-point factor `w`,
/// saturating the result.
pub fn scale(s: i64, w: u64) -> (r: i64)
    ensures
        r as int == sat64(scale_spec(s as int, w as int)),
{
    proof {
        lemma_mul_bounds(s as int, w as int, i64::MIN as int, i64::MAX as int, u64::MAX as int);
    }
    let p: i128 = (s as i128) * (w as i128);
    proof {
        lemma_tzdiv_product(s as int, w as int, p as int);
    }
    let q: i128 = if p >= 0 {
        p / (FRAC_ONE as i128)
    } else {
        -((-p) / (FRAC_ONE as i128))
    };
    sat_narrow(q)
}

/// Scales sample `s` by the fixed-point factor `w`, which may be negative,
/// saturating the result.
pub fn scale_signed(s: i64, w: i64) -> (r: i64)
    ensures
        r as int == sat64(tzdiv(s as int * w as int, FRAC_ONE as int)),
{
    proof {
        assert((i64::MIN as int) * (i64::MAX as int) <= (s as int) * (w as int) <= (i64::MIN
            as int) * (i64::MIN as int)) by (nonlinear_arith)
            requires
                i64::MIN as int <= s as int <= i64::MAX as int,
                i64::MIN as int <= w as int <= i64::MAX as int,
        ;
    }
    let p: i128 = (s as i128) * (w as i128);
    let q: i128 = if p >= 0 {
        p / (FRAC_ONE as i128)
    } else {
        -((-p) / (FRAC_ONE as i128))
    };
    proof {
        if p >= 0 {
            assert(tzdiv(p as int, FRAC_ONE as int) == (p as int) / (FRAC_ONE as int));
        }
    }
    sat_narrow(q)
}

/// Interpolates from `a` to `b` with the nonnegative fixed-point weight `w`,
/// saturating the result.
pub fn lerp(a: i64, b: i64, w: u64) -> (r: i64)
    requires
        w <= FRAC_ONE as u64,
    ensures
        r as int == sat64(lerp_spec(a as int, b as int, w as int)),
{
    let d: i128 = b as i128 - a as i128;
    proof {
        lemma_mul_bounds(d as int, w as int, -(u64::MAX as int), u64::MAX as int, FRAC_ONE as int);
    }
    let p: i128 = d * (w as i128);
    proof {
        lemma_tzdiv_product(d as int, w as int, p as int);
    }
    let q: i128 = if p >= 0 {
        p / (FRAC_ONE as i128)
    } else {
        -((-p) / (FRAC_ONE as i128))
    };
    sat_narrow(a as i128 + q)
}

} // verus!

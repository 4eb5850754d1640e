//! The spatial orientation and position of the mix "ears".
//!
//! A listener holds a world position and an orthonormal basis (look, up
//! and ear axes), all in fixed-point coordinates with the axes in Q16.16.
//! The mix path reads the listener only to derive a stereo panning value
//! for each source: the direction from listener to source is projected on
//! the ear axis and normalised by the distance; coinciding positions give
//! centre panning.

use vstd::prelude::*;

use crate::sample::{tzdiv, FRAC_ONE};
use crate::source::Vec3I;

verus! {

/// A nonnegative integer square root: the unique `r` with
/// `r * r <= n < (r + 1) * (r + 1)`.
pub open spec fn is_isqrt(n: int, r: int) -> bool {
    &&& r >= 0
    &&& r * r <= n
    &&& n < (r + 1) * (r + 1)
}

/// The integer square root of a nonnegative integer.
pub open spec fn isqrt_spec(n: int) -> int {
    choose|r: int| is_isqrt(n, r)
}

/// Any two integer square roots of the same value are equal.
pub proof fn lemma_isqrt_unique(n: int, r1: int, r2: int)
    requires
        is_isqrt(n, r1),
        is_isqrt(n, r2),
    ensures
        r1 == r2,
{
    if r1 < r2 {
        assert((r1 + 1) * (r1 + 1) <= r2 * r2) by (nonlinear_arith)
            requires
                0 <= r1 < r2,
        ;
    }
    if r2 < r1 {
        assert((r2 + 1) * (r2 + 1) <= r1 * r1) by (nonlinear_arith)
            requires
                0 <= r2 < r1,
        ;
    }
}

/// Computes the integer square root by bisection.
pub fn isqrt(n: u128) -> (r: u64)
    ensures
        is_isqrt(n as int, r as int),
        r as int == isqrt_spec(n as int),
{
    let mut lo: u64 = 0;
    let mut hi: u128 = 0x1_0000_0000_0000_0000u128;
    proof {
        assert((n as int) < (hi as int) * (hi as int)) by (nonlinear_arith)
            requires
                hi == 0x1_0000_0000_0000_0000u128,
                n <= u128::MAX,
        ;
    }
    while (lo as u128) + 1 < hi
        invariant
            (lo as int) * (lo as int) <= n as int,
            (n as int) < (hi as int) * (hi as int),
            (lo as u128) < hi,
            hi <= 0x1_0000_0000_0000_0000u128,
        decreases hi - lo as u128,
    {
        let mid: u128 = ((lo as u128) + hi) / 2;
        proof {
            assert((lo as u128) < mid && mid < hi);
            assert(mid < 0x1_0000_0000_0000_0000u128);
            assert((mid as int) * (mid as int) < 0x1_0000_0000_0000_0000_0000_0000_0000_0000int)
                by (nonlinear_arith)
                requires
                    0 <= mid < 0x1_0000_0000_0000_0000u128,
            ;
        }
        if mid * mid <= n {
            lo = mid as u64;
        } else {
            hi = mid;
        }
    }
    proof {
        assert(is_isqrt(n as int, lo as int));
        lemma_isqrt_unique(n as int, lo as int, isqrt_spec(n as int));
    }
    lo
}

/// The ears of the mix: a world position and an orthonormal basis. The
/// axes are expected as unit vectors in Q16.16; the setters clamp each
/// component into [-FRAC_ONE, FRAC_ONE].
pub struct Listener {
    pub position: Vec3I,
    pub look_axis: Vec3I,
    pub up_axis: Vec3I,
    pub ear_axis: Vec3I,
}

/// A vector whose components all lie in [-FRAC_ONE, FRAC_ONE].
pub open spec fn unit_range(v: Vec3I) -> bool {
    &&& -(FRAC_ONE as int) <= v.x <= FRAC_ONE as int
    &&& -(FRAC_ONE as int) <= v.y <= FRAC_ONE as int
    &&& -(FRAC_ONE as int) <= v.z <= FRAC_ONE as int
}

/// One component clamped into [-FRAC_ONE, FRAC_ONE].
pub open spec fn clamp_unit_spec(c: int) -> int {
    if c < -(FRAC_ONE as int) {
        -(FRAC_ONE as int)
    } else if c > FRAC_ONE as int {
        FRAC_ONE as int
    } else {
        c
    }
}

pub fn clamp_unit(c: i64) -> (r: i64)
    ensures
        r as int == clamp_unit_spec(c as int),
{
    if c < -FRAC_ONE {
        -FRAC_ONE
    } else if c > FRAC_ONE {
        FRAC_ONE
    } else {
        c
    }
}

fn clamp_vec(v: Vec3I) -> (r: Vec3I)
    ensures
        r.x as int == clamp_unit_spec(v.x as int),
        r.y as int == clamp_unit_spec(v.y as int),
        r.z as int == clamp_unit_spec(v.z as int),
        unit_range(r),
{
    Vec3I { x: clamp_unit(v.x), y: clamp_unit(v.y), z: clamp_unit(v.z) }
}

impl Listener {
    /// Axes in nominal range.
    pub open spec fn wf(&self) -> bool {
        &&& unit_range(self.look_axis)
        &&& unit_range(self.up_axis)
        &&& unit_range(self.ear_axis)
    }

    /// Moves the listener.
    pub fn set_position(&mut self, position: Vec3I)
        ensures
            *final(self) == (Listener { position, ..*old(self) }),
    {
        self.position = position;
    }

    /// Sets the basis; each axis component is clamped into the Q16.16
    /// unit range.
    pub fn set_basis(&mut self, look_axis: Vec3I, up_axis: Vec3I, ear_axis: Vec3I)
        ensures
            final(self).position == old(self).position,
            final(self).look_axis == clamp_vec_spec(look_axis),
            final(self).up_axis == clamp_vec_spec(up_axis),
            final(self).ear_axis == clamp_vec_spec(ear_axis),
            final(self).wf(),
    {
        self.look_axis = clamp_vec(look_axis);
        self.up_axis = clamp_vec(up_axis);
        self.ear_axis = clamp_vec(ear_axis);
    }
}

/// A vector clamped componentwise into the Q16.16 unit range.
pub open spec fn clamp_vec_spec(v: Vec3I) -> Vec3I {
    Vec3I {
        x: clamp_unit_spec(v.x as int) as i64,
        y: clamp_unit_spec(v.y as int) as i64,
        z: clamp_unit_spec(v.z as int) as i64,
    }
}

impl Default for Listener {
    /// A listener at the origin looking along +z, up along +y, with the
    /// right ear along +x.
    fn default() -> (l: Self)
        ensures
            l.position == (Vec3I { x: 0, y: 0, z: 0 }),
            l.look_axis == (Vec3I { x: 0, y: 0, z: FRAC_ONE }),
            l.up_axis == (Vec3I { x: 0, y: FRAC_ONE, z: 0 }),
            l.ear_axis == (Vec3I { x: FRAC_ONE, y: 0, z: 0 }),
            l.wf(),
    {
        Listener {
            position: Vec3I { x: 0, y: 0, z: 0 },
            look_axis: Vec3I { x: 0, y: 0, z: FRAC_ONE },
            up_axis: Vec3I { x: 0, y: FRAC_ONE, z: 0 },
            ear_axis: Vec3I { x: FRAC_ONE, y: 0, z: 0 },
        }
    }
}

/// The squared length of the offset from `from` to `to`, saturated into
/// the `u128` range (the saturation is unreachable for world-sized
/// coordinates).
pub open spec fn dist_sq_spec(from: Vec3I, to: Vec3I) -> int {
    let dx = to.x - from.x;
    let dy = to.y - from.y;
    let dz = to.z - from.z;
    if dx * dx + dy * dy + dz * dz > u128::MAX as int {
        u128::MAX as int
    } else {
        dx * dx + dy * dy + dz * dz
    }
}

/// The geometry-derived stereo panning of a sound at `source_pos` heard
/// by `listener`: the projection of the listener-to-source direction on
/// the ear axis, normalised by the distance and clamped into
/// [-FRAC_ONE, FRAC_ONE]. Coinciding positions give centre panning.
pub open spec fn geometric_pan_spec(listener: Listener, source_pos: Vec3I) -> int {
    let dx = source_pos.x - listener.position.x;
    let dy = source_pos.y - listener.position.y;
    let dz = source_pos.z - listener.position.z;
    let len = isqrt_spec(dist_sq_spec(listener.position, source_pos));
    if len == 0 {
        0
    } else {
        let dot = dx * listener.ear_axis.x + dy * listener.ear_axis.y + dz * listener.ear_axis.z;
        clamp_unit_spec(tzdiv(dot, len))
    }
}

/// Computes the geometry-derived panning exactly as
/// `geometric_pan_spec` describes.
pub fn geometric_pan(listener: &Listener, source_pos: Vec3I) -> (r: i64)
    requires
        listener.wf(),
    ensures
        r as int == geometric_pan_spec(*listener, source_pos),
        -(FRAC_ONE as int) <= r as int <= FRAC_ONE as int,
{
    let dx: i128 = source_pos.x as i128 - listener.position.x as i128;
    let dy: i128 = source_pos.y as i128 - listener.position.y as i128;
    let dz: i128 = source_pos.z as i128 - listener.position.z as i128;
    proof {
        lemma_diff_sq_bound(dx as int);
        lemma_diff_sq_bound(dy as int);
        lemma_diff_sq_bound(dz as int);
    }
    let adx: u128 = if dx < 0 {
        (-dx) as u128
    } else {
        dx as u128
    };
    let ady: u128 = if dy < 0 {
        (-dy) as u128
    } else {
        dy as u128
    };
    let adz: u128 = if dz < 0 {
        (-dz) as u128
    } else {
        dz as u128
    };
    proof {
        assert(adx <= u64::MAX && ady <= u64::MAX && adz <= u64::MAX);
        lemma_sq_fits(adx as int);
        lemma_sq_fits(ady as int);
        lemma_sq_fits(adz as int);
    }
    let sx: u128 = adx * adx;
    let sy: u128 = ady * ady;
    let sz: u128 = adz * adz;
    proof {
        assert(sx == (dx as int) * (dx as int)) by (nonlinear_arith)
            requires
                sx == (adx as int) * (adx as int),
                adx == (if dx < 0 {
                    -(dx as int)
                } else {
                    dx as int
                }),
        ;
        assert(sy == (dy as int) * (dy as int)) by (nonlinear_arith)
            requires
                sy == (ady as int) * (ady as int),
                ady == (if dy < 0 {
                    -(dy as int)
                } else {
                    dy as int
                }),
        ;
        assert(sz == (dz as int) * (dz as int)) by (nonlinear_arith)
            requires
                sz == (adz as int) * (adz as int),
                adz == (if dz < 0 {
                    -(dz as int)
                } else {
                    dz as int
                }),
        ;
    }
    let sum: u128 = if sx > u128::MAX - sy {
        u128::MAX
    } else if sx + sy > u128::MAX - sz {
        u128::MAX
    } else {
        sx + sy + sz
    };
    let len = isqrt(sum);
    if len == 0 {
        proof {
            lemma_isqrt_unique(
                sum as int,
                len as int,
                isqrt_spec(dist_sq_spec(listener.position, source_pos)),
            );
        }
        return 0;
    }
    proof {
        lemma_dot_bound(dx as int, listener.ear_axis.x as int);
        lemma_dot_bound(dy as int, listener.ear_axis.y as int);
        lemma_dot_bound(dz as int, listener.ear_axis.z as int);
    }
    let dot: i128 = dx * (listener.ear_axis.x as i128) + dy * (listener.ear_axis.y as i128) + dz
        * (listener.ear_axis.z as i128);
    let q: i128 = if dot >= 0 {
        dot / (len as i128)
    } else {
        -((-dot) / (len as i128))
    };
    proof {
        lemma_isqrt_unique(
            sum as int,
            len as int,
            isqrt_spec(dist_sq_spec(listener.position, source_pos)),
        );
        if dot >= 0 {
            assert(tzdiv(dot as int, len as int) == (dot as int) / (len as int));
        }
    }
    let clamped: i128 = if q < -(FRAC_ONE as i128) {
        -(FRAC_ONE as i128)
    } else if q > FRAC_ONE as i128 {
        FRAC_ONE as i128
    } else {
        q
    };
    clamped as i64
}

/// The square of a value bounded by `u64::MAX` fits in `u128`.
proof fn lemma_sq_fits(a: int)
    requires
        0 <= a <= u64::MAX as int,
    ensures
        0 <= a * a <= (u64::MAX as int) * (u64::MAX as int),
        a * a <= u128::MAX as int,
{
    assert(0 <= a * a <= (u64::MAX as int) * (u64::MAX as int)) by (nonlinear_arith)
        requires
            0 <= a <= u64::MAX as int,
    ;
}

/// The square of a difference of two `i64` values fits in `i128` and is
/// nonnegative.
proof fn lemma_diff_sq_bound(d: int)
    requires
        -(u64::MAX as int) <= d <= u64::MAX as int,
    ensures
        0 <= d * d <= (u64::MAX as int) * (u64::MAX as int),
{
    assert(0 <= d * d <= (u64::MAX as int) * (u64::MAX as int)) by (nonlinear_arith)
        requires
            -(u64::MAX as int) <= d <= u64::MAX as int,
    ;
}

/// A product of a coordinate difference and a unit-range component is
/// bounded well inside `i128`.
proof fn lemma_dot_bound(d: int, e: int)
    requires
        -(u64::MAX as int) <= d <= u64::MAX as int,
        -(FRAC_ONE as int) <= e <= FRAC_ONE as int,
    ensures
        -((u64::MAX as int) * (FRAC_ONE as int)) <= d * e <= (u64::MAX as int) * (
        FRAC_ONE as int),
{
    assert(-((u64::MAX as int) * (FRAC_ONE as int)) <= d * e <= (u64::MAX as int) * (
    FRAC_ONE as int)) by (nonlinear_arith)
        requires
            -(u64::MAX as int) <= d <= u64::MAX as int,
            -(FRAC_ONE as int) <= e <= FRAC_ONE as int,
    ;
}

} // verus!

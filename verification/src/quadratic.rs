//! Exact decision procedure for whether a real quadratic has a root strictly
//! inside the open unit interval `(0, 1)`.
//!
//! The intersection tests parameterize a segment as `start + t * delta` and
//! substitute it into a circle or ellipse equation, yielding a quadratic
//! `qa*t^2 + 2*hb*t + qc` with integer coefficients (the linear coefficient is
//! always even, so it is carried halved as `hb`).  The segment crosses the
//! shape's outline exactly when that quadratic has a root strictly between 0
//! and 1, which is decidable by sign analysis alone: no square roots and no
//! division are ever needed.

use vstd::prelude::*;

verus! {

/// Magnitude bound (`2^63`) on the coefficients accepted by
/// [`root_in_unit`]; products of two bounded coefficients then fit in `i128`.
pub const QUAD_LIMIT: i128 = 0x8000_0000_0000_0000;

/// Does `qa*t^2 + 2*hb*t + qc` (with `qa > 0`) have a real root strictly
/// inside `(0, 1)`?
///
/// Writing `q(t)` for the quadratic, the four disjuncts cover, in order:
/// a root at 0 (excluded) with the other root strictly inside; a root at 1
/// (excluded) with the other root strictly inside; endpoints of opposite
/// sign, so exactly one root strictly inside; and both endpoints positive
/// with the vertex strictly inside and a non-negative discriminant, so both
/// roots (possibly coincident) strictly inside.  A non-positive leading
/// coefficient counts as "no root": for the circle test it arises only from
/// a zero-length segment, and the ellipse test rejects zero axes before the
/// quadratic is ever formed, so in both uses it stands for degenerate
/// geometry that never intersects.
pub open spec fn unit_root(qa: int, hb: int, qc: int) -> bool {
    let q1 = qa + 2 * hb + qc;
    qa > 0 && (
        (qc == 0 && hb < 0 && qa + 2 * hb > 0)
        || (qc != 0 && q1 == 0 && 0 < qc < qa)
        || (qc != 0 && q1 != 0 && ((qc < 0) != (q1 < 0)))
        || (qc > 0 && q1 > 0 && hb < 0 && qa + hb > 0 && hb * hb >= qa * qc)
    )
}

/// Executable form of [`unit_root`], exact for all coefficients within
/// [`QUAD_LIMIT`].
pub fn root_in_unit(qa: i128, hb: i128, qc: i128) -> (r: bool)
    requires
        0 <= qa <= QUAD_LIMIT,
        -QUAD_LIMIT <= hb <= QUAD_LIMIT,
        -QUAD_LIMIT <= qc <= QUAD_LIMIT,
    ensures
        r == unit_root(qa as int, hb as int, qc as int),
{
    if qa <= 0 {
        return false;
    }
    let q1: i128 = qa + 2 * hb + qc;
    if qc == 0 {
        return hb < 0 && qa + 2 * hb > 0;
    }
    if q1 == 0 {
        return 0 < qc && qc < qa;
    }
    if (qc < 0) != (q1 < 0) {
        return true;
    }
    if qc > 0 && q1 > 0 {
        assert(0 <= hb * hb <= 0x4000_0000_0000_0000_0000_0000_0000_0000) by (nonlinear_arith)
            requires -QUAD_LIMIT <= hb <= QUAD_LIMIT;
        assert(0 <= qa * qc <= 0x4000_0000_0000_0000_0000_0000_0000_0000) by (nonlinear_arith)
            requires 0 <= qa <= QUAD_LIMIT && 0 <= qc <= QUAD_LIMIT;
        return hb < 0 && qa + hb > 0 && hb * hb >= qa * qc;
    }
    false
}

/// Bounding products: if `|a| <= am` and `|b| <= bm` then `|a*b| <= am*bm`.
pub proof fn lemma_mul_bound(a: int, b: int, am: int, bm: int)
    by (nonlinear_arith)
    requires
        -am <= a <= am,
        -bm <= b <= bm,
        0 <= am,
        0 <= bm,
    ensures
        -(am * bm) <= a * b <= am * bm,
{
}

/// Squares are non-negative.
pub proof fn lemma_sq_nonneg(a: int)
    by (nonlinear_arith)
    ensures
        0 <= a * a,
{
}

/// The product of two non-negative factors is non-negative.
pub proof fn lemma_mul_nonneg(a: int, b: int)
    by (nonlinear_arith)
    requires
        0 <= a,
        0 <= b,
    ensures
        0 <= a * b,
{
}

/// Bounding triple products: if each factor is bounded in magnitude, so is
/// the product of the three.
pub proof fn lemma_mul3_bound(a: int, b: int, c: int, am: int, bm: int, cm: int)
    by (nonlinear_arith)
    requires
        -am <= a <= am,
        -bm <= b <= bm,
        -cm <= c <= cm,
        0 <= am,
        0 <= bm,
        0 <= cm,
    ensures
        -(am * bm * cm) <= a * b * c <= am * bm * cm,
{
}

/// [`unit_root`] only looks at the signs of rational quantities, so scaling
/// all three coefficients by the same positive factor does not change it.
pub proof fn lemma_unit_root_scale(qa: int, hb: int, qc: int, k: int)
    by (nonlinear_arith)
    requires
        k > 0,
    ensures
        unit_root(k * qa, k * hb, k * qc) == unit_root(qa, hb, qc),
{
}

/// A quadratic that is negative at both 0 and 1 (both endpoints strictly
/// inside the shape) has no root in `(0, 1)`: between the two roots of an
/// upward parabola the value stays negative, so both roots lie outside the
/// unit interval.
pub proof fn lemma_negative_ends_no_unit_root(qa: int, hb: int, qc: int)
    requires
        qc < 0,
        qa + 2 * hb + qc < 0,
    ensures
        !unit_root(qa, hb, qc),
{
}

/// A quadratic that is positive at 0 and 1 but strictly negative at some
/// rational `n/m` strictly between them has both roots strictly inside
/// `(0, 1)`, hence a root in the open unit interval.  `qa*n^2 + 2*hb*n*m +
/// qc*m^2` is `m^2 * q(n/m)`.
pub proof fn lemma_interior_dip_has_unit_root(qa: int, hb: int, qc: int, n: int, m: int)
    requires
        qa > 0,
        qc > 0,
        qa + 2 * hb + qc > 0,
        0 < n < m,
        qa * n * n + 2 * hb * n * m + qc * m * m < 0,
    ensures
        unit_root(qa, hb, qc),
{
    let qn = qa * n * n + 2 * hb * n * m + qc * m * m;
    assert(hb < 0) by (nonlinear_arith)
        requires qa > 0 && qc > 0 && 0 < n < m && qa * n * n + 2 * hb * n * m + qc * m * m < 0;
    assert(qa + hb > 0) by (nonlinear_arith)
        requires qa > 0 && 0 < n < m && qa + 2 * hb + qc > 0
            && qa * n * n + 2 * hb * n * m + qc * m * m < 0;
    assert(hb * hb >= qa * qc) by (nonlinear_arith)
        requires qa > 0 && qc > 0 && 0 < n < m
            && qa * n * n + 2 * hb * n * m + qc * m * m < 0;
}

} // verus!

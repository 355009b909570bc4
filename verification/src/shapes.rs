//! Geometry primitives and the exact segment-intersection predicates.
//!
//! All coordinates are integers in subunits (30 subunits per logical canvas
//! unit) and every predicate is decided exactly: a segment "intersects" a
//! shape when its open interior crosses the shape's outline, with crossings
//! exactly at a segment endpoint deliberately excluded (this keeps a crossing
//! through the shared corner of two rectangle edges from being counted
//! twice).  Orientation follows terminal output: x grows to the right, y
//! grows downward.

use vstd::prelude::*;
use crate::quadratic::{
    unit_root, root_in_unit, lemma_mul_bound, lemma_mul3_bound, lemma_sq_nonneg, lemma_mul_nonneg,
};
use crate::{COORD_LIMIT, ROT_DEN_LIMIT};

verus! {

/// Coordinates the engine computes with must stay within `COORD_LIMIT`.
pub open spec fn coord_ok(x: int) -> bool {
    -COORD_LIMIT <= x <= COORD_LIMIT
}

/// A position (or offset) in the logical canvas, in subunits.
#[derive(Clone, Copy, PartialEq, Eq, Structural, Debug)]
pub struct Point {
    pub x: i64,
    pub y: i64,
}

pub open spec fn point_ok(p: Point) -> bool {
    coord_ok(p.x as int) && coord_ok(p.y as int)
}

impl Point {
    pub fn new(x: i64, y: i64) -> (p: Point)
        ensures
            p == (Point { x, y }),
    {
        Point { x, y }
    }
}

/// An exact rotation: the angle whose cosine is `cos_n / den` and whose sine
/// is `sin_n / den`.  The invariant `cos_n^2 + sin_n^2 == den^2` (a
/// Pythagorean triple, allowing the trivial ones) makes it a true rotation,
/// with no scaling, so rotating by it preserves squared distances exactly.
#[derive(Clone, Copy, PartialEq, Eq, Structural, Debug)]
pub struct Rotation {
    pub cos_n: i64,
    pub sin_n: i64,
    pub den: i64,
}

pub open spec fn rot_wf(r: Rotation) -> bool {
    &&& 1 <= r.den <= ROT_DEN_LIMIT
    &&& -r.den <= r.cos_n <= r.den
    &&& -r.den <= r.sin_n <= r.den
    &&& r.cos_n * r.cos_n + r.sin_n * r.sin_n == r.den * r.den
}

impl Rotation {
    pub fn new(cos_n: i64, sin_n: i64, den: i64) -> (r: Rotation)
        requires
            1 <= den <= ROT_DEN_LIMIT,
            cos_n * cos_n + sin_n * sin_n == den * den,
        ensures
            r == (Rotation { cos_n, sin_n, den }),
            rot_wf(r),
    {
        proof {
            assert(-den <= cos_n <= den && -den <= sin_n <= den) by (nonlinear_arith)
                requires den >= 1, cos_n * cos_n + sin_n * sin_n == den * den;
        }
        Rotation { cos_n, sin_n, den }
    }

    /// The rotation by angle zero.
    pub fn identity() -> (r: Rotation)
        ensures
            r == (Rotation { cos_n: 1i64, sin_n: 0i64, den: 1i64 }),
            rot_wf(r),
    {
        Rotation { cos_n: 1, sin_n: 0, den: 1 }
    }

    /// The rotation by the sum of the two angles (complex multiplication of
    /// the cosine/sine pairs); the denominators multiply.
    pub fn compose(self, other: Rotation) -> (r: Rotation)
        requires
            rot_wf(self),
            rot_wf(other),
            self.den * other.den <= ROT_DEN_LIMIT,
        ensures
            r == rot_compose(self, other),
            rot_wf(r),
    {
        proof {
            lemma_mul_bound(self.cos_n as int, other.cos_n as int, ROT_DEN_LIMIT as int, ROT_DEN_LIMIT as int);
            lemma_mul_bound(self.sin_n as int, other.sin_n as int, ROT_DEN_LIMIT as int, ROT_DEN_LIMIT as int);
            lemma_mul_bound(self.sin_n as int, other.cos_n as int, ROT_DEN_LIMIT as int, ROT_DEN_LIMIT as int);
            lemma_mul_bound(self.cos_n as int, other.sin_n as int, ROT_DEN_LIMIT as int, ROT_DEN_LIMIT as int);
        }
        let c: i64 = self.cos_n * other.cos_n - self.sin_n * other.sin_n;
        let s: i64 = self.sin_n * other.cos_n + self.cos_n * other.sin_n;
        let d: i64 = self.den * other.den;
        proof {
            lemma_pyth_compose(self.cos_n as int, self.sin_n as int, self.den as int,
                other.cos_n as int, other.sin_n as int, other.den as int);
        }
        Rotation { cos_n: c, sin_n: s, den: d }
    }
}

/// Composing two Pythagorean cosine/sine pairs yields a Pythagorean pair
/// over the product of the denominators (the Brahmagupta-Fibonacci
/// identity).
proof fn lemma_pyth_compose_identity(c1: int, s1: int, d1: int, c2: int, s2: int, d2: int)
    requires
        c1 * c1 + s1 * s1 == d1 * d1,
        c2 * c2 + s2 * s2 == d2 * d2,
    ensures
        (c1 * c2 - s1 * s2) * (c1 * c2 - s1 * s2) + (s1 * c2 + c1 * s2) * (s1 * c2 + c1 * s2)
            == (d1 * d2) * (d1 * d2),
{
    let x = c1 * c2;
    let y = s1 * s2;
    let u = s1 * c2;
    let v = c1 * s2;
    assert((x - y) * (x - y) + (u + v) * (u + v)
        == x * x + y * y + u * u + v * v - 2 * (x * y) + 2 * (u * v)) by (nonlinear_arith);
    assert(x * y == u * v) by (nonlinear_arith)
        requires x == c1 * c2, y == s1 * s2, u == s1 * c2, v == c1 * s2;
    assert(x * x + v * v == (c1 * c1) * (c2 * c2 + s2 * s2)) by (nonlinear_arith)
        requires x == c1 * c2, v == c1 * s2;
    assert(u * u + y * y == (s1 * s1) * (c2 * c2 + s2 * s2)) by (nonlinear_arith)
        requires u == s1 * c2, y == s1 * s2;
    assert((c1 * c1) * (c2 * c2 + s2 * s2) + (s1 * s1) * (c2 * c2 + s2 * s2)
        == (c1 * c1 + s1 * s1) * (c2 * c2 + s2 * s2)) by (nonlinear_arith);
    assert((c1 * c1 + s1 * s1) * (c2 * c2 + s2 * s2) == (d1 * d1) * (d2 * d2)) by (nonlinear_arith)
        requires c1 * c1 + s1 * s1 == d1 * d1, c2 * c2 + s2 * s2 == d2 * d2;
    assert((d1 * d1) * (d2 * d2) == (d1 * d2) * (d1 * d2)) by (nonlinear_arith);
}

/// A component of a Pythagorean pair is bounded by the hypotenuse.
proof fn lemma_pyth_component_bound(x: int, y: int, d: int)
    by (nonlinear_arith)
    requires
        0 <= d,
        x * x + y * y == d * d,
    ensures
        -d <= x <= d,
        -d <= y <= d,
{
}

proof fn lemma_pyth_compose(c1: int, s1: int, d1: int, c2: int, s2: int, d2: int)
    requires
        1 <= d1,
        1 <= d2,
        c1 * c1 + s1 * s1 == d1 * d1,
        c2 * c2 + s2 * s2 == d2 * d2,
    ensures
        (c1 * c2 - s1 * s2) * (c1 * c2 - s1 * s2) + (s1 * c2 + c1 * s2) * (s1 * c2 + c1 * s2)
            == (d1 * d2) * (d1 * d2),
        1 <= d1 * d2,
        -(d1 * d2) <= c1 * c2 - s1 * s2 <= d1 * d2,
        -(d1 * d2) <= s1 * c2 + c1 * s2 <= d1 * d2,
{
    lemma_pyth_compose_identity(c1, s1, d1, c2, s2, d2);
    assert(1 <= d1 * d2) by (nonlinear_arith)
        requires 1 <= d1, 1 <= d2;
    lemma_pyth_component_bound(c1 * c2 - s1 * s2, s1 * c2 + c1 * s2, d1 * d2);
}

/// The rotation by the sum of the two angles of `a` and `b`; equal to what
/// [`Rotation::compose`] builds whenever the composed denominator is in
/// bounds.  Composition of rotations is commutative.
pub open spec fn rot_compose(a: Rotation, b: Rotation) -> Rotation {
    Rotation {
        cos_n: (a.cos_n * b.cos_n - a.sin_n * b.sin_n) as i64,
        sin_n: (a.sin_n * b.cos_n + a.cos_n * b.sin_n) as i64,
        den: (a.den * b.den) as i64,
    }
}

/// A line segment with the derived quantities the intersection tests reuse:
/// the deltas and the squared length, precomputed at construction.
#[derive(Clone, Copy, PartialEq, Eq, Structural, Debug)]
pub struct Line {
    pub start: Point,
    pub end: Point,
    pub dx: i64,
    pub dy: i64,
    pub length_squared: i64,
}

pub open spec fn line_wf(l: Line) -> bool {
    &&& point_ok(l.start)
    &&& point_ok(l.end)
    &&& l.dx == l.end.x - l.start.x
    &&& l.dy == l.end.y - l.start.y
    &&& l.length_squared == l.dx * l.dx + l.dy * l.dy
}

/// The segment from `a` to `b`, with its derived fields; equal to what
/// [`Line::new`] builds whenever both points are in bounds.
pub open spec fn spec_line(a: Point, b: Point) -> Line {
    Line {
        start: a,
        end: b,
        dx: (b.x - a.x) as i64,
        dy: (b.y - a.y) as i64,
        length_squared: ((b.x - a.x) * (b.x - a.x) + (b.y - a.y) * (b.y - a.y)) as i64,
    }
}

/// Determinant of the 2x2 system for the crossing of two segments; zero
/// exactly for parallel or degenerate segments.
pub open spec fn cross_det(l1: Line, l2: Line) -> int {
    l1.dx * l2.dy - l2.dx * l1.dy
}

/// Numerator of the crossing's parameter along `l1` (denominator
/// `cross_det`).
pub open spec fn cross_lnum(l1: Line, l2: Line) -> int {
    l2.dy * (l2.end.x - l1.start.x) - l2.dx * (l2.end.y - l1.start.y)
}

/// Numerator of one minus the crossing's parameter along `l2` (denominator
/// `cross_det`).
pub open spec fn cross_gnum(l1: Line, l2: Line) -> int {
    l1.dx * (l2.end.y - l1.start.y) - l1.dy * (l2.end.x - l1.start.x)
}

/// Is the rational `n / d` strictly between 0 and 1?  (Multiplying the chain
/// `0 < n/d < 1` through by `d^2 > 0` clears the sign of `d`.)
pub open spec fn in_open_unit(n: int, d: int) -> bool {
    0 < n * d < d * d
}

/// Two segments properly cross: they are not parallel and the unique
/// intersection point of their supporting lines lies strictly inside both
/// segments.  Touching exactly at an endpoint does not count, and collinear
/// overlap reports no crossing (the determinant vanishes).
pub open spec fn seg_crosses(l1: Line, l2: Line) -> bool {
    &&& cross_det(l1, l2) != 0
    &&& in_open_unit(cross_lnum(l1, l2), cross_det(l1, l2))
    &&& in_open_unit(cross_gnum(l1, l2), cross_det(l1, l2))
}

impl Line {
    pub fn new(start: Point, end: Point) -> (l: Line)
        requires
            point_ok(start),
            point_ok(end),
        ensures
            l == spec_line(start, end),
            line_wf(l),
    {
        let dx: i64 = end.x - start.x;
        let dy: i64 = end.y - start.y;
        proof {
            lemma_mul_bound(dx as int, dx as int, 2 * COORD_LIMIT as int, 2 * COORD_LIMIT as int);
            lemma_mul_bound(dy as int, dy as int, 2 * COORD_LIMIT as int, 2 * COORD_LIMIT as int);
        }
        let length_squared: i64 = dx * dx + dy * dy;
        Line { start, end, dx, dy, length_squared }
    }

    /// Does this segment properly cross `other`?  Exact: solves the 2x2
    /// parametric system by Cramer's rule and checks both parameters lie
    /// strictly inside `(0, 1)`, entirely in integers.
    pub fn intersects_line(&self, other: &Line) -> (r: bool)
        requires
            line_wf(*self),
            line_wf(*other),
        ensures
            r == seg_crosses(*self, *other),
    {
        proof {
            lemma_mul_bound(self.dx as int, other.dy as int, 8192, 8192);
            lemma_mul_bound(other.dx as int, self.dy as int, 8192, 8192);
        }
        let det: i64 = self.dx * other.dy - other.dx * self.dy;
        if det == 0 {
            return false;
        }
        let rx: i64 = other.end.x - self.start.x;
        let ry: i64 = other.end.y - self.start.y;
        proof {
            lemma_mul_bound(other.dy as int, rx as int, 8192, 8192);
            lemma_mul_bound(other.dx as int, ry as int, 8192, 8192);
            lemma_mul_bound(self.dx as int, ry as int, 8192, 8192);
            lemma_mul_bound(self.dy as int, rx as int, 8192, 8192);
        }
        let lnum: i64 = other.dy * rx - other.dx * ry;
        let gnum: i64 = self.dx * ry - self.dy * rx;
        proof {
            lemma_mul_bound(lnum as int, det as int, 0x8000000, 0x8000000);
            lemma_mul_bound(gnum as int, det as int, 0x8000000, 0x8000000);
            lemma_mul_bound(det as int, det as int, 0x8000000, 0x8000000);
        }
        let dd: i64 = det * det;
        0 < lnum * det && lnum * det < dd && 0 < gnum * det && gnum * det < dd
    }
}

/// Well-formed segments have a small, non-negative squared length.
pub proof fn lemma_len2_bounds(l: Line)
    requires
        line_wf(l),
    ensures
        0 <= l.length_squared <= 0x8000000,
{
    lemma_sq_nonneg(l.dx as int);
    lemma_sq_nonneg(l.dy as int);
    lemma_mul_bound(l.dx as int, l.dx as int, 8192, 8192);
    lemma_mul_bound(l.dy as int, l.dy as int, 8192, 8192);
}

/// A circle, stored as its center and squared radius.
#[derive(Clone, Copy, PartialEq, Eq, Structural, Debug)]
pub struct Circle {
    pub center: Point,
    pub r_squared: i64,
}

pub open spec fn circle_wf(c: Circle) -> bool {
    point_ok(c.center) && 0 <= c.r_squared <= COORD_LIMIT * COORD_LIMIT
}

impl Circle {
    pub fn new(center: Point, r: i64) -> (c: Circle)
        requires
            point_ok(center),
            0 <= r <= COORD_LIMIT,
        ensures
            c == spec_circle(center, r as int),
            c.r_squared == r * r,
            circle_wf(c),
    {
        proof {
            lemma_sq_nonneg(r as int);
            lemma_mul_bound(r as int, r as int, COORD_LIMIT as int, COORD_LIMIT as int);
        }
        Circle { center, r_squared: r * r }
    }
}

/// The circle with the given center and radius; equal to what
/// [`Circle::new`] builds whenever the arguments are in bounds.
pub open spec fn spec_circle(center: Point, r: int) -> Circle {
    Circle { center, r_squared: (r * r) as i64 }
}

/// Half the linear coefficient of the crossing quadratic of a segment and a
/// circle (the full coefficient is always even).
pub open spec fn circle_hb(l: Line, c: Circle) -> int {
    (l.start.x - c.center.x) * l.dx + (l.start.y - c.center.y) * l.dy
}

/// Constant coefficient: the squared distance from the segment's start to
/// the center, minus the squared radius.  Negative exactly when the start
/// lies strictly inside the circle.
pub open spec fn circle_qc(l: Line, c: Circle) -> int {
    (l.start.x - c.center.x) * (l.start.x - c.center.x)
        + (l.start.y - c.center.y) * (l.start.y - c.center.y) - c.r_squared
}

/// The segment's open interior crosses the circle's outline: substituting
/// `start + t * (dx, dy)` into the circle equation yields the quadratic
/// `length_squared * t^2 + 2 * circle_hb * t + circle_qc`, and the crossing
/// happens exactly when it has a root strictly inside `(0, 1)`.
pub open spec fn circle_hit(l: Line, c: Circle) -> bool {
    unit_root(l.length_squared as int, circle_hb(l, c), circle_qc(l, c))
}

impl Line {
    /// Does this segment cross the circle's outline?  Exact root-counting of
    /// the crossing quadratic; a degenerate (zero-length) segment never
    /// crosses.
    pub fn intersects_circle(&self, circle: &Circle) -> (r: bool)
        requires
            line_wf(*self),
            circle_wf(*circle),
        ensures
            r == circle_hit(*self, *circle),
    {
        let ax: i64 = self.start.x - circle.center.x;
        let ay: i64 = self.start.y - circle.center.y;
        proof {
            lemma_len2_bounds(*self);
            lemma_mul_bound(ax as int, self.dx as int, 8192, 8192);
            lemma_mul_bound(ay as int, self.dy as int, 8192, 8192);
            lemma_mul_bound(ax as int, ax as int, 8192, 8192);
            lemma_mul_bound(ay as int, ay as int, 8192, 8192);
        }
        let hb: i64 = ax * self.dx + ay * self.dy;
        let qc: i64 = ax * ax + ay * ay - circle.r_squared;
        root_in_unit(self.length_squared as i128, hb as i128, qc as i128)
    }
}

/// An ellipse: center, semi-axis lengths stored squared (`a` along the keel
/// direction, `b` across it), the larger of the two semi-axes, and the keel,
/// the ellipse's own rotation about its center.
#[derive(Clone, Copy, PartialEq, Eq, Structural, Debug)]
pub struct Ellipse {
    pub center: Point,
    pub max_axis: i64,
    pub a_squared: i64,
    pub b_squared: i64,
    pub keel: Rotation,
}

pub open spec fn ellipse_wf(e: Ellipse) -> bool {
    &&& point_ok(e.center)
    &&& 0 <= e.max_axis <= COORD_LIMIT
    &&& 0 <= e.a_squared <= e.max_axis * e.max_axis
    &&& 0 <= e.b_squared <= e.max_axis * e.max_axis
    &&& rot_wf(e.keel)
}

/// The ellipse with the given center, semi-axes and keel; equal to what
/// [`Ellipse::new`] builds whenever the arguments are in bounds.
pub open spec fn spec_ellipse(center: Point, a: int, b: int, keel: Rotation) -> Ellipse {
    Ellipse {
        center,
        max_axis: (if a >= b { a } else { b }) as i64,
        a_squared: (a * a) as i64,
        b_squared: (b * b) as i64,
        keel,
    }
}

impl Ellipse {
    pub fn new(center: Point, a: i64, b: i64, keel: Rotation) -> (e: Ellipse)
        requires
            point_ok(center),
            0 <= a <= COORD_LIMIT,
            0 <= b <= COORD_LIMIT,
            rot_wf(keel),
        ensures
            e == spec_ellipse(center, a as int, b as int, keel),
            e.max_axis == (if a >= b { a } else { b }),
            ellipse_wf(e),
    {
        let max_axis: i64 = if a >= b { a } else { b };
        proof {
            lemma_sq_nonneg(a as int);
            lemma_sq_nonneg(b as int);
            lemma_mul_bound(a as int, a as int, COORD_LIMIT as int, COORD_LIMIT as int);
            lemma_mul_bound(b as int, b as int, COORD_LIMIT as int, COORD_LIMIT as int);
            assert(a * a <= max_axis * max_axis && b * b <= max_axis * max_axis)
                by (nonlinear_arith)
                requires 0 <= a, 0 <= b, a <= max_axis, b <= max_axis;
        }
        Ellipse { center, max_axis, a_squared: a * a, b_squared: b * b, keel }
    }
}

/// x component, scaled by `k.den`, of the vector `(vx, vy)` rotated by the
/// inverse of `k` (into the frame whose x axis points along `k`).
pub open spec fn rot_inv_x(k: Rotation, vx: int, vy: int) -> int {
    vx * k.cos_n + vy * k.sin_n
}

/// y component, scaled by `k.den`, of the vector `(vx, vy)` rotated by the
/// inverse of `k`.
pub open spec fn rot_inv_y(k: Rotation, vx: int, vy: int) -> int {
    vy * k.cos_n - vx * k.sin_n
}

/// Leading coefficient of the crossing quadratic of a segment and an
/// ellipse, in the ellipse's own axis frame.  All three coefficients carry a
/// common factor `keel.den^2` relative to the circle case; scaling does not
/// move the roots.
pub open spec fn ellipse_qa(l: Line, e: Ellipse) -> int {
    let dxr = rot_inv_x(e.keel, l.dx as int, l.dy as int);
    let dyr = rot_inv_y(e.keel, l.dx as int, l.dy as int);
    dxr * dxr * e.b_squared + dyr * dyr * e.a_squared
}

/// Half the linear coefficient of the ellipse crossing quadratic.
pub open spec fn ellipse_hb(l: Line, e: Ellipse) -> int {
    let axr = rot_inv_x(e.keel, l.start.x - e.center.x, l.start.y - e.center.y);
    let ayr = rot_inv_y(e.keel, l.start.x - e.center.x, l.start.y - e.center.y);
    let dxr = rot_inv_x(e.keel, l.dx as int, l.dy as int);
    let dyr = rot_inv_y(e.keel, l.dx as int, l.dy as int);
    axr * dxr * e.b_squared + ayr * dyr * e.a_squared
}

/// Constant coefficient of the ellipse crossing quadratic; negative exactly
/// when the segment's start lies strictly inside the ellipse.
pub open spec fn ellipse_qc(l: Line, e: Ellipse) -> int {
    let axr = rot_inv_x(e.keel, l.start.x - e.center.x, l.start.y - e.center.y);
    let ayr = rot_inv_y(e.keel, l.start.x - e.center.x, l.start.y - e.center.y);
    axr * axr * e.b_squared + ayr * ayr * e.a_squared
        - e.a_squared * e.b_squared * (e.keel.den * e.keel.den)
}

/// The conservative fast rejection that precedes the ellipse quadratic: the
/// segment is dismissed when its *start* point lies farther from the
/// ellipse's center than the segment's length plus the largest semi-axis.
/// The comparison `dist > length + max_axis` is decided exactly on squared
/// quantities by squaring twice; it looks only at the start point, so it is
/// a heuristic pruning step, sound for every segment that it rejects.
pub open spec fn far_start(l: Line, e: Ellipse) -> bool {
    let ex = l.start.x - e.center.x;
    let ey = l.start.y - e.center.y;
    let t = ex * ex + ey * ey - l.length_squared - e.max_axis * e.max_axis;
    t > 0 && t * t > 4 * (l.length_squared * (e.max_axis * e.max_axis))
}

/// The segment's open interior crosses the ellipse's outline.  A degenerate
/// ellipse (either semi-axis zero) has no outline and never intersects.
/// Otherwise, under the far-start pruning, the exact quadratic test runs in
/// the ellipse's own axis frame, reached by rotating the segment by the
/// inverse of the keel.
pub open spec fn ellipse_hit(l: Line, e: Ellipse) -> bool {
    &&& e.a_squared > 0
    &&& e.b_squared > 0
    &&& !far_start(l, e)
    &&& unit_root(ellipse_qa(l, e), ellipse_hb(l, e), ellipse_qc(l, e))
}

impl Line {
    /// Does this segment cross the ellipse's outline?  Mirrors
    /// [`ellipse_hit`] exactly: degenerate (zero-axis) ellipses never
    /// intersect, then the cheap far-start rejection, then exact
    /// root-counting of the quadratic in the ellipse's axis frame.
    pub fn intersects_ellipse(&self, ellipse: &Ellipse) -> (r: bool)
        requires
            line_wf(*self),
            ellipse_wf(*ellipse),
        ensures
            r == ellipse_hit(*self, *ellipse),
    {
        if ellipse.a_squared == 0 || ellipse.b_squared == 0 {
            return false;
        }
        let tx: i64 = self.start.x - ellipse.center.x;
        let ty: i64 = self.start.y - ellipse.center.y;
        proof {
            lemma_len2_bounds(*self);
            lemma_sq_nonneg(tx as int);
            lemma_sq_nonneg(ty as int);
            lemma_mul_bound(tx as int, tx as int, 8192, 8192);
            lemma_mul_bound(ty as int, ty as int, 8192, 8192);
            lemma_sq_nonneg(ellipse.max_axis as int);
            lemma_mul_bound(ellipse.max_axis as int, ellipse.max_axis as int, 4096, 4096);
        }
        let e2: i64 = tx * tx + ty * ty;
        let m2: i64 = ellipse.max_axis * ellipse.max_axis;
        let t: i64 = e2 - self.length_squared - m2;
        proof {
            lemma_mul_bound(t as int, t as int, 0x20000000, 0x20000000);
            lemma_mul_nonneg(self.length_squared as int, m2 as int);
            lemma_mul_bound(self.length_squared as int, m2 as int, 0x8000000, 0x1000000);
        }
        if t > 0 && t * t > 4 * (self.length_squared * m2) {
            return false;
        }
        let kc: i64 = ellipse.keel.cos_n;
        let ks: i64 = ellipse.keel.sin_n;
        let kd: i64 = ellipse.keel.den;
        proof {
            lemma_mul_bound(tx as int, kc as int, 8192, 32);
            lemma_mul_bound(ty as int, ks as int, 8192, 32);
            lemma_mul_bound(ty as int, kc as int, 8192, 32);
            lemma_mul_bound(tx as int, ks as int, 8192, 32);
            lemma_mul_bound(self.dx as int, kc as int, 8192, 32);
            lemma_mul_bound(self.dy as int, ks as int, 8192, 32);
            lemma_mul_bound(self.dy as int, kc as int, 8192, 32);
            lemma_mul_bound(self.dx as int, ks as int, 8192, 32);
        }
        let axr: i64 = tx * kc + ty * ks;
        let ayr: i64 = ty * kc - tx * ks;
        let dxr: i64 = self.dx * kc + self.dy * ks;
        let dyr: i64 = self.dy * kc - self.dx * ks;
        let a2: i128 = ellipse.a_squared as i128;
        let b2: i128 = ellipse.b_squared as i128;
        proof {
            lemma_sq_nonneg(dxr as int);
            lemma_sq_nonneg(dyr as int);
            lemma_sq_nonneg(kd as int);
            lemma_sq_nonneg(axr as int);
            lemma_sq_nonneg(ayr as int);
            lemma_mul_nonneg(dxr as int * dxr as int, b2 as int);
            lemma_mul_nonneg(dyr as int * dyr as int, a2 as int);
            lemma_mul_nonneg(axr as int * axr as int, b2 as int);
            lemma_mul_nonneg(ayr as int * ayr as int, a2 as int);
            lemma_mul_bound(dxr as int, dxr as int, 0x80000, 0x80000);
            lemma_mul_bound(dyr as int, dyr as int, 0x80000, 0x80000);
            lemma_mul_bound(axr as int, dxr as int, 0x80000, 0x80000);
            lemma_mul_bound(ayr as int, dyr as int, 0x80000, 0x80000);
            lemma_mul_bound(axr as int, axr as int, 0x80000, 0x80000);
            lemma_mul_bound(ayr as int, ayr as int, 0x80000, 0x80000);
            lemma_mul_bound(a2 as int, b2 as int, 0x1000000, 0x1000000);
            lemma_mul3_bound(dxr as int, dxr as int, b2 as int, 0x80000, 0x80000, 0x1000000);
            lemma_mul3_bound(dyr as int, dyr as int, a2 as int, 0x80000, 0x80000, 0x1000000);
            lemma_mul3_bound(axr as int, dxr as int, b2 as int, 0x80000, 0x80000, 0x1000000);
            lemma_mul3_bound(ayr as int, dyr as int, a2 as int, 0x80000, 0x80000, 0x1000000);
            lemma_mul3_bound(axr as int, axr as int, b2 as int, 0x80000, 0x80000, 0x1000000);
            lemma_mul3_bound(ayr as int, ayr as int, a2 as int, 0x80000, 0x80000, 0x1000000);
            lemma_mul_bound(kd as int, kd as int, 32, 32);
            lemma_mul3_bound(a2 as int, b2 as int, kd as int * kd as int, 0x1000000, 0x1000000, 0x400);
        }
        let qa: i128 = (dxr as i128) * (dxr as i128) * b2 + (dyr as i128) * (dyr as i128) * a2;
        let hb: i128 = (axr as i128) * (dxr as i128) * b2 + (ayr as i128) * (dyr as i128) * a2;
        let qc: i128 = (axr as i128) * (axr as i128) * b2 + (ayr as i128) * (ayr as i128) * a2
            - a2 * b2 * ((kd as i128) * (kd as i128));
        root_in_unit(qa, hb, qc)
    }
}

/// An axis-aligned rectangle: the two defining corners plus its four
/// boundary edges, precomputed once at construction and reused by every
/// overlap test.
#[derive(Clone, Copy, PartialEq, Eq, Structural, Debug)]
pub struct Rectangle {
    pub top_left: Point,
    pub bottom_right: Point,
    pub top: Line,
    pub right: Line,
    pub bottom: Line,
    pub left: Line,
}

/// `l` is the well-formed segment from `a` to `b`.
pub open spec fn is_edge(l: Line, a: Point, b: Point) -> bool {
    l.start == a && l.end == b && line_wf(l)
}

pub open spec fn rect_wf(r: Rectangle) -> bool {
    &&& point_ok(r.top_left)
    &&& point_ok(r.bottom_right)
    &&& r.top_left.x <= r.bottom_right.x
    &&& r.top_left.y <= r.bottom_right.y
    &&& is_edge(r.top, r.top_left, Point { x: r.bottom_right.x, y: r.top_left.y })
    &&& is_edge(r.right, Point { x: r.bottom_right.x, y: r.top_left.y }, r.bottom_right)
    &&& is_edge(r.bottom, Point { x: r.top_left.x, y: r.bottom_right.y }, r.bottom_right)
    &&& is_edge(r.left, r.top_left, Point { x: r.top_left.x, y: r.bottom_right.y })
}

/// A rectangle overlaps a shape when the shape's outline crosses one of the
/// rectangle's four boundary edges.  This is exact for outlines; a shape
/// strictly containing the rectangle (or strictly contained in a cell
/// without touching an edge) is deliberately not detected, since the engine
/// only ever draws outlines.
pub open spec fn rect_hits_line(r: Rectangle, l: Line) -> bool {
    ||| seg_crosses(r.top, l)
    ||| seg_crosses(r.right, l)
    ||| seg_crosses(r.bottom, l)
    ||| seg_crosses(r.left, l)
}

pub open spec fn rect_hits_circle(r: Rectangle, c: Circle) -> bool {
    ||| circle_hit(r.top, c)
    ||| circle_hit(r.right, c)
    ||| circle_hit(r.bottom, c)
    ||| circle_hit(r.left, c)
}

pub open spec fn rect_hits_ellipse(r: Rectangle, e: Ellipse) -> bool {
    ||| ellipse_hit(r.top, e)
    ||| ellipse_hit(r.right, e)
    ||| ellipse_hit(r.bottom, e)
    ||| ellipse_hit(r.left, e)
}

impl Rectangle {
    pub fn new(top_left: Point, bottom_right: Point) -> (r: Rectangle)
        requires
            point_ok(top_left),
            point_ok(bottom_right),
            top_left.x <= bottom_right.x,
            top_left.y <= bottom_right.y,
        ensures
            r.top_left == top_left,
            r.bottom_right == bottom_right,
            rect_wf(r),
    {
        let top = Line::new(top_left, Point::new(bottom_right.x, top_left.y));
        let right = Line::new(Point::new(bottom_right.x, top_left.y), bottom_right);
        let bottom = Line::new(Point::new(top_left.x, bottom_right.y), bottom_right);
        let left = Line::new(top_left, Point::new(top_left.x, bottom_right.y));
        Rectangle { top_left, bottom_right, top, right, bottom, left }
    }

    /// Does the segment cross any of the four boundary edges?
    pub fn overlaps_line(&self, line: &Line) -> (r: bool)
        requires
            rect_wf(*self),
            line_wf(*line),
        ensures
            r == rect_hits_line(*self, *line),
    {
        self.top.intersects_line(line) || self.right.intersects_line(line)
            || self.bottom.intersects_line(line) || self.left.intersects_line(line)
    }

    /// Does the circle's outline cross any of the four boundary edges?
    pub fn overlaps_circle(&self, circle: &Circle) -> (r: bool)
        requires
            rect_wf(*self),
            circle_wf(*circle),
        ensures
            r == rect_hits_circle(*self, *circle),
    {
        self.top.intersects_circle(circle) || self.right.intersects_circle(circle)
            || self.bottom.intersects_circle(circle) || self.left.intersects_circle(circle)
    }

    /// Does the ellipse's outline cross any of the four boundary edges?
    pub fn overlaps_ellipse(&self, ellipse: &Ellipse) -> (r: bool)
        requires
            rect_wf(*self),
            ellipse_wf(*ellipse),
        ensures
            r == rect_hits_ellipse(*self, *ellipse),
    {
        self.top.intersects_ellipse(ellipse) || self.right.intersects_ellipse(ellipse)
            || self.bottom.intersects_ellipse(ellipse) || self.left.intersects_ellipse(ellipse)
    }
}

} // verus!

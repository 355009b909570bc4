//! General properties of the intersection predicates and of the drawing
//! cycle, stated and proved over the same specifications that the
//! executable functions are verified against.

use vstd::prelude::*;
use crate::quadratic::{
    lemma_negative_ends_no_unit_root, lemma_interior_dip_has_unit_root, lemma_unit_root_scale,
};
use crate::shapes::{
    Point, Rotation, Line, Circle, Ellipse, line_wf, circle_wf, ellipse_wf, rot_wf, rot_compose,
    seg_crosses, cross_det, cross_lnum, cross_gnum, in_open_unit, circle_hb, circle_qc, circle_hit,
    rect_hits_line, Rectangle, rect_wf, rot_inv_x, rot_inv_y, ellipse_qa, ellipse_hb, ellipse_qc,
    far_start, ellipse_hit,
};
use crate::cell::{Cell, cell_index, rendered_line};
use crate::grid::{Grid, grid_wf, cell_at};
use crate::ROT_DEN_LIMIT;

verus! {

/// The cross product of the vectors `(ux, uy)` and `(vx, vy)`.
spec fn cross(ux: int, uy: int, vx: int, vy: int) -> int {
    ux * vy - uy * vx
}

/// Whether two segments properly cross does not depend on which of the two
/// is asked: both orders reduce to the same pair of strict parameter
/// conditions on the same intersection point.
pub proof fn lemma_seg_crosses_symmetric(l1: Line, l2: Line)
    requires
        line_wf(l1),
        line_wf(l2),
    ensures
        seg_crosses(l1, l2) == seg_crosses(l2, l1),
{
    let ux = l2.start.x - l1.start.x;
    let uy = l2.start.y - l1.start.y;
    let c1 = cross(ux, uy, l1.dx as int, l1.dy as int);
    let c2 = cross(ux, uy, l2.dx as int, l2.dy as int);
    let dd = cross(l1.dx as int, l1.dy as int, l2.dx as int, l2.dy as int);
    assert(cross_det(l1, l2) == dd);
    assert(cross_det(l2, l1) == -dd);
    assert(cross_lnum(l1, l2) == c2) by (nonlinear_arith)
        requires
            c2 == (l2.start.x - l1.start.x) * l2.dy - (l2.start.y - l1.start.y) * l2.dx,
            l2.end.x == l2.start.x + l2.dx,
            l2.end.y == l2.start.y + l2.dy,
            cross_lnum(l1, l2) == l2.dy * (l2.end.x - l1.start.x) - l2.dx * (l2.end.y - l1.start.y);
    assert(cross_gnum(l1, l2) == dd - c1) by (nonlinear_arith)
        requires
            c1 == (l2.start.x - l1.start.x) * l1.dy - (l2.start.y - l1.start.y) * l1.dx,
            dd == l1.dx * l2.dy - l1.dy * l2.dx,
            l2.end.x == l2.start.x + l2.dx,
            l2.end.y == l2.start.y + l2.dy,
            cross_gnum(l1, l2) == l1.dx * (l2.end.y - l1.start.y) - l1.dy * (l2.end.x - l1.start.x);
    assert(cross_lnum(l2, l1) == -c1) by (nonlinear_arith)
        requires
            c1 == (l2.start.x - l1.start.x) * l1.dy - (l2.start.y - l1.start.y) * l1.dx,
            l1.end.x == l1.start.x + l1.dx,
            l1.end.y == l1.start.y + l1.dy,
            cross_lnum(l2, l1) == l1.dy * (l1.end.x - l2.start.x) - l1.dx * (l1.end.y - l2.start.y);
    assert(cross_gnum(l2, l1) == c2 - dd) by (nonlinear_arith)
        requires
            c2 == (l2.start.x - l1.start.x) * l2.dy - (l2.start.y - l1.start.y) * l2.dx,
            dd == l1.dx * l2.dy - l1.dy * l2.dx,
            l1.end.x == l1.start.x + l1.dx,
            l1.end.y == l1.start.y + l1.dy,
            cross_gnum(l2, l1) == l2.dx * (l1.end.y - l2.start.y) - l2.dy * (l1.end.x - l2.start.x);
    assert(in_open_unit(dd - c1, dd) == in_open_unit(c1, dd)) by (nonlinear_arith);
    assert(in_open_unit(-c1, -dd) == in_open_unit(c1, dd)) by (nonlinear_arith);
    assert(in_open_unit(c2 - dd, -dd) == in_open_unit(c2, dd)) by (nonlinear_arith);
}

/// A proper crossing of two segments is witnessed by a point of both, so
/// their bounding boxes share at least one point: neither box lies strictly
/// to one side of the other, on either axis.
pub proof fn lemma_seg_crosses_boxes_overlap(a: Line, b: Line)
    requires
        line_wf(a),
        line_wf(b),
        seg_crosses(a, b),
    ensures
        !(a.start.x < b.start.x && a.start.x < b.end.x && a.end.x < b.start.x && a.end.x < b.end.x),
        !(a.start.x > b.start.x && a.start.x > b.end.x && a.end.x > b.start.x && a.end.x > b.end.x),
        !(a.start.y < b.start.y && a.start.y < b.end.y && a.end.y < b.start.y && a.end.y < b.end.y),
        !(a.start.y > b.start.y && a.start.y > b.end.y && a.end.y > b.start.y && a.end.y > b.end.y),
{
    let ux = b.start.x - a.start.x;
    let uy = b.start.y - a.start.y;
    let c1 = cross(ux, uy, a.dx as int, a.dy as int);
    let c2 = cross(ux, uy, b.dx as int, b.dy as int);
    let dd = cross_det(a, b);
    assert(cross_lnum(a, b) == c2) by (nonlinear_arith)
        requires
            c2 == (b.start.x - a.start.x) * b.dy - (b.start.y - a.start.y) * b.dx,
            b.end.x == b.start.x + b.dx,
            b.end.y == b.start.y + b.dy,
            cross_lnum(a, b) == b.dy * (b.end.x - a.start.x) - b.dx * (b.end.y - a.start.y);
    assert(cross_gnum(a, b) == dd - c1) by (nonlinear_arith)
        requires
            c1 == (b.start.x - a.start.x) * a.dy - (b.start.y - a.start.y) * a.dx,
            dd == a.dx * b.dy - a.dy * b.dx,
            b.end.x == b.start.x + b.dx,
            b.end.y == b.start.y + b.dy,
            cross_gnum(a, b) == a.dx * (b.end.y - a.start.y) - a.dy * (b.end.x - a.start.x);
    assert(in_open_unit(dd - c1, dd) == in_open_unit(c1, dd)) by (nonlinear_arith);
    // The crossing point p satisfies p = a.start + (c2/dd) * a.delta
    //                            and p = b.start + (c1/dd) * b.delta.
    // Scale by dd^2 > 0 to stay in integers.
    let pa = a.start.x * (dd * dd) + (c2 * dd) * a.dx;
    let pb = b.start.x * (dd * dd) + (c1 * dd) * b.dx;
    let corex = c2 * (a.dx as int) - c1 * (b.dx as int) - ux * dd;
    assert(corex == 0) by (nonlinear_arith)
        requires
            c1 == ux * a.dy - uy * a.dx,
            c2 == ux * b.dy - uy * b.dx,
            dd == a.dx * b.dy - a.dy * b.dx,
            corex == c2 * a.dx - c1 * b.dx - ux * dd;
    assert((c2 * dd) * a.dx == dd * (c2 * a.dx)) by (nonlinear_arith);
    assert((c1 * dd) * b.dx == dd * (c1 * b.dx)) by (nonlinear_arith);
    assert(b.start.x * (dd * dd) == a.start.x * (dd * dd) + dd * (ux * dd)) by (nonlinear_arith)
        requires b.start.x == a.start.x + ux;
    assert(dd * corex == dd * (c2 * a.dx) - dd * (c1 * b.dx) - dd * (ux * dd)) by (nonlinear_arith)
        requires corex == c2 * a.dx - c1 * b.dx - ux * dd;
    assert(pa - pb == dd * corex);
    let qa_ = a.start.y * (dd * dd) + (c2 * dd) * a.dy;
    let qb_ = b.start.y * (dd * dd) + (c1 * dd) * b.dy;
    let corey = c2 * (a.dy as int) - c1 * (b.dy as int) - uy * dd;
    assert(corey == 0) by (nonlinear_arith)
        requires
            c1 == ux * a.dy - uy * a.dx,
            c2 == ux * b.dy - uy * b.dx,
            dd == a.dx * b.dy - a.dy * b.dx,
            corey == c2 * a.dy - c1 * b.dy - uy * dd;
    assert((c2 * dd) * a.dy == dd * (c2 * a.dy)) by (nonlinear_arith);
    assert((c1 * dd) * b.dy == dd * (c1 * b.dy)) by (nonlinear_arith);
    assert(b.start.y * (dd * dd) == a.start.y * (dd * dd) + dd * (uy * dd)) by (nonlinear_arith)
        requires b.start.y == a.start.y + uy;
    assert(dd * corey == dd * (c2 * a.dy) - dd * (c1 * b.dy) - dd * (uy * dd)) by (nonlinear_arith)
        requires corey == c2 * a.dy - c1 * b.dy - uy * dd;
    assert(qa_ - qb_ == dd * corey);
    assert(dd * corex == 0 && dd * corey == 0) by (nonlinear_arith)
        requires corex == 0, corey == 0;
    // Along each segment the scaled point lies between the scaled endpoints.
    lemma_scaled_point_between(a.start.x as int, a.dx as int, c2, dd, pa);
    lemma_scaled_point_between(a.start.y as int, a.dy as int, c2, dd, qa_);
    lemma_scaled_point_between(b.start.x as int, b.dx as int, c1, dd, pb);
    lemma_scaled_point_between(b.start.y as int, b.dy as int, c1, dd, qb_);
    assert(dd * dd > 0) by (nonlinear_arith)
        requires dd != 0;
    if a.start.x < b.start.x && a.start.x < b.end.x && a.end.x < b.start.x && a.end.x < b.end.x {
        lemma_strict_mul_lt(amaxx(a), bminx(b), dd);
        assert(false);
    }
    if a.start.x > b.start.x && a.start.x > b.end.x && a.end.x > b.start.x && a.end.x > b.end.x {
        lemma_strict_mul_lt(amaxx(b), bminx(a), dd);
        assert(false);
    }
    if a.start.y < b.start.y && a.start.y < b.end.y && a.end.y < b.start.y && a.end.y < b.end.y {
        lemma_strict_mul_lt(amaxy(a), bminy(b), dd);
        assert(false);
    }
    if a.start.y > b.start.y && a.start.y > b.end.y && a.end.y > b.start.y && a.end.y > b.end.y {
        lemma_strict_mul_lt(amaxy(b), bminy(a), dd);
        assert(false);
    }
}

/// Larger of a segment's endpoint x coordinates.
spec fn amaxx(l: Line) -> int {
    if l.start.x >= l.end.x { l.start.x as int } else { l.end.x as int }
}

/// Smaller of a segment's endpoint x coordinates.
spec fn bminx(l: Line) -> int {
    if l.start.x <= l.end.x { l.start.x as int } else { l.end.x as int }
}

/// Larger of a segment's endpoint y coordinates.
spec fn amaxy(l: Line) -> int {
    if l.start.y >= l.end.y { l.start.y as int } else { l.end.y as int }
}

/// Smaller of a segment's endpoint y coordinates.
spec fn bminy(l: Line) -> int {
    if l.start.y <= l.end.y { l.start.y as int } else { l.end.y as int }
}

/// Strict inequality survives multiplication by the positive `dd * dd`.
proof fn lemma_strict_mul_lt(x: int, y: int, dd: int)
    by (nonlinear_arith)
    requires
        x < y,
        dd != 0,
    ensures
        x * (dd * dd) < y * (dd * dd),
{
}

/// If `0 < t*dd < dd*dd` then `s*dd^2 + (t*dd)*dv` lies between `s*dd^2`
/// and `(s+dv)*dd^2`, whichever order those are in.
proof fn lemma_scaled_point_between(s: int, dv: int, t: int, dd: int, p: int)
    by (nonlinear_arith)
    requires
        dd != 0,
        0 < t * dd < dd * dd,
        p == s * (dd * dd) + (t * dd) * dv,
    ensures
        p <= (if s >= s + dv { s } else { s + dv }) * (dd * dd),
        p >= (if s <= s + dv { s } else { s + dv }) * (dd * dd),
{
}

/// A segment whose bounding box shares no point with an axis-aligned
/// rectangle's bounding box does not overlap the rectangle: none of the
/// four boundary edges can cross it.
pub proof fn lemma_separated_box_misses_line(r: Rectangle, l: Line)
    requires
        rect_wf(r),
        line_wf(l),
        (r.bottom_right.x < l.start.x && r.bottom_right.x < l.end.x)
            || (l.start.x < r.top_left.x && l.end.x < r.top_left.x)
            || (r.bottom_right.y < l.start.y && r.bottom_right.y < l.end.y)
            || (l.start.y < r.top_left.y && l.end.y < r.top_left.y),
    ensures
        !rect_hits_line(r, l),
{
    if seg_crosses(r.top, l) {
        lemma_seg_crosses_boxes_overlap(r.top, l);
    }
    if seg_crosses(r.right, l) {
        lemma_seg_crosses_boxes_overlap(r.right, l);
    }
    if seg_crosses(r.bottom, l) {
        lemma_seg_crosses_boxes_overlap(r.bottom, l);
    }
    if seg_crosses(r.left, l) {
        lemma_seg_crosses_boxes_overlap(r.left, l);
    }
}

/// Squared distance from the point `(px, py)` to the point `(cx, cy)`.
pub open spec fn dist2(px: int, py: int, cx: int, cy: int) -> int {
    (px - cx) * (px - cx) + (py - cy) * (py - cy)
}

/// A segment with both endpoints strictly inside a circle never intersects
/// it: the crossing predicate detects boundary crossings only, and a chord
/// that stays inside never reaches the boundary.
pub proof fn lemma_inside_circle_never_hits(l: Line, c: Circle)
    requires
        line_wf(l),
        circle_wf(c),
        dist2(l.start.x as int, l.start.y as int, c.center.x as int, c.center.y as int)
            < c.r_squared,
        dist2(l.end.x as int, l.end.y as int, c.center.x as int, c.center.y as int)
            < c.r_squared,
    ensures
        !circle_hit(l, c),
{
    let qa = l.length_squared as int;
    let hb = circle_hb(l, c);
    let qc = circle_qc(l, c);
    assert(qa + 2 * hb + qc
        == dist2(l.end.x as int, l.end.y as int, c.center.x as int, c.center.y as int)
            - c.r_squared) by (nonlinear_arith)
        requires
            l.dx == l.end.x - l.start.x,
            l.dy == l.end.y - l.start.y,
            qa == l.dx * l.dx + l.dy * l.dy,
            hb == (l.start.x - c.center.x) * l.dx + (l.start.y - c.center.y) * l.dy,
            qc == (l.start.x - c.center.x) * (l.start.x - c.center.x)
                + (l.start.y - c.center.y) * (l.start.y - c.center.y) - c.r_squared,
            dist2(l.end.x as int, l.end.y as int, c.center.x as int, c.center.y as int)
                == (l.end.x - c.center.x) * (l.end.x - c.center.x)
                    + (l.end.y - c.center.y) * (l.end.y - c.center.y);
    lemma_negative_ends_no_unit_root(qa, hb, qc);
}

/// A segment whose endpoints lie strictly outside a circle but which passes
/// through a point strictly inside it (given as the rational `n / m` of the
/// way from start to end) crosses the circle's boundary, and the predicate
/// detects it.  A diameter-length segment through the center from outside
/// to outside is the canonical instance.
pub proof fn lemma_through_circle_hits(l: Line, c: Circle, n: int, m: int)
    requires
        line_wf(l),
        circle_wf(c),
        dist2(l.start.x as int, l.start.y as int, c.center.x as int, c.center.y as int)
            > c.r_squared,
        dist2(l.end.x as int, l.end.y as int, c.center.x as int, c.center.y as int)
            > c.r_squared,
        0 < n < m,
        // the point start + (n/m) * delta is strictly inside, scaled by m^2:
        (m * (l.start.x - c.center.x) + n * l.dx) * (m * (l.start.x - c.center.x) + n * l.dx)
            + (m * (l.start.y - c.center.y) + n * l.dy) * (m * (l.start.y - c.center.y) + n * l.dy)
            < m * m * c.r_squared,
    ensures
        circle_hit(l, c),
{
    let qa = l.length_squared as int;
    let hb = circle_hb(l, c);
    let qc = circle_qc(l, c);
    assert(qa + 2 * hb + qc
        == dist2(l.end.x as int, l.end.y as int, c.center.x as int, c.center.y as int)
            - c.r_squared) by (nonlinear_arith)
        requires
            l.dx == l.end.x - l.start.x,
            l.dy == l.end.y - l.start.y,
            qa == l.dx * l.dx + l.dy * l.dy,
            hb == (l.start.x - c.center.x) * l.dx + (l.start.y - c.center.y) * l.dy,
            qc == (l.start.x - c.center.x) * (l.start.x - c.center.x)
                + (l.start.y - c.center.y) * (l.start.y - c.center.y) - c.r_squared,
            dist2(l.end.x as int, l.end.y as int, c.center.x as int, c.center.y as int)
                == (l.end.x - c.center.x) * (l.end.x - c.center.x)
                    + (l.end.y - c.center.y) * (l.end.y - c.center.y);
    let ax = l.start.x - c.center.x;
    let ay = l.start.y - c.center.y;
    lemma_scaled_square(m, ax as int, n, l.dx as int);
    lemma_scaled_square(m, ay as int, n, l.dy as int);
    assert((n * n) * (l.dx * l.dx) + (n * n) * (l.dy * l.dy) == qa * n * n) by (nonlinear_arith)
        requires qa == l.dx * l.dx + l.dy * l.dy;
    assert(2 * ((n * m) * (ax * l.dx)) + 2 * ((n * m) * (ay * l.dy)) == 2 * hb * n * m)
        by (nonlinear_arith)
        requires hb == ax * l.dx + ay * l.dy;
    assert((m * m) * (ax * ax) + (m * m) * (ay * ay) - m * m * c.r_squared == qc * m * m)
        by (nonlinear_arith)
        requires qc == ax * ax + ay * ay - c.r_squared;
    assert(qa * n * n + 2 * hb * n * m + qc * m * m < 0);
    assert(qa > 0) by (nonlinear_arith)
        requires
            qa == l.dx * l.dx + l.dy * l.dy,
            qa * n * n + 2 * hb * n * m + qc * m * m < 0,
            hb == (l.start.x - c.center.x) * l.dx + (l.start.y - c.center.y) * l.dy,
            qc > 0,
            0 < n < m;
    lemma_interior_dip_has_unit_root(qa, hb, qc, n, m);
}

/// Expands `(m*a + n*d)^2` into the grouped products the quadratic
/// coefficients are built from.
proof fn lemma_scaled_square(m: int, a: int, n: int, d: int)
    ensures
        (m * a + n * d) * (m * a + n * d)
            == (m * m) * (a * a) + 2 * ((n * m) * (a * d)) + (n * n) * (d * d),
{
    let u = m * a;
    let v = n * d;
    assert((u + v) * (u + v) == u * u + 2 * (u * v) + v * v) by (nonlinear_arith);
    assert((m * a) * (m * a) == (m * m) * (a * a)) by (nonlinear_arith);
    assert((m * a) * (n * d) == (n * m) * (a * d)) by (nonlinear_arith);
    assert((n * d) * (n * d) == (n * n) * (d * d)) by (nonlinear_arith);
}

/// Drawing the same segment twice in one frame leaves exactly the state of
/// drawing it once: the touched flags are OR-accumulated, not counted.
pub proof fn lemma_line_draw_idempotent(g0: Grid, g1: Grid, g2: Grid, l: Line)
    requires
        g1.height == g0.height,
        g1.width == g0.width,
        forall|j: int, i: int| 0 <= j < g0.height && 0 <= i < g0.width
            ==> rendered_line(#[trigger] cell_at(g0, j, i), cell_at(g1, j, i), l),
        forall|j: int, i: int| 0 <= j < g1.height && 0 <= i < g1.width
            ==> rendered_line(#[trigger] cell_at(g1, j, i), cell_at(g2, j, i), l),
    ensures
        forall|j: int, i: int| 0 <= j < g0.height && 0 <= i < g0.width
            ==> rendered_line(#[trigger] cell_at(g0, j, i), cell_at(g2, j, i), l),
        forall|j: int, i: int| 0 <= j < g0.height && 0 <= i < g0.width ==> {
            let once = cell_at(g1, j, i);
            let twice = #[trigger] cell_at(g2, j, i);
            &&& twice.coords == once.coords
            &&& twice.quadrants == once.quadrants
            &&& forall|q: int| 0 <= q < 4 ==> twice.quads_filled[q] == once.quads_filled[q]
        },
{
    assert forall|j: int, i: int| 0 <= j < g0.height && 0 <= i < g0.width implies {
        let once = cell_at(g1, j, i);
        let twice = #[trigger] cell_at(g2, j, i);
        &&& twice.coords == once.coords
        &&& twice.quadrants == once.quadrants
        &&& forall|q: int| 0 <= q < 4 ==> twice.quads_filled[q] == once.quads_filled[q]
    } by {
        assert(rendered_line(cell_at(g0, j, i), cell_at(g1, j, i), l));
        assert(rendered_line(cell_at(g1, j, i), cell_at(g2, j, i), l));
    }
    assert forall|j: int, i: int| 0 <= j < g0.height && 0 <= i < g0.width
        implies rendered_line(#[trigger] cell_at(g0, j, i), cell_at(g2, j, i), l) by {
        assert(rendered_line(cell_at(g0, j, i), cell_at(g1, j, i), l));
        assert(rendered_line(cell_at(g1, j, i), cell_at(g2, j, i), l));
    }
}

/// After a clear, every cell's tileset index is 0: nothing drawn in an
/// earlier frame is visible in the next frame's output unless redrawn.
pub proof fn lemma_cleared_grid_blank(g: Grid)
    requires
        grid_wf(g),
        forall|j: int, i: int| 0 <= j < g.height && 0 <= i < g.width
            ==> forall|q: int| 0 <= q < 4 ==> !(#[trigger] cell_at(g, j, i)).quads_filled[q],
    ensures
        forall|j: int, i: int| 0 <= j < g.height && 0 <= i < g.width
            ==> cell_index(#[trigger] cell_at(g, j, i)) == 0,
{
}

/// `q` is the image of `p` under the rotation `rho` about the pivot `v`,
/// exactly: the scaled rotation equations hold with no rounding.
pub open spec fn rotates_to(rho: Rotation, v: Point, p: Point, q: Point) -> bool {
    &&& rho.den * (q.x - v.x) == rho.cos_n * (p.x - v.x) - rho.sin_n * (p.y - v.y)
    &&& rho.den * (q.y - v.y) == rho.sin_n * (p.x - v.x) + rho.cos_n * (p.y - v.y)
}

/// A rotation by `(c, s) / d` preserves dot products, scaled by
/// `c^2 + s^2`.
proof fn lemma_rot_dot(c: int, s: int, ax: int, ay: int, ux: int, uy: int)
    ensures
        (c * ax - s * ay) * (c * ux - s * uy) + (s * ax + c * ay) * (s * ux + c * uy)
            == (c * c + s * s) * (ax * ux + ay * uy),
{
    assert((c * ax - s * ay) * (c * ux - s * uy)
        == (c * ax) * (c * ux) - (c * ax) * (s * uy) - (s * ay) * (c * ux) + (s * ay) * (s * uy))
        by (nonlinear_arith);
    assert((s * ax + c * ay) * (s * ux + c * uy)
        == (s * ax) * (s * ux) + (s * ax) * (c * uy) + (c * ay) * (s * ux) + (c * ay) * (c * uy))
        by (nonlinear_arith);
    assert((c * ax) * (s * uy) == (s * ax) * (c * uy)) by (nonlinear_arith);
    assert((s * ay) * (c * ux) == (c * ay) * (s * ux)) by (nonlinear_arith);
    assert((c * ax) * (c * ux) + (s * ax) * (s * ux) == (c * c + s * s) * (ax * ux))
        by (nonlinear_arith);
    assert((s * ay) * (s * uy) + (c * ay) * (c * uy) == (c * c + s * s) * (ay * uy))
        by (nonlinear_arith);
    assert((c * c + s * s) * (ax * ux) + (c * c + s * s) * (ay * uy)
        == (c * c + s * s) * (ax * ux + ay * uy)) by (nonlinear_arith);
}

/// A rotation by `(c, s) / d` preserves the sum of squares, scaled by
/// `c^2 + s^2`: the dot product of a vector with itself.
proof fn lemma_norm_product(c: int, s: int, ax: int, ay: int)
    ensures
        (c * ax - s * ay) * (c * ax - s * ay) + (s * ax + c * ay) * (s * ax + c * ay)
            == (c * c + s * s) * (ax * ax + ay * ay),
{
    lemma_rot_dot(c, s, ax, ay, ax, ay);
}

/// Rotating a vector by `rho` and then reading it in a frame turned by
/// `rho` more gives the original frame reading, scaled by `c^2 + s^2`:
/// the two scaled dot products that the ellipse test is built from.
proof fn lemma_frame_compose(c: int, s: int, kc: int, ks: int, ax: int, ay: int)
    ensures
        (c * ax - s * ay) * (kc * c - ks * s) + (s * ax + c * ay) * (ks * c + kc * s)
            == (kc * ax + ks * ay) * (c * c + s * s),
        (s * ax + c * ay) * (kc * c - ks * s) - (c * ax - s * ay) * (ks * c + kc * s)
            == (kc * ay - ks * ax) * (c * c + s * s),
{
    let p = c * ax - s * ay;
    let q = s * ax + c * ay;
    assert(p * (kc * c - ks * s) == kc * (p * c) - ks * (p * s)) by (nonlinear_arith);
    assert(q * (ks * c + kc * s) == ks * (q * c) + kc * (q * s)) by (nonlinear_arith);
    assert(q * (kc * c - ks * s) == kc * (q * c) - ks * (q * s)) by (nonlinear_arith);
    assert(p * (ks * c + kc * s) == ks * (p * c) + kc * (p * s)) by (nonlinear_arith);
    assert(kc * (p * c + q * s) == kc * (p * c) + kc * (q * s)) by (nonlinear_arith);
    assert(ks * (q * c - p * s) == ks * (q * c) - ks * (p * s)) by (nonlinear_arith);
    assert(kc * (q * c - p * s) == kc * (q * c) - kc * (p * s)) by (nonlinear_arith);
    assert(ks * (p * c + q * s) == ks * (p * c) + ks * (q * s)) by (nonlinear_arith);
    assert(p * (kc * c - ks * s) + q * (ks * c + kc * s)
        == kc * (p * c + q * s) + ks * (q * c - p * s));
    assert(q * (kc * c - ks * s) - p * (ks * c + kc * s)
        == kc * (q * c - p * s) - ks * (p * c + q * s));
    assert(p * c + q * s == ax * (c * c + s * s)) by (nonlinear_arith)
        requires p == c * ax - s * ay, q == s * ax + c * ay;
    assert(q * c - p * s == ay * (c * c + s * s)) by (nonlinear_arith)
        requires p == c * ax - s * ay, q == s * ax + c * ay;
    assert(kc * (ax * (c * c + s * s)) + ks * (ay * (c * c + s * s))
        == (kc * ax + ks * ay) * (c * c + s * s)) by (nonlinear_arith);
    assert(kc * (ay * (c * c + s * s)) - ks * (ax * (c * c + s * s))
        == (kc * ay - ks * ax) * (c * c + s * s)) by (nonlinear_arith);
    assert(p * (kc * c - ks * s) + q * (ks * c + kc * s)
        == (kc * ax + ks * ay) * (c * c + s * s));
    assert(q * (kc * c - ks * s) - p * (ks * c + kc * s)
        == (kc * ay - ks * ax) * (c * c + s * s));
}

/// Cancelling a positive common factor from an equation.
proof fn lemma_cancel_factor(d: int, x: int, y: int)
    by (nonlinear_arith)
    requires
        d > 0,
        d * x == d * y,
    ensures
        x == y,
{
}

/// Rotation invariance: rotating an ellipse and a test segment by the same
/// exact rotation about the same pivot (the ellipse's keel turning with it)
/// does not change whether the segment intersects the ellipse.
pub proof fn lemma_ellipse_rotation_invariant(
    l: Line,
    e: Ellipse,
    l2: Line,
    e2: Ellipse,
    rho: Rotation,
    v: Point,
)
    requires
        line_wf(l),
        ellipse_wf(e),
        line_wf(l2),
        ellipse_wf(e2),
        rot_wf(rho),
        rotates_to(rho, v, l.start, l2.start),
        rotates_to(rho, v, l.end, l2.end),
        rotates_to(rho, v, e.center, e2.center),
        e2.a_squared == e.a_squared,
        e2.b_squared == e.b_squared,
        e2.max_axis == e.max_axis,
        e.keel.den * rho.den <= ROT_DEN_LIMIT,
        e2.keel == rot_compose(e.keel, rho),
    ensures
        ellipse_hit(l2, e2) == ellipse_hit(l, e),
{
    let c = rho.cos_n as int;
    let s = rho.sin_n as int;
    let d = rho.den as int;
    let kc = e.keel.cos_n as int;
    let ks = e.keel.sin_n as int;
    let kd = e.keel.den as int;
    let a2 = e.a_squared as int;
    let b2 = e.b_squared as int;
    let tx = l.start.x - e.center.x;
    let ty = l.start.y - e.center.y;
    let tx2 = l2.start.x - e2.center.x;
    let ty2 = l2.start.y - e2.center.y;
    let dx = l.dx as int;
    let dy = l.dy as int;
    let dx2 = l2.dx as int;
    let dy2 = l2.dy as int;
    // The relative coordinates rotate exactly: subtracting the two pivot
    // equations makes the pivot drop out.
    lemma_relative_rotation(c, s, d,
        l.start.x - v.x, l.start.y - v.y, l2.start.x - v.x, l2.start.y - v.y,
        e.center.x - v.x, e.center.y - v.y, e2.center.x - v.x, e2.center.y - v.y);
    assert(d * tx2 == c * tx - s * ty);
    assert(d * ty2 == s * tx + c * ty);
    lemma_relative_rotation(c, s, d,
        l.end.x - v.x, l.end.y - v.y, l2.end.x - v.x, l2.end.y - v.y,
        l.start.x - v.x, l.start.y - v.y, l2.start.x - v.x, l2.start.y - v.y);
    assert(d * dx2 == c * dx - s * dy);
    assert(d * dy2 == s * dx + c * dy);
    // The composed keel's components, as plain integers.
    proof_keel_fields(e.keel, rho, e2.keel);
    let kc2 = e2.keel.cos_n as int;
    let ks2 = e2.keel.sin_n as int;
    assert(kc2 == kc * c - ks * s);
    assert(ks2 == ks * c + kc * s);
    assert(e2.keel.den == kd * d);

    // Distances and lengths are preserved: the far-start pruning agrees.
    lemma_norm_product(c, s, tx, ty);
    assert((d * tx2) * (d * tx2) + (d * ty2) * (d * ty2)
        == (d * d) * (tx2 * tx2 + ty2 * ty2)) by (nonlinear_arith);
    assert(c * c + s * s == d * d);
    assert((d * tx2) * (d * tx2) + (d * ty2) * (d * ty2)
        == (c * tx - s * ty) * (c * tx - s * ty) + (s * tx + c * ty) * (s * tx + c * ty));
    assert((d * d) * (tx2 * tx2 + ty2 * ty2) == (d * d) * (tx * tx + ty * ty));
    assert(d * d > 0) by (nonlinear_arith)
        requires d >= 1;
    lemma_cancel_factor(d * d, tx2 * tx2 + ty2 * ty2, tx * tx + ty * ty);
    lemma_norm_product(c, s, dx, dy);
    assert((d * dx2) * (d * dx2) + (d * dy2) * (d * dy2)
        == (d * d) * (dx2 * dx2 + dy2 * dy2)) by (nonlinear_arith);
    assert((d * dx2) * (d * dx2) + (d * dy2) * (d * dy2)
        == (c * dx - s * dy) * (c * dx - s * dy) + (s * dx + c * dy) * (s * dx + c * dy));
    assert((d * d) * (dx2 * dx2 + dy2 * dy2) == (d * d) * (dx * dx + dy * dy));
    lemma_cancel_factor(d * d, dx2 * dx2 + dy2 * dy2, dx * dx + dy * dy);
    assert(l2.length_squared == l.length_squared);
    assert(far_start(l2, e2) == far_start(l, e));

    // The rotated-frame readings scale by d.
    let ddx = rot_inv_x(e.keel, dx, dy);
    let ddy = rot_inv_y(e.keel, dx, dy);
    let aax = rot_inv_x(e.keel, tx, ty);
    let aay = rot_inv_y(e.keel, tx, ty);
    let ddx2 = rot_inv_x(e2.keel, dx2, dy2);
    let ddy2 = rot_inv_y(e2.keel, dx2, dy2);
    let aax2 = rot_inv_x(e2.keel, tx2, ty2);
    let aay2 = rot_inv_y(e2.keel, tx2, ty2);
    lemma_frame_compose(c, s, kc, ks, dx, dy);
    lemma_frame_compose(c, s, kc, ks, tx, ty);
    assert(d * ddx2 == (d * dx2) * kc2 + (d * dy2) * ks2) by (nonlinear_arith)
        requires ddx2 == dx2 * kc2 + dy2 * ks2;
    assert(d * ddy2 == (d * dy2) * kc2 - (d * dx2) * ks2) by (nonlinear_arith)
        requires ddy2 == dy2 * kc2 - dx2 * ks2;
    assert(d * aax2 == (d * tx2) * kc2 + (d * ty2) * ks2) by (nonlinear_arith)
        requires aax2 == tx2 * kc2 + ty2 * ks2;
    assert(d * aay2 == (d * ty2) * kc2 - (d * tx2) * ks2) by (nonlinear_arith)
        requires aay2 == ty2 * kc2 - tx2 * ks2;
    assert(d * ddx2 == (c * dx - s * dy) * (kc * c - ks * s)
        + (s * dx + c * dy) * (ks * c + kc * s));
    assert(d * ddx2 == (kc * dx + ks * dy) * (c * c + s * s));
    assert((kc * dx + ks * dy) * (c * c + s * s) == ddx * (d * d)) by (nonlinear_arith)
        requires ddx == dx * kc + dy * ks, c * c + s * s == d * d;
    assert(d * ddy2 == (s * dx + c * dy) * (kc * c - ks * s)
        - (c * dx - s * dy) * (ks * c + kc * s));
    assert(d * ddy2 == (kc * dy - ks * dx) * (c * c + s * s));
    assert((kc * dy - ks * dx) * (c * c + s * s) == ddy * (d * d)) by (nonlinear_arith)
        requires ddy == dy * kc - dx * ks, c * c + s * s == d * d;
    assert(d * aax2 == (c * tx - s * ty) * (kc * c - ks * s)
        + (s * tx + c * ty) * (ks * c + kc * s));
    assert(d * aax2 == (kc * tx + ks * ty) * (c * c + s * s));
    assert((kc * tx + ks * ty) * (c * c + s * s) == aax * (d * d)) by (nonlinear_arith)
        requires aax == tx * kc + ty * ks, c * c + s * s == d * d;
    assert(d * aay2 == (s * tx + c * ty) * (kc * c - ks * s)
        - (c * tx - s * ty) * (ks * c + kc * s));
    assert(d * aay2 == (kc * ty - ks * tx) * (c * c + s * s));
    assert((kc * ty - ks * tx) * (c * c + s * s) == aay * (d * d)) by (nonlinear_arith)
        requires aay == ty * kc - tx * ks, c * c + s * s == d * d;
    assert(ddx * (d * d) == d * (d * ddx)) by (nonlinear_arith);
    assert(ddy * (d * d) == d * (d * ddy)) by (nonlinear_arith);
    assert(aax * (d * d) == d * (d * aax)) by (nonlinear_arith);
    assert(aay * (d * d) == d * (d * aay)) by (nonlinear_arith);
    lemma_cancel_factor(d, ddx2, d * ddx);
    lemma_cancel_factor(d, ddy2, d * ddy);
    lemma_cancel_factor(d, aax2, d * aax);
    lemma_cancel_factor(d, aay2, d * aay);

    // The quadratic's coefficients all scale by d^2, term by term.
    lemma_scaled_product_term(d, ddx, ddx, b2);
    lemma_scaled_product_term(d, ddy, ddy, a2);
    lemma_scaled_product_term(d, aax, ddx, b2);
    lemma_scaled_product_term(d, aay, ddy, a2);
    lemma_scaled_product_term(d, aax, aax, b2);
    lemma_scaled_product_term(d, aay, aay, a2);
    assert(a2 * b2 * ((kd * d) * (kd * d)) == (d * d) * (a2 * b2 * (kd * kd))) by (nonlinear_arith);
    assert(ellipse_qa(l2, e2) == ddx2 * ddx2 * b2 + ddy2 * ddy2 * a2);
    assert(ellipse_qa(l, e) == ddx * ddx * b2 + ddy * ddy * a2);
    assert(ellipse_qa(l2, e2) == (d * d) * (ddx * ddx * b2) + (d * d) * (ddy * ddy * a2));
    assert((d * d) * (ddx * ddx * b2) + (d * d) * (ddy * ddy * a2)
        == (d * d) * (ddx * ddx * b2 + ddy * ddy * a2)) by (nonlinear_arith);
    assert(ellipse_qa(l2, e2) == (d * d) * ellipse_qa(l, e));
    assert(ellipse_hb(l2, e2) == aax2 * ddx2 * b2 + aay2 * ddy2 * a2);
    assert(ellipse_hb(l, e) == aax * ddx * b2 + aay * ddy * a2);
    assert(ellipse_hb(l2, e2) == (d * d) * (aax * ddx * b2) + (d * d) * (aay * ddy * a2));
    assert((d * d) * (aax * ddx * b2) + (d * d) * (aay * ddy * a2)
        == (d * d) * (aax * ddx * b2 + aay * ddy * a2)) by (nonlinear_arith);
    assert(ellipse_hb(l2, e2) == (d * d) * ellipse_hb(l, e));
    assert(ellipse_qc(l2, e2) == aax2 * aax2 * b2 + aay2 * aay2 * a2
        - a2 * b2 * ((kd * d) * (kd * d)));
    assert(ellipse_qc(l, e) == aax * aax * b2 + aay * aay * a2 - a2 * b2 * (kd * kd));
    assert(ellipse_qc(l2, e2) == (d * d) * (aax * aax * b2) + (d * d) * (aay * aay * a2)
        - (d * d) * (a2 * b2 * (kd * kd)));
    assert((d * d) * (aax * aax * b2) + (d * d) * (aay * aay * a2)
        - (d * d) * (a2 * b2 * (kd * kd))
        == (d * d) * (aax * aax * b2 + aay * aay * a2 - a2 * b2 * (kd * kd)))
        by (nonlinear_arith);
    assert(ellipse_qc(l2, e2) == (d * d) * ellipse_qc(l, e));
    lemma_unit_root_scale(ellipse_qa(l, e), ellipse_hb(l, e), ellipse_qc(l, e), d * d);
}

/// If two points rotate by `(c, s) / d` (relative to a shared pivot), so
/// does their difference vector.
proof fn lemma_relative_rotation(
    c: int, s: int, d: int,
    px: int, py: int, qx: int, qy: int,
    rx: int, ry: int, wx: int, wy: int,
)
    by (nonlinear_arith)
    requires
        d * qx == c * px - s * py,
        d * qy == s * px + c * py,
        d * wx == c * rx - s * ry,
        d * wy == s * rx + c * ry,
    ensures
        d * (qx - wx) == c * (px - rx) - s * (py - ry),
        d * (qy - wy) == s * (px - rx) + c * (py - ry),
{
}

/// A product of two readings and a squared-axis factor scales by `d^2` when
/// both readings scale by `d`.
proof fn lemma_scaled_product_term(d: int, u: int, w: int, k: int)
    by (nonlinear_arith)
    ensures
        (d * u) * (d * w) * k == (d * d) * (u * w * k),
{
}

/// The composed keel's integer components are within `i64` range, so the
/// casts in [`rot_compose`] are exact.
proof fn proof_keel_fields(k: Rotation, rho: Rotation, k2: Rotation)
    requires
        rot_wf(k),
        rot_wf(rho),
        k.den * rho.den <= ROT_DEN_LIMIT,
        k2 == rot_compose(k, rho),
    ensures
        k2.cos_n == k.cos_n * rho.cos_n - k.sin_n * rho.sin_n,
        k2.sin_n == k.sin_n * rho.cos_n + k.cos_n * rho.sin_n,
        k2.den == k.den * rho.den,
{
    crate::quadratic::lemma_mul_bound(k.cos_n as int, rho.cos_n as int, ROT_DEN_LIMIT as int, ROT_DEN_LIMIT as int);
    crate::quadratic::lemma_mul_bound(k.sin_n as int, rho.sin_n as int, ROT_DEN_LIMIT as int, ROT_DEN_LIMIT as int);
    crate::quadratic::lemma_mul_bound(k.sin_n as int, rho.cos_n as int, ROT_DEN_LIMIT as int, ROT_DEN_LIMIT as int);
    crate::quadratic::lemma_mul_bound(k.cos_n as int, rho.sin_n as int, ROT_DEN_LIMIT as int, ROT_DEN_LIMIT as int);
    crate::quadratic::lemma_mul_bound(k.den as int, rho.den as int, ROT_DEN_LIMIT as int, ROT_DEN_LIMIT as int);
}

/// Rotation invariance of the circle test: rotating a segment and a circle
/// by the same exact rotation about the same pivot leaves the crossing
/// quadratic's coefficients unchanged, so the intersection result is
/// preserved.  On a square grid this is what makes a frame with a circle
/// drawn at the canvas center symmetric under quarter turns, up to the
/// discretization of the (slightly staggered) cell layout.
pub proof fn lemma_circle_rotation_invariant(
    l: Line,
    c: Circle,
    l2: Line,
    c2: Circle,
    rho: Rotation,
    v: Point,
)
    requires
        line_wf(l),
        circle_wf(c),
        line_wf(l2),
        circle_wf(c2),
        rot_wf(rho),
        rotates_to(rho, v, l.start, l2.start),
        rotates_to(rho, v, l.end, l2.end),
        rotates_to(rho, v, c.center, c2.center),
        c2.r_squared == c.r_squared,
    ensures
        circle_hit(l2, c2) == circle_hit(l, c),
{
    let cc = rho.cos_n as int;
    let ss = rho.sin_n as int;
    let d = rho.den as int;
    let ax = l.start.x - c.center.x;
    let ay = l.start.y - c.center.y;
    let ax2 = l2.start.x - c2.center.x;
    let ay2 = l2.start.y - c2.center.y;
    let dx = l.dx as int;
    let dy = l.dy as int;
    let dx2 = l2.dx as int;
    let dy2 = l2.dy as int;
    lemma_relative_rotation(cc, ss, d,
        l.start.x - v.x, l.start.y - v.y, l2.start.x - v.x, l2.start.y - v.y,
        c.center.x - v.x, c.center.y - v.y, c2.center.x - v.x, c2.center.y - v.y);
    assert(d * ax2 == cc * ax - ss * ay);
    assert(d * ay2 == ss * ax + cc * ay);
    lemma_relative_rotation(cc, ss, d,
        l.end.x - v.x, l.end.y - v.y, l2.end.x - v.x, l2.end.y - v.y,
        l.start.x - v.x, l.start.y - v.y, l2.start.x - v.x, l2.start.y - v.y);
    assert(d * dx2 == cc * dx - ss * dy);
    assert(d * dy2 == ss * dx + cc * dy);
    assert(d * d > 0) by (nonlinear_arith)
        requires d >= 1;
    assert(cc * cc + ss * ss == d * d);
    // the linear coefficient is a dot product, which the rotation preserves
    lemma_rot_dot(cc, ss, ax, ay, dx, dy);
    assert((d * ax2) * (d * dx2) + (d * ay2) * (d * dy2)
        == (d * d) * (ax2 * dx2 + ay2 * dy2)) by (nonlinear_arith);
    assert((d * ax2) * (d * dx2) + (d * ay2) * (d * dy2)
        == (cc * ax - ss * ay) * (cc * dx - ss * dy) + (ss * ax + cc * ay) * (ss * dx + cc * dy));
    assert((d * d) * (ax2 * dx2 + ay2 * dy2) == (d * d) * (ax * dx + ay * dy));
    lemma_cancel_factor(d * d, ax2 * dx2 + ay2 * dy2, ax * dx + ay * dy);
    // the constant and leading coefficients are norms, also preserved
    lemma_norm_product(cc, ss, ax, ay);
    assert((d * ax2) * (d * ax2) + (d * ay2) * (d * ay2)
        == (d * d) * (ax2 * ax2 + ay2 * ay2)) by (nonlinear_arith);
    assert((d * ax2) * (d * ax2) + (d * ay2) * (d * ay2)
        == (cc * ax - ss * ay) * (cc * ax - ss * ay) + (ss * ax + cc * ay) * (ss * ax + cc * ay));
    assert((d * d) * (ax2 * ax2 + ay2 * ay2) == (d * d) * (ax * ax + ay * ay));
    lemma_cancel_factor(d * d, ax2 * ax2 + ay2 * ay2, ax * ax + ay * ay);
    lemma_norm_product(cc, ss, dx, dy);
    assert((d * dx2) * (d * dx2) + (d * dy2) * (d * dy2)
        == (d * d) * (dx2 * dx2 + dy2 * dy2)) by (nonlinear_arith);
    assert((d * dx2) * (d * dx2) + (d * dy2) * (d * dy2)
        == (cc * dx - ss * dy) * (cc * dx - ss * dy) + (ss * dx + cc * dy) * (ss * dx + cc * dy));
    assert((d * d) * (dx2 * dx2 + dy2 * dy2) == (d * d) * (dx * dx + dy * dy));
    lemma_cancel_factor(d * d, dx2 * dx2 + dy2 * dy2, dx * dx + dy * dy);
    assert(l2.length_squared == l.length_squared);
    assert(circle_hb(l2, c2) == circle_hb(l, c));
    assert(circle_qc(l2, c2) == circle_qc(l, c));
}

/// Composing rotations does not depend on the order: the cosine and sine
/// of a sum of angles are symmetric in the two summands.
pub proof fn lemma_rot_compose_commutative(a: Rotation, b: Rotation)
    ensures
        rot_compose(a, b) == rot_compose(b, a),
{
}

/// Rotating by `r1` and then by `r2` about the same pivot is one rotation
/// by their composition: composing rotations adds their angles.
pub proof fn lemma_rotates_to_compose(
    r1: Rotation,
    r2: Rotation,
    v: Point,
    p: Point,
    q: Point,
    w: Point,
)
    requires
        rot_wf(r1),
        rot_wf(r2),
        r1.den * r2.den <= ROT_DEN_LIMIT,
        rotates_to(r1, v, p, q),
        rotates_to(r2, v, q, w),
    ensures
        rotates_to(rot_compose(r1, r2), v, p, w),
{
    proof_keel_fields(r1, r2, rot_compose(r1, r2));
    let c1 = r1.cos_n as int;
    let s1 = r1.sin_n as int;
    let d1 = r1.den as int;
    let c2 = r2.cos_n as int;
    let s2 = r2.sin_n as int;
    let d2 = r2.den as int;
    let px = p.x - v.x;
    let py = p.y - v.y;
    let qx = q.x - v.x;
    let qy = q.y - v.y;
    let wx = w.x - v.x;
    let wy = w.y - v.y;
    assert((d1 * d2) * wx == d1 * (d2 * wx)) by (nonlinear_arith);
    assert((d1 * d2) * wy == d1 * (d2 * wy)) by (nonlinear_arith);
    assert(d1 * (d2 * wx) == c2 * (d1 * qx) - s2 * (d1 * qy)) by (nonlinear_arith)
        requires d2 * wx == c2 * qx - s2 * qy;
    assert(d1 * (d2 * wy) == s2 * (d1 * qx) + c2 * (d1 * qy)) by (nonlinear_arith)
        requires d2 * wy == s2 * qx + c2 * qy;
    assert(c2 * (d1 * qx) - s2 * (d1 * qy) == c2 * (c1 * px - s1 * py) - s2 * (s1 * px + c1 * py));
    assert(s2 * (d1 * qx) + c2 * (d1 * qy) == s2 * (c1 * px - s1 * py) + c2 * (s1 * px + c1 * py));
    assert(c2 * (c1 * px - s1 * py) == (c1 * c2) * px - (s1 * c2) * py) by (nonlinear_arith);
    assert(s2 * (s1 * px + c1 * py) == (s1 * s2) * px + (c1 * s2) * py) by (nonlinear_arith);
    assert(s2 * (c1 * px - s1 * py) == (c1 * s2) * px - (s1 * s2) * py) by (nonlinear_arith);
    assert(c2 * (s1 * px + c1 * py) == (s1 * c2) * px + (c1 * c2) * py) by (nonlinear_arith);
    assert((c1 * c2) * px - (s1 * s2) * px == (c1 * c2 - s1 * s2) * px) by (nonlinear_arith);
    assert((s1 * c2) * py + (c1 * s2) * py == (s1 * c2 + c1 * s2) * py) by (nonlinear_arith);
    assert((c1 * s2) * px + (s1 * c2) * px == (s1 * c2 + c1 * s2) * px) by (nonlinear_arith);
    assert((c1 * c2) * py - (s1 * s2) * py == (c1 * c2 - s1 * s2) * py) by (nonlinear_arith);
    assert(c2 * (c1 * px - s1 * py) - s2 * (s1 * px + c1 * py)
        == (c1 * c2 - s1 * s2) * px - (s1 * c2 + c1 * s2) * py);
    assert(s2 * (c1 * px - s1 * py) + c2 * (s1 * px + c1 * py)
        == (s1 * c2 + c1 * s2) * px + (c1 * c2 - s1 * s2) * py);
}

} // verus!

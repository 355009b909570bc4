//! Ready-made drawings: the pieces of the bundled demo animation, each
//! drawing a fixed family of shapes parameterized by precomputed integer
//! trigonometric values (the frame loop supplies those, since the engine
//! itself works in exact integers only).
//!
//! Each drawing's contract pins the resulting cell state exactly: every
//! quadrant flag ends up as its previous value OR-ed with "one of the
//! drawing's shapes marks this quadrant".

use vstd::prelude::*;
use vstd::arithmetic::div_mod::lemma_div_basics;
use crate::shapes::{
    Point, Rotation, Line, Circle, rect_hits_line, rect_hits_circle, spec_line, spec_circle,
};
use crate::cell::{Cell, rendered_line, rendered_circle};
use crate::grid::{Grid, Transform, grid_wf, same_frame, cell_at, tf_pt};
use crate::CANVAS;

verus! {

/// The identity transform value (no rotation, no offset).
pub open spec fn identity_tf() -> Transform {
    Transform { rot: Rotation { cos_n: 1i64, sin_n: 0i64, den: 1i64 }, x: 0i64, y: 0i64 }
}

/// Under the identity transform a draw coordinate maps to itself.
pub proof fn lemma_identity_tf_pt(x: int, y: int)
    requires
        -0x8000_0000 <= x <= 0x8000_0000,
        -0x8000_0000 <= y <= 0x8000_0000,
    ensures
        tf_pt(identity_tf(), x, y) == (Point { x: x as i64, y: y as i64 }),
{
    lemma_div_basics(x * 1 - y * 0 + 1int / 2);
    lemma_div_basics(x * 1 + y * 0 + 1int / 2);
    assert(x * 1 - y * 0 == x) by (nonlinear_arith);
    assert(x * 1 + y * 0 == x) by (nonlinear_arith);
    assert(y * 1 - x * 0 == y) by (nonlinear_arith);
    assert(y * 1 + x * 0 == y) by (nonlinear_arith);
    lemma_div_basics(x + 1int / 2);
    lemma_div_basics(y + 1int / 2);
}

/// The segment `l` marks quadrant `q` of a cell with `c`'s geometry: it
/// crosses both the cell's boundary and that quadrant's boundary.
pub open spec fn line_marks(c: Cell, q: int, l: Line) -> bool {
    rect_hits_line(c.coords, l) && rect_hits_line(c.quadrants[q], l)
}

/// Some segment among the first `n` of `ls` marks quadrant `q`.
pub open spec fn lines_mark_upto(ls: Seq<Line>, c: Cell, q: int, n: int) -> bool
    decreases n,
{
    if n <= 0 {
        false
    } else {
        lines_mark_upto(ls, c, q, n - 1) || line_marks(c, q, ls[n - 1])
    }
}

/// `after` is `before` with the first `n` segments of `ls` drawn: geometry
/// untouched, and each quadrant flag OR-ed with "some of those segments
/// marks it".
pub open spec fn lines_rendered_upto(before: Cell, after: Cell, ls: Seq<Line>, n: int) -> bool {
    &&& after.coords == before.coords
    &&& after.quadrants == before.quadrants
    &&& forall|q: int| 0 <= q < 4 ==> after.quads_filled[q]
        == (before.quads_filled[q] || lines_mark_upto(ls, before, q, n))
}

/// Drawing one more segment extends [`lines_rendered_upto`] by one.
pub proof fn lemma_lines_step(a: Cell, b: Cell, c: Cell, ls: Seq<Line>, k: int)
    requires
        0 <= k < ls.len(),
        lines_rendered_upto(a, b, ls, k),
        rendered_line(b, c, ls[k]),
    ensures
        lines_rendered_upto(a, c, ls, k + 1),
{
}

/// Grid-wide form of [`lines_rendered_upto`]: every cell of `b` is the
/// matching cell of `a` with the first `n` segments drawn.
pub open spec fn grid_lines_upto(a: Grid, b: Grid, ls: Seq<Line>, n: int) -> bool {
    forall|j: int, i: int| 0 <= j < a.height && 0 <= i < a.width
        ==> lines_rendered_upto(#[trigger] cell_at(a, j, i), cell_at(b, j, i), ls, n)
}

proof fn lemma_grid_lines_base(a: Grid, ls: Seq<Line>)
    ensures
        grid_lines_upto(a, a, ls, 0),
{
}

proof fn lemma_grid_lines_step(a: Grid, b: Grid, c: Grid, ls: Seq<Line>, k: int)
    requires
        0 <= k < ls.len(),
        b.height == a.height && b.width == a.width,
        grid_lines_upto(a, b, ls, k),
        forall|j: int, i: int| 0 <= j < b.height && 0 <= i < b.width
            ==> rendered_line(#[trigger] cell_at(b, j, i), cell_at(c, j, i), ls[k]),
    ensures
        grid_lines_upto(a, c, ls, k + 1),
{
    assert forall|j: int, i: int| 0 <= j < a.height && 0 <= i < a.width
        implies lines_rendered_upto(#[trigger] cell_at(a, j, i), cell_at(c, j, i), ls, k + 1) by {
        lemma_lines_step(cell_at(a, j, i), cell_at(b, j, i), cell_at(c, j, i), ls, k);
    }
}

/// The circle `s` marks quadrant `q` of a cell with `c`'s geometry.
pub open spec fn circle_marks(c: Cell, q: int, s: Circle) -> bool {
    rect_hits_circle(c.coords, s) && rect_hits_circle(c.quadrants[q], s)
}

/// Some circle among the first `n` of `cs` marks quadrant `q`.
pub open spec fn circles_mark_upto(cs: Seq<Circle>, c: Cell, q: int, n: int) -> bool
    decreases n,
{
    if n <= 0 {
        false
    } else {
        circles_mark_upto(cs, c, q, n - 1) || circle_marks(c, q, cs[n - 1])
    }
}

/// `after` is `before` with the first `n` circles of `cs` drawn.
pub open spec fn circles_rendered_upto(before: Cell, after: Cell, cs: Seq<Circle>, n: int) -> bool {
    &&& after.coords == before.coords
    &&& after.quadrants == before.quadrants
    &&& forall|q: int| 0 <= q < 4 ==> after.quads_filled[q]
        == (before.quads_filled[q] || circles_mark_upto(cs, before, q, n))
}

pub proof fn lemma_circles_step(a: Cell, b: Cell, c: Cell, cs: Seq<Circle>, k: int)
    requires
        0 <= k < cs.len(),
        circles_rendered_upto(a, b, cs, k),
        rendered_circle(b, c, cs[k]),
    ensures
        circles_rendered_upto(a, c, cs, k + 1),
{
}

/// Grid-wide form of [`circles_rendered_upto`].
pub open spec fn grid_circles_upto(a: Grid, b: Grid, cs: Seq<Circle>, n: int) -> bool {
    forall|j: int, i: int| 0 <= j < a.height && 0 <= i < a.width
        ==> circles_rendered_upto(#[trigger] cell_at(a, j, i), cell_at(b, j, i), cs, n)
}

proof fn lemma_grid_circles_step(a: Grid, b: Grid, c: Grid, cs: Seq<Circle>, k: int)
    requires
        0 <= k < cs.len(),
        b.height == a.height && b.width == a.width,
        grid_circles_upto(a, b, cs, k),
        forall|j: int, i: int| 0 <= j < b.height && 0 <= i < b.width
            ==> rendered_circle(#[trigger] cell_at(b, j, i), cell_at(c, j, i), cs[k]),
    ensures
        grid_circles_upto(a, c, cs, k + 1),
{
    assert forall|j: int, i: int| 0 <= j < a.height && 0 <= i < a.width
        implies circles_rendered_upto(#[trigger] cell_at(a, j, i), cell_at(c, j, i), cs, k + 1) by {
        lemma_circles_step(cell_at(a, j, i), cell_at(b, j, i), cell_at(c, j, i), cs, k);
    }
}

/// The four canvas-edge segments drawn by [`borders`].
pub open spec fn border_lines() -> Seq<Line> {
    seq![
        spec_line(Point { x: 0i64, y: 0i64 }, Point { x: CANVAS, y: 0i64 }),
        spec_line(Point { x: CANVAS, y: 0i64 }, Point { x: CANVAS, y: CANVAS }),
        spec_line(Point { x: CANVAS, y: CANVAS }, Point { x: 0i64, y: CANVAS }),
        spec_line(Point { x: 0i64, y: 0i64 }, Point { x: 0i64, y: CANVAS }),
    ]
}

/// Draws the four edges of the logical canvas.
pub fn borders(grid: &mut Grid)
    requires
        grid_wf(*old(grid)),
        old(grid).tf == identity_tf(),
    ensures
        grid_wf(*final(grid)),
        same_frame(*old(grid), *final(grid)),
        final(grid).tf == old(grid).tf,
        grid_lines_upto(*old(grid), *final(grid), border_lines(), 4),
{
    let ghost ls = border_lines();
    let ghost g0 = *grid;
    proof {
        lemma_grid_lines_base(g0, ls);
        lemma_identity_tf_pt(0, 0);
        lemma_identity_tf_pt(CANVAS as int, 0);
        lemma_identity_tf_pt(CANVAS as int, CANVAS as int);
        lemma_identity_tf_pt(0, CANVAS as int);
    }
    grid.line(0, 0, CANVAS, 0);
    proof { lemma_grid_lines_step(g0, g0, *grid, ls, 0); }
    let ghost g1 = *grid;
    grid.line(CANVAS, 0, CANVAS, CANVAS);
    proof { lemma_grid_lines_step(g0, g1, *grid, ls, 1); }
    let ghost g2 = *grid;
    grid.line(CANVAS, CANVAS, 0, CANVAS);
    proof { lemma_grid_lines_step(g0, g2, *grid, ls, 2); }
    let ghost g3 = *grid;
    grid.line(0, 0, 0, CANVAS);
    proof { lemma_grid_lines_step(g0, g3, *grid, ls, 3); }
}

/// Draws the segment from `(x1 + offset, y1)` to `(x2 + offset, y2)`: a
/// segment slid along the x axis.
pub fn offset_x_line(grid: &mut Grid, offset: i64, x1: i64, y1: i64, x2: i64, y2: i64)
    requires
        grid_wf(*old(grid)),
        old(grid).tf == identity_tf(),
        -4090 <= x1 + offset <= 4090,
        -4090 <= x2 + offset <= 4090,
        -4090 <= y1 <= 4090,
        -4090 <= y2 <= 4090,
    ensures
        grid_wf(*final(grid)),
        same_frame(*old(grid), *final(grid)),
        final(grid).tf == old(grid).tf,
        forall|j: int, i: int| 0 <= j < old(grid).height && 0 <= i < old(grid).width
            ==> rendered_line(
                #[trigger] cell_at(*old(grid), j, i),
                cell_at(*final(grid), j, i),
                spec_line(
                    Point { x: (x1 + offset) as i64, y: y1 },
                    Point { x: (x2 + offset) as i64, y: y2 },
                ),
            ),
{
    proof {
        lemma_identity_tf_pt(x1 + offset, y1 as int);
        lemma_identity_tf_pt(x2 + offset, y2 as int);
    }
    grid.line(x1 + offset, y1, x2 + offset, y2);
}

/// The sixteen segments of the sliding-angles drawing: a horizontal bar and
/// a fan of struts, all slid `off` subunits along the x axis.
pub open spec fn sliding_lines(off: int) -> Seq<Line> {
    seq![
        spec_line(Point { x: (1200 + off) as i64, y: 90i64 }, Point { x: (1800 + off) as i64, y: 90i64 }),
        spec_line(Point { x: (450 + off) as i64, y: 150i64 }, Point { x: (45 + off) as i64, y: 240i64 }),
        spec_line(Point { x: (600 + off) as i64, y: 150i64 }, Point { x: (240 + off) as i64, y: 270i64 }),
        spec_line(Point { x: (750 + off) as i64, y: 150i64 }, Point { x: (375 + off) as i64, y: 300i64 }),
        spec_line(Point { x: (900 + off) as i64, y: 150i64 }, Point { x: (540 + off) as i64, y: 330i64 }),
        spec_line(Point { x: (1050 + off) as i64, y: 150i64 }, Point { x: (735 + off) as i64, y: 360i64 }),
        spec_line(Point { x: (1200 + off) as i64, y: 150i64 }, Point { x: (960 + off) as i64, y: 390i64 }),
        spec_line(Point { x: (1350 + off) as i64, y: 150i64 }, Point { x: (1230 + off) as i64, y: 420i64 }),
        spec_line(Point { x: (1500 + off) as i64, y: 150i64 }, Point { x: (1500 + off) as i64, y: 450i64 }),
        spec_line(Point { x: (1650 + off) as i64, y: 150i64 }, Point { x: (1770 + off) as i64, y: 420i64 }),
        spec_line(Point { x: (1800 + off) as i64, y: 150i64 }, Point { x: (2040 + off) as i64, y: 390i64 }),
        spec_line(Point { x: (1950 + off) as i64, y: 150i64 }, Point { x: (2265 + off) as i64, y: 360i64 }),
        spec_line(Point { x: (2100 + off) as i64, y: 150i64 }, Point { x: (2460 + off) as i64, y: 330i64 }),
        spec_line(Point { x: (2250 + off) as i64, y: 150i64 }, Point { x: (2625 + off) as i64, y: 300i64 }),
        spec_line(Point { x: (2400 + off) as i64, y: 150i64 }, Point { x: (2760 + off) as i64, y: 270i64 }),
        spec_line(Point { x: (2550 + off) as i64, y: 150i64 }, Point { x: (2955 + off) as i64, y: 240i64 }),
    ]
}

/// Draws the sliding-angles figure with its x offset (the frame loop
/// derives the offset from the frame number).
pub fn sliding_angles(grid: &mut Grid, offset: i64)
    requires
        grid_wf(*old(grid)),
        old(grid).tf == identity_tf(),
        -120 <= offset <= 120,
    ensures
        grid_wf(*final(grid)),
        same_frame(*old(grid), *final(grid)),
        final(grid).tf == old(grid).tf,
        grid_lines_upto(*old(grid), *final(grid), sliding_lines(offset as int), 16),
{
    let ghost ls = sliding_lines(offset as int);
    let ghost g0 = *grid;
    proof { lemma_grid_lines_base(g0, ls); }
    offset_x_line(grid, offset, 1200, 90, 1800, 90);
    proof { lemma_grid_lines_step(g0, g0, *grid, ls, 0); }
    let ghost g1 = *grid;
    offset_x_line(grid, offset, 450, 150, 45, 240);
    proof { lemma_grid_lines_step(g0, g1, *grid, ls, 1); }
    let ghost g2 = *grid;
    offset_x_line(grid, offset, 600, 150, 240, 270);
    proof { lemma_grid_lines_step(g0, g2, *grid, ls, 2); }
    let ghost g3 = *grid;
    offset_x_line(grid, offset, 750, 150, 375, 300);
    proof { lemma_grid_lines_step(g0, g3, *grid, ls, 3); }
    let ghost g4 = *grid;
    offset_x_line(grid, offset, 900, 150, 540, 330);
    proof { lemma_grid_lines_step(g0, g4, *grid, ls, 4); }
    let ghost g5 = *grid;
    offset_x_line(grid, offset, 1050, 150, 735, 360);
    proof { lemma_grid_lines_step(g0, g5, *grid, ls, 5); }
    let ghost g6 = *grid;
    offset_x_line(grid, offset, 1200, 150, 960, 390);
    proof { lemma_grid_lines_step(g0, g6, *grid, ls, 6); }
    let ghost g7 = *grid;
    offset_x_line(grid, offset, 1350, 150, 1230, 420);
    proof { lemma_grid_lines_step(g0, g7, *grid, ls, 7); }
    let ghost g8 = *grid;
    offset_x_line(grid, offset, 1500, 150, 1500, 450);
    proof { lemma_grid_lines_step(g0, g8, *grid, ls, 8); }
    let ghost g9 = *grid;
    offset_x_line(grid, offset, 1650, 150, 1770, 420);
    proof { lemma_grid_lines_step(g0, g9, *grid, ls, 9); }
    let ghost g10 = *grid;
    offset_x_line(grid, offset, 1800, 150, 2040, 390);
    proof { lemma_grid_lines_step(g0, g10, *grid, ls, 10); }
    let ghost g11 = *grid;
    offset_x_line(grid, offset, 1950, 150, 2265, 360);
    proof { lemma_grid_lines_step(g0, g11, *grid, ls, 11); }
    let ghost g12 = *grid;
    offset_x_line(grid, offset, 2100, 150, 2460, 330);
    proof { lemma_grid_lines_step(g0, g12, *grid, ls, 12); }
    let ghost g13 = *grid;
    offset_x_line(grid, offset, 2250, 150, 2625, 300);
    proof { lemma_grid_lines_step(g0, g13, *grid, ls, 13); }
    let ghost g14 = *grid;
    offset_x_line(grid, offset, 2400, 150, 2760, 270);
    proof { lemma_grid_lines_step(g0, g14, *grid, ls, 14); }
    let ghost g15 = *grid;
    offset_x_line(grid, offset, 2550, 150, 2955, 240);
    proof { lemma_grid_lines_step(g0, g15, *grid, ls, 15); }
}

/// The three segments of the spinning-lines drawing, for a direction whose
/// cosine and sine are `c / 10` and `s / 10`.
pub open spec fn spinning_segments(c: int, s: int) -> Seq<Line> {
    seq![
        spec_line(
            Point { x: (1500 - 15 * c) as i64, y: (1500 - 15 * s) as i64 },
            Point { x: (1500 + 90 * c) as i64, y: (1500 + 90 * s) as i64 },
        ),
        spec_line(
            Point { x: (1500 - 9 * s) as i64, y: (1500 - 9 * c) as i64 },
            Point { x: (1500 + 30 * s) as i64, y: (1500 + 30 * c) as i64 },
        ),
        spec_line(
            Point { x: (2100 - 15 * s) as i64, y: (900 - 15 * c) as i64 },
            Point { x: (600 + 30 * s) as i64, y: (900 + 30 * c) as i64 },
        ),
    ]
}

/// Draws three rotating rods; `c10` and `s10` are the direction's cosine
/// and sine scaled by 10 (the frame loop derives them from the frame
/// number).
pub fn spinning_lines(grid: &mut Grid, c10: i64, s10: i64)
    requires
        grid_wf(*old(grid)),
        old(grid).tf == identity_tf(),
        -10 <= c10 <= 10,
        -10 <= s10 <= 10,
    ensures
        grid_wf(*final(grid)),
        same_frame(*old(grid), *final(grid)),
        final(grid).tf == old(grid).tf,
        grid_lines_upto(*old(grid), *final(grid), spinning_segments(c10 as int, s10 as int), 3),
{
    let ghost ls = spinning_segments(c10 as int, s10 as int);
    let ghost g0 = *grid;
    proof {
        lemma_grid_lines_base(g0, ls);
        lemma_identity_tf_pt(1500 - 15 * c10, 1500 - 15 * s10);
        lemma_identity_tf_pt(1500 + 90 * c10, 1500 + 90 * s10);
        lemma_identity_tf_pt(1500 - 9 * s10, 1500 - 9 * c10);
        lemma_identity_tf_pt(1500 + 30 * s10, 1500 + 30 * c10);
        lemma_identity_tf_pt(2100 - 15 * s10, 900 - 15 * c10);
        lemma_identity_tf_pt(600 + 30 * s10, 900 + 30 * c10);
    }
    grid.line(1500 - 15 * c10, 1500 - 15 * s10, 1500 + 90 * c10, 1500 + 90 * s10);
    proof { lemma_grid_lines_step(g0, g0, *grid, ls, 0); }
    let ghost g1 = *grid;
    grid.line(1500 - 9 * s10, 1500 - 9 * c10, 1500 + 30 * s10, 1500 + 30 * c10);
    proof { lemma_grid_lines_step(g0, g1, *grid, ls, 1); }
    let ghost g2 = *grid;
    grid.line(2100 - 15 * s10, 900 - 15 * c10, 600 + 30 * s10, 900 + 30 * c10);
    proof { lemma_grid_lines_step(g0, g2, *grid, ls, 2); }
}

/// The three circles of the circle-stuff drawing, for a slow angle whose
/// cosine and sine are `c / 10` and `s / 10`.
pub open spec fn circle_stuff_circles(c: int, s: int) -> Seq<Circle> {
    seq![
        spec_circle(Point { x: (1500 + 30 * c) as i64, y: (1500 + 30 * s) as i64 }, 300),
        spec_circle(Point { x: (1500 + 15 * c) as i64, y: 2550i64 }, 300 + 30 * c),
        spec_circle(Point { x: (1500 + 15 * c) as i64, y: 2550i64 }, 300 + 30 * s),
    ]
}

/// Draws an orbiting circle and two breathing circles; `c10` and `s10` are
/// the slow angle's cosine and sine scaled by 10.
pub fn circle_stuff(grid: &mut Grid, c10: i64, s10: i64)
    requires
        grid_wf(*old(grid)),
        old(grid).tf == identity_tf(),
        -10 <= c10 <= 10,
        -10 <= s10 <= 10,
    ensures
        grid_wf(*final(grid)),
        same_frame(*old(grid), *final(grid)),
        final(grid).tf == old(grid).tf,
        grid_circles_upto(*old(grid), *final(grid), circle_stuff_circles(c10 as int, s10 as int), 3),
{
    let ghost cs = circle_stuff_circles(c10 as int, s10 as int);
    let ghost g0 = *grid;
    proof {
        lemma_identity_tf_pt(1500 + 30 * c10, 1500 + 30 * s10);
        lemma_identity_tf_pt(1500 + 15 * c10, 2550);
    }
    grid.circle(1500 + 30 * c10, 1500 + 30 * s10, 300);
    proof { lemma_grid_circles_step(g0, g0, *grid, cs, 0); }
    let ghost g1 = *grid;
    grid.circle(1500 + 15 * c10, 2550, 300 + 30 * c10);
    proof { lemma_grid_circles_step(g0, g1, *grid, cs, 1); }
    let ghost g2 = *grid;
    grid.circle(1500 + 15 * c10, 2550, 300 + 30 * s10);
    proof { lemma_grid_circles_step(g0, g2, *grid, cs, 2); }
}

} // verus!

//! The drawing grid: a 2D array of cells spanning the fixed logical canvas,
//! the affine draw transform, and the per-frame draw / emit / clear cycle.

use vstd::prelude::*;
use vstd::arithmetic::div_mod::{
    lemma_div_pos_is_pos, lemma_fundamental_div_mod, lemma_hoist_over_denominator,
};
use crate::shapes::{
    Point, Rotation, Line, Circle, Ellipse, point_ok, line_wf, rot_wf, rot_compose, spec_line,
    spec_circle, spec_ellipse,
};
use crate::cell::{
    Cell, cell_wf, cell_index, cell_cleared, rendered_line, rendered_circle, rendered_ellipse,
};
use crate::quadratic::{lemma_mul_bound, lemma_mul_nonneg};
use crate::{CANVAS, COORD_LIMIT, ROT_DEN_LIMIT};

verus! {

/// Largest accumulated translation offset the transform accepts.
pub const TRANSLATE_LIMIT: i64 = 1000000;

/// Largest raw coordinate a draw call accepts (before the transform).
pub const DRAW_LIMIT: i64 = 1000000;

/// The configuration used when instantiating a grid.  A cell represents one
/// character of the rendered output.
#[derive(Clone, Copy, Debug)]
pub struct GridConfig {
    /// The width of the canvas (number of characters per row).
    pub cell_width: usize,
    /// The height of the canvas (number of rows).
    pub cell_height: usize,
    /// The 16-entry glyph table, indexed by the touched-quadrant bitmask.
    pub tileset: [char; 16],
    /// The maximum frames per second the grid will render; defaults to 20.
    pub max_framerate: Option<usize>,
    /// Whether the frame loop should report how long frames take to paint.
    pub print_timing: bool,
}

/// The affine transform applied to draw coordinates before rasterization: a
/// local point is rotated about the local origin first, then translated.
/// The rotation divides by its denominator with round-to-nearest, so
/// transformed coordinates stay exact integers in subunits.
#[derive(Clone, Copy, PartialEq, Eq, Structural, Debug)]
pub struct Transform {
    pub rot: Rotation,
    pub x: i64,
    pub y: i64,
}

pub open spec fn transform_wf(t: Transform) -> bool {
    &&& rot_wf(t.rot)
    &&& -TRANSLATE_LIMIT <= t.x <= TRANSLATE_LIMIT
    &&& -TRANSLATE_LIMIT <= t.y <= TRANSLATE_LIMIT
}

/// Division by a positive denominator, rounded to the nearest integer
/// (ties rounded up, since `d / 2` rounds down).
pub open spec fn rdiv(n: int, d: int) -> int {
    (n + d / 2) / d
}

/// x coordinate of the transform's image of the local point `(x, y)`.
pub open spec fn tf_x(t: Transform, x: int, y: int) -> int {
    rdiv(x * t.rot.cos_n - y * t.rot.sin_n, t.rot.den as int) + t.x
}

/// y coordinate of the transform's image of the local point `(x, y)`.
pub open spec fn tf_y(t: Transform, x: int, y: int) -> int {
    rdiv(x * t.rot.sin_n + y * t.rot.cos_n, t.rot.den as int) + t.y
}

/// The transform's image of the local point `(x, y)`.
pub open spec fn tf_pt(t: Transform, x: int, y: int) -> Point {
    Point { x: tf_x(t, x, y) as i64, y: tf_y(t, x, y) as i64 }
}

/// Round-to-nearest division of `n` by the small positive `d`, computed by
/// shifting the numerator into non-negative range first.
fn rounded_div(n: i64, d: i64) -> (q: i64)
    requires
        1 <= d <= ROT_DEN_LIMIT,
        -0x10000000 <= n <= 0x10000000,
    ensures
        q == rdiv(n as int, d as int),
        -0x10000041 <= q <= 0x10000040,
{
    let off: i64 = 0x10000000;
    proof {
        lemma_mul_bound(off as int, d as int, 0x10000000, ROT_DEN_LIMIT as int);
        assert(off * d >= off) by (nonlinear_arith)
            requires d >= 1, off == 0x10000000i64;
        lemma_hoist_over_denominator(n + d / 2, off as int, d as nat);
        lemma_div_pos_is_pos(n + d / 2 + off * d, d as int);
        lemma_fundamental_div_mod(n + d / 2, d as int);
        vstd::arithmetic::div_mod::lemma_mod_bound(n + d / 2, d as int);
        assert(-0x10000041 <= rdiv(n as int, d as int) <= 0x10000040) by (nonlinear_arith)
            requires
                1 <= d <= 32,
                -0x10000000 <= n <= 0x10000000,
                (d as int) * rdiv(n as int, d as int) + (n + d / 2) % (d as int) == n + d / 2,
                0 <= (n + d / 2) % (d as int) < d;
    }
    let m: i64 = n + d / 2 + off * d;
    let q: i64 = m / d - off;
    q
}

impl Transform {
    /// The identity transform: no rotation, no offset.
    pub fn new() -> (t: Transform)
        ensures
            t.rot == (Rotation { cos_n: 1i64, sin_n: 0i64, den: 1i64 }),
            t.x == 0 && t.y == 0,
            transform_wf(t),
    {
        Transform { rot: Rotation::identity(), x: 0, y: 0 }
    }

    /// Adds `delta` to the accumulated rotation (the angles add; the
    /// denominators multiply, so repeated composition must stay within
    /// `ROT_DEN_LIMIT` -- use [`Transform::set_rotation`] to replace the
    /// rotation outright instead).
    pub fn rotate(&mut self, delta: Rotation)
        requires
            transform_wf(*old(self)),
            rot_wf(delta),
            old(self).rot.den * delta.den <= ROT_DEN_LIMIT,
        ensures
            final(self).rot == rot_compose(old(self).rot, delta),
            final(self).x == old(self).x,
            final(self).y == old(self).y,
            transform_wf(*final(self)),
    {
        self.rot = self.rot.compose(delta);
    }

    /// Replaces the accumulated rotation.
    pub fn set_rotation(&mut self, rot: Rotation)
        requires
            transform_wf(*old(self)),
            rot_wf(rot),
        ensures
            final(self).rot == rot,
            final(self).x == old(self).x,
            final(self).y == old(self).y,
            transform_wf(*final(self)),
    {
        self.rot = rot;
    }

    /// Moves the transform along the x and y axes.
    pub fn translate(&mut self, x: i64, y: i64)
        requires
            transform_wf(*old(self)),
            -TRANSLATE_LIMIT <= old(self).x + x <= TRANSLATE_LIMIT,
            -TRANSLATE_LIMIT <= old(self).y + y <= TRANSLATE_LIMIT,
        ensures
            final(self).rot == old(self).rot,
            final(self).x == old(self).x + x,
            final(self).y == old(self).y + y,
            transform_wf(*final(self)),
    {
        self.x = self.x + x;
        self.y = self.y + y;
    }

    /// Where this transform sends the local point `(x, y)`: rotate about
    /// the local origin, then translate.
    pub fn point(&self, x: i64, y: i64) -> (p: Point)
        requires
            transform_wf(*self),
            -DRAW_LIMIT <= x <= DRAW_LIMIT,
            -DRAW_LIMIT <= y <= DRAW_LIMIT,
        ensures
            p == tf_pt(*self, x as int, y as int),
    {
        proof {
            lemma_mul_bound(x as int, self.rot.cos_n as int, DRAW_LIMIT as int, ROT_DEN_LIMIT as int);
            lemma_mul_bound(y as int, self.rot.sin_n as int, DRAW_LIMIT as int, ROT_DEN_LIMIT as int);
            lemma_mul_bound(x as int, self.rot.sin_n as int, DRAW_LIMIT as int, ROT_DEN_LIMIT as int);
            lemma_mul_bound(y as int, self.rot.cos_n as int, DRAW_LIMIT as int, ROT_DEN_LIMIT as int);
        }
        let nx: i64 = x * self.rot.cos_n - y * self.rot.sin_n;
        let ny: i64 = x * self.rot.sin_n + y * self.rot.cos_n;
        let px: i64 = rounded_div(nx, self.rot.den) + self.x;
        let py: i64 = rounded_div(ny, self.rot.den) + self.y;
        Point::new(px, py)
    }
}

/// A Grid is what you draw on: a `height` x `width` array of cells covering
/// the logical canvas (`0..=CANVAS` subunits each way, with a small padding
/// on each side so outlines drawn exactly on the canvas boundary still
/// register; see [`Grid::new`] for the exact layout and the size of the
/// padding), plus the active tileset and draw transform.
#[derive(Debug)]
pub struct Grid {
    pub cells: Vec<Vec<Cell>>,
    pub tileset: [char; 16],
    pub max_framerate: usize,
    pub print_timing: bool,
    pub tf: Transform,
    pub width: usize,
    pub height: usize,
    pub x0: i64,
    pub y0: i64,
    pub x_unit: i64,
    pub y_unit: i64,
}

/// The cell at row `j`, column `i`.
pub open spec fn cell_at(g: Grid, j: int, i: int) -> Cell {
    g.cells@[j]@[i]
}

/// The cell at row `j`, column `i` is well formed and sits exactly where
/// the grid layout puts it.
pub open spec fn cell_at_ok(g: Grid, j: int, i: int) -> bool {
    let c = cell_at(g, j, i);
    &&& cell_wf(c)
    &&& c.coords.top_left.x == g.x0 + i * g.x_unit
    &&& c.coords.top_left.y == g.y0 + j * g.y_unit
    &&& c.coords.bottom_right.x == g.x0 + (i + 1) * g.x_unit
    &&& c.coords.bottom_right.y == g.y0 + (j + 1) * g.y_unit
}

pub open spec fn grid_wf(g: Grid) -> bool {
    &&& 1 <= g.width <= 1024
    &&& 1 <= g.height <= 1024
    &&& g.cells@.len() == g.height
    &&& forall|j: int| 0 <= j < g.height ==> (#[trigger] g.cells@[j])@.len() == g.width
    &&& forall|j: int, i: int|
        0 <= j < g.height && 0 <= i < g.width ==> #[trigger] cell_at_ok(g, j, i)
    &&& transform_wf(g.tf)
    &&& 4 <= g.x_unit <= 3004 && g.x_unit % 2 == 0
    &&& 4 <= g.y_unit <= 3004 && g.y_unit % 2 == 0
    &&& -1026 <= g.x0 <= -1 && -1026 <= g.y0 <= -1
    &&& g.x0 + g.width * g.x_unit <= 4025
    &&& g.y0 + g.height * g.y_unit <= 4025
    &&& 1 <= g.max_framerate
}

/// The two grids agree on everything except the cells' touched flags and
/// the draw transform: same dimensions, layout, tileset, configuration, and
/// cell geometry.
pub open spec fn same_frame(a: Grid, b: Grid) -> bool {
    &&& b.width == a.width && b.height == a.height
    &&& b.x0 == a.x0 && b.y0 == a.y0 && b.x_unit == a.x_unit && b.y_unit == a.y_unit
    &&& b.tileset == a.tileset
    &&& b.max_framerate == a.max_framerate
    &&& b.print_timing == a.print_timing
    &&& b.cells@.len() == a.cells@.len()
    &&& forall|j: int| 0 <= j < a.cells@.len()
        ==> (#[trigger] b.cells@[j])@.len() == a.cells@[j]@.len()
}

/// Cell edges along one axis stay within the coordinate limit, and each
/// cell is non-empty.
proof fn lemma_layout_cell_bounds(x0: int, xu: int, w: int, i: int)
    requires
        -1026 <= x0 <= 0,
        4 <= xu <= 3004,
        1 <= w <= 1024,
        0 <= i < w,
        x0 + w * xu <= 4025,
    ensures
        -1026 <= x0 + i * xu,
        x0 + (i + 1) * xu <= 4025,
        x0 + i * xu < x0 + (i + 1) * xu,
{
    lemma_mul_nonneg(i, xu);
    assert((i + 1) * xu <= w * xu && (i + 1) * xu == i * xu + xu) by (nonlinear_arith)
        requires 0 <= i < w, 0 <= xu;
}

impl Grid {
    /// Builds the grid for `config`: `cell_height` rows of `cell_width`
    /// cells, each `x_unit` by `y_unit` subunits, where the units are the
    /// smallest even sizes whose total covers the canvas with slack; the
    /// overshoot is split across the two sides, so boundary shapes land
    /// strictly inside the outermost cells, and the vertical layout is
    /// additionally staggered one subunit upward.  The stagger keeps
    /// horizontal and vertical cell edges off a common diagonal: without
    /// it, a 45-degree segment such as the full canvas diagonal would pass
    /// exactly through every cell corner and cell center of a square grid,
    /// where the strict open-interval crossing tests deliberately count
    /// nothing, and the segment would not render at all.  (Even with the
    /// stagger, a diagonal cell shows the diagonal with its bottom-left
    /// quadrant clipped as well, not the two-quadrant pattern alone: a
    /// segment that enters at the top-left and leaves at the bottom-right
    /// either passes exactly through the cell's center, which the strict
    /// tests exclude, or passes to one side of it, clipping a third
    /// quadrant.)  Since cell sizes are whole even subunit counts, a cell
    /// can exceed the exact fraction `CANVAS / width` by up to two
    /// subunits, so at large cell counts the grid's padding grows to a few
    /// logical units; the subunit resolution cannot be raised further
    /// without overflowing the `i128` budget of the exact ellipse
    /// arithmetic (see [`crate::COORD_LIMIT`]).  All cells start untouched
    /// and the transform starts as the identity.
    pub fn new(config: GridConfig) -> (g: Grid)
        requires
            1 <= config.cell_width <= 1024,
            1 <= config.cell_height <= 1024,
            match config.max_framerate {
                Some(f) => 1 <= f,
                None => true,
            },
        ensures
            grid_wf(g),
            g.width == config.cell_width,
            g.height == config.cell_height,
            g.tileset == config.tileset,
            g.max_framerate == (match config.max_framerate {
                Some(f) => f,
                None => 20usize,
            }),
            g.print_timing == config.print_timing,
            g.tf == (Transform { rot: Rotation { cos_n: 1i64, sin_n: 0i64, den: 1i64 }, x: 0i64, y: 0i64 }),
            g.x_unit == 2 * ((CANVAS as int + 2) / (2 * config.cell_width as int) + 1),
            g.y_unit == 2 * ((CANVAS as int + 2) / (2 * config.cell_height as int) + 1),
            g.x0 == -((config.cell_width * g.x_unit - CANVAS) / 2),
            g.y0 == -((config.cell_height * g.y_unit - CANVAS) / 2) - 1,
            forall|j: int, i: int| 0 <= j < g.height && 0 <= i < g.width
                ==> forall|q: int| 0 <= q < 4 ==> !(#[trigger] cell_at(g, j, i)).quads_filled[q],
    {
        let w: usize = config.cell_width;
        let h: usize = config.cell_height;
        let (x_unit, x0) = Self::axis_layout(w);
        let (y_unit, y_even) = Self::axis_layout(h);
        let y0: i64 = y_even - 1;

        let mut cells: Vec<Vec<Cell>> = Vec::new();
        let mut j: usize = 0;
        while j < h
            invariant
                1 <= w <= 1024,
                1 <= h <= 1024,
                0 <= j <= h,
                4 <= x_unit <= 3004 && x_unit % 2 == 0,
                4 <= y_unit <= 3004 && y_unit % 2 == 0,
                -1026 <= x0 <= -1 && -1026 <= y0 <= -1,
                x0 + w * x_unit <= 4025,
                y0 + h * y_unit <= 4025,
                cells@.len() == j,
                forall|jj: int| 0 <= jj < j ==> (#[trigger] cells@[jj])@.len() == w,
                forall|jj: int, ii: int| 0 <= jj < j && 0 <= ii < w ==> {
                    let c = #[trigger] cells@[jj]@[ii];
                    &&& cell_wf(c)
                    &&& c.coords.top_left.x == x0 + ii * x_unit
                    &&& c.coords.top_left.y == y0 + jj * y_unit
                    &&& c.coords.bottom_right.x == x0 + (ii + 1) * x_unit
                    &&& c.coords.bottom_right.y == y0 + (jj + 1) * y_unit
                    &&& forall|q: int| 0 <= q < 4 ==> !c.quads_filled[q]
                },
            decreases h - j,
        {
            let mut row: Vec<Cell> = Vec::new();
            let mut i: usize = 0;
            while i < w
                invariant
                    1 <= w <= 1024,
                    1 <= h <= 1024,
                    0 <= i <= w,
                    0 <= j < h,
                    4 <= x_unit <= 3004 && x_unit % 2 == 0,
                    4 <= y_unit <= 3004 && y_unit % 2 == 0,
                    -1026 <= x0 <= -1 && -1026 <= y0 <= -1,
                    x0 + w * x_unit <= 4025,
                    y0 + h * y_unit <= 4025,
                    row@.len() == i,
                    forall|ii: int| 0 <= ii < i ==> {
                        let c = #[trigger] row@[ii];
                        &&& cell_wf(c)
                        &&& c.coords.top_left.x == x0 + ii * x_unit
                        &&& c.coords.top_left.y == y0 + j * y_unit
                        &&& c.coords.bottom_right.x == x0 + (ii + 1) * x_unit
                        &&& c.coords.bottom_right.y == y0 + (j + 1) * y_unit
                        &&& forall|q: int| 0 <= q < 4 ==> !c.quads_filled[q]
                    },
                decreases w - i,
            {
                proof {
                    lemma_layout_cell_bounds(x0 as int, x_unit as int, w as int, i as int);
                    lemma_layout_cell_bounds(y0 as int, y_unit as int, h as int, j as int);
                    lemma_mul_bound(i as int, x_unit as int, 1024, 3004);
                    lemma_mul_bound(j as int, y_unit as int, 1024, 3004);
                    assert((i as int + 1) * x_unit == i as int * x_unit + x_unit) by (nonlinear_arith);
                    assert((j as int + 1) * y_unit == j as int * y_unit + y_unit) by (nonlinear_arith);
                }
                let x: i64 = x0 + (i as i64) * x_unit;
                let y: i64 = y0 + (j as i64) * y_unit;
                let c = Cell::new(Point::new(x, y), Point::new(x + x_unit, y + y_unit));
                row.push(c);
                i = i + 1;
            }
            cells.push(row);
            j = j + 1;
        }

        let max_framerate: usize = match config.max_framerate {
            Some(f) => f,
            None => 20,
        };
        let g = Grid {
            cells,
            tileset: config.tileset,
            max_framerate,
            print_timing: config.print_timing,
            tf: Transform::new(),
            width: w,
            height: h,
            x0,
            y0,
            x_unit,
            y_unit,
        };
        proof {
            assert forall|j2: int, i2: int|
                0 <= j2 < g.height && 0 <= i2 < g.width implies #[trigger] cell_at_ok(g, j2, i2) by {
                assert(g.cells@[j2]@[i2] == cells@[j2]@[i2]);
            }
        }
        g
    }

    /// Draws the segment from `(x1, y1)` to `(x2, y2)` (local coordinates,
    /// in subunits): the grid's transform maps both endpoints, and every
    /// cell accumulates the resulting segment into its touched quadrants.
    /// The transformed endpoints must stay within the coordinate limit.
    #[verifier::loop_isolation(false)]
    #[verifier::rlimit(30)]
    pub fn line(&mut self, x1: i64, y1: i64, x2: i64, y2: i64)
        requires
            grid_wf(*old(self)),
            -DRAW_LIMIT <= x1 <= DRAW_LIMIT,
            -DRAW_LIMIT <= y1 <= DRAW_LIMIT,
            -DRAW_LIMIT <= x2 <= DRAW_LIMIT,
            -DRAW_LIMIT <= y2 <= DRAW_LIMIT,
            point_ok(tf_pt(old(self).tf, x1 as int, y1 as int)),
            point_ok(tf_pt(old(self).tf, x2 as int, y2 as int)),
        ensures
            grid_wf(*final(self)),
            same_frame(*old(self), *final(self)),
            final(self).tf == old(self).tf,
            forall|j: int, i: int|
                0 <= j < old(self).height && 0 <= i < old(self).width ==> rendered_line(
                    cell_at(*old(self), j, i),
                    #[trigger] cell_at(*final(self), j, i),
                    spec_line(
                        tf_pt(old(self).tf, x1 as int, y1 as int),
                        tf_pt(old(self).tf, x2 as int, y2 as int),
                    ),
                ),
    {
        let t = self.tf;
        let p1 = t.point(x1, y1);
        let p2 = t.point(x2, y2);
        let l = Line::new(p1, p2);
        let ghost g0 = *self;
        let h = self.height;
        let w = self.width;
        let mut j: usize = 0;
        while j < h
            invariant
                0 <= j <= h,
                self.cells@.len() == g0.cells@.len(),
                forall|jj: int| 0 <= jj < h ==> (#[trigger] self.cells@[jj])@.len() == w,
                forall|jj: int, ii: int|
                    0 <= jj < j && 0 <= ii < w ==> rendered_line(
                        #[trigger] cell_at(g0, jj, ii), cell_at(*self, jj, ii), l),
                forall|jj: int, ii: int|
                    j <= jj < h && 0 <= ii < w ==>
                        cell_at(*self, jj, ii) == #[trigger] cell_at(g0, jj, ii),
                self.width == g0.width && self.height == g0.height && self.tf == g0.tf,
                self.x0 == g0.x0 && self.y0 == g0.y0,
                self.x_unit == g0.x_unit && self.y_unit == g0.y_unit,
                self.tileset == g0.tileset && self.max_framerate == g0.max_framerate,
                self.print_timing == g0.print_timing,
            decreases h - j,
        {
            let mut i: usize = 0;
            while i < w
                invariant
                    0 <= i <= w,
                    j < h,
                    self.cells@.len() == g0.cells@.len(),
                    forall|jj: int| 0 <= jj < h ==> (#[trigger] self.cells@[jj])@.len() == w,
                    forall|jj: int, ii: int|
                        0 <= jj < j && 0 <= ii < w ==> rendered_line(
                            #[trigger] cell_at(g0, jj, ii), cell_at(*self, jj, ii), l),
                    forall|ii: int|
                        0 <= ii < i ==> rendered_line(
                            #[trigger] cell_at(g0, j as int, ii),
                            cell_at(*self, j as int, ii), l),
                    forall|ii: int|
                        i <= ii < w ==>
                            cell_at(*self, j as int, ii) == #[trigger] cell_at(g0, j as int, ii),
                    forall|jj: int, ii: int|
                        j < jj < h && 0 <= ii < w ==>
                            cell_at(*self, jj, ii) == #[trigger] cell_at(g0, jj, ii),
                    self.width == g0.width && self.height == g0.height && self.tf == g0.tf,
                    self.x0 == g0.x0 && self.y0 == g0.y0,
                    self.x_unit == g0.x_unit && self.y_unit == g0.y_unit,
                    self.tileset == g0.tileset && self.max_framerate == g0.max_framerate,
                    self.print_timing == g0.print_timing,
                decreases w - i,
            {
                let ghost s_pre = *self;
                proof {
                    assert(cell_at(s_pre, j as int, i as int) == cell_at(g0, j as int, i as int));
                    assert(cell_at_ok(g0, j as int, i as int));
                }
                let mut c: Cell = self.cells[j][i];
                c.render_line(&l);
                let row: &mut Vec<Cell> = &mut self.cells[j];
                row[i] = c;
                proof {
                    assert forall|jj: int, ii: int|
                        0 <= jj < h && 0 <= ii < w && jj != j as int implies
                        cell_at(*self, jj, ii) == cell_at(s_pre, jj, ii) by {}
                    assert forall|ii: int| 0 <= ii < w && ii != i as int implies
                        cell_at(*self, j as int, ii) == cell_at(s_pre, j as int, ii) by {}
                    assert(cell_at(*self, j as int, i as int) == c);
                }
                i = i + 1;
            }
            j = j + 1;
        }
        proof {
            assert forall|j2: int, i2: int|
                0 <= j2 < self.height && 0 <= i2 < self.width
                implies #[trigger] cell_at_ok(*self, j2, i2) by {
                assert(cell_at_ok(g0, j2, i2));
                assert(rendered_line(cell_at(g0, j2, i2), cell_at(*self, j2, i2), l));
            }
        }
    }

    /// Draws the circle with local center `(x, y)` and radius `r`: the
    /// transform maps the center (the radius is unchanged, since the
    /// transform never scales), and every cell accumulates the outline.
    #[verifier::loop_isolation(false)]
    #[verifier::rlimit(30)]
    pub fn circle(&mut self, x: i64, y: i64, r: i64)
        requires
            grid_wf(*old(self)),
            -DRAW_LIMIT <= x <= DRAW_LIMIT,
            -DRAW_LIMIT <= y <= DRAW_LIMIT,
            0 <= r <= COORD_LIMIT,
            point_ok(tf_pt(old(self).tf, x as int, y as int)),
        ensures
            grid_wf(*final(self)),
            same_frame(*old(self), *final(self)),
            final(self).tf == old(self).tf,
            forall|j: int, i: int|
                0 <= j < old(self).height && 0 <= i < old(self).width ==> rendered_circle(
                    cell_at(*old(self), j, i),
                    #[trigger] cell_at(*final(self), j, i),
                    spec_circle(tf_pt(old(self).tf, x as int, y as int), r as int),
                ),
    {
        let t = self.tf;
        let center = t.point(x, y);
        let circle = Circle::new(center, r);
        let ghost g0 = *self;
        let h = self.height;
        let w = self.width;
        let mut j: usize = 0;
        while j < h
            invariant
                0 <= j <= h,
                self.cells@.len() == g0.cells@.len(),
                forall|jj: int| 0 <= jj < h ==> (#[trigger] self.cells@[jj])@.len() == w,
                forall|jj: int, ii: int|
                    0 <= jj < j && 0 <= ii < w ==> rendered_circle(
                        #[trigger] cell_at(g0, jj, ii), cell_at(*self, jj, ii), circle),
                forall|jj: int, ii: int|
                    j <= jj < h && 0 <= ii < w ==>
                        cell_at(*self, jj, ii) == #[trigger] cell_at(g0, jj, ii),
                self.width == g0.width && self.height == g0.height && self.tf == g0.tf,
                self.x0 == g0.x0 && self.y0 == g0.y0,
                self.x_unit == g0.x_unit && self.y_unit == g0.y_unit,
                self.tileset == g0.tileset && self.max_framerate == g0.max_framerate,
                self.print_timing == g0.print_timing,
            decreases h - j,
        {
            let mut i: usize = 0;
            while i < w
                invariant
                    0 <= i <= w,
                    j < h,
                    self.cells@.len() == g0.cells@.len(),
                    forall|jj: int| 0 <= jj < h ==> (#[trigger] self.cells@[jj])@.len() == w,
                    forall|jj: int, ii: int|
                        0 <= jj < j && 0 <= ii < w ==> rendered_circle(
                            #[trigger] cell_at(g0, jj, ii), cell_at(*self, jj, ii), circle),
                    forall|ii: int|
                        0 <= ii < i ==> rendered_circle(
                            #[trigger] cell_at(g0, j as int, ii),
                            cell_at(*self, j as int, ii), circle),
                    forall|ii: int|
                        i <= ii < w ==>
                            cell_at(*self, j as int, ii) == #[trigger] cell_at(g0, j as int, ii),
                    forall|jj: int, ii: int|
                        j < jj < h && 0 <= ii < w ==>
                            cell_at(*self, jj, ii) == #[trigger] cell_at(g0, jj, ii),
                    self.width == g0.width && self.height == g0.height && self.tf == g0.tf,
                    self.x0 == g0.x0 && self.y0 == g0.y0,
                    self.x_unit == g0.x_unit && self.y_unit == g0.y_unit,
                    self.tileset == g0.tileset && self.max_framerate == g0.max_framerate,
                    self.print_timing == g0.print_timing,
                decreases w - i,
            {
                let ghost s_pre = *self;
                proof {
                    assert(cell_at(s_pre, j as int, i as int) == cell_at(g0, j as int, i as int));
                    assert(cell_at_ok(g0, j as int, i as int));
                }
                let mut c: Cell = self.cells[j][i];
                c.render_circle(&circle);
                let row: &mut Vec<Cell> = &mut self.cells[j];
                row[i] = c;
                proof {
                    assert forall|jj: int, ii: int|
                        0 <= jj < h && 0 <= ii < w && jj != j as int implies
                        cell_at(*self, jj, ii) == cell_at(s_pre, jj, ii) by {}
                    assert forall|ii: int| 0 <= ii < w && ii != i as int implies
                        cell_at(*self, j as int, ii) == cell_at(s_pre, j as int, ii) by {}
                    assert(cell_at(*self, j as int, i as int) == c);
                }
                i = i + 1;
            }
            j = j + 1;
        }
        proof {
            assert forall|j2: int, i2: int|
                0 <= j2 < self.height && 0 <= i2 < self.width
                implies #[trigger] cell_at_ok(*self, j2, i2) by {
                assert(cell_at_ok(g0, j2, i2));
                assert(rendered_circle(cell_at(g0, j2, i2), cell_at(*self, j2, i2), circle));
            }
        }
    }

    /// Draws the ellipse with local center `(x, y)`, semi-axes `a` and `b`,
    /// and keel `keel`: the transform maps the center and adds its
    /// accumulated rotation to the keel, then every cell accumulates the
    /// outline.
    #[verifier::loop_isolation(false)]
    #[verifier::rlimit(30)]
    pub fn ellipse(&mut self, x: i64, y: i64, a: i64, b: i64, keel: Rotation)
        requires
            grid_wf(*old(self)),
            -DRAW_LIMIT <= x <= DRAW_LIMIT,
            -DRAW_LIMIT <= y <= DRAW_LIMIT,
            0 <= a <= COORD_LIMIT,
            0 <= b <= COORD_LIMIT,
            rot_wf(keel),
            keel.den * old(self).tf.rot.den <= ROT_DEN_LIMIT,
            point_ok(tf_pt(old(self).tf, x as int, y as int)),
        ensures
            grid_wf(*final(self)),
            same_frame(*old(self), *final(self)),
            final(self).tf == old(self).tf,
            forall|j: int, i: int|
                0 <= j < old(self).height && 0 <= i < old(self).width ==> rendered_ellipse(
                    cell_at(*old(self), j, i),
                    #[trigger] cell_at(*final(self), j, i),
                    spec_ellipse(
                        tf_pt(old(self).tf, x as int, y as int),
                        a as int,
                        b as int,
                        rot_compose(keel, old(self).tf.rot),
                    ),
                ),
    {
        let t = self.tf;
        let center = t.point(x, y);
        let full_keel = keel.compose(t.rot);
        let ellipse = Ellipse::new(center, a, b, full_keel);
        let ghost g0 = *self;
        let h = self.height;
        let w = self.width;
        let mut j: usize = 0;
        while j < h
            invariant
                0 <= j <= h,
                self.cells@.len() == g0.cells@.len(),
                forall|jj: int| 0 <= jj < h ==> (#[trigger] self.cells@[jj])@.len() == w,
                forall|jj: int, ii: int|
                    0 <= jj < j && 0 <= ii < w ==> rendered_ellipse(
                        #[trigger] cell_at(g0, jj, ii), cell_at(*self, jj, ii), ellipse),
                forall|jj: int, ii: int|
                    j <= jj < h && 0 <= ii < w ==>
                        cell_at(*self, jj, ii) == #[trigger] cell_at(g0, jj, ii),
                self.width == g0.width && self.height == g0.height && self.tf == g0.tf,
                self.x0 == g0.x0 && self.y0 == g0.y0,
                self.x_unit == g0.x_unit && self.y_unit == g0.y_unit,
                self.tileset == g0.tileset && self.max_framerate == g0.max_framerate,
                self.print_timing == g0.print_timing,
            decreases h - j,
        {
            let mut i: usize = 0;
            while i < w
                invariant
                    0 <= i <= w,
                    j < h,
                    self.cells@.len() == g0.cells@.len(),
                    forall|jj: int| 0 <= jj < h ==> (#[trigger] self.cells@[jj])@.len() == w,
                    forall|jj: int, ii: int|
                        0 <= jj < j && 0 <= ii < w ==> rendered_ellipse(
                            #[trigger] cell_at(g0, jj, ii), cell_at(*self, jj, ii), ellipse),
                    forall|ii: int|
                        0 <= ii < i ==> rendered_ellipse(
                            #[trigger] cell_at(g0, j as int, ii),
                            cell_at(*self, j as int, ii), ellipse),
                    forall|ii: int|
                        i <= ii < w ==>
                            cell_at(*self, j as int, ii) == #[trigger] cell_at(g0, j as int, ii),
                    forall|jj: int, ii: int|
                        j < jj < h && 0 <= ii < w ==>
                            cell_at(*self, jj, ii) == #[trigger] cell_at(g0, jj, ii),
                    self.width == g0.width && self.height == g0.height && self.tf == g0.tf,
                    self.x0 == g0.x0 && self.y0 == g0.y0,
                    self.x_unit == g0.x_unit && self.y_unit == g0.y_unit,
                    self.tileset == g0.tileset && self.max_framerate == g0.max_framerate,
                    self.print_timing == g0.print_timing,
                decreases w - i,
            {
                let ghost s_pre = *self;
                proof {
                    assert(cell_at(s_pre, j as int, i as int) == cell_at(g0, j as int, i as int));
                    assert(cell_at_ok(g0, j as int, i as int));
                }
                let mut c: Cell = self.cells[j][i];
                c.render_ellipse(&ellipse);
                let row: &mut Vec<Cell> = &mut self.cells[j];
                row[i] = c;
                proof {
                    assert forall|jj: int, ii: int|
                        0 <= jj < h && 0 <= ii < w && jj != j as int implies
                        cell_at(*self, jj, ii) == cell_at(s_pre, jj, ii) by {}
                    assert forall|ii: int| 0 <= ii < w && ii != i as int implies
                        cell_at(*self, j as int, ii) == cell_at(s_pre, j as int, ii) by {}
                    assert(cell_at(*self, j as int, i as int) == c);
                }
                i = i + 1;
            }
            j = j + 1;
        }
        proof {
            assert forall|j2: int, i2: int|
                0 <= j2 < self.height && 0 <= i2 < self.width
                implies #[trigger] cell_at_ok(*self, j2, i2) by {
                assert(cell_at_ok(g0, j2, i2));
                assert(rendered_ellipse(cell_at(g0, j2, i2), cell_at(*self, j2, i2), ellipse));
            }
        }
    }

    /// Resets the grid for the next frame: every cell's touched flags are
    /// cleared and the draw transform returns to the identity; the
    /// geometry, tileset and configuration are untouched.
    #[verifier::loop_isolation(false)]
    #[verifier::rlimit(30)]
    pub fn clear(&mut self)
        requires
            grid_wf(*old(self)),
        ensures
            grid_wf(*final(self)),
            same_frame(*old(self), *final(self)),
            final(self).tf == (Transform {
                rot: Rotation { cos_n: 1i64, sin_n: 0i64, den: 1i64 },
                x: 0i64,
                y: 0i64,
            }),
            forall|j: int, i: int|
                0 <= j < old(self).height && 0 <= i < old(self).width ==> cell_cleared(
                    #[trigger] cell_at(*old(self), j, i),
                    cell_at(*final(self), j, i),
                ),
    {
        let ghost g0 = *self;
        let h = self.height;
        let w = self.width;
        let mut j: usize = 0;
        while j < h
            invariant
                0 <= j <= h,
                self.cells@.len() == g0.cells@.len(),
                forall|jj: int| 0 <= jj < h ==> (#[trigger] self.cells@[jj])@.len() == w,
                forall|jj: int, ii: int|
                    0 <= jj < j && 0 <= ii < w ==> cell_cleared(
                        #[trigger] cell_at(g0, jj, ii), cell_at(*self, jj, ii)),
                forall|jj: int, ii: int|
                    j <= jj < h && 0 <= ii < w ==>
                        cell_at(*self, jj, ii) == #[trigger] cell_at(g0, jj, ii),
                self.width == g0.width && self.height == g0.height && self.tf == g0.tf,
                self.x0 == g0.x0 && self.y0 == g0.y0,
                self.x_unit == g0.x_unit && self.y_unit == g0.y_unit,
                self.tileset == g0.tileset && self.max_framerate == g0.max_framerate,
                self.print_timing == g0.print_timing,
            decreases h - j,
        {
            let mut i: usize = 0;
            while i < w
                invariant
                    0 <= i <= w,
                    j < h,
                    self.cells@.len() == g0.cells@.len(),
                    forall|jj: int| 0 <= jj < h ==> (#[trigger] self.cells@[jj])@.len() == w,
                    forall|jj: int, ii: int|
                        0 <= jj < j && 0 <= ii < w ==> cell_cleared(
                            #[trigger] cell_at(g0, jj, ii), cell_at(*self, jj, ii)),
                    forall|ii: int|
                        0 <= ii < i ==> cell_cleared(
                            #[trigger] cell_at(g0, j as int, ii),
                            cell_at(*self, j as int, ii)),
                    forall|ii: int|
                        i <= ii < w ==>
                            cell_at(*self, j as int, ii) == #[trigger] cell_at(g0, j as int, ii),
                    forall|jj: int, ii: int|
                        j < jj < h && 0 <= ii < w ==>
                            cell_at(*self, jj, ii) == #[trigger] cell_at(g0, jj, ii),
                    self.width == g0.width && self.height == g0.height && self.tf == g0.tf,
                    self.x0 == g0.x0 && self.y0 == g0.y0,
                    self.x_unit == g0.x_unit && self.y_unit == g0.y_unit,
                    self.tileset == g0.tileset && self.max_framerate == g0.max_framerate,
                    self.print_timing == g0.print_timing,
                decreases w - i,
            {
                let ghost s_pre = *self;
                proof {
                    assert(cell_at(s_pre, j as int, i as int) == cell_at(g0, j as int, i as int));
                }
                let mut c: Cell = self.cells[j][i];
                c.clear();
                let row: &mut Vec<Cell> = &mut self.cells[j];
                row[i] = c;
                proof {
                    assert forall|jj: int, ii: int|
                        0 <= jj < h && 0 <= ii < w && jj != j as int implies
                        cell_at(*self, jj, ii) == cell_at(s_pre, jj, ii) by {}
                    assert forall|ii: int| 0 <= ii < w && ii != i as int implies
                        cell_at(*self, j as int, ii) == cell_at(s_pre, j as int, ii) by {}
                    assert(cell_at(*self, j as int, i as int) == c);
                }
                i = i + 1;
            }
            j = j + 1;
        }
        self.tf = Transform::new();
        proof {
            assert forall|j2: int, i2: int|
                0 <= j2 < self.height && 0 <= i2 < self.width
                implies #[trigger] cell_at_ok(*self, j2, i2) by {
                assert(cell_at_ok(g0, j2, i2));
                assert(cell_cleared(cell_at(g0, j2, i2), cell_at(*self, j2, i2)));
            }
        }
    }

    /// A copy of the current draw transform.
    pub fn transform(&self) -> (t: Transform)
        ensures
            t == self.tf,
    {
        self.tf
    }

    /// Replaces the draw transform.
    pub fn set_transform(&mut self, t: Transform)
        requires
            grid_wf(*old(self)),
            transform_wf(t),
        ensures
            grid_wf(*final(self)),
            *final(self) == (Grid { tf: t, ..*old(self) }),
    {
        self.tf = t;
        proof {
            let g0 = *old(self);
            assert forall|j2: int, i2: int|
                0 <= j2 < self.height && 0 <= i2 < self.width
                implies #[trigger] cell_at_ok(*self, j2, i2) by {
                assert(cell_at_ok(g0, j2, i2));
                assert(cell_at(*self, j2, i2) == cell_at(g0, j2, i2));
            }
        }
    }

    /// Adds `delta` to the transform's accumulated rotation.
    pub fn rotate(&mut self, delta: Rotation)
        requires
            grid_wf(*old(self)),
            rot_wf(delta),
            old(self).tf.rot.den * delta.den <= ROT_DEN_LIMIT,
        ensures
            grid_wf(*final(self)),
            final(self).tf.rot == rot_compose(old(self).tf.rot, delta),
            final(self).tf.x == old(self).tf.x && final(self).tf.y == old(self).tf.y,
            *final(self) == (Grid { tf: final(self).tf, ..*old(self) }),
    {
        let mut t = self.tf;
        t.rotate(delta);
        self.set_transform(t);
    }

    /// Adds `(x, y)` to the transform's accumulated translation.
    pub fn translate(&mut self, x: i64, y: i64)
        requires
            grid_wf(*old(self)),
            -TRANSLATE_LIMIT <= old(self).tf.x + x <= TRANSLATE_LIMIT,
            -TRANSLATE_LIMIT <= old(self).tf.y + y <= TRANSLATE_LIMIT,
        ensures
            grid_wf(*final(self)),
            final(self).tf.rot == old(self).tf.rot,
            final(self).tf.x == old(self).tf.x + x,
            final(self).tf.y == old(self).tf.y + y,
            *final(self) == (Grid { tf: final(self).tf, ..*old(self) }),
    {
        let mut t = self.tf;
        t.translate(x, y);
        self.set_transform(t);
    }

    /// Resets the draw transform to the identity.
    pub fn clear_transform(&mut self)
        requires
            grid_wf(*old(self)),
        ensures
            grid_wf(*final(self)),
            final(self).tf == (Transform {
                rot: Rotation { cos_n: 1i64, sin_n: 0i64, den: 1i64 },
                x: 0i64,
                y: 0i64,
            }),
            *final(self) == (Grid { tf: final(self).tf, ..*old(self) }),
    {
        self.set_transform(Transform::new());
    }

    /// Emits the finished frame: `height` rows of `width` glyphs, each cell
    /// mapped through the tileset by its touched-quadrant bitmask.
    #[verifier::loop_isolation(false)]
    pub fn frame_chars(&self) -> (out: Vec<Vec<char>>)
        requires
            grid_wf(*self),
        ensures
            out@.len() == self.height,
            forall|j: int| 0 <= j < self.height ==> (#[trigger] out@[j])@.len() == self.width,
            forall|j: int, i: int|
                0 <= j < self.height && 0 <= i < self.width ==>
                    (#[trigger] out@[j]@[i]) == self.tileset@[cell_index(cell_at(*self, j, i))],
    {
        let h = self.height;
        let w = self.width;
        let mut out: Vec<Vec<char>> = Vec::new();
        let mut j: usize = 0;
        while j < h
            invariant
                0 <= j <= h,
                out@.len() == j,
                forall|jj: int| 0 <= jj < j ==> (#[trigger] out@[jj])@.len() == w,
                forall|jj: int, ii: int|
                    0 <= jj < j && 0 <= ii < w ==>
                        (#[trigger] out@[jj]@[ii])
                            == self.tileset@[cell_index(cell_at(*self, jj, ii))],
            decreases h - j,
        {
            let mut row: Vec<char> = Vec::new();
            let mut i: usize = 0;
            while i < w
                invariant
                    0 <= i <= w,
                    j < h,
                    row@.len() == i,
                    forall|ii: int|
                        0 <= ii < i ==>
                            (#[trigger] row@[ii])
                                == self.tileset@[cell_index(cell_at(*self, j as int, ii))],
                decreases w - i,
            {
                let c: Cell = self.cells[j][i];
                row.push(c.print(&self.tileset));
                i = i + 1;
            }
            out.push(row);
            j = j + 1;
        }
        out
    }

    /// The minimum frame period, in milliseconds, for the configured
    /// maximum framerate.
    pub fn frame_period_millis(&self) -> (r: usize)
        requires
            1 <= self.max_framerate,
        ensures
            r == 1000int / (self.max_framerate as int),
    {
        1000 / self.max_framerate
    }

    /// Computes one axis of the layout for `n` cells: the smallest even
    /// cell size leaving at least two subunits of slack beyond the canvas,
    /// and the (negative) coordinate of the first cell edge, placing half
    /// the overshoot before the canvas.  The slack guarantees at least two
    /// subunits of padding on each side, so shapes drawn exactly on the
    /// canvas boundary register in the outermost cells, and it leaves room
    /// for the one-subunit vertical stagger of [`Grid::new`].
    fn axis_layout(n: usize) -> (r: (i64, i64))
        requires
            1 <= n <= 1024,
        ensures
            r.0 == 2 * ((CANVAS as int + 2) / (2 * n as int) + 1),
            r.1 == -((n * r.0 - CANVAS) / 2),
            4 <= r.0 <= 3004 && r.0 % 2 == 0,
            -1025 <= r.1 <= -2,
            CANVAS + 2 <= r.1 + n * r.0 <= 4025,
    {
        let ni: i64 = n as i64;
        proof {
            lemma_div_pos_is_pos(CANVAS as int + 2, 2 * n as int);
            lemma_fundamental_div_mod(CANVAS as int + 2, 2 * n as int);
            assert(1 <= (CANVAS as int + 2) / (2 * n as int) <= 1501) by (nonlinear_arith)
                requires
                    1 <= n <= 1024,
                    0 <= (CANVAS as int + 2) / (2 * n as int),
                    (2 * n as int) * ((CANVAS as int + 2) / (2 * n as int))
                        + (CANVAS as int + 2) % (2 * n as int) == CANVAS as int + 2,
                    0 <= (CANVAS as int + 2) % (2 * n as int) < 2 * n as int;
        }
        let unit: i64 = 2 * ((CANVAS + 2) / (2 * ni) + 1);
        proof {
            let q = (CANVAS as int + 2) / (2 * n as int);
            let r = (CANVAS as int + 2) % (2 * n as int);
            assert(n * unit == (2 * n as int) * q + 2 * n) by (nonlinear_arith)
                requires unit == 2 * (q + 1);
            assert(CANVAS + 2 < n * unit);
            assert(n * unit - CANVAS == 2 * n as int + 2 - r);
            assert((2 * n as int) * q == 2 * (n as int * q)) by (nonlinear_arith);
            assert(r == CANVAS + 2 - 2 * (n as int * q));
            assert((n * unit - CANVAS) % 2 == 0);
            lemma_div_pos_is_pos(n * unit - CANVAS, 2);
            lemma_fundamental_div_mod(n * unit - CANVAS, 2);
        }
        let span: i64 = ni * unit;
        let over: i64 = span - CANVAS;
        let start: i64 = -(over / 2);
        (unit, start)
    }
}

/// How long the frame loop should still sleep after a frame that took
/// `spent` of its `period` milliseconds: the remainder, or nothing when the
/// frame overran (an overrun is not an error; the loop just proceeds).
pub fn frame_delay_millis(spent: u64, period: u64) -> (r: u64)
    ensures
        r == (if spent >= period { 0u64 } else { (period - spent) as u64 }),
{
    if spent >= period {
        0
    } else {
        period - spent
    }
}

/// Sum of a sequence of frame times.
pub open spec fn millis_sum(s: Seq<u64>) -> int
    decreases s.len(),
{
    if s.len() == 0 {
        0
    } else {
        millis_sum(s.drop_last()) + s.last()
    }
}

/// Rolling average of the recorded frame times, rounded down; used by the
/// frame loop's timing diagnostics.
pub fn timing_average(times: &Vec<u64>) -> (r: u64)
    requires
        1 <= times@.len() <= 1000000,
        forall|k: int| 0 <= k < times@.len() ==> times@[k] <= 1000000000,
    ensures
        r == millis_sum(times@) / (times@.len() as int),
{
    let mut total: u64 = 0;
    let mut k: usize = 0;
    while k < times.len()
        invariant
            0 <= k <= times@.len(),
            1 <= times@.len() <= 1000000,
            forall|t: int| 0 <= t < times@.len() ==> times@[t] <= 1000000000,
            total == millis_sum(times@.take(k as int)),
            total <= k * 1000000000,
        decreases times@.len() - k,
    {
        proof {
            assert(times@.take(k as int + 1).drop_last() =~= times@.take(k as int));
            assert(times@.take(k as int + 1).last() == times@[k as int]);
            lemma_mul_bound(k as int, 1000000000, 1000000, 1000000000);
            assert((k as int + 1) * 1000000000 == k as int * 1000000000 + 1000000000)
                by (nonlinear_arith);
        }
        total = total + times[k];
        k = k + 1;
    }
    proof {
        assert(times@.take(times@.len() as int) =~= times@);
    }
    total / (times.len() as u64)
}

} // verus!

//! A character cell of the output grid.
//!
//! Each cell owns its bounding rectangle and the four quadrant
//! sub-rectangles obtained by bisecting it at its geometric midpoint, all
//! built once when the grid is constructed.  Drawing a shape first tests the
//! cell's full rectangle as a cheap rejection, then OR-accumulates, per
//! quadrant, whether the shape's outline crosses that quadrant's boundary; a
//! quadrant stays touched until the cell is cleared at the end of the frame.

use vstd::prelude::*;
use crate::shapes::{
    Point, Line, Circle, Ellipse, Rectangle, point_ok, line_wf, circle_wf, ellipse_wf, rect_wf,
    rect_hits_line, rect_hits_circle, rect_hits_ellipse,
};

verus! {

/// One character position: bounding rectangle, quadrant rectangles in the
/// order top-left, top-right, bottom-left, bottom-right, and the touched
/// flags for the current frame.
#[derive(Clone, Copy, Debug)]
pub struct Cell {
    pub coords: Rectangle,
    pub quadrants: [Rectangle; 4],
    pub quads_filled: [bool; 4],
}

/// x midpoint of the cell; exact, since well-formed cells have even width.
pub open spec fn cell_mid_x(c: Cell) -> int {
    (c.coords.top_left.x + c.coords.bottom_right.x) / 2
}

/// y midpoint of the cell; exact, since well-formed cells have even height.
pub open spec fn cell_mid_y(c: Cell) -> int {
    (c.coords.top_left.y + c.coords.bottom_right.y) / 2
}

/// The cell's geometry is intact: a non-empty bounding rectangle of even
/// width and height, and the four quadrants bisect it exactly at its
/// midpoint, sharing the cell's center.
pub open spec fn cell_wf(c: Cell) -> bool {
    let tl = c.coords.top_left;
    let br = c.coords.bottom_right;
    let mx = cell_mid_x(c);
    let my = cell_mid_y(c);
    &&& rect_wf(c.coords)
    &&& tl.x < br.x
    &&& tl.y < br.y
    &&& (br.x - tl.x) % 2 == 0
    &&& (br.y - tl.y) % 2 == 0
    &&& rect_wf(c.quadrants[0])
    &&& rect_wf(c.quadrants[1])
    &&& rect_wf(c.quadrants[2])
    &&& rect_wf(c.quadrants[3])
    &&& c.quadrants[0].top_left == tl
    &&& c.quadrants[0].bottom_right.x == mx && c.quadrants[0].bottom_right.y == my
    &&& c.quadrants[1].top_left.x == mx && c.quadrants[1].top_left.y == tl.y
    &&& c.quadrants[1].bottom_right.x == br.x && c.quadrants[1].bottom_right.y == my
    &&& c.quadrants[2].top_left.x == tl.x && c.quadrants[2].top_left.y == my
    &&& c.quadrants[2].bottom_right.x == mx && c.quadrants[2].bottom_right.y == br.y
    &&& c.quadrants[3].top_left.x == mx && c.quadrants[3].top_left.y == my
    &&& c.quadrants[3].bottom_right == br
}

/// How one draw call changes a cell: geometry untouched, and each quadrant's
/// flag ORs in "the segment crosses the cell's boundary and this quadrant's
/// boundary" (the outer test is the cheap whole-cell rejection).
pub open spec fn rendered_line(before: Cell, after: Cell, l: Line) -> bool {
    &&& after.coords == before.coords
    &&& after.quadrants == before.quadrants
    &&& forall|i: int| 0 <= i < 4 ==> after.quads_filled[i] == (before.quads_filled[i]
        || (rect_hits_line(before.coords, l) && rect_hits_line(before.quadrants[i], l)))
}

pub open spec fn rendered_circle(before: Cell, after: Cell, c: Circle) -> bool {
    &&& after.coords == before.coords
    &&& after.quadrants == before.quadrants
    &&& forall|i: int| 0 <= i < 4 ==> after.quads_filled[i] == (before.quads_filled[i]
        || (rect_hits_circle(before.coords, c) && rect_hits_circle(before.quadrants[i], c)))
}

pub open spec fn rendered_ellipse(before: Cell, after: Cell, e: Ellipse) -> bool {
    &&& after.coords == before.coords
    &&& after.quadrants == before.quadrants
    &&& forall|i: int| 0 <= i < 4 ==> after.quads_filled[i] == (before.quads_filled[i]
        || (rect_hits_ellipse(before.coords, e) && rect_hits_ellipse(before.quadrants[i], e)))
}

/// `after` is `before` with all four touched flags reset and the geometry
/// untouched: the relation [`Cell::clear`] establishes.
pub open spec fn cell_cleared(before: Cell, after: Cell) -> bool {
    &&& after.coords == before.coords
    &&& after.quadrants == before.quadrants
    &&& !after.quads_filled[0]
    &&& !after.quads_filled[1]
    &&& !after.quads_filled[2]
    &&& !after.quads_filled[3]
}

/// The 4-bit tileset index of the cell's touched pattern: 8 for top-left, 4
/// for top-right, 2 for bottom-left, 1 for bottom-right.
pub open spec fn cell_index(c: Cell) -> int {
    (if c.quads_filled[0] { 8int } else { 0int })
        + (if c.quads_filled[1] { 4int } else { 0int })
        + (if c.quads_filled[2] { 2int } else { 0int })
        + (if c.quads_filled[3] { 1int } else { 0int })
}

impl Cell {
    /// Builds the cell spanning `p1` (top-left) to `p2` (bottom-right),
    /// with all quadrants untouched.  Width and height must be even so the
    /// quadrants bisect it exactly.
    pub fn new(p1: Point, p2: Point) -> (c: Cell)
        requires
            point_ok(p1),
            point_ok(p2),
            p1.x < p2.x,
            p1.y < p2.y,
            (p2.x - p1.x) % 2 == 0,
            (p2.y - p1.y) % 2 == 0,
        ensures
            cell_wf(c),
            c.coords.top_left == p1,
            c.coords.bottom_right == p2,
            forall|i: int| 0 <= i < 4 ==> !c.quads_filled[i],
    {
        let mid_x: i64 = p1.x + (p2.x - p1.x) / 2;
        let mid_y: i64 = p1.y + (p2.y - p1.y) / 2;
        let quadrants = [
            Rectangle::new(p1, Point::new(mid_x, mid_y)),
            Rectangle::new(Point::new(mid_x, p1.y), Point::new(p2.x, mid_y)),
            Rectangle::new(Point::new(p1.x, mid_y), Point::new(mid_x, p2.y)),
            Rectangle::new(Point::new(mid_x, mid_y), p2),
        ];
        Cell {
            coords: Rectangle::new(p1, p2),
            quadrants,
            quads_filled: [false, false, false, false],
        }
    }

    /// Accumulates one segment: a quick whole-cell rejection, then each
    /// quadrant's flag ORs in whether the segment crosses that quadrant's
    /// boundary.
    pub fn render_line(&mut self, line: &Line)
        requires
            cell_wf(*old(self)),
            line_wf(*line),
        ensures
            cell_wf(*final(self)),
            rendered_line(*old(self), *final(self), *line),
    {
        if !self.coords.overlaps_line(line) {
            return;
        }
        let q0 = self.quadrants[0];
        let q1 = self.quadrants[1];
        let q2 = self.quadrants[2];
        let q3 = self.quadrants[3];
        self.quads_filled[0] = self.quads_filled[0] || q0.overlaps_line(line);
        self.quads_filled[1] = self.quads_filled[1] || q1.overlaps_line(line);
        self.quads_filled[2] = self.quads_filled[2] || q2.overlaps_line(line);
        self.quads_filled[3] = self.quads_filled[3] || q3.overlaps_line(line);
    }

    /// Accumulates one circle outline, as [`Cell::render_line`] does for
    /// segments.
    pub fn render_circle(&mut self, circle: &Circle)
        requires
            cell_wf(*old(self)),
            circle_wf(*circle),
        ensures
            cell_wf(*final(self)),
            rendered_circle(*old(self), *final(self), *circle),
    {
        if !self.coords.overlaps_circle(circle) {
            return;
        }
        let q0 = self.quadrants[0];
        let q1 = self.quadrants[1];
        let q2 = self.quadrants[2];
        let q3 = self.quadrants[3];
        self.quads_filled[0] = self.quads_filled[0] || q0.overlaps_circle(circle);
        self.quads_filled[1] = self.quads_filled[1] || q1.overlaps_circle(circle);
        self.quads_filled[2] = self.quads_filled[2] || q2.overlaps_circle(circle);
        self.quads_filled[3] = self.quads_filled[3] || q3.overlaps_circle(circle);
    }

    /// Accumulates one ellipse outline, as [`Cell::render_line`] does for
    /// segments.
    pub fn render_ellipse(&mut self, ellipse: &Ellipse)
        requires
            cell_wf(*old(self)),
            ellipse_wf(*ellipse),
        ensures
            cell_wf(*final(self)),
            rendered_ellipse(*old(self), *final(self), *ellipse),
    {
        if !self.coords.overlaps_ellipse(ellipse) {
            return;
        }
        let q0 = self.quadrants[0];
        let q1 = self.quadrants[1];
        let q2 = self.quadrants[2];
        let q3 = self.quadrants[3];
        self.quads_filled[0] = self.quads_filled[0] || q0.overlaps_ellipse(ellipse);
        self.quads_filled[1] = self.quads_filled[1] || q1.overlaps_ellipse(ellipse);
        self.quads_filled[2] = self.quads_filled[2] || q2.overlaps_ellipse(ellipse);
        self.quads_filled[3] = self.quads_filled[3] || q3.overlaps_ellipse(ellipse);
    }

    /// Resets all four touched flags, leaving the geometry alone; called
    /// between frames.
    pub fn clear(&mut self)
        ensures
            cell_cleared(*old(self), *final(self)),
            forall|i: int| 0 <= i < 4 ==> !final(self).quads_filled[i],
    {
        self.quads_filled[0] = false;
        self.quads_filled[1] = false;
        self.quads_filled[2] = false;
        self.quads_filled[3] = false;
    }

    /// The glyph for this cell's touched pattern under the given 16-entry
    /// tileset.
    pub fn print(&self, tileset: &[char; 16]) -> (ch: char)
        ensures
            ch == tileset@[cell_index(*self)],
    {
        let mut i: usize = 0;
        if self.quads_filled[3] {
            i += 1;
        }
        if self.quads_filled[2] {
            i += 2;
        }
        if self.quads_filled[1] {
            i += 4;
        }
        if self.quads_filled[0] {
            i += 8;
        }
        tileset[i]
    }
}

} // verus!

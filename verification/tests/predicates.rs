use just_asc::{Point, Line, Circle, Ellipse, Rectangle, Rotation};

fn seg(x1: i64, y1: i64, x2: i64, y2: i64) -> Line {
    Line::new(Point::new(x1, y1), Point::new(x2, y2))
}

#[test]
fn crossing_segments_intersect() {
    let a = seg(0, 0, 100, 100);
    let b = seg(0, 100, 100, 0);
    assert!(a.intersects_line(&b));
}

#[test]
fn parallel_segments_do_not_intersect() {
    let a = seg(0, 0, 100, 0);
    let b = seg(0, 50, 100, 50);
    assert!(!a.intersects_line(&b));
}

#[test]
fn collinear_overlapping_segments_report_no_intersection() {
    let a = seg(0, 0, 100, 0);
    let b = seg(50, 0, 150, 0);
    assert!(!a.intersects_line(&b));
}

#[test]
fn endpoint_touching_does_not_count() {
    // b starts exactly on a's interior; the crossing parameter along b is 0.
    let a = seg(0, 0, 100, 0);
    let b = seg(50, 0, 50, 80);
    assert!(!a.intersects_line(&b));
    // sharing a corner only
    let c = seg(100, 0, 100, 100);
    assert!(!a.intersects_line(&c));
}

#[test]
fn intersection_is_symmetric() {
    let cases = [
        (seg(0, 0, 100, 100), seg(0, 100, 100, 0)),
        (seg(0, 0, 100, 0), seg(50, -10, 50, 10)),
        (seg(-40, 7, 90, 33), seg(-40, 33, 90, 7)),
        (seg(0, 0, 100, 0), seg(0, 50, 100, 50)),
        (seg(0, 0, 10, 10), seg(900, 900, 910, 950)),
    ];
    for (a, b) in cases.iter() {
        assert_eq!(a.intersects_line(b), b.intersects_line(a));
    }
}

#[test]
fn degenerate_segment_never_intersects() {
    let p = seg(500, 500, 500, 500);
    let c = Circle::new(Point::new(500, 500), 100);
    assert!(!p.intersects_circle(&c));
    let l = seg(0, 0, 100, 100);
    assert!(!p.intersects_line(&l));
    assert!(!l.intersects_line(&p));
}

#[test]
fn segment_inside_circle_does_not_intersect() {
    // both endpoints strictly inside: a chord that never reaches the boundary
    let c = Circle::new(Point::new(500, 500), 100);
    let l = seg(450, 480, 550, 520);
    assert!(!l.intersects_circle(&c));
}

#[test]
fn diameter_segment_intersects_circle() {
    // outside -> through the center -> outside: two boundary crossings
    let c = Circle::new(Point::new(500, 500), 100);
    let l = seg(350, 500, 650, 500);
    assert!(l.intersects_circle(&c));
}

#[test]
fn tangent_segment_intersects_circle() {
    // grazes the boundary at one point strictly inside the segment
    let c = Circle::new(Point::new(500, 500), 100);
    let l = seg(300, 400, 700, 400);
    assert!(l.intersects_circle(&c));
}

#[test]
fn segment_crossing_into_circle_intersects() {
    let c = Circle::new(Point::new(500, 500), 100);
    let l = seg(500, 550, 500, 700);
    assert!(l.intersects_circle(&c));
}

#[test]
fn far_segment_misses_circle() {
    let c = Circle::new(Point::new(500, 500), 100);
    let l = seg(0, 0, 100, 10);
    assert!(!l.intersects_circle(&c));
}

#[test]
fn circle_squares_its_radius() {
    let c = Circle::new(Point::new(10, 20), 30);
    assert_eq!(c.r_squared, 900);
    assert_eq!(c.center, Point::new(10, 20));
}

#[test]
fn ellipse_records_axes_and_keel() {
    let k = Rotation::new(4, 3, 5);
    let e = Ellipse::new(Point::new(500, 500), 300, 100, k);
    assert_eq!(e.max_axis, 300);
    assert_eq!(e.a_squared, 90000);
    assert_eq!(e.b_squared, 10000);
    assert_eq!(e.keel, k);
}

#[test]
fn axis_aligned_ellipse_intersections() {
    let e = Ellipse::new(Point::new(500, 500), 300, 100, Rotation::identity());
    // crosses the right vertex region
    assert!(seg(700, 500, 900, 500).intersects_ellipse(&e));
    // crosses the top of the minor axis
    assert!(seg(500, 550, 500, 700).intersects_ellipse(&e));
    // wholly inside
    assert!(!seg(450, 480, 550, 520).intersects_ellipse(&e));
    // far away (rejected by the fast path)
    assert!(!seg(1500, 1500, 1600, 1600).intersects_ellipse(&e));
}

#[test]
fn rotated_ellipse_intersections() {
    // ellipse rotated by the 3-4-5 angle; segments along its own axes
    let e = Ellipse::new(Point::new(500, 500), 300, 100, Rotation::new(4, 3, 5));
    // inside -> outside along the major axis direction (4, 3) / 5
    assert!(seg(660, 620, 900, 800).intersects_ellipse(&e));
    // outside -> inside along the minor axis direction (3, -4) / 5
    assert!(seg(680, 260, 540, 440).intersects_ellipse(&e));
    // the same family of segments against the unrotated ellipse behaves
    // differently: this one crosses only when the keel is the 3-4-5 angle
    let e0 = Ellipse::new(Point::new(500, 500), 300, 100, Rotation::identity());
    assert!(!seg(660, 620, 900, 800).intersects_ellipse(&e0));
    assert!(seg(560, 420, 700, 240).intersects_ellipse(&e0));
    assert!(!seg(560, 420, 700, 240).intersects_ellipse(&e));
}

#[test]
fn rotating_ellipse_and_segment_together_preserves_intersection() {
    // quarter-turn rotation about the shared center
    let e = Ellipse::new(Point::new(500, 500), 300, 100, Rotation::identity());
    let l = seg(700, 500, 900, 500);
    let hit = l.intersects_ellipse(&e);
    // rotate both by 90 degrees: (x, y) -> (500 - (y - 500), 500 + (x - 500))
    let rot90 = Rotation::new(0, 1, 1);
    let e2 = Ellipse::new(Point::new(500, 500), 300, 100, rot90);
    let l2 = seg(500, 700, 500, 900);
    assert_eq!(l2.intersects_ellipse(&e2), hit);
    // and a miss stays a miss
    let m = seg(450, 480, 550, 520);
    let m2 = seg(500 - (480 - 500), 500 + (450 - 500), 500 - (520 - 500), 500 + (550 - 500));
    assert_eq!(m.intersects_ellipse(&e), m2.intersects_ellipse(&e2));
}

#[test]
fn rotating_circle_and_segment_together_preserves_intersection() {
    // 3-4-5 rotation about the circle's center; the chosen endpoints have
    // offsets divisible by 5, so the rotation is exact in subunits
    let rot = |x: i64, y: i64| {
        (
            500 + (4 * (x - 500) - 3 * (y - 500)) / 5,
            500 + (3 * (x - 500) + 4 * (y - 500)) / 5,
        )
    };
    let c = Circle::new(Point::new(500, 500), 100);
    let cases = [
        ((350i64, 500i64), (650i64, 500i64)),
        ((450, 480), (550, 520)),
        ((500, 550), (500, 700)),
        ((0, 0), (100, 10)),
    ];
    for ((x1, y1), (x2, y2)) in cases {
        let before = seg(x1, y1, x2, y2).intersects_circle(&c);
        let (rx1, ry1) = rot(x1, y1);
        let (rx2, ry2) = rot(x2, y2);
        let after = seg(rx1, ry1, rx2, ry2).intersects_circle(&c);
        assert_eq!(before, after);
    }
}

#[test]
fn zero_axis_ellipse_never_intersects() {
    let e = Ellipse::new(Point::new(500, 500), 0, 0, Rotation::identity());
    assert!(!seg(400, 400, 600, 600).intersects_ellipse(&e));
    // one zero semi-axis alone is just as degenerate: the flattened
    // ellipse has no outline, so even a segment crossing its axis line
    // reports nothing
    let flat = Ellipse::new(Point::new(500, 500), 0, 100, Rotation::identity());
    assert!(!seg(300, 400, 700, 600).intersects_ellipse(&flat));
    assert!(!seg(450, 450, 550, 550).intersects_ellipse(&flat));
}

#[test]
fn rectangle_overlap_line() {
    let r = Rectangle::new(Point::new(0, 0), Point::new(100, 100));
    assert!(r.overlaps_line(&seg(-50, 50, 150, 50)));
    assert!(r.overlaps_line(&seg(50, 50, 200, 160)));
    // exiting exactly through a corner is a parameter-1 tie on both edges
    // and is deliberately not counted
    assert!(!r.overlaps_line(&seg(50, 50, 200, 200)));
    // wholly inside: no boundary crossing
    assert!(!r.overlaps_line(&seg(10, 10, 90, 90)));
}

#[test]
fn separated_segment_never_overlaps_rectangle() {
    let r = Rectangle::new(Point::new(0, 0), Point::new(100, 100));
    let far = [
        seg(200, -50, 300, 150),
        seg(150, 101, 900, 500),
        seg(-300, -300, -100, -1),
        seg(0, 150, 100, 101),
    ];
    for l in far.iter() {
        assert!(!r.overlaps_line(l));
    }
}

#[test]
fn rectangle_overlap_circle_and_ellipse() {
    let r = Rectangle::new(Point::new(0, 0), Point::new(100, 100));
    assert!(r.overlaps_circle(&Circle::new(Point::new(50, 50), 70)));
    // circle strictly inside the rectangle: no edge crossing
    assert!(!r.overlaps_circle(&Circle::new(Point::new(50, 50), 20)));
    // circle strictly containing the rectangle: no edge crossing either
    assert!(!r.overlaps_circle(&Circle::new(Point::new(50, 50), 500)));
    let e = Ellipse::new(Point::new(50, 50), 70, 30, Rotation::identity());
    assert!(r.overlaps_ellipse(&e));
    let tiny = Ellipse::new(Point::new(50, 50), 20, 10, Rotation::identity());
    assert!(!r.overlaps_ellipse(&tiny));
    // a degenerate (zero-axis) ellipse strictly inside the rectangle has
    // no outline at all, so it never overlaps either
    let flat = Ellipse::new(Point::new(50, 50), 0, 10, Rotation::identity());
    assert!(!r.overlaps_ellipse(&flat));
}

#[test]
fn rotation_composition_multiplies_pairs() {
    let a = Rotation::new(4, 3, 5);
    let b = Rotation::new(4, -3, 5);
    let c = a.compose(b);
    assert_eq!(c.cos_n, 25);
    assert_eq!(c.sin_n, 0);
    assert_eq!(c.den, 25);
    let quarter = Rotation::new(0, 1, 1);
    let half = quarter.compose(quarter);
    assert_eq!(half.cos_n, -1);
    assert_eq!(half.sin_n, 0);
    assert_eq!(half.den, 1);
}

#[test]
fn line_precomputes_deltas_and_length() {
    let l = seg(10, 20, 40, 60);
    assert_eq!(l.dx, 30);
    assert_eq!(l.dy, 40);
    assert_eq!(l.length_squared, 2500);
    assert_eq!(l.start, Point::new(10, 20));
    assert_eq!(l.end, Point::new(40, 60));
}

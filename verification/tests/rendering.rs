use just_asc::{Grid, GridConfig, CANVAS};
use just_asc::tilesets;

fn config(w: usize, h: usize) -> GridConfig {
    GridConfig {
        cell_width: w,
        cell_height: h,
        tileset: tilesets::pure_ascii(),
        max_framerate: None,
        print_timing: false,
    }
}

fn rows(grid: &Grid) -> Vec<String> {
    grid.frame_chars()
        .iter()
        .map(|row| row.iter().collect::<String>())
        .collect()
}

#[test]
fn fresh_grid_is_blank() {
    let grid = Grid::new(config(10, 10));
    for row in rows(&grid) {
        assert_eq!(row, "          ");
    }
}

#[test]
fn frame_buffer_has_configured_dimensions() {
    let grid = Grid::new(config(7, 3));
    let buf = grid.frame_chars();
    assert_eq!(buf.len(), 3);
    for row in buf {
        assert_eq!(row.len(), 7);
    }
}

#[test]
fn border_lines_draw_the_frame() {
    let mut grid = Grid::new(config(10, 10));
    grid.line(0, 0, CANVAS, 0);
    grid.line(CANVAS, 0, CANVAS, CANVAS);
    grid.line(CANVAS, CANVAS, 0, CANVAS);
    grid.line(0, 0, 0, CANVAS);
    let expected = [
        "P\"\"\"\"\"\"\"\"\u{b6}",
        "[        ]",
        "[        ]",
        "[        ]",
        "[        ]",
        "[        ]",
        "[        ]",
        "[        ]",
        "[        ]",
        "b________d",
    ];
    assert_eq!(rows(&grid), expected);
}

#[test]
fn diagonal_line_marks_the_diagonal_cells() {
    // On a 10x10 grid each cell is one tenth of the canvas.  The grid's
    // one-subunit vertical stagger keeps the corner-to-corner diagonal off
    // the cells' corners and centers, so the canonical diagonal call
    // renders.  Each diagonal cell is marked in its top-left and
    // bottom-right quadrants, plus the bottom-left one that the line clips
    // just below the cell's center (the two-quadrant backslash pattern
    // alone is not reachable under the strict boundary-crossing tests: a
    // segment from top-left to bottom-right either passes exactly through
    // the center, which the strict tests exclude, or clips a third
    // quadrant).
    let mut grid = Grid::new(config(10, 10));
    grid.line(0, 0, CANVAS, CANVAS);
    let buf = rows(&grid);
    for j in 0..10usize {
        for (i, ch) in buf[j].chars().enumerate() {
            if i == j {
                assert_eq!(ch, 'b');
                let q = grid.cells[j][i].quads_filled;
                assert!(q[0] && !q[1] && q[2] && q[3]);
            } else if j >= 1 && i == j - 1 {
                // the cell just left of the diagonal: grazed in its
                // top-right quadrant
                assert_eq!(ch, '\'');
            } else {
                assert_eq!(ch, ' ');
            }
        }
    }
}

#[test]
fn centered_circle_buffer_is_rotation_symmetric() {
    // A circle of radius half the canvas, centered on the canvas, on a
    // square grid: rotating the printed buffer by a quarter turn (with the
    // matching permutation of quadrant bits) reproduces it exactly.
    let mut grid = Grid::new(config(20, 20));
    grid.circle(CANVAS / 2, CANVAS / 2, CANVAS / 2);
    let n = 20usize;
    let q: Vec<Vec<[bool; 4]>> = (0..n)
        .map(|j| (0..n).map(|i| grid.cells[j][i].quads_filled).collect())
        .collect();
    for j in 0..n {
        for i in 0..n {
            // cell (j, i) rotated a quarter turn clockwise comes from cell
            // (n-1-i, j); quadrants permute TL<-BL, TR<-TL, BL<-BR, BR<-TR
            let src = q[n - 1 - i][j];
            let expect = [src[2], src[0], src[3], src[1]];
            assert_eq!(q[j][i], expect, "cell ({}, {})", j, i);
        }
    }
}

#[test]
fn centered_circle_expected_buffer() {
    let mut grid = Grid::new(config(20, 20));
    grid.circle(1500, 1500, 1500);
    let expected = [
        "     ._P\"\"\"\"\u{b6}_,     ",
        "    d\"        \"b    ",
        "   d`          'b   ",
        "  d`            'b  ",
        " d`              'b ",
        ".[                ],",
        "]                  [",
        "P                  \u{b6}",
        "[                  ]",
        "[                  ]",
        "[                  ]",
        "[                  ]",
        "b                  d",
        "]                  [",
        "'[                ]`",
        " \u{b6},              .P ",
        "  \u{b6},            .P  ",
        "   \u{b6},          .P   ",
        "    \u{b6}_        _P    ",
        "     '\"b____d\"`     ",
    ];
    assert_eq!(rows(&grid), expected);
}

#[test]
fn drawing_a_line_twice_changes_nothing() {
    let mut once = Grid::new(config(10, 10));
    once.line(13, 27, 800, 531);
    let mut twice = Grid::new(config(10, 10));
    twice.line(13, 27, 800, 531);
    twice.line(13, 27, 800, 531);
    assert_eq!(rows(&once), rows(&twice));
    for j in 0..10usize {
        for i in 0..10usize {
            assert_eq!(once.cells[j][i].quads_filled, twice.cells[j][i].quads_filled);
        }
    }
}

#[test]
fn clear_erases_the_previous_frame() {
    let mut grid = Grid::new(config(10, 10));
    grid.line(0, 0, CANVAS, 0);
    grid.circle(1500, 1500, 900);
    grid.clear();
    for row in rows(&grid) {
        assert_eq!(row, "          ");
    }
    for j in 0..10usize {
        for i in 0..10usize {
            assert_eq!(grid.cells[j][i].quads_filled, [false; 4]);
        }
    }
    // and the next frame starts from scratch
    grid.line(0, 0, CANVAS, 0);
    let buf = rows(&grid);
    assert_eq!(buf[0], "\"\"\"\"\"\"\"\"\"\"");
    for j in 1..10usize {
        assert_eq!(buf[j], "          ");
    }
}

#[test]
fn braille_tileset_renders_the_same_pattern() {
    let mut ascii_grid = Grid::new(config(10, 10));
    ascii_grid.line(0, 0, CANVAS, 0);
    let mut braille_grid = Grid::new(GridConfig {
        cell_width: 10,
        cell_height: 10,
        tileset: tilesets::braille(),
        max_framerate: None,
        print_timing: false,
    });
    braille_grid.line(0, 0, CANVAS, 0);
    let top: String = braille_grid.frame_chars()[0].iter().collect();
    assert_eq!(top, "\u{281b}".repeat(10));
    assert_eq!(ascii_grid.frame_chars()[0].iter().collect::<String>(), "\"".repeat(10));
}

#[test]
fn max_framerate_defaults_to_twenty() {
    let grid = Grid::new(config(10, 10));
    assert_eq!(grid.max_framerate, 20);
    assert_eq!(grid.frame_period_millis(), 50);
    let fast = Grid::new(GridConfig {
        cell_width: 10,
        cell_height: 10,
        tileset: tilesets::pure_ascii(),
        max_framerate: Some(40),
        print_timing: false,
    });
    assert_eq!(fast.max_framerate, 40);
    assert_eq!(fast.frame_period_millis(), 25);
}

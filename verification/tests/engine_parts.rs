use just_asc::{Grid, GridConfig, Transform, Rotation, Point, Cell, CANVAS};
use just_asc::grid::{frame_delay_millis, timing_average};
use just_asc::tilesets;

fn config(w: usize, h: usize) -> GridConfig {
    GridConfig {
        cell_width: w,
        cell_height: h,
        tileset: tilesets::pure_ascii(),
        max_framerate: None,
        print_timing: false,
    }
}

fn rows(grid: &Grid) -> Vec<String> {
    grid.frame_chars()
        .iter()
        .map(|row| row.iter().collect::<String>())
        .collect()
}

#[test]
fn pure_ascii_table_is_exact() {
    let t = tilesets::pure_ascii();
    let expected = [
        ' ', '.', ',', '_', '\'', ']', '/', 'd',
        '`', '\\', '[', 'b', '"', '\u{b6}', 'P', '#',
    ];
    assert_eq!(t, expected);
}

#[test]
fn braille_table_is_exact() {
    let t = tilesets::braille();
    let expected = [
        '\u{2800}', '\u{28a0}', '\u{2844}', '\u{28e4}',
        '\u{2818}', '\u{28b8}', '\u{285c}', '\u{28fc}',
        '\u{2803}', '\u{28a3}', '\u{2847}', '\u{28e7}',
        '\u{281b}', '\u{28bb}', '\u{285f}', '\u{28ff}',
    ];
    assert_eq!(t, expected);
}

#[test]
fn cell_print_maps_every_pattern() {
    let tiles = tilesets::pure_ascii();
    for mask in 0..16usize {
        let mut cell = Cell::new(Point::new(0, 0), Point::new(10, 10));
        cell.quads_filled = [
            mask & 8 != 0,
            mask & 4 != 0,
            mask & 2 != 0,
            mask & 1 != 0,
        ];
        assert_eq!(cell.print(&tiles), tiles[mask]);
    }
}

#[test]
fn transform_point_rotates_then_translates() {
    let mut t = Transform::new();
    assert_eq!(t.point(70, -30), Point::new(70, -30));
    t.translate(100, 200);
    assert_eq!(t.point(70, -30), Point::new(170, 170));
    // 3-4-5 rotation: cos = 3/5, sin = 4/5
    let mut r = Transform::new();
    r.rotate(Rotation::new(3, 4, 5));
    assert_eq!(r.point(100, 0), Point::new(60, 80));
    assert_eq!(r.point(0, 100), Point::new(-80, 60));
    // rounding to nearest on an inexact division
    assert_eq!(r.point(1, 0), Point::new(1, 1));
}

#[test]
fn translated_circle_matches_directly_drawn_circle() {
    let mut moved = Grid::new(config(16, 16));
    moved.translate(CANVAS / 2, CANVAS / 2);
    moved.circle(0, 0, 400);
    moved.clear_transform();
    let mut direct = Grid::new(config(16, 16));
    direct.circle(CANVAS / 2, CANVAS / 2, 400);
    assert_eq!(rows(&moved), rows(&direct));
    assert_eq!(moved.transform(), Transform::new());
}

#[test]
fn quarter_turn_transform_matches_rotated_line() {
    let mut turned = Grid::new(config(12, 12));
    turned.translate(500, 500);
    turned.rotate(Rotation::new(0, 1, 1));
    turned.line(-300, -100, 300, 100);
    let mut direct = Grid::new(config(12, 12));
    // (x, y) -> (-y, x), then translated by (500, 500)
    direct.line(500 + 100, 500 - 300, 500 - 100, 500 + 300);
    assert_eq!(rows(&turned), rows(&direct));
}

#[test]
fn clear_resets_the_transform() {
    let mut grid = Grid::new(config(8, 8));
    grid.translate(100, 100);
    grid.rotate(Rotation::new(3, 4, 5));
    grid.clear();
    assert_eq!(grid.transform(), Transform::new());
}

#[test]
fn set_rotation_replaces_accumulated_rotation() {
    let mut t = Transform::new();
    t.rotate(Rotation::new(3, 4, 5));
    t.set_rotation(Rotation::new(0, 1, 1));
    assert_eq!(t.point(100, 0), Point::new(0, 100));
}

#[test]
fn frame_delay_is_the_remaining_period() {
    assert_eq!(frame_delay_millis(10, 50), 40);
    assert_eq!(frame_delay_millis(50, 50), 0);
    assert_eq!(frame_delay_millis(80, 50), 0);
    assert_eq!(frame_delay_millis(0, 50), 50);
}

#[test]
fn timing_average_rounds_down() {
    assert_eq!(timing_average(&vec![4, 4, 4]), 4);
    assert_eq!(timing_average(&vec![10, 11]), 10);
    assert_eq!(timing_average(&vec![7]), 7);
    assert_eq!(timing_average(&vec![1, 2, 3, 4, 5, 6]), 3);
}

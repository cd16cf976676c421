use pixel_paint_studio::shapes::{line_cells, pseudo_hash, rect_cells};

#[test]
fn line_cells_include_start_and_end() {
    let cells = line_cells((2, 3), (8, 9));
    assert_eq!(cells.first(), Some(&(2, 3)));
    assert_eq!(cells.last(), Some(&(8, 9)));
}

#[test]
fn rect_outline_skips_center() {
    let cells = rect_cells((1, 1), (3, 3), false);
    assert!(cells.contains(&(1, 1)));
    assert!(cells.contains(&(3, 3)));
    assert!(!cells.contains(&(2, 2)));
}

#[test]
fn filled_rect_contains_center() {
    let cells = rect_cells((1, 1), (3, 3), true);
    assert!(cells.contains(&(2, 2)));
}

#[test]
fn horizontal_line_covers_each_column_once() {
    let cells = line_cells((5, 4), (1, 4));
    assert_eq!(cells, vec![(5, 4), (4, 4), (3, 4), (2, 4), (1, 4)]);
}

#[test]
fn diagonal_line_steps_both_axes() {
    let cells = line_cells((0, 0), (3, 3));
    assert_eq!(cells, vec![(0, 0), (1, 1), (2, 2), (3, 3)]);
}

#[test]
fn shallow_line_has_one_cell_per_column() {
    let cells = line_cells((0, 0), (6, 2));
    assert_eq!(cells.len(), 7);
    assert_eq!(cells, vec![(0, 0), (1, 0), (2, 1), (3, 1), (4, 1), (5, 2), (6, 2)]);
}

#[test]
fn steep_line_has_one_cell_per_row() {
    let cells = line_cells((2, 9), (0, 1));
    assert_eq!(cells.len(), 9);
    assert_eq!(cells.first(), Some(&(2, 9)));
    assert_eq!(cells.last(), Some(&(0, 1)));
}

#[test]
fn line_cells_touch_and_stay_in_the_box() {
    let cells = line_cells((3, 17), (11, 2));
    for pair in cells.windows(2) {
        let dx = pair[1].0 as i64 - pair[0].0 as i64;
        let dy = pair[1].1 as i64 - pair[0].1 as i64;
        assert!(dx == 0 || dx == 1);
        assert!(dy == 0 || dy == -1);
        assert!(dx != 0 || dy != 0);
    }
    for &(x, y) in &cells {
        assert!((3..=11).contains(&x));
        assert!((2..=17).contains(&y));
    }
    assert_eq!(cells.len(), 16);
}

#[test]
fn single_cell_line() {
    assert_eq!(line_cells((7, 7), (7, 7)), vec![(7, 7)]);
}

#[test]
fn rect_outline_is_listed_row_by_row() {
    let cells = rect_cells((3, 3), (1, 1), false);
    assert_eq!(cells, vec![(1, 1), (2, 1), (3, 1), (1, 2), (3, 2), (1, 3), (2, 3), (3, 3)]);
}

#[test]
fn filled_rect_lists_the_whole_box() {
    let cells = rect_cells((0, 2), (2, 3), true);
    assert_eq!(cells, vec![(0, 2), (1, 2), (2, 2), (0, 3), (1, 3), (2, 3)]);
}

#[test]
fn thin_rect_outline_is_its_whole_area() {
    let cells = rect_cells((4, 1), (6, 2), false);
    assert_eq!(cells, vec![(4, 1), (5, 1), (6, 1), (4, 2), (5, 2), (6, 2)]);
}

#[test]
fn pseudo_hash_matches_xorshift() {
    assert_eq!(pseudo_hash(0), 0);
    assert_eq!(pseudo_hash(1), 270369);
    assert_eq!(pseudo_hash(42), 11355432);
    assert_eq!(pseudo_hash(12345), 958040966);
    assert_eq!(pseudo_hash(-7), 1777881);
}

#[test]
fn rectangle_cells_do_not_depend_on_the_corners_chosen() {
    for filled in [false, true] {
        let cells = rect_cells((2, 7), (6, 3), filled);
        assert_eq!(rect_cells((6, 3), (2, 7), filled), cells);
        assert_eq!(rect_cells((2, 3), (6, 7), filled), cells);
        assert_eq!(rect_cells((6, 7), (2, 3), filled), cells);
    }
    let outline = rect_cells((2, 7), (6, 3), false);
    let solid = rect_cells((2, 7), (6, 3), true);
    assert_eq!(outline.len(), 16);
    assert_eq!(solid.len(), 25);
    assert!(outline.iter().all(|c| solid.contains(c)));
}

#[test]
fn lines_may_lie_near_the_coordinate_limit() {
    let cells = line_cells((715_827_880, 5), (715_827_882, 6));
    assert_eq!(cells, vec![(715_827_880, 5), (715_827_881, 6), (715_827_882, 6)]);
}

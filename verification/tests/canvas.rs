use pixel_paint_studio::app::App;
use pixel_paint_studio::pixel::{CanvasBackground, Pixel, Tool};

fn canvas(width: usize, height: usize, background: CanvasBackground) -> App {
    let mut app = App::new();
    app.setup.use_custom = true;
    app.setup.custom_width_text = width.to_string().chars().collect();
    app.setup.custom_height_text = height.to_string().chars().collect();
    app.setup.background = background;
    app.setup.demo_art = false;
    app.create_project_from_setup();
    app
}

fn px(app: &App, x: usize, y: usize) -> Pixel {
    app.pixels[y * app.width + x]
}

fn painted_cells(app: &App, color: Pixel) -> Vec<(usize, usize)> {
    let mut out = Vec::new();
    for y in 0..app.height {
        for x in 0..app.width {
            if px(app, x, y) == color {
                out.push((x, y));
            }
        }
    }
    out
}

const RED: Pixel = Pixel { r: 255, g: 0, b: 0, a: 255 };
const BLUE: Pixel = Pixel { r: 0, g: 0, b: 255, a: 255 };

#[test]
fn new_app_starts_on_an_empty_canvas() {
    let app = App::new();
    assert_eq!((app.width, app.height), (48, 48));
    assert_eq!(app.pixels.len(), 48 * 48);
    assert!(app.pixels.iter().all(|p| *p == Pixel::transparent()));
    assert_eq!(app.palette.len(), 20);
    assert_eq!(app.current, Pixel::rgb(255, 216, 64));
    assert_eq!(app.tool, Tool::Brush);
    assert_eq!(app.brush_size, 1);
    assert_eq!(app.status.iter().collect::<String>(), "Ready");
}

#[test]
fn set_raw_paints_one_cell_and_ignores_outside() {
    let mut app = canvas(8, 8, CanvasBackground::White);
    app.set_raw(2, 3, RED);
    app.set_raw(8, 0, RED);
    app.set_raw(0, 8, RED);
    assert_eq!(painted_cells(&app, RED), vec![(2, 3)]);
    assert_eq!(app.pixel(2, 3), RED);
    assert_eq!(app.index(2, 3), 26);
    assert!(app.in_bounds(7, 7));
    assert!(!app.in_bounds(8, 7));
}

#[test]
fn brush_of_size_three_paints_a_square_around_the_cell() {
    let mut app = canvas(8, 8, CanvasBackground::White);
    app.brush_size = 3;
    app.paint_brush(4, 4, RED, false);
    let mut expected = Vec::new();
    for y in 3..6 {
        for x in 3..6 {
            expected.push((x, y));
        }
    }
    assert_eq!(painted_cells(&app, RED), expected);
}

#[test]
fn even_brush_reaches_further_up_and_left() {
    let mut app = canvas(8, 8, CanvasBackground::White);
    app.brush_size = 2;
    app.paint_brush(0, 0, RED, false);
    assert_eq!(painted_cells(&app, RED), vec![(0, 0)]);
    app.paint_brush(5, 5, RED, false);
    assert_eq!(painted_cells(&app, RED), vec![(0, 0), (4, 4), (5, 4), (4, 5), (5, 5)]);
}

#[test]
fn dithered_brush_paints_every_other_cell() {
    let mut app = canvas(8, 8, CanvasBackground::White);
    app.brush_size = 3;
    app.paint_brush(4, 4, RED, true);
    assert_eq!(painted_cells(&app, RED), vec![(3, 3), (5, 3), (4, 4), (3, 5), (5, 5)]);
}

#[test]
fn mirror_tool_paints_both_sides() {
    let mut app = canvas(8, 8, CanvasBackground::White);
    app.tool = Tool::Mirror;
    app.current = RED;
    app.paint_cell(1, 2);
    assert_eq!(painted_cells(&app, RED), vec![(1, 2), (6, 2)]);
}

#[test]
fn eraser_paints_transparent() {
    let mut app = canvas(8, 8, CanvasBackground::Dark);
    app.tool = Tool::Eraser;
    app.paint_cell(0, 0);
    assert_eq!(painted_cells(&app, Pixel::transparent()), vec![(0, 0)]);
}

#[test]
fn spray_stays_within_its_radius_and_repeats() {
    let mut a = canvas(32, 32, CanvasBackground::White);
    a.tool = Tool::Spray;
    a.current = RED;
    a.tick = 5;
    let mut b = canvas(32, 32, CanvasBackground::White);
    b.tool = Tool::Spray;
    b.current = RED;
    b.tick = 5;
    a.paint_cell(16, 16);
    b.spray_cell(16, 16);
    let cells = painted_cells(&a, RED);
    assert_eq!(cells, painted_cells(&b, RED));
    assert!(!cells.is_empty());
    for (x, y) in cells {
        let dx = x as i64 - 16;
        let dy = y as i64 - 16;
        assert!(dx * dx + dy * dy <= 16);
    }
}

#[test]
fn bucket_fill_stops_at_other_colours() {
    let mut app = canvas(8, 8, CanvasBackground::White);
    app.current = BLUE;
    for y in 0..8 {
        app.set_raw(3, y, BLUE);
    }
    app.current = RED;
    assert!(app.bucket_fill(0, 0));
    let red = painted_cells(&app, RED);
    assert_eq!(red.len(), 24);
    assert!(red.iter().all(|&(x, _)| x < 3));
    assert_eq!(painted_cells(&app, BLUE).len(), 8);
    assert_eq!(painted_cells(&app, Pixel::rgb(255, 255, 255)).len(), 32);
}

#[test]
fn bucket_fill_does_not_leak_diagonally() {
    let mut app = canvas(8, 8, CanvasBackground::White);
    for i in 0..8 {
        app.set_raw(i, 7 - i, BLUE);
    }
    app.current = RED;
    assert!(app.bucket_fill(0, 0));
    let red = painted_cells(&app, RED);
    assert_eq!(red.len(), 28);
    assert!(red.iter().all(|&(x, y)| x + y < 7));
}

#[test]
fn bucket_fill_with_the_same_colour_changes_nothing() {
    let mut app = canvas(8, 8, CanvasBackground::White);
    app.current = Pixel::rgb(255, 255, 255);
    let before = app.pixels.clone();
    assert!(!app.bucket_fill(4, 4));
    assert_eq!(app.pixels, before);
}

#[test]
fn draw_line_and_rect_paint_their_cells() {
    let mut app = canvas(8, 8, CanvasBackground::White);
    app.draw_line((0, 0), (7, 7), RED);
    assert_eq!(painted_cells(&app, RED), (0..8).map(|i| (i, i)).collect::<Vec<_>>());
    app.draw_rect((1, 5), (3, 7), BLUE, false);
    let blue = painted_cells(&app, BLUE);
    assert_eq!(blue.len(), 8);
    assert!(!blue.contains(&(2, 6)));
    app.draw_rect((5, 0), (7, 2), BLUE, true);
    assert_eq!(painted_cells(&app, BLUE).len(), 17);
}

#[test]
fn paint_cells_skips_cells_off_the_canvas() {
    let mut app = canvas(8, 8, CanvasBackground::White);
    app.paint_cells(&vec![(0, 0), (9, 9), (7, 7), (100, 0)], RED);
    assert_eq!(painted_cells(&app, RED), vec![(0, 0), (7, 7)]);
}

#[test]
fn stamp_sprite_paints_blocks_later_over_earlier() {
    let mut app = canvas(8, 8, CanvasBackground::White);
    let rows = vec!["x.o", "ow"];
    let cols = vec![(0, 3), (3, 5), (2, 6)];
    let row_spans = vec![(0, 2), (1, 3)];
    app.stamp_sprite(&rows, &cols, &row_spans);
    let dark = Pixel::rgb(54, 34, 38);
    let fur = Pixel::rgb(244, 153, 76);
    let shine = Pixel::rgb(255, 240, 190);
    assert_eq!(px(&app, 0, 0), dark);
    assert_eq!(px(&app, 5, 0), fur);
    assert_eq!(px(&app, 2, 0), fur);
    assert_eq!(px(&app, 4, 2), shine);
    assert_eq!(px(&app, 3, 1), shine);
    assert_eq!(px(&app, 0, 2), fur);
    assert_eq!(px(&app, 7, 7), Pixel::rgb(255, 255, 255));
}

#[test]
fn filling_again_with_the_same_colour_changes_nothing() {
    let mut app = canvas(8, 8, CanvasBackground::White);
    app.set_raw(4, 0, BLUE);
    app.current = RED;
    assert!(app.bucket_fill(2, 2));
    let after = app.pixels.clone();
    assert!(!app.bucket_fill(2, 2));
    assert_eq!(app.pixels, after);
}

#[test]
fn a_brush_far_off_the_canvas_paints_nothing() {
    let mut app = canvas(8, 8, CanvasBackground::White);
    app.brush_size = 8;
    app.paint_brush(2_147_483_640, 1_000_000_000, RED, false);
    assert!(painted_cells(&app, RED).is_empty());
    app.paint_brush(9, 9, RED, false);
    assert_eq!(painted_cells(&app, RED), vec![(5, 5), (6, 5), (7, 5), (5, 6), (6, 6), (7, 6), (5, 7), (6, 7), (7, 7)]);
}

#[test]
fn a_spray_off_the_canvas_only_reaches_the_edge() {
    let mut app = canvas(8, 8, CanvasBackground::White);
    app.tool = Tool::Spray;
    app.current = RED;
    app.paint_cell(1_000, 1_000);
    assert!(painted_cells(&app, RED).is_empty());
    app.paint_cell(9, 9);
    for (x, y) in painted_cells(&app, RED) {
        let (dx, dy) = (x as i64 - 9, y as i64 - 9);
        assert!(dx * dx + dy * dy <= 16);
    }
}

use pixel_paint_studio::app::{App, HISTORY_LIMIT};
use pixel_paint_studio::pixel::{CanvasBackground, Pixel};

fn canvas() -> App {
    let mut app = App::new();
    app.setup.use_custom = true;
    app.setup.custom_width_text = vec!['8'];
    app.setup.custom_height_text = vec!['8'];
    app.setup.background = CanvasBackground::White;
    app.setup.demo_art = false;
    app.create_project_from_setup();
    app
}

fn status(app: &App) -> String {
    app.status.iter().collect()
}

const RED: Pixel = Pixel { r: 255, g: 0, b: 0, a: 255 };

#[test]
fn undo_brings_back_the_recorded_canvas() {
    let mut app = canvas();
    let before = app.pixels.clone();
    app.push_undo();
    app.set_raw(1, 1, RED);
    app.set_raw(2, 2, RED);
    app.undo();
    assert_eq!(app.pixels, before);
    assert_eq!(status(&app), "Undo");
    assert_eq!(app.redo.len(), 1);
    assert!(app.undo.is_empty());
}

#[test]
fn redo_takes_back_an_undo() {
    let mut app = canvas();
    app.push_undo();
    app.set_raw(1, 1, RED);
    let painted = app.pixels.clone();
    let undo_before = app.undo.clone();
    let redo_before = app.redo.clone();
    app.undo();
    app.redo();
    assert_eq!(app.pixels, painted);
    assert_eq!(app.undo, undo_before);
    assert_eq!(app.redo, redo_before);
    assert_eq!(status(&app), "Redo");
}

#[test]
fn undo_takes_back_a_redo() {
    let mut app = canvas();
    app.push_undo();
    app.set_raw(1, 1, RED);
    app.undo();
    let state = app.pixels.clone();
    let undo_before = app.undo.clone();
    let redo_before = app.redo.clone();
    app.redo();
    app.undo();
    assert_eq!(app.pixels, state);
    assert_eq!(app.undo, undo_before);
    assert_eq!(app.redo, redo_before);
}

#[test]
fn undo_and_redo_without_history_change_nothing() {
    let mut app = canvas();
    let status_before = status(&app);
    app.undo();
    app.redo();
    assert!(app.undo.is_empty() && app.redo.is_empty());
    assert_eq!(status(&app), status_before);
}

#[test]
fn the_same_canvas_is_not_recorded_twice() {
    let mut app = canvas();
    app.push_undo();
    app.push_undo();
    assert_eq!(app.undo.len(), 1);
}

#[test]
fn recording_clears_redo() {
    let mut app = canvas();
    app.push_undo();
    app.set_raw(0, 0, RED);
    app.undo();
    assert_eq!(app.redo.len(), 1);
    app.set_raw(3, 3, RED);
    app.push_undo();
    assert!(app.redo.is_empty());
}

#[test]
fn history_keeps_the_latest_snapshots() {
    let mut app = canvas();
    for i in 0..(HISTORY_LIMIT + 5) {
        app.push_undo();
        let shade = (i % 256) as u8;
        app.set_raw(i % 8, (i / 8) % 8, Pixel::rgb(shade, 1, 2));
    }
    assert_eq!(app.undo.len(), HISTORY_LIMIT);
    assert!(app.undo.len() + app.redo.len() <= HISTORY_LIMIT);
    let last = app.undo.last().unwrap().clone();
    app.undo();
    assert_eq!(app.pixels, last);
}

#[test]
fn clear_canvas_fills_the_background_and_can_be_undone() {
    let mut app = canvas();
    app.set_raw(4, 4, RED);
    let before = app.pixels.clone();
    app.clear_canvas();
    assert!(app.pixels.iter().all(|p| *p == Pixel::rgb(255, 255, 255)));
    assert_eq!(status(&app), "Canvas cleared");
    app.undo();
    assert_eq!(app.pixels, before);
}

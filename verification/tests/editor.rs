use pixel_paint_studio::app::{App, AppMode};
use pixel_paint_studio::editor::{ClickOutcome, EditorTarget, KeyInput, PointerAction, PointerInput};
use pixel_paint_studio::pixel::{CanvasBackground, Pixel, Tool};

fn canvas() -> App {
    let mut app = App::new();
    app.setup.use_custom = true;
    app.setup.custom_width_text = vec!['1', '6'];
    app.setup.custom_height_text = vec!['1', '6'];
    app.setup.background = CanvasBackground::White;
    app.setup.demo_art = false;
    app.create_project_from_setup();
    app
}

fn status(app: &App) -> String {
    app.status.iter().collect()
}

fn px(app: &App, x: usize, y: usize) -> Pixel {
    app.pixels[y * app.width + x]
}

fn count(app: &App, color: Pixel) -> usize {
    app.pixels.iter().filter(|p| **p == color).count()
}

fn keys() -> KeyInput {
    KeyInput {
        ctrl: false,
        shift: false,
        n: false,
        z: false,
        y: false,
        s: false,
        o: false,
        b: false,
        e: false,
        f: false,
        i: false,
        l: false,
        r: false,
        m: false,
        d: false,
        g: false,
        left_bracket: false,
        minus: false,
        right_bracket: false,
        equal: false,
        delete: false,
    }
}

const RED: Pixel = Pixel { r: 255, g: 0, b: 0, a: 255 };

#[test]
fn tool_labels_and_keys() {
    let labels: Vec<&str> = (0..10).map(|i| Tool::from_index(i).unwrap().label()).collect();
    assert_eq!(labels, vec!["Brush", "Eraser", "Fill", "Picker", "Line", "Rect", "Ellipse", "Spray", "Mirror", "Dither"]);
    let keys: Vec<&str> = (0..10).map(|i| Tool::from_index(i).unwrap().key()).collect();
    assert_eq!(keys, vec!["B", "E", "F", "I", "L", "R", "O", "S", "M", "D"]);
    assert!(Tool::from_index(10).is_none());
    assert_eq!(CanvasBackground::Dark.label(), "Dark");
    assert_eq!(CanvasBackground::White.pixel(), Pixel::rgb(255, 255, 255));
}

#[test]
fn brush_size_is_kept_between_one_and_eight() {
    let mut app = canvas();
    app.change_brush_size(-1);
    assert_eq!(app.brush_size, 1);
    assert_eq!(status(&app), "Brush 1px");
    for _ in 0..10 {
        app.change_brush_size(1);
    }
    assert_eq!(app.brush_size, 8);
    assert_eq!(status(&app), "Brush 8px");
    assert_eq!(app.status_hold_ms, Some(2200));
}

#[test]
fn tool_and_palette_clicks() {
    let mut app = canvas();
    assert!(app.handle_tool_click(2));
    assert_eq!(app.tool, Tool::Fill);
    assert_eq!(status(&app), "Fill");
    assert!(!app.handle_tool_click(12));
    assert_eq!(app.tool, Tool::Fill);
    assert!(app.handle_palette_click(4));
    assert_eq!(app.current, Pixel::rgb(255, 72, 91));
    assert_eq!(app.tool, Tool::Brush);
    assert_eq!(status(&app), "Color selected");
    assert!(!app.handle_palette_click(20));
}

#[test]
fn action_clicks() {
    let mut app = canvas();
    assert_eq!(app.handle_action_click(EditorTarget::Export), ClickOutcome::Export);
    assert_eq!(app.handle_action_click(EditorTarget::ReferenceImport), ClickOutcome::ImportReference);
    assert_eq!(app.handle_action_click(EditorTarget::OpacitySlider), ClickOutcome::SetOpacity);
    assert_eq!(app.handle_action_click(EditorTarget::Nothing), ClickOutcome::Missed);
    assert_eq!(app.handle_action_click(EditorTarget::Grid), ClickOutcome::Handled);
    assert!(!app.show_grid);
    assert_eq!(status(&app), "Grid off");
    app.handle_action_click(EditorTarget::BrushPlus);
    assert_eq!(app.brush_size, 2);
    app.handle_action_click(EditorTarget::ReferenceClear);
    assert_eq!(status(&app), "Reference cleared");
    app.handle_action_click(EditorTarget::NewProject);
    assert_eq!(app.mode, AppMode::Setup);
}

#[test]
fn keyboard_picks_the_last_tool_in_toolbar_order() {
    let mut app = canvas();
    let mut k = keys();
    k.b = true;
    k.l = true;
    k.g = true;
    k.equal = true;
    app.handle_keyboard_tools(&k);
    assert_eq!(app.tool, Tool::Line);
    assert!(!app.show_grid);
    assert_eq!(app.brush_size, 2);
    assert_eq!(status(&app), "Brush 2px");
}

#[test]
fn tool_keys_are_ignored_with_control() {
    let mut app = canvas();
    let mut k = keys();
    k.ctrl = true;
    k.e = true;
    app.handle_keyboard_tools(&k);
    assert_eq!(app.tool, Tool::Brush);
}

#[test]
fn control_shortcuts() {
    let mut app = canvas();
    app.push_undo();
    app.set_raw(0, 0, RED);
    let mut k = keys();
    k.ctrl = true;
    k.z = true;
    k.s = true;
    let req = app.handle_keyboard_commands(&k);
    assert!(!req.stop && req.export && !req.import);
    assert_eq!(px(&app, 0, 0), Pixel::rgb(255, 255, 255));
    k.shift = true;
    app.handle_keyboard_commands(&k);
    assert_eq!(px(&app, 0, 0), RED);
    let mut k = keys();
    k.ctrl = true;
    k.n = true;
    assert!(app.handle_keyboard_commands(&k).stop);
    assert_eq!(app.mode, AppMode::Setup);
}

#[test]
fn delete_clears_the_canvas() {
    let mut app = canvas();
    app.set_raw(3, 3, RED);
    let mut k = keys();
    k.delete = true;
    app.handle_keyboard_tools(&k);
    assert_eq!(count(&app, RED), 0);
    assert_eq!(app.undo.len(), 1);
}

#[test]
fn a_brush_stroke_follows_the_pointer() {
    let mut app = canvas();
    app.current = RED;
    app.begin_canvas_action(Some((1, 1)));
    assert!(app.drawing_stroke);
    assert_eq!(app.undo.len(), 1);
    app.continue_canvas_action(Some((5, 1)));
    app.finish_canvas_action(Some((5, 1)), false);
    assert!(!app.drawing_stroke);
    assert_eq!(count(&app, RED), 5);
    for x in 1..=5 {
        assert_eq!(px(&app, x, 1), RED);
    }
    app.undo();
    assert_eq!(count(&app, RED), 0);
}

#[test]
fn moving_without_a_stroke_paints_nothing() {
    let mut app = canvas();
    app.continue_canvas_action(Some((5, 5)));
    assert_eq!(count(&app, Pixel::rgb(255, 255, 255)), 256);
}

#[test]
fn fill_that_changes_nothing_drops_its_record() {
    let mut app = canvas();
    app.tool = Tool::Fill;
    app.current = Pixel::rgb(255, 255, 255);
    app.begin_canvas_action(Some((2, 2)));
    assert!(app.undo.is_empty());
    app.current = RED;
    app.begin_canvas_action(Some((2, 2)));
    assert_eq!(app.undo.len(), 1);
    assert_eq!(count(&app, RED), 256);
}

#[test]
fn picker_takes_visible_colours_only() {
    let mut app = canvas();
    app.set_raw(2, 2, RED);
    app.tool = Tool::Picker;
    app.begin_canvas_action(Some((2, 2)));
    assert_eq!(app.current, RED);
    assert_eq!(status(&app), "Picked color");
    app.set_raw(3, 3, Pixel::transparent());
    app.begin_canvas_action(Some((3, 3)));
    assert_eq!(app.current, RED);
}

#[test]
fn dragging_draws_lines_and_rectangles() {
    let mut app = canvas();
    app.current = RED;
    app.tool = Tool::Line;
    app.begin_canvas_action(Some((0, 0)));
    assert_eq!(app.drag_start, Some((0, 0)));
    assert_eq!(app.finish_canvas_action(Some((3, 3)), false), None);
    assert_eq!(count(&app, RED), 4);
    app.tool = Tool::Rect;
    app.begin_canvas_action(Some((10, 10)));
    app.finish_canvas_action(Some((12, 12)), true);
    assert_eq!(count(&app, RED), 13);
    assert_eq!(app.undo.len(), 2);
    app.tool = Tool::Ellipse;
    app.begin_canvas_action(Some((4, 4)));
    assert_eq!(app.finish_canvas_action(Some((8, 6)), true), Some(((4, 4), (8, 6), true)));
    assert_eq!(count(&app, RED), 13);
    assert_eq!(app.finish_canvas_action(Some((8, 6)), true), None);
}

#[test]
fn frames_are_counted() {
    let mut app = App::new();
    app.tick = u64::MAX;
    app.begin_frame();
    assert_eq!(app.tick, 0);
    app.status_hold_ms = Some(5);
    assert_eq!(app.take_status_hold(), Some(5));
    assert_eq!(app.take_status_hold(), None);
}

#[test]
fn releasing_far_away_without_a_drag_only_ends_the_stroke() {
    let mut app = canvas();
    app.current = RED;
    app.begin_canvas_action(Some((1, 1)));
    let before = app.pixels.clone();
    assert_eq!(app.finish_canvas_action(Some((usize::MAX, usize::MAX)), false), None);
    assert!(!app.drawing_stroke);
    assert_eq!(app.last_cell, None);
    assert_eq!(app.pixels, before);
    assert_eq!(app.undo.len(), 1);
}

#[test]
fn a_drag_may_start_off_the_canvas() {
    let mut app = canvas();
    app.current = RED;
    app.tool = Tool::Rect;
    app.begin_canvas_action(Some((1_000, 1_000)));
    assert_eq!(app.drag_start, Some((1_000, 1_000)));
    app.finish_canvas_action(Some((14, 14)), true);
    assert_eq!(count(&app, RED), 4);
    app.tool = Tool::Line;
    app.begin_canvas_action(Some((40, 0)));
    app.finish_canvas_action(Some((0, 0)), false);
    assert_eq!(count(&app, RED), 4 + 16);
}

#[test]
fn a_stroke_may_wander_off_the_canvas() {
    let mut app = canvas();
    app.current = RED;
    app.begin_canvas_action(Some((14, 3)));
    app.continue_canvas_action(Some((30, 3)));
    app.finish_canvas_action(None, false);
    assert_eq!(count(&app, RED), 2);
    assert_eq!(px(&app, 15, 3), RED);
}

fn pointer(cell: Option<(usize, usize)>) -> PointerInput {
    PointerInput {
        pressed: false,
        down: false,
        released: false,
        tool_button: None,
        swatch: None,
        control: EditorTarget::Nothing,
        on_slider: false,
        cell,
        filled: false,
    }
}

#[test]
fn a_press_on_a_button_is_only_that_click() {
    let mut app = canvas();
    let mut input = pointer(Some((3, 3)));
    input.pressed = true;
    input.down = true;
    input.tool_button = Some(4);
    assert_eq!(app.handle_pointer(&input), PointerAction::Done);
    assert_eq!(app.tool, Tool::Line);
    assert_eq!(app.drag_start, None);
    input.tool_button = None;
    input.swatch = Some(4);
    assert_eq!(app.handle_pointer(&input), PointerAction::Done);
    assert_eq!(app.current, Pixel::rgb(255, 72, 91));
    assert_eq!(app.tool, Tool::Brush);
    assert!(!app.drawing_stroke);
    input.swatch = None;
    input.control = EditorTarget::Export;
    assert_eq!(app.handle_pointer(&input), PointerAction::Export);
    input.control = EditorTarget::ReferenceImport;
    assert_eq!(app.handle_pointer(&input), PointerAction::ImportReference);
    input.control = EditorTarget::OpacitySlider;
    assert_eq!(app.handle_pointer(&input), PointerAction::SetOpacity);
    assert!(app.undo.is_empty());
}

#[test]
fn dragging_the_slider_leaves_the_canvas_alone() {
    let mut app = canvas();
    let mut input = pointer(Some((3, 3)));
    input.down = true;
    input.on_slider = true;
    assert_eq!(app.handle_pointer(&input), PointerAction::SetOpacity);
    assert_eq!(count(&app, RED), 0);
}

#[test]
fn a_pointer_stroke_paints_through_press_drag_and_release() {
    let mut app = canvas();
    app.current = RED;
    let mut input = pointer(Some((2, 2)));
    input.pressed = true;
    input.down = true;
    assert_eq!(app.handle_pointer(&input), PointerAction::Done);
    assert!(app.drawing_stroke);
    let mut input = pointer(Some((6, 2)));
    input.down = true;
    app.handle_pointer(&input);
    let mut input = pointer(Some((6, 2)));
    input.released = true;
    assert_eq!(app.handle_pointer(&input), PointerAction::Done);
    assert!(!app.drawing_stroke);
    assert_eq!(count(&app, RED), 5);
    assert_eq!(app.undo.len(), 1);
}

#[test]
fn an_ellipse_drag_is_handed_back() {
    let mut app = canvas();
    app.tool = Tool::Ellipse;
    let mut input = pointer(Some((1, 1)));
    input.pressed = true;
    input.down = true;
    app.handle_pointer(&input);
    let mut input = pointer(Some((5, 4)));
    input.released = true;
    input.filled = true;
    assert_eq!(app.handle_pointer(&input), PointerAction::DrawEllipse((1, 1), (5, 4), true));
    assert_eq!(app.undo.len(), 1);
}

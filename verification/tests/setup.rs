use pixel_paint_studio::app::{App, AppMode};
use pixel_paint_studio::pixel::{CanvasBackground, Pixel, Tool};
use pixel_paint_studio::setup::{
    clamp_canvas_size, parse_canvas_size, preset, CustomDimension, SetupKeys, SetupState, SetupTarget,
};
use pixel_paint_studio::sprite::cat_rows;

fn chars(s: &str) -> Vec<char> {
    s.chars().collect()
}

fn text(v: &Vec<char>) -> String {
    v.iter().collect()
}

fn no_keys() -> SetupKeys {
    SetupKeys {
        typed: Vec::new(),
        backspace: false,
        enter: false,
        escape: false,
        preset_keys: Vec::new(),
        left: false,
        right: false,
        space: false,
    }
}

#[test]
fn presets_have_their_sizes() {
    let sizes: Vec<(usize, usize)> = (0..6).map(|i| (preset(i).width, preset(i).height)).collect();
    assert_eq!(sizes, vec![(16, 16), (32, 32), (48, 48), (64, 64), (96, 64), (128, 128)]);
    assert_eq!(preset(4).name, "Banner");
}

#[test]
fn canvas_sizes_are_clamped_and_defaulted() {
    assert_eq!(clamp_canvas_size(3), 8);
    assert_eq!(clamp_canvas_size(100), 100);
    assert_eq!(clamp_canvas_size(999), 256);
    assert_eq!(parse_canvas_size(&chars("120")), 120);
    assert_eq!(parse_canvas_size(&chars("0")), 8);
    assert_eq!(parse_canvas_size(&chars("")), 64);
    assert_eq!(parse_canvas_size(&chars("12x")), 64);
    assert_eq!(parse_canvas_size(&chars("999")), 256);
}

#[test]
fn default_setup_state() {
    let s = SetupState::default();
    assert_eq!(s.preset_index, 2);
    assert!(!s.use_custom);
    assert_eq!(text(&s.custom_width_text), "64");
    assert_eq!(text(&s.custom_height_text), "64");
    assert_eq!(s.background, CanvasBackground::Transparent);
    assert!(s.demo_art);
    assert!(s.focused_dimension.is_none());
}

#[test]
fn select_preset_clamps_and_leaves_custom() {
    let mut app = App::new();
    app.setup.use_custom = true;
    app.select_preset(9);
    assert_eq!(app.setup.preset_index, 5);
    assert!(!app.setup.use_custom);
    let p = app.selected_canvas_preset();
    assert_eq!((p.width, p.height), (128, 128));
}

#[test]
fn typing_replaces_a_lone_zero_and_stops_at_three_digits() {
    let mut app = App::new();
    app.focus_custom_dimension(CustomDimension::Width);
    app.setup.custom_width_text = chars("0");
    app.edit_custom_canvas_text(&chars("1a2"), false, false);
    assert_eq!(text(&app.setup.custom_width_text), "12");
    app.edit_custom_canvas_text(&chars("345"), false, false);
    assert_eq!(text(&app.setup.custom_width_text), "123");
    app.edit_custom_canvas_text(&Vec::new(), true, false);
    assert_eq!(text(&app.setup.custom_width_text), "12");
    assert_eq!(text(&app.setup.custom_height_text), "64");
    assert_eq!(app.setup.focused_dimension, Some(CustomDimension::Width));
}

#[test]
fn finishing_an_edit_tidies_both_fields() {
    let mut app = App::new();
    app.focus_custom_dimension(CustomDimension::Height);
    app.setup.custom_height_text = Vec::new();
    app.setup.custom_width_text = chars("3");
    app.edit_custom_canvas_text(&chars("9"), false, true);
    assert_eq!(text(&app.setup.custom_height_text), "9");
    assert_eq!(text(&app.setup.custom_width_text), "8");
    assert!(app.setup.focused_dimension.is_none());
    let p = app.selected_canvas_preset();
    assert_eq!((p.width, p.height), (8, 9));
}

#[test]
fn editing_without_focus_does_nothing() {
    let mut app = App::new();
    app.edit_custom_canvas_text(&chars("5"), true, true);
    assert_eq!(text(&app.setup.custom_width_text), "64");
}

#[test]
fn stepping_a_size_stays_in_range() {
    let mut app = App::new();
    app.setup.custom_width_text = chars("8");
    app.adjust_custom_canvas_size(CustomDimension::Width, -1);
    assert_eq!(text(&app.setup.custom_width_text), "8");
    app.setup.custom_height_text = chars("256");
    app.adjust_custom_canvas_size(CustomDimension::Height, 1);
    assert_eq!(text(&app.setup.custom_height_text), "256");
    app.adjust_custom_canvas_size(CustomDimension::Height, -1);
    assert_eq!(text(&app.setup.custom_height_text), "255");
    assert!(app.setup.use_custom);
}

#[test]
fn normalizing_rewrites_the_sizes() {
    let mut app = App::new();
    app.setup.custom_width_text = chars("007");
    app.setup.custom_height_text = chars("");
    app.normalize_custom_canvas_size();
    assert_eq!(text(&app.setup.custom_width_text), "8");
    assert_eq!(text(&app.setup.custom_height_text), "64");
    app.normalize_custom_canvas_size();
    assert_eq!(text(&app.setup.custom_width_text), "8");
}

#[test]
fn creating_a_project_resets_the_editor() {
    let mut app = App::new();
    app.select_preset(4);
    app.setup.background = CanvasBackground::Dark;
    app.tool = Tool::Fill;
    app.brush_size = 5;
    app.push_undo();
    let demo = app.create_project_from_setup();
    assert!(demo);
    assert_eq!(app.mode, AppMode::Editor);
    assert_eq!((app.width, app.height), (96, 64));
    assert!(app.pixels.iter().all(|p| *p == Pixel::rgb(20, 20, 31)));
    assert_eq!(app.pixels.len(), 96 * 64);
    assert!(app.undo.is_empty());
    assert_eq!(app.tool, Tool::Brush);
    assert_eq!(app.brush_size, 1);
    assert_eq!(text(&app.status), "Created 96 x 64 canvas");
    assert_eq!(app.status_hold_ms, Some(2400));
}

#[test]
fn number_keys_and_arrows_pick_presets() {
    let mut app = App::new();
    let mut keys = no_keys();
    keys.preset_keys = vec![0, 3];
    keys.right = true;
    keys.space = true;
    assert!(!app.handle_setup_keys(&keys));
    assert_eq!(app.setup.preset_index, 4);
    assert!(!app.setup.demo_art);
    let mut keys = no_keys();
    keys.left = true;
    app.handle_setup_keys(&keys);
    assert_eq!(app.setup.preset_index, 3);
    let mut keys = no_keys();
    keys.enter = true;
    assert!(!app.handle_setup_keys(&keys));
    assert_eq!(app.mode, AppMode::Editor);
    assert_eq!((app.width, app.height), (64, 64));
}

#[test]
fn keys_edit_the_focused_field() {
    let mut app = App::new();
    app.handle_setup_click(SetupTarget::WidthField);
    let mut keys = no_keys();
    keys.typed = chars("1");
    keys.enter = true;
    keys.preset_keys = vec![5];
    assert!(!app.handle_setup_keys(&keys));
    assert_eq!(text(&app.setup.custom_width_text), "256");
    assert!(app.setup.focused_dimension.is_none());
    assert_eq!(app.mode, AppMode::Setup);
    assert_eq!(app.setup.preset_index, 2);
}

#[test]
fn clicks_drive_the_setup_screen() {
    let mut app = App::new();
    app.handle_setup_click(SetupTarget::WidthPlus);
    assert_eq!(text(&app.setup.custom_width_text), "65");
    assert!(app.setup.use_custom);
    app.handle_setup_click(SetupTarget::HeightMinus);
    assert_eq!(text(&app.setup.custom_height_text), "63");
    app.handle_setup_click(SetupTarget::Background(1));
    assert_eq!(app.setup.background, CanvasBackground::White);
    app.handle_setup_click(SetupTarget::Background(7));
    assert_eq!(app.setup.background, CanvasBackground::White);
    app.handle_setup_click(SetupTarget::DemoArt);
    assert!(!app.setup.demo_art);
    app.handle_setup_click(SetupTarget::Preset(1));
    assert!(!app.setup.use_custom);
    app.handle_setup_click(SetupTarget::Custom);
    assert!(app.setup.use_custom);
    assert!(!app.handle_setup_click(SetupTarget::Create));
    assert_eq!((app.width, app.height), (65, 63));
    assert!(app.pixels.iter().all(|p| *p == Pixel::rgb(255, 255, 255)));
}

#[test]
fn demo_cat_is_stamped_on_large_enough_canvases() {
    let rows = cat_rows();
    assert_eq!(rows.len(), 33);
    assert!(rows.iter().all(|r| r.chars().count() == 40));
    let cols: Vec<(usize, usize)> = (0..40).map(|c| (c, c + 1)).collect();
    let row_spans: Vec<(usize, usize)> = (0..33).map(|r| (r, r + 1)).collect();
    let mut app = App::new();
    app.setup.demo_art = true;
    app.handle_setup_click(SetupTarget::Create);
    app.seed_demo_art(&cols, &row_spans);
    let outline = Pixel::rgb(54, 34, 38);
    assert_eq!(app.pixels[1 * 48 + 12], outline);
    assert_eq!(app.pixels[0], Pixel::transparent());
    let mut small = App::new();
    small.setup.use_custom = true;
    small.setup.custom_width_text = chars("12");
    small.create_project_from_setup();
    small.seed_demo_art(&cols, &row_spans);
    assert!(small.pixels.iter().all(|p| *p == Pixel::transparent()));
}

use pixel_paint_studio::app::App;
use pixel_paint_studio::export::{export_path, load_reference_layer, reference_from_rgba, FileOutcome};
use pixel_paint_studio::pixel::{CanvasBackground, Pixel};

#[test]
fn export_lists_rgba_bytes_row_by_row() {
    let mut app = App::new();
    app.setup.use_custom = true;
    app.setup.custom_width_text = vec!['8'];
    app.setup.custom_height_text = vec!['8'];
    app.setup.background = CanvasBackground::Dark;
    app.setup.demo_art = false;
    app.create_project_from_setup();
    app.set_raw(1, 0, Pixel::rgba(1, 2, 3, 4));
    let bytes = app.export_rgba();
    assert_eq!(bytes.len(), 8 * 8 * 4);
    assert_eq!(&bytes[0..8], &[20, 20, 31, 255, 1, 2, 3, 4]);
}

#[test]
fn reference_pixels_come_from_the_bytes() {
    let bytes = vec![1, 2, 3, 4, 5, 6, 7, 8];
    let layer = reference_from_rgba("pic".to_string(), 2, 1, &bytes);
    assert_eq!(layer.pixels, vec![Pixel::rgba(1, 2, 3, 4), Pixel::rgba(5, 6, 7, 8)]);
    assert_eq!(layer.pixel(1, 0), Pixel::rgba(5, 6, 7, 8));
    assert_eq!(layer.name, "pic");
}

#[test]
fn exported_bytes_read_back_as_the_canvas() {
    let mut app = App::new();
    app.set_raw(5, 7, Pixel::rgba(9, 8, 7, 6));
    app.set_raw(47, 47, Pixel::rgb(1, 2, 3));
    let bytes = app.export_rgba();
    let layer = reference_from_rgba("again".to_string(), app.width, app.height, &bytes);
    assert_eq!(layer.pixels, app.pixels);
}

#[test]
fn file_outcomes_are_reported_on_the_status_line() {
    let mut app = App::new();
    let status = |app: &App| app.status.iter().collect::<String>();
    app.report_file_outcome(FileOutcome::Saved, "exports/pixel-art-1.png");
    assert_eq!(status(&app), "Saved exports/pixel-art-1.png");
    app.report_file_outcome(FileOutcome::ExportFailed, "disk full");
    assert_eq!(status(&app), "Export failed: disk full");
    app.report_file_outcome(FileOutcome::ImportCancelled, "ignored");
    assert_eq!(status(&app), "Reference import cancelled");
    app.report_file_outcome(FileOutcome::ImportFailed, "bad header");
    assert_eq!(status(&app), "Reference failed: bad header");
    assert!(app.status_hold_ms.is_some());
}

#[test]
fn the_reference_opacity_is_reported_in_percent() {
    let mut app = App::new();
    app.report_reference_opacity(45);
    assert_eq!(app.status.iter().collect::<String>(), "Reference opacity 45%");
    app.report_reference_opacity(100);
    assert_eq!(app.status.iter().collect::<String>(), "Reference opacity 100%");
}

/// A PNG file of an RGBA image, written with the image crate.
fn png_of(w: u32, h: u32, rgba: Vec<u8>) -> Vec<u8> {
    let picture = image::RgbaImage::from_raw(w, h, rgba).unwrap();
    let mut out = std::io::Cursor::new(Vec::new());
    picture.write_to(&mut out, image::ImageFormat::Png).unwrap();
    out.into_inner()
}

#[test]
fn a_reference_is_scaled_to_the_canvas() {
    let mut rgba = Vec::new();
    for _ in 0..4 {
        rgba.extend_from_slice(&[10, 20, 30, 255]);
    }
    let file = png_of(2, 2, rgba);
    let layer = load_reference_layer(None, "png", &file, 8, 16).unwrap();
    assert_eq!((layer.width, layer.height), (8, 16));
    assert_eq!(layer.pixels.len(), 128);
    assert!(layer.pixels.iter().all(|p| *p == Pixel::rgba(10, 20, 30, 255)));
    assert_eq!(layer.name, "reference image");
    let named = load_reference_layer(Some("sky.png".to_string()), "PNG", &file, 2, 2).unwrap();
    assert_eq!(named.name, "sky.png");
    assert_eq!(named.pixels.len(), 4);
}

#[test]
fn attaching_a_reference_announces_it() {
    let mut app = App::new();
    let file = png_of(1, 1, vec![0, 0, 0, 0]);
    let layer = load_reference_layer(Some("cat.jpg".to_string()), "png", &file, app.width, app.height).unwrap();
    app.attach_reference(layer);
    assert!(app.reference.is_some());
    assert_eq!(app.status.iter().collect::<String>(), "Reference loaded: cat.jpg");
}

#[test]
fn a_reference_can_be_scaled_past_the_largest_canvas() {
    let file = png_of(1, 1, vec![40, 50, 60, 255]);
    let layer = load_reference_layer(None, "png", &file, 300, 2).unwrap();
    assert_eq!((layer.width, layer.height), (300, 2));
    assert_eq!(layer.pixels.len(), 600);
    assert!(layer.pixels.iter().all(|p| *p == Pixel::rgba(40, 50, 60, 255)));
}

#[test]
fn scaling_a_reference_changes_its_pixels() {
    let file = png_of(2, 1, vec![0, 0, 0, 255, 255, 255, 255, 255]);
    let layer = load_reference_layer(None, "png", &file, 1, 1).unwrap();
    assert_eq!(layer.pixels.len(), 1);
    assert_ne!(layer.pixels[0], Pixel::rgba(0, 0, 0, 255));
}

#[test]
fn a_sixteen_bit_photo_is_read_at_its_depth() {
    let picture: image::ImageBuffer<image::Rgba<u16>, Vec<u16>> =
        image::ImageBuffer::from_raw(1, 1, vec![65535, 32896, 0, 65535]).unwrap();
    let mut out = std::io::Cursor::new(Vec::new());
    picture.write_to(&mut out, image::ImageFormat::Png).unwrap();
    let layer = load_reference_layer(None, "png", &out.into_inner(), 1, 1).unwrap();
    assert_eq!(layer.pixels, vec![Pixel::rgba(255, 128, 0, 255)]);
}

#[test]
fn files_that_do_not_decode_are_refused() {
    let file = png_of(1, 1, vec![1, 2, 3, 4]);
    assert!(load_reference_layer(None, "png", &vec![1, 2, 3], 8, 8).is_err());
    assert!(load_reference_layer(None, "xyz", &file, 8, 8).is_err());
    assert!(load_reference_layer(None, "", &file, 8, 8).is_err());
    assert!(load_reference_layer(None, "jpg", &file, 8, 8).is_err());
    assert!(load_reference_layer(None, "png", &file, 8, 8).is_ok());
}

#[test]
fn an_exported_png_loads_back_as_the_canvas() {
    let mut app = App::new();
    app.set_raw(5, 7, Pixel::rgba(9, 8, 7, 6));
    app.set_raw(47, 47, Pixel::rgb(1, 2, 3));
    let png = app.export_png_bytes();
    assert_eq!(&png[0..8], &[137, 80, 78, 71, 13, 10, 26, 10]);
    let layer = load_reference_layer(None, "png", &png, app.width, app.height).unwrap();
    assert_eq!(layer.pixels, app.pixels);
    let decoded = image::load_from_memory_with_format(&png, image::ImageFormat::Png).unwrap().to_rgba8();
    assert_eq!(decoded.into_raw(), app.export_rgba());
}

#[test]
fn exports_are_named_by_their_time() {
    let path: String = export_path(1_700_000_000).into_iter().collect();
    assert_eq!(path, "exports/pixel-art-1700000000.png");
    let path: String = export_path(0).into_iter().collect();
    assert_eq!(path, "exports/pixel-art-0.png");
}

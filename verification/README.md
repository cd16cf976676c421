# Pixel Paint Studio

A small pixel-art editor. Its core — the canvas model, the drawing tools,
flood fill, undo history and the new-project setup rules — is a library
written in Verus and proved against its contracts; the window, input,
drawing and file handling sit around it.

## Layout

- `src/` — the verified library
  - `app.rs` — the editor state and its invariant
  - `grid.rs` — row-major grids and what painting a set of cells means
  - `pixel.rs` — colours, backgrounds, tools, sprite markers
  - `shapes.rs` — line and rectangle cells, the spray hash
  - `paint.rs` — single cells, cell lists, lines, rectangles, brush, spray
  - `fill.rs` — the bucket tool's flood fill
  - `history.rs` — undo and redo
  - `sprite.rs` — stamping sprites, the demo cat
  - `setup.rs` — presets, custom size fields, creating a project
  - `editor.rs` — tool, palette, button, keyboard, pointer and stroke handling
  - `export.rs` — PNG export, and reference photos decoded from image files
  - `text.rs` — decimal numbers and short labels
  - `reference.rs` — the reference photo layer
- `tests/` — tests of the library
- `app/main.rs` — the desktop program (macroquad window, file dialog, reading
  and writing files), which feeds input to the library and draws its state

## Controls

```text
B / E / F      brush, eraser, fill
I / L / R      picker, line, rectangle
O / S / M / D  ellipse, spray, mirror, dither
Ctrl+Z / Y     undo, redo
Ctrl+S         export PNG
Ctrl+O         import reference photo
G              toggle grid
[ / ]          brush size
Delete         clear canvas
Shift          filled rectangle or ellipse
```

//! The editor's state: the canvas, the undo history, the current tool and
//! colour, and the status line.

use vstd::prelude::*;
use crate::pixel::{CanvasBackground, Pixel, Tool, transparent};
use crate::reference::ReferenceLayer;
use crate::setup::{MAX_CANVAS_SIZE, MIN_CANVAS_SIZE, SetupState};
use crate::text::str_chars;

verus! {

/// Most snapshots the undo and redo stacks hold together.
pub const HISTORY_LIMIT: usize = 80;

/// Largest brush, in cells.
pub const MAX_BRUSH_SIZE: usize = 8;

/// How long a status message stays up, in milliseconds.
pub const STATUS_HOLD_MS: u32 = 2200;

/// Whether the setup screen or the painting screen is shown.
#[derive(Clone, Copy, Debug, PartialEq, Eq, Structural)]
pub enum AppMode {
    Setup,
    Editor,
}

/// The whole editor.
pub struct App {
    pub mode: AppMode,
    pub setup: SetupState,
    pub width: usize,
    pub height: usize,
    pub background: CanvasBackground,
    /// The canvas, row by row.
    pub pixels: Vec<Pixel>,
    pub reference: Option<ReferenceLayer>,
    /// Earlier canvases, most recent last.
    pub undo: Vec<Vec<Pixel>>,
    /// Undone canvases, most recently undone last.
    pub redo: Vec<Vec<Pixel>>,
    pub palette: Vec<Pixel>,
    pub current: Pixel,
    pub tool: Tool,
    pub show_grid: bool,
    pub brush_size: usize,
    pub drawing_stroke: bool,
    pub last_cell: Option<(usize, usize)>,
    pub drag_start: Option<(usize, usize)>,
    /// The message of the status line.
    pub status: Vec<char>,
    /// Set when a new status message is posted: how long, in milliseconds,
    /// it should stay up. The frame loop takes it and starts the timer.
    pub status_hold_ms: Option<u32>,
    /// Frames drawn so far; it seeds the spray tool.
    pub tick: u64,
}

/// Every snapshot in `stack` is a canvas of `n` pixels.
pub open spec fn snapshots_sized(stack: Seq<Vec<Pixel>>, n: int) -> bool {
    forall|i: int| 0 <= i < stack.len() ==> (#[trigger] stack[i])@.len() == n
}

/// The starting palette.
pub open spec fn default_palette() -> Seq<Pixel> {
    seq![
        Pixel { r: 20, g: 20, b: 31, a: 255 },
        Pixel { r: 255, g: 255, b: 255, a: 255 },
        Pixel { r: 255, g: 216, b: 64, a: 255 },
        Pixel { r: 255, g: 148, b: 64, a: 255 },
        Pixel { r: 255, g: 72, b: 91, a: 255 },
        Pixel { r: 189, g: 115, b: 255, a: 255 },
        Pixel { r: 82, g: 144, b: 255, a: 255 },
        Pixel { r: 88, g: 230, b: 255, a: 255 },
        Pixel { r: 97, g: 242, b: 116, a: 255 },
        Pixel { r: 24, g: 185, b: 109, a: 255 },
        Pixel { r: 142, g: 93, b: 51, a: 255 },
        Pixel { r: 92, g: 60, b: 43, a: 255 },
        Pixel { r: 38, g: 46, b: 69, a: 255 },
        Pixel { r: 87, g: 102, b: 139, a: 255 },
        Pixel { r: 161, g: 171, b: 194, a: 255 },
        Pixel { r: 252, g: 186, b: 211, a: 255 },
        Pixel { r: 254, g: 118, b: 190, a: 255 },
        Pixel { r: 124, g: 63, b: 88, a: 255 },
        Pixel { r: 74, g: 32, b: 64, a: 255 },
        Pixel { r: 34, g: 17, b: 43, a: 255 },
    ]
}

impl App {
    /// The editor's invariant.
    pub open spec fn wf(&self) -> bool {
        &&& MIN_CANVAS_SIZE <= self.width <= MAX_CANVAS_SIZE
        &&& MIN_CANVAS_SIZE <= self.height <= MAX_CANVAS_SIZE
        &&& self.pixels@.len() == self.width * self.height
        &&& snapshots_sized(self.undo@, self.width * self.height)
        &&& snapshots_sized(self.redo@, self.width * self.height)
        &&& self.undo@.len() + self.redo@.len() <= HISTORY_LIMIT
        &&& 1 <= self.brush_size <= MAX_BRUSH_SIZE
        &&& self.current.a > 0
        &&& forall|i: int| 0 <= i < self.palette@.len() ==> (#[trigger] self.palette@[i]).a > 0
        &&& self.setup.wf()
        &&& match self.reference {
            Some(r) => r.wf() && r.width == self.width && r.height == self.height,
            None => true,
        }
    }

    /// The canvas as a sequence of pixels, row by row.
    pub open spec fn canvas(&self) -> Seq<Pixel> {
        self.pixels@
    }

    /// The editor as it starts: the setup screen over an empty 48 by 48
    /// canvas, the brush selected with the yellow of the palette, size one.
    pub fn new() -> (app: App)
        ensures
            app.wf(),
            app.mode == AppMode::Setup,
            app.width == 48 && app.height == 48,
            app.pixels@ == Seq::new(48 * 48, |i: int| transparent()),
            app.undo@.len() == 0 && app.redo@.len() == 0,
            app.palette@ == default_palette(),
            app.current == (Pixel { r: 255, g: 216, b: 64, a: 255 }),
            app.tool == Tool::Brush,
            app.brush_size == 1,
            app.show_grid,
            app.reference is None,
            app.status@ == "Ready"@,
            app.status_hold_ms == Some(2000u32),
            app.background == CanvasBackground::Transparent,
            app.setup.preset_index == crate::setup::DEFAULT_PRESET,
            !app.setup.use_custom,
            app.setup.custom_width_text@ == crate::text::decimal(crate::setup::DEFAULT_CUSTOM_CANVAS_SIZE as nat),
            app.setup.custom_height_text@ == crate::text::decimal(crate::setup::DEFAULT_CUSTOM_CANVAS_SIZE as nat),
            app.setup.focused_dimension is None,
            app.setup.background == CanvasBackground::Transparent,
            app.setup.demo_art,
            !app.drawing_stroke,
            app.last_cell is None,
            app.drag_start is None,
            app.tick == 0,
    {
        let palette = vec![
            Pixel::rgb(20, 20, 31),
            Pixel::rgb(255, 255, 255),
            Pixel::rgb(255, 216, 64),
            Pixel::rgb(255, 148, 64),
            Pixel::rgb(255, 72, 91),
            Pixel::rgb(189, 115, 255),
            Pixel::rgb(82, 144, 255),
            Pixel::rgb(88, 230, 255),
            Pixel::rgb(97, 242, 116),
            Pixel::rgb(24, 185, 109),
            Pixel::rgb(142, 93, 51),
            Pixel::rgb(92, 60, 43),
            Pixel::rgb(38, 46, 69),
            Pixel::rgb(87, 102, 139),
            Pixel::rgb(161, 171, 194),
            Pixel::rgb(252, 186, 211),
            Pixel::rgb(254, 118, 190),
            Pixel::rgb(124, 63, 88),
            Pixel::rgb(74, 32, 64),
            Pixel::rgb(34, 17, 43),
        ];
        let pixels = filled_canvas(48 * 48, Pixel::transparent());
        let app = App {
            mode: AppMode::Setup,
            setup: SetupState::new(),
            width: 48,
            height: 48,
            background: CanvasBackground::Transparent,
            pixels,
            reference: None,
            undo: Vec::new(),
            redo: Vec::new(),
            palette,
            current: Pixel::rgb(255, 216, 64),
            tool: Tool::Brush,
            show_grid: true,
            brush_size: 1,
            drawing_stroke: false,
            last_cell: None,
            drag_start: None,
            status: str_chars("Ready"),
            status_hold_ms: Some(2000),
            tick: 0,
        };
        proof {
            assert(app.palette@ =~= default_palette());
        }
        app
    }

    /// Posts a status message for the usual time.
    pub fn flash(&mut self, message: &str)
        ensures
            final(self).status@ == message@,
            final(self).status_hold_ms == Some(STATUS_HOLD_MS),
            *final(self) == (App { status: final(self).status, status_hold_ms: Some(STATUS_HOLD_MS), ..*old(self) }),
    {
        self.status = str_chars(message);
        self.status_hold_ms = Some(STATUS_HOLD_MS);
    }

    /// Posts an already built status message for the usual time.
    pub fn flash_chars(&mut self, message: Vec<char>)
        ensures
            final(self).status@ == message@,
            *final(self) == (App { status: message, status_hold_ms: Some(STATUS_HOLD_MS), ..*old(self) }),
    {
        self.status = message;
        self.status_hold_ms = Some(STATUS_HOLD_MS);
    }

    /// Counts a new frame.
    pub fn begin_frame(&mut self)
        ensures
            *final(self) == (App { tick: old(self).tick.wrapping_add(1), ..*old(self) }),
    {
        self.tick = self.tick.wrapping_add(1);
    }

    /// Hands the frame loop the display time of a freshly posted message.
    pub fn take_status_hold(&mut self) -> (hold: Option<u32>)
        ensures
            hold == old(self).status_hold_ms,
            *final(self) == (App { status_hold_ms: None, ..*old(self) }),
    {
        let hold = self.status_hold_ms;
        self.status_hold_ms = None;
        hold
    }
}

/// A canvas of `n` pixels, all `color`.
pub fn filled_canvas(n: usize, color: Pixel) -> (v: Vec<Pixel>)
    ensures
        v@ == Seq::new(n as nat, |i: int| color),
{
    let mut v: Vec<Pixel> = Vec::new();
    let mut i: usize = 0;
    while i < n
        invariant
            0 <= i <= n,
            v@ == Seq::new(i as nat, |k: int| color),
        decreases n - i,
    {
        v.push(color);
        i = i + 1;
        proof {
            assert(v@ =~= Seq::new(i as nat, |k: int| color));
        }
    }
    v
}

} // verus!

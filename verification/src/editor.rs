//! The painting screen's controls: tools, brush size, palette, the action
//! buttons, the keyboard, and mouse strokes on the canvas.

use vstd::prelude::*;
use crate::app::{App, AppMode, MAX_BRUSH_SIZE, STATUS_HOLD_MS};
use crate::fill::fill_region;
use crate::grid::{at, painted};
use crate::history::{history, recorded_redo, recorded_undo, lemma_undo_recorded};
use crate::paint::{dab_cells, dab_color, dab_in_range};
use crate::pixel::{Tool, tool_at, tool_label, TOOL_COUNT};
use crate::shapes::{as_int, in_rect_shape, line_cells, line_path, line_is_connected, between, COORD_LIMIT};
use crate::text::{decimal, push_decimal, push_str};

verus! {

/// The status message after a brush size change.
pub open spec fn brush_message(size: int) -> Seq<char> {
    "Brush "@ + decimal(size as nat) + "px"@
}

/// A brush size stepped by `delta` and kept between 1 and the largest size.
pub open spec fn stepped_brush(size: int, delta: int) -> int {
    if size + delta < 1 {
        1
    } else if size + delta > MAX_BRUSH_SIZE {
        MAX_BRUSH_SIZE as int
    } else {
        size + delta
    }
}

/// A brush step changes the size by exactly `delta` while that stays
/// between 1 and the largest size, and stops at the nearer end otherwise;
/// so a step down and a step back up return to the size they started from.
pub proof fn brush_steps_are_exact_within_range(size: int, delta: int)
    ensures
        1 <= size + delta <= MAX_BRUSH_SIZE ==> stepped_brush(size, delta) == size + delta,
        size + delta < 1 ==> stepped_brush(size, delta) == 1,
        size + delta > MAX_BRUSH_SIZE ==> stepped_brush(size, delta) == MAX_BRUSH_SIZE,
        2 <= size <= MAX_BRUSH_SIZE ==> stepped_brush(stepped_brush(size, -1), 1) == size,
        1 <= size < MAX_BRUSH_SIZE ==> stepped_brush(stepped_brush(size, 1), -1) == size,
{
}

/// The painting screen's action buttons and reference controls.
#[derive(Clone, Copy, Debug, PartialEq, Eq, Structural)]
pub enum EditorTarget {
    ReferenceImport,
    ReferenceClear,
    OpacitySlider,
    BrushMinus,
    BrushPlus,
    Export,
    NewProject,
    Undo,
    Redo,
    Grid,
    Clear,
    Nothing,
}

/// What is left for the frame loop after a click on a control.
#[derive(Clone, Copy, Debug, PartialEq, Eq, Structural)]
pub enum ClickOutcome {
    /// The click was handled.
    Handled,
    /// The click hit no control.
    Missed,
    /// The reference photo is to be picked and loaded.
    ImportReference,
    /// The reference opacity is to follow the pointer.
    SetOpacity,
    /// The canvas is to be saved as an image.
    Export,
}

/// The grid toggle's status message.
pub open spec fn grid_message(on: bool) -> Seq<char> {
    if on {
        "Grid on"@
    } else {
        "Grid off"@
    }
}

/// `b` is `a` after a click on the tool button at `index`, with `hit`
/// telling whether there is such a button.
pub open spec fn tool_clicked(a: App, index: usize, b: App, hit: bool) -> bool {
    &&& hit == tool_at(index as int) is Some
    &&& match tool_at(index as int) {
        Some(t) => b.status@ == tool_label(t)@ && b == (App {
            tool: t,
            status: b.status,
            status_hold_ms: Some(STATUS_HOLD_MS),
            ..a
        }),
        None => b == a,
    }
}

/// `b` is `a` after a click on the palette swatch at `index`, with `hit`
/// telling whether there is such a swatch.
pub open spec fn swatch_clicked(a: App, index: usize, b: App, hit: bool) -> bool {
    &&& hit == (index < a.palette@.len())
    &&& hit ==> b.status@ == "Color selected"@ && b == (App {
        current: a.palette@[index as int],
        tool: Tool::Brush,
        status: b.status,
        status_hold_ms: Some(STATUS_HOLD_MS),
        ..a
    })
    &&& !hit ==> b == a
}

/// `b` is `a` after a click on `target`, with `outcome` what is left to
/// the caller.
pub open spec fn control_clicked(a: App, target: EditorTarget, b: App, outcome: ClickOutcome) -> bool {
    &&& match target {
        EditorTarget::ReferenceImport => outcome == ClickOutcome::ImportReference && b == a,
        EditorTarget::ReferenceClear => outcome == ClickOutcome::Handled && b.status@
            == "Reference cleared"@ && b == (App {
            reference: None,
            status: b.status,
            status_hold_ms: Some(STATUS_HOLD_MS),
            ..a
        }),
        EditorTarget::OpacitySlider => outcome == ClickOutcome::SetOpacity && b == a,
        EditorTarget::BrushMinus => outcome == ClickOutcome::Handled && b.brush_size == stepped_brush(
            a.brush_size as int,
            -1,
        ) && b.status@ == brush_message(b.brush_size as int) && b == (App {
            brush_size: b.brush_size,
            status: b.status,
            status_hold_ms: Some(STATUS_HOLD_MS),
            ..a
        }),
        EditorTarget::BrushPlus => outcome == ClickOutcome::Handled && b.brush_size == stepped_brush(
            a.brush_size as int,
            1,
        ) && b.status@ == brush_message(b.brush_size as int) && b == (App {
            brush_size: b.brush_size,
            status: b.status,
            status_hold_ms: Some(STATUS_HOLD_MS),
            ..a
        }),
        EditorTarget::Export => outcome == ClickOutcome::Export && b == a,
        EditorTarget::NewProject => outcome == ClickOutcome::Handled && b == (App {
            mode: AppMode::Setup,
            ..a
        }),
        EditorTarget::Undo => outcome == ClickOutcome::Handled && crate::history::undone(a, b),
        EditorTarget::Redo => outcome == ClickOutcome::Handled && crate::history::redone(a, b),
        EditorTarget::Grid => outcome == ClickOutcome::Handled && b.status@ == grid_message(
            !a.show_grid,
        ) && b == (App {
            show_grid: !a.show_grid,
            status: b.status,
            status_hold_ms: Some(STATUS_HOLD_MS),
            ..a
        }),
        EditorTarget::Clear => outcome == ClickOutcome::Handled && crate::history::canvas_cleared(a, b),
        EditorTarget::Nothing => outcome == ClickOutcome::Missed && b == a,
    }
}

impl App {
    /// Switches to `tool` and names it on the status line.
    pub fn select_tool(&mut self, tool: Tool)
        requires
            old(self).wf(),
        ensures
            final(self).wf(),
            final(self).status@ == tool_label(tool)@,
            *final(self) == (App { tool, status: final(self).status, status_hold_ms: Some(STATUS_HOLD_MS), ..*old(self) }),
    {
        self.tool = tool;
        self.flash(tool.label());
    }

    /// Steps the brush size by `delta`, between 1 and the largest size, and
    /// shows the new size.
    pub fn change_brush_size(&mut self, delta: i32)
        requires
            old(self).wf(),
            old(self).brush_size + delta <= i32::MAX,
        ensures
            final(self).wf(),
            final(self).brush_size == stepped_brush(old(self).brush_size as int, delta as int),
            final(self).status@ == brush_message(final(self).brush_size as int),
            *final(self) == (App {
                brush_size: final(self).brush_size,
                status: final(self).status,
                status_hold_ms: Some(STATUS_HOLD_MS),
                ..*old(self)
            }),
    {
        let sum: i32 = self.brush_size as i32 + delta;
        let size: i32 = if sum < 1 { 1 } else if sum > 8 { 8 } else { sum };
        self.brush_size = size as usize;
        let mut message: Vec<char> = Vec::new();
        push_str(&mut message, "Brush ");
        push_decimal(&mut message, self.brush_size as u64);
        push_str(&mut message, "px");
        proof {
            assert(message@ =~= brush_message(self.brush_size as int));
        }
        self.flash_chars(message);
    }

    /// Shows or hides the grid and says which.
    pub fn toggle_grid(&mut self)
        requires
            old(self).wf(),
        ensures
            final(self).wf(),
            final(self).status@ == grid_message(!old(self).show_grid),
            *final(self) == (App {
                show_grid: !old(self).show_grid,
                status: final(self).status,
                status_hold_ms: Some(STATUS_HOLD_MS),
                ..*old(self)
            }),
    {
        self.show_grid = !self.show_grid;
        if self.show_grid {
            self.flash("Grid on");
        } else {
            self.flash("Grid off");
        }
    }

    /// A click on the tool button at position `index`; `false` when there
    /// is no such button.
    pub fn handle_tool_click(&mut self, index: usize) -> (hit: bool)
        requires
            old(self).wf(),
        ensures
            final(self).wf(),
            tool_clicked(*old(self), index, *final(self), hit),
    {
        match Tool::from_index(index) {
            Some(tool) => {
                self.select_tool(tool);
                true
            },
            None => false,
        }
    }

    /// A click on the palette swatch at position `index`: picks its colour
    /// and the brush; `false` when there is no such swatch.
    pub fn handle_palette_click(&mut self, index: usize) -> (hit: bool)
        requires
            old(self).wf(),
        ensures
            final(self).wf(),
            swatch_clicked(*old(self), index, *final(self), hit),
    {
        if index < self.palette.len() {
            self.current = self.palette[index];
            self.tool = Tool::Brush;
            self.flash("Color selected");
            true
        } else {
            false
        }
    }

    /// A click on one of the painting screen's controls. Loading a photo,
    /// following the opacity slider and saving are left to the caller.
    pub fn handle_action_click(&mut self, target: EditorTarget) -> (outcome: ClickOutcome)
        requires
            old(self).wf(),
        ensures
            final(self).wf(),
            control_clicked(*old(self), target, *final(self), outcome),
    {
        match target {
            EditorTarget::ReferenceImport => ClickOutcome::ImportReference,
            EditorTarget::ReferenceClear => {
                self.reference = None;
                self.flash("Reference cleared");
                ClickOutcome::Handled
            },
            EditorTarget::OpacitySlider => ClickOutcome::SetOpacity,
            EditorTarget::BrushMinus => {
                self.change_brush_size(-1);
                ClickOutcome::Handled
            },
            EditorTarget::BrushPlus => {
                self.change_brush_size(1);
                ClickOutcome::Handled
            },
            EditorTarget::Export => ClickOutcome::Export,
            EditorTarget::NewProject => {
                self.mode = AppMode::Setup;
                ClickOutcome::Handled
            },
            EditorTarget::Undo => {
                self.undo();
                ClickOutcome::Handled
            },
            EditorTarget::Redo => {
                self.redo();
                ClickOutcome::Handled
            },
            EditorTarget::Grid => {
                self.toggle_grid();
                ClickOutcome::Handled
            },
            EditorTarget::Clear => {
                self.clear_canvas();
                ClickOutcome::Handled
            },
            EditorTarget::Nothing => ClickOutcome::Missed,
        }
    }
}

/// Whether `tool` paints a stroke as the pointer moves.
pub open spec fn is_stroke_tool(tool: Tool) -> bool {
    tool == Tool::Brush || tool == Tool::Eraser || tool == Tool::Mirror || tool == Tool::Dither || tool == Tool::Spray
}

/// Whether `tool` is dragged out from a start cell to an end cell.
pub open spec fn is_drag_tool(tool: Tool) -> bool {
    tool == Tool::Line || tool == Tool::Rect || tool == Tool::Ellipse
}

/// Whether pressing on cell `c` with `tool` can be carried out: a stroke
/// tool's first dab must be in range, the bucket and the picker read the
/// cell, so it lies on the canvas; a shape tool only remembers it.
pub open spec fn can_begin(tool: Tool, width: int, height: int, brush: int, c: (int, int)) -> bool {
    if is_stroke_tool(tool) {
        dab_in_range(tool, width, brush, c.0, c.1)
    } else if tool == Tool::Fill || tool == Tool::Picker {
        0 <= c.0 < width && 0 <= c.1 < height
    } else {
        true
    }
}

/// Whether a stroke can move on to cell `c`: the spray dabs at `c` alone;
/// other tools dab along the line from the previous cell, which is worked
/// out in `i32` and needs both ends below `COORD_LIMIT`, and the mirror tool
/// needs both ends on the canvas.
pub open spec fn can_continue(tool: Tool, width: int, brush: int, last: Option<(usize, usize)>, c: (int, int)) -> bool {
    if tool == Tool::Spray {
        dab_in_range(tool, width, brush, c.0, c.1)
    } else {
        match last {
            Some(l) => {
                &&& l.0 < COORD_LIMIT && l.1 < COORD_LIMIT
                &&& c.0 < COORD_LIMIT && c.1 < COORD_LIMIT
                &&& tool == Tool::Mirror ==> l.0 < width && c.0 < width
            },
            None => dab_in_range(tool, width, brush, c.0, c.1),
        }
    }
}

/// A stroke follows the pointer: a move during a stroke leaves the stroke at
/// the new cell, so that two moves in a row paint, the second time, along
/// the line from the first move's cell to the second's (the spray only at
/// the second cell), whatever cell the stroke started from.
pub proof fn strokes_join_consecutive_cells(a: App, c1: (usize, usize), b: App, c2: (usize, usize), d: App)
    requires
        a.drawing_stroke,
        continued(a, Some(c1), b),
        continued(b, Some(c2), d),
    ensures
        b.last_cell == Some(c1),
        b.drawing_stroke,
        d.last_cell == Some(c2),
        painted(
            b.pixels@,
            d.pixels@,
            b.width as int,
            b.height as int,
            dabs_along(
                a.tool,
                a.width as int,
                if a.tool == Tool::Spray {
                    seq![as_int(c2)]
                } else {
                    line_path(as_int(c1), as_int(c2))
                },
                a.brush_size as int,
                a.tick,
            ),
            dab_color(a.tool, a.current),
        ),
{
}

/// The cells one dab at each cell of `path` paints.
pub open spec fn dabs_along(tool: Tool, width: int, path: Seq<(int, int)>, brush: int, tick: u64) -> spec_fn((int, int)) -> bool {
    |c: (int, int)| exists|k: int| 0 <= k < path.len() && #[trigger] dab_cells(tool, width, path[k].0, path[k].1, brush, tick)(c)
}

/// A shape the caller still has to draw: the ellipse from `start` to `end`,
/// filled or not.
pub type EllipseRequest = ((usize, usize), (usize, usize), bool);

/// `b` is `a` after the pointer went down on `cell`.
pub open spec fn began(a: App, cell: Option<(usize, usize)>, b: App) -> bool {
    &&& match cell {
        None => b == a,
        Some(c) => {
            let x = c.0 as int;
            let y = c.1 as int;
            let w = a.width as int;
            let h = a.height as int;
            if is_stroke_tool(a.tool) {
                &&& history(b.undo@) == recorded_undo(a)
                &&& history(b.redo@) == recorded_redo(a)
                &&& painted(
                    a.pixels@,
                    b.pixels@,
                    w,
                    h,
                    dab_cells(a.tool, w, x, y, a.brush_size as int, a.tick),
                    dab_color(a.tool, a.current),
                )
                &&& b == (App {
                    pixels: b.pixels,
                    undo: b.undo,
                    redo: b.redo,
                    drawing_stroke: true,
                    last_cell: Some(c),
                    ..a
                })
            } else if a.tool == Tool::Fill {
                let fills = at(a.pixels@, w, x, y) != a.current;
                &&& history(b.undo@) == if fills {
                    recorded_undo(a)
                } else {
                    recorded_undo(a).drop_last()
                }
                &&& history(b.redo@) == recorded_redo(a)
                &&& painted(
                    a.pixels@,
                    b.pixels@,
                    w,
                    h,
                    |d: (int, int)| fills && fill_region(a.pixels@, w, h, (x, y), d),
                    a.current,
                )
                &&& b == (App {
                    pixels: b.pixels,
                    undo: b.undo,
                    redo: b.redo,
                    ..a
                })
            } else if a.tool == Tool::Picker {
                let picked = at(a.pixels@, w, x, y);
                if picked.a > 0 {
                    b.status@ == "Picked color"@ && b == (App {
                        current: picked,
                        status: b.status,
                        status_hold_ms: Some(STATUS_HOLD_MS),
                        ..a
                    })
                } else {
                    b == a
                }
            } else {
                b == (App { drag_start: Some(c), ..a })
            }
        },
    }
}

/// `b` is `a` after the pointer moved to `cell` with the button held.
pub open spec fn continued(a: App, cell: Option<(usize, usize)>, b: App) -> bool {
    &&& match cell {
        Some(c) if a.drawing_stroke => {
            let w = a.width as int;
            let h = a.height as int;
            let path = if a.tool == Tool::Spray {
                seq![as_int(c)]
            } else {
                match a.last_cell {
                    Some(l) => line_path(as_int(l), as_int(c)),
                    None => seq![as_int(c)],
                }
            };
            &&& painted(
                a.pixels@,
                b.pixels@,
                w,
                h,
                dabs_along(a.tool, w, path, a.brush_size as int, a.tick),
                dab_color(a.tool, a.current),
            )
            &&& b == (App { pixels: b.pixels, last_cell: Some(c), ..a })
        },
        _ => b == a,
    }
}

/// `b` is `a` after the button went up over `cell`, with `ellipse` the
/// shape left to the caller.
pub open spec fn finished(a: App, cell: Option<(usize, usize)>, filled: bool, b: App, ellipse: Option<EllipseRequest>) -> bool {
    &&& match (a.drag_start, cell) {
        (Some(s), Some(e)) => {
            let w = a.width as int;
            let h = a.height as int;
            &&& history(b.undo@) == recorded_undo(a)
            &&& history(b.redo@) == recorded_redo(a)
            &&& b == (App {
                pixels: b.pixels,
                undo: b.undo,
                redo: b.redo,
                drawing_stroke: false,
                last_cell: None,
                drag_start: None,
                ..a
            })
            &&& if a.tool == Tool::Line {
                &&& ellipse is None
                &&& painted(
                    a.pixels@,
                    b.pixels@,
                    w,
                    h,
                    |c: (int, int)| line_path(as_int(s), as_int(e)).contains(c),
                    a.current,
                )
            } else if a.tool == Tool::Rect {
                &&& ellipse is None
                &&& painted(
                    a.pixels@,
                    b.pixels@,
                    w,
                    h,
                    |c: (int, int)| in_rect_shape(as_int(s), as_int(e), filled, c),
                    a.current,
                )
            } else if a.tool == Tool::Ellipse {
                ellipse == Some((s, e, filled)) && b.pixels@ == a.pixels@
            } else {
                ellipse is None && b.pixels@ == a.pixels@
            }
        },
        _ => ellipse is None && b == (App {
            drawing_stroke: false,
            last_cell: None,
            drag_start: None,
            ..a
        }),
    }
}

impl App {
    /// The pointer went down on cell `cell` of the canvas (`None` off the
    /// canvas). Stroke tools record the canvas for undo and paint a first
    /// dab; the bucket records and fills, and drops the record again when
    /// nothing changed; the picker takes a visible colour; shape tools
    /// remember where the drag started.
    pub fn begin_canvas_action(&mut self, cell: Option<(usize, usize)>)
        requires
            old(self).wf(),
            match cell {
                Some(c) => can_begin(
                    old(self).tool,
                    old(self).width as int,
                    old(self).height as int,
                    old(self).brush_size as int,
                    as_int(c),
                ),
                None => true,
            },
        ensures
            final(self).wf(),
            began(*old(self), cell, *final(self)),
    {
        let (x, y) = match cell {
            Some(c) => c,
            None => {
                return;
            },
        };
        let ghost start = *self;
        match self.tool {
            Tool::Brush | Tool::Eraser | Tool::Mirror | Tool::Dither | Tool::Spray => {
                self.push_undo();
                proof {
                    lemma_undo_recorded(start, *self);
                }
                self.drawing_stroke = true;
                self.last_cell = Some((x, y));
                self.paint_cell(x, y);
            },
            Tool::Fill => {
                self.push_undo();
                proof {
                    lemma_undo_recorded(start, *self);
                }
                if !self.bucket_fill(x, y) {
                    let ghost before_pop = self.undo@;
                    self.undo.pop();
                    proof {
                        assert(history(self.undo@) =~= history(before_pop).drop_last());
                    }
                }
            },
            Tool::Picker => {
                let picked = self.pixel(x, y);
                if picked.a > 0 {
                    self.current = picked;
                    self.flash("Picked color");
                }
            },
            Tool::Line | Tool::Rect | Tool::Ellipse => {
                self.drag_start = Some((x, y));
            },
        }
    }

    /// The pointer moved to `cell` with the button held. A stroke in
    /// progress paints dabs along the line from the previous cell (the spray
    /// tool only sprays at the new cell), and moves on to `cell`.
    pub fn continue_canvas_action(&mut self, cell: Option<(usize, usize)>)
        requires
            old(self).wf(),
            old(self).drawing_stroke ==> match cell {
                Some(c) => can_continue(
                    old(self).tool,
                    old(self).width as int,
                    old(self).brush_size as int,
                    old(self).last_cell,
                    as_int(c),
                ),
                None => true,
            },
        ensures
            final(self).wf(),
            continued(*old(self), cell, *final(self)),
    {
        if !self.drawing_stroke {
            return;
        }
        let (x, y) = match cell {
            Some(c) => c,
            None => {
                return;
            },
        };
        let ghost start = *self;
        let ghost w = self.width as int;
        let ghost h = self.height as int;
        let ghost color = dab_color(start.tool, start.current);
        if self.tool == Tool::Spray {
            self.paint_cell(x, y);
            self.last_cell = Some((x, y));
            proof {
                let path = seq![(x as int, y as int)];
                assert forall|c: (int, int)| crate::grid::in_grid(w, h, c) implies (dab_cells(start.tool, w, x as int, y as int, start.brush_size as int, start.tick)(c)
                    <==> dabs_along(start.tool, w, path, start.brush_size as int, start.tick)(c)) by {
                    assert(path[0] == (x as int, y as int));
                }
                crate::grid::lemma_painted_same_sel(
                    start.pixels@,
                    self.pixels@,
                    w,
                    h,
                    dab_cells(start.tool, w, x as int, y as int, start.brush_size as int, start.tick),
                    dabs_along(start.tool, w, path, start.brush_size as int, start.tick),
                    color,
                );
            }
            return;
        }
        match self.last_cell {
            Some(last) => {
                let cells = line_cells(last, (x, y));
                let ghost path = line_path(as_int(last), as_int((x, y)));
                proof {
                    line_is_connected(as_int(last), as_int((x, y)));
                }
                let mut k: usize = 0;
                while k < cells.len()
                    invariant
                        self.wf(),
                        start.same_but_canvas(&*self),
                        w == start.width,
                        h == start.height,
                        color == dab_color(start.tool, start.current),
                        crate::shapes::cells_as_int(cells@) == path,
                        path == line_path(as_int(last), as_int((x, y))),
                        forall|j: int| 0 <= j < path.len() ==> between(#[trigger] path[j].0, last.0 as int, x as int)
                            && between(path[j].1, last.1 as int, y as int),
                        last.0 < COORD_LIMIT && last.1 < COORD_LIMIT,
                        x < COORD_LIMIT && y < COORD_LIMIT,
                        start.tool != Tool::Spray,
                        start.tool == Tool::Mirror ==> last.0 < w && x < w,
                        1 <= start.brush_size <= MAX_BRUSH_SIZE,
                        0 <= k <= cells@.len(),
                        painted(
                            start.pixels@,
                            self.pixels@,
                            w,
                            h,
                            dabs_along(start.tool, w, path.take(k as int), start.brush_size as int, start.tick),
                            color,
                        ),
                    decreases cells@.len() - k,
                {
                    let (sx, sy) = cells[k];
                    let ghost mid = self.pixels@;
                    proof {
                        assert(path[k as int] == (sx as int, sy as int));
                        assert(between(path[k as int].0, last.0 as int, x as int));
                    }
                    self.paint_cell(sx, sy);
                    proof {
                        let done = dabs_along(start.tool, w, path.take(k as int), start.brush_size as int, start.tick);
                        let dab = dab_cells(start.tool, w, sx as int, sy as int, start.brush_size as int, start.tick);
                        let next = dabs_along(start.tool, w, path.take(k as int + 1), start.brush_size as int, start.tick);
                        crate::grid::lemma_painted_compose(start.pixels@, mid, self.pixels@, w, h, done, dab, color);
                        assert forall|c: (int, int)| crate::grid::in_grid(w, h, c) implies ((done(c) || dab(c)) <==> next(c)) by {
                            if next(c) {
                                let j = choose|j: int| 0 <= j < k + 1 && #[trigger] dab_cells(
                                    start.tool,
                                    w,
                                    path.take(k as int + 1)[j].0,
                                    path.take(k as int + 1)[j].1,
                                    start.brush_size as int,
                                    start.tick,
                                )(c);
                                if j < k {
                                    assert(path.take(k as int)[j] == path.take(k as int + 1)[j]);
                                }
                            }
                            if done(c) {
                                let j = choose|j: int| 0 <= j < k && #[trigger] dab_cells(
                                    start.tool,
                                    w,
                                    path.take(k as int)[j].0,
                                    path.take(k as int)[j].1,
                                    start.brush_size as int,
                                    start.tick,
                                )(c);
                                assert(path.take(k as int)[j] == path.take(k as int + 1)[j]);
                            }
                            if dab(c) {
                                assert(path.take(k as int + 1)[k as int] == (sx as int, sy as int));
                            }
                        }
                        crate::grid::lemma_painted_same_sel(
                            start.pixels@,
                            self.pixels@,
                            w,
                            h,
                            |c: (int, int)| done(c) || dab(c),
                            next,
                            color,
                        );
                    }
                    k = k + 1;
                }
                proof {
                    assert(path.take(cells@.len() as int) == path);
                }
            },
            None => {
                self.paint_cell(x, y);
                proof {
                    let path = seq![(x as int, y as int)];
                    assert forall|c: (int, int)| crate::grid::in_grid(w, h, c) implies (dab_cells(start.tool, w, x as int, y as int, start.brush_size as int, start.tick)(c)
                        <==> dabs_along(start.tool, w, path, start.brush_size as int, start.tick)(c)) by {
                        assert(path[0] == (x as int, y as int));
                    }
                    crate::grid::lemma_painted_same_sel(
                        start.pixels@,
                        self.pixels@,
                        w,
                        h,
                        dab_cells(start.tool, w, x as int, y as int, start.brush_size as int, start.tick),
                        dabs_along(start.tool, w, path, start.brush_size as int, start.tick),
                        color,
                    );
                }
            },
        }
        self.last_cell = Some((x, y));
    }

    /// The pointer button went up over `cell`. Ends a stroke; a drag in
    /// progress records the canvas for undo and draws its line or rectangle
    /// (`filled` asks for a solid rectangle), or hands back the ellipse for
    /// the caller to draw.
    pub fn finish_canvas_action(&mut self, cell: Option<(usize, usize)>, filled: bool) -> (ellipse: Option<EllipseRequest>)
        requires
            old(self).wf(),
            match (old(self).drag_start, cell) {
                (Some(s), Some(e)) => old(self).tool == Tool::Line ==> {
                    &&& s.0 < COORD_LIMIT && s.1 < COORD_LIMIT
                    &&& e.0 < COORD_LIMIT && e.1 < COORD_LIMIT
                },
                _ => true,
            },
        ensures
            final(self).wf(),
            finished(*old(self), cell, filled, *final(self), ellipse),
    {
        self.drawing_stroke = false;
        self.last_cell = None;
        let start = match self.drag_start.take() {
            Some(s) => s,
            None => {
                return None;
            },
        };
        let end = match cell {
            Some(e) => e,
            None => {
                return None;
            },
        };
        let ghost before = *self;
        self.push_undo();
        proof {
            lemma_undo_recorded(before, *self);
        }
        match self.tool {
            Tool::Line => {
                self.draw_line(start, end, self.current);
                None
            },
            Tool::Rect => {
                self.draw_rect(start, end, self.current, filled);
                None
            },
            Tool::Ellipse => Some((start, end, filled)),
            _ => None,
        }
    }
}

/// The pointer during one frame of the painting screen, and what lies under
/// it.
#[derive(Clone, Copy, Debug)]
pub struct PointerInput {
    /// The button went down this frame.
    pub pressed: bool,
    /// The button is held.
    pub down: bool,
    /// The button went up this frame.
    pub released: bool,
    /// The tool button under the pointer.
    pub tool_button: Option<usize>,
    /// The palette swatch under the pointer.
    pub swatch: Option<usize>,
    /// The control under the pointer.
    pub control: EditorTarget,
    /// Whether the pointer is over the opacity slider.
    pub on_slider: bool,
    /// The canvas cell under the pointer.
    pub cell: Option<(usize, usize)>,
    /// Whether a rectangle is drawn solid (shift is held).
    pub filled: bool,
}

/// What is left for the frame loop once the pointer was handled.
#[derive(Clone, Copy, Debug, PartialEq, Eq)]
pub enum PointerAction {
    /// Nothing.
    Done,
    /// The reference photo is to be picked and loaded.
    ImportReference,
    /// The reference opacity is to follow the pointer.
    SetOpacity,
    /// The canvas is to be saved as an image.
    Export,
    /// The ellipse from one corner to the other, solid or not, is to be
    /// drawn in the current colour.
    DrawEllipse((usize, usize), (usize, usize), bool),
}

/// What a click on `target` leaves to the caller.
pub open spec fn control_outcome(target: EditorTarget) -> ClickOutcome {
    match target {
        EditorTarget::ReferenceImport => ClickOutcome::ImportReference,
        EditorTarget::OpacitySlider => ClickOutcome::SetOpacity,
        EditorTarget::Export => ClickOutcome::Export,
        EditorTarget::Nothing => ClickOutcome::Missed,
        _ => ClickOutcome::Handled,
    }
}

/// What the frame loop is left with after a click with `outcome`.
pub open spec fn follow_up(outcome: ClickOutcome) -> PointerAction {
    match outcome {
        ClickOutcome::ImportReference => PointerAction::ImportReference,
        ClickOutcome::SetOpacity => PointerAction::SetOpacity,
        ClickOutcome::Export => PointerAction::Export,
        _ => PointerAction::Done,
    }
}

/// The press lands on a tool button.
pub open spec fn tool_hit(input: PointerInput) -> bool {
    input.pressed && match input.tool_button {
        Some(i) => tool_at(i as int) is Some,
        None => false,
    }
}

/// The press lands on a palette swatch, and on no tool button.
pub open spec fn swatch_hit(a: App, input: PointerInput) -> bool {
    &&& input.pressed
    &&& !tool_hit(input)
    &&& match input.swatch {
        Some(i) => i < a.palette@.len(),
        None => false,
    }
}

/// The press lands on a control, and on no button or swatch.
pub open spec fn control_hit(a: App, input: PointerInput) -> bool {
    input.pressed && !tool_hit(input) && !swatch_hit(a, input) && input.control != EditorTarget::Nothing
}

/// The pointer reaches the canvas: no button, swatch or control took the
/// press, and the slider is not being dragged.
pub open spec fn reaches_canvas(a: App, input: PointerInput) -> bool {
    !tool_hit(input) && !swatch_hit(a, input) && !control_hit(a, input) && !(input.down && input.on_slider)
}

/// Where a drag starts once the press of `input` was handled.
pub open spec fn drag_after_press(a: App, input: PointerInput) -> Option<(usize, usize)> {
    if input.pressed && input.cell is Some && is_drag_tool(a.tool) {
        input.cell
    } else {
        a.drag_start
    }
}

/// The press, the drag and the release of `input` can each be carried out
/// on the canvas.
pub open spec fn canvas_in_range(a: App, input: PointerInput) -> bool {
    let w = a.width as int;
    let h = a.height as int;
    let brush = a.brush_size as int;
    &&& input.pressed ==> match input.cell {
        Some(c) => can_begin(a.tool, w, h, brush, as_int(c)),
        None => true,
    }
    &&& input.down ==> match input.cell {
        Some(c) => if input.pressed && is_stroke_tool(a.tool) {
            can_continue(a.tool, w, brush, Some(c), as_int(c))
        } else {
            a.drawing_stroke ==> can_continue(a.tool, w, brush, a.last_cell, as_int(c))
        },
        None => true,
    }
    &&& input.released ==> match (drag_after_press(a, input), input.cell) {
        (Some(s), Some(e)) => a.tool == Tool::Line ==> {
            &&& s.0 < COORD_LIMIT && s.1 < COORD_LIMIT
            &&& e.0 < COORD_LIMIT && e.1 < COORD_LIMIT
        },
        _ => true,
    }
}

/// The canvas goes from `a` through `pressed` (after the press) and `held`
/// (after the drag) to `b` (after the release), leaving `ellipse`.
pub open spec fn canvas_stages(
    a: App,
    input: PointerInput,
    pressed: App,
    held: App,
    b: App,
    ellipse: Option<EllipseRequest>,
) -> bool {
    &&& if input.pressed {
        began(a, input.cell, pressed)
    } else {
        pressed == a
    }
    &&& if input.down {
        continued(pressed, input.cell, held)
    } else {
        held == pressed
    }
    &&& if input.released {
        finished(held, input.cell, input.filled, b, ellipse)
    } else {
        b == held && ellipse is None
    }
}

/// `b` is `a` after one frame's pointer input, leaving `action`: a press on
/// a tool button, a swatch or a control is that click alone; dragging the
/// slider leaves the opacity to the caller; otherwise the press, the drag
/// and the release act on the canvas in turn.
pub open spec fn pointer_handled(a: App, input: PointerInput, b: App, action: PointerAction) -> bool {
    if tool_hit(input) {
        input.tool_button matches Some(i) && tool_clicked(a, i, b, true) && action == PointerAction::Done
    } else if swatch_hit(a, input) {
        input.swatch matches Some(i) && swatch_clicked(a, i, b, true) && action == PointerAction::Done
    } else if control_hit(a, input) {
        control_clicked(a, input.control, b, control_outcome(input.control)) && action == follow_up(
            control_outcome(input.control),
        )
    } else if input.down && input.on_slider {
        b == a && action == PointerAction::SetOpacity
    } else {
        exists|pressed: App, held: App, ellipse: Option<EllipseRequest>|
            #[trigger] canvas_stages(a, input, pressed, held, b, ellipse) && action == match ellipse {
                Some(r) => PointerAction::DrawEllipse(r.0, r.1, r.2),
                None => PointerAction::Done,
            }
    }
}

impl App {
    /// Handles one frame's pointer input on the painting screen: a press on
    /// a tool button, a palette swatch or a control is that click; over the
    /// opacity slider the caller moves the opacity; otherwise the press, the
    /// drag and the release act on the canvas in turn.
    pub fn handle_pointer(&mut self, input: &PointerInput) -> (action: PointerAction)
        requires
            old(self).wf(),
            reaches_canvas(*old(self), *input) ==> canvas_in_range(*old(self), *input),
        ensures
            final(self).wf(),
            pointer_handled(*old(self), *input, *final(self), action),
    {
        let ghost a = *self;
        if input.pressed {
            if let Some(i) = input.tool_button {
                if self.handle_tool_click(i) {
                    return PointerAction::Done;
                }
            }
            if let Some(i) = input.swatch {
                if self.handle_palette_click(i) {
                    return PointerAction::Done;
                }
            }
            match self.handle_action_click(input.control) {
                ClickOutcome::Handled => {
                    return PointerAction::Done;
                },
                ClickOutcome::Missed => {},
                ClickOutcome::ImportReference => {
                    return PointerAction::ImportReference;
                },
                ClickOutcome::SetOpacity => {
                    return PointerAction::SetOpacity;
                },
                ClickOutcome::Export => {
                    return PointerAction::Export;
                },
            }
        }
        proof {
            assert(*self == a);
        }
        if input.down && input.on_slider {
            return PointerAction::SetOpacity;
        }
        if input.pressed {
            self.begin_canvas_action(input.cell);
        }
        let ghost pressed = *self;
        if input.down {
            self.continue_canvas_action(input.cell);
        }
        let ghost held = *self;
        let mut ellipse: Option<EllipseRequest> = None;
        if input.released {
            ellipse = self.finish_canvas_action(input.cell, input.filled);
        }
        proof {
            assert(canvas_stages(a, *input, pressed, held, *self, ellipse));
        }
        match ellipse {
            Some(r) => PointerAction::DrawEllipse(r.0, r.1, r.2),
            None => PointerAction::Done,
        }
    }
}

/// The keys held or pressed on the painting screen during one frame.
#[derive(Clone, Copy, Debug)]
pub struct KeyInput {
    pub ctrl: bool,
    pub shift: bool,
    pub n: bool,
    pub z: bool,
    pub y: bool,
    pub s: bool,
    pub o: bool,
    pub b: bool,
    pub e: bool,
    pub f: bool,
    pub i: bool,
    pub l: bool,
    pub r: bool,
    pub m: bool,
    pub d: bool,
    pub g: bool,
    pub left_bracket: bool,
    pub minus: bool,
    pub right_bracket: bool,
    pub equal: bool,
    pub delete: bool,
}

/// What the frame loop still has to do after the keyboard shortcuts.
#[derive(Clone, Copy, Debug, PartialEq, Eq, Structural)]
pub struct KeyboardRequests {
    /// The shortcut left the painting screen: skip the other shortcuts.
    pub stop: bool,
    /// Save the canvas as an image.
    pub export: bool,
    /// Pick and load a reference photo, then skip the other shortcuts.
    pub import: bool,
}

/// The tool picked by this frame's tool keys, the last one in toolbar order
/// winning; none while control is held.
pub open spec fn key_tool(k: KeyInput) -> Option<Tool> {
    if k.ctrl {
        None
    } else if k.d {
        Some(Tool::Dither)
    } else if k.m {
        Some(Tool::Mirror)
    } else if k.s {
        Some(Tool::Spray)
    } else if k.o {
        Some(Tool::Ellipse)
    } else if k.r {
        Some(Tool::Rect)
    } else if k.l {
        Some(Tool::Line)
    } else if k.i {
        Some(Tool::Picker)
    } else if k.f {
        Some(Tool::Fill)
    } else if k.e {
        Some(Tool::Eraser)
    } else if k.b {
        Some(Tool::Brush)
    } else {
        None
    }
}

pub open spec fn shrinks_brush(k: KeyInput) -> bool {
    k.left_bracket || k.minus
}

pub open spec fn grows_brush(k: KeyInput) -> bool {
    k.right_bracket || k.equal
}

/// The brush size after this frame's size keys.
pub open spec fn key_brush(k: KeyInput, size: int) -> int {
    let smaller = if shrinks_brush(k) { stepped_brush(size, -1) } else { size };
    if grows_brush(k) { stepped_brush(smaller, 1) } else { smaller }
}

/// The editor after this frame's tool, grid and brush keys, before a clear.
pub open spec fn after_tool_keys(a: App, k: KeyInput) -> App {
    let tool = match key_tool(k) {
        Some(t) => t,
        None => a.tool,
    };
    let grid = if k.g { !a.show_grid } else { a.show_grid };
    let size = key_brush(k, a.brush_size as int);
    let flashed = key_tool(k) is Some || k.g || shrinks_brush(k) || grows_brush(k);
    App {
        tool,
        show_grid: grid,
        brush_size: size as usize,
        status: a.status,
        status_hold_ms: if flashed { Some(STATUS_HOLD_MS) } else { a.status_hold_ms },
        ..a
    }
}

/// Whether the shortcut key of `t`, the letter on its toolbar button, is
/// pressed in `k`.
pub open spec fn shortcut_pressed(k: KeyInput, t: Tool) -> bool {
    match t {
        Tool::Brush => k.b,
        Tool::Eraser => k.e,
        Tool::Fill => k.f,
        Tool::Picker => k.i,
        Tool::Line => k.l,
        Tool::Rect => k.r,
        Tool::Ellipse => k.o,
        Tool::Spray => k.s,
        Tool::Mirror => k.m,
        Tool::Dither => k.d,
    }
}

/// With control up, the tool keys select the tool whose shortcut is
/// pressed; when several are, the one furthest along the toolbar wins, and
/// with none pressed no tool is selected. With control down they select
/// nothing.
pub proof fn tool_keys_select_their_tools(k: KeyInput)
    ensures
        k.ctrl ==> key_tool(k) is None,
        !k.ctrl ==> forall|i: int|
            0 <= i < TOOL_COUNT ==> (key_tool(k) == #[trigger] tool_at(i) <==> {
                &&& shortcut_pressed(k, tool_at(i)->0)
                &&& forall|j: int| i < j < TOOL_COUNT ==> !shortcut_pressed(k, #[trigger] tool_at(j)->0)
            }),
        !k.ctrl ==> (key_tool(k) is None <==> forall|i: int|
            0 <= i < TOOL_COUNT ==> !shortcut_pressed(k, #[trigger] tool_at(i)->0)),
{
    if !k.ctrl {
        assert forall|i: int| 0 <= i < TOOL_COUNT implies (key_tool(k) == #[trigger] tool_at(i) <==> {
            &&& shortcut_pressed(k, tool_at(i)->0)
            &&& forall|j: int| i < j < TOOL_COUNT ==> !shortcut_pressed(k, #[trigger] tool_at(j)->0)
        }) by {
            assert(tool_at(0) == Some(Tool::Brush));
            assert(tool_at(1) == Some(Tool::Eraser));
            assert(tool_at(2) == Some(Tool::Fill));
            assert(tool_at(3) == Some(Tool::Picker));
            assert(tool_at(4) == Some(Tool::Line));
            assert(tool_at(5) == Some(Tool::Rect));
            assert(tool_at(6) == Some(Tool::Ellipse));
            assert(tool_at(7) == Some(Tool::Spray));
            assert(tool_at(8) == Some(Tool::Mirror));
            assert(tool_at(9) == Some(Tool::Dither));
        }
        assert(tool_at(0) == Some(Tool::Brush));
        assert(tool_at(1) == Some(Tool::Eraser));
        assert(tool_at(2) == Some(Tool::Fill));
        assert(tool_at(3) == Some(Tool::Picker));
        assert(tool_at(4) == Some(Tool::Line));
        assert(tool_at(5) == Some(Tool::Rect));
        assert(tool_at(6) == Some(Tool::Ellipse));
        assert(tool_at(7) == Some(Tool::Spray));
        assert(tool_at(8) == Some(Tool::Mirror));
        assert(tool_at(9) == Some(Tool::Dither));
    }
}

/// Whether this frame presses any tool, grid, brush size or delete key.
pub open spec fn any_tool_key(k: KeyInput) -> bool {
    key_tool(k) is Some || k.g || shrinks_brush(k) || grows_brush(k) || k.delete
}

/// The status message after this frame's tool, grid and brush keys: that
/// of the last control they touched.
pub open spec fn tool_keys_status(a: App, k: KeyInput) -> Seq<char> {
    if grows_brush(k) || shrinks_brush(k) {
        brush_message(key_brush(k, a.brush_size as int))
    } else if k.g {
        grid_message(!a.show_grid)
    } else {
        match key_tool(k) {
            Some(t) => tool_label(t)@,
            None => a.status@,
        }
    }
}

/// The undo or redo that control-Z (with shift for redo) takes `old` to
/// `mid`.
pub open spec fn history_key_step(old: App, k: KeyInput, mid: App) -> bool {
    if k.ctrl && k.z {
        if k.shift {
            crate::history::redone(old, mid)
        } else {
            crate::history::undone(old, mid)
        }
    } else {
        mid == old
    }
}

/// The tool this frame's tool keys pick.
pub fn pressed_tool(keys: &KeyInput) -> (t: Option<Tool>)
    ensures
        t == key_tool(*keys),
{
    if keys.ctrl {
        None
    } else if keys.d {
        Some(Tool::Dither)
    } else if keys.m {
        Some(Tool::Mirror)
    } else if keys.s {
        Some(Tool::Spray)
    } else if keys.o {
        Some(Tool::Ellipse)
    } else if keys.r {
        Some(Tool::Rect)
    } else if keys.l {
        Some(Tool::Line)
    } else if keys.i {
        Some(Tool::Picker)
    } else if keys.f {
        Some(Tool::Fill)
    } else if keys.e {
        Some(Tool::Eraser)
    } else if keys.b {
        Some(Tool::Brush)
    } else {
        None
    }
}

impl App {
    /// The shortcuts with control: a new project (after which the other
    /// shortcuts are skipped), undo, and redo. Saving and loading a photo are left to the caller.
    pub fn handle_keyboard_commands(&mut self, keys: &KeyInput) -> (req: KeyboardRequests)
        requires
            old(self).wf(),
        ensures
            final(self).wf(),
            if keys.ctrl && keys.n {
                req == (KeyboardRequests { stop: true, export: false, import: false })
                    && *final(self) == (App { mode: AppMode::Setup, ..*old(self) })
            } else {
                &&& req == (KeyboardRequests { stop: false, export: keys.ctrl && keys.s, import: keys.ctrl && keys.o })
                &&& exists|mid: App| #[trigger] history_key_step(*old(self), *keys, mid) && {
                    &&& if keys.ctrl && keys.z {
                        if keys.shift {
                            crate::history::redone(*old(self), mid)
                        } else {
                            crate::history::undone(*old(self), mid)
                        }
                    } else {
                        mid == *old(self)
                    }
                    &&& if keys.ctrl && keys.y {
                        crate::history::redone(mid, *final(self))
                    } else {
                        *final(self) == mid
                    }
                }
            },
    {
        let ghost start = *self;
        if keys.ctrl && keys.n {
            self.mode = AppMode::Setup;
            return KeyboardRequests { stop: true, export: false, import: false };
        }
        if keys.ctrl && keys.z {
            if keys.shift {
                self.redo();
            } else {
                self.undo();
            }
        }
        let ghost mid = *self;
        if keys.ctrl && keys.y {
            self.redo();
        }
        proof {
            assert(history_key_step(start, *keys, mid));
            assert(if keys.ctrl && keys.y {
                crate::history::redone(mid, *self)
            } else {
                *self == mid
            });
        }
        KeyboardRequests { stop: false, export: keys.ctrl && keys.s, import: keys.ctrl && keys.o }
    }

    /// The single-key shortcuts: tool keys, the grid, brush size, and
    /// clearing the canvas.
    #[verifier::rlimit(30)]
    pub fn handle_keyboard_tools(&mut self, keys: &KeyInput)
        requires
            old(self).wf(),
        ensures
            final(self).wf(),
            ({
                let mid = after_tool_keys(*old(self), *keys);
                if keys.delete {
                    crate::history::canvas_cleared(mid, *final(self))
                } else {
                    &&& final(self).status@ == tool_keys_status(*old(self), *keys)
                    &&& *final(self) == (App { status: final(self).status, ..mid })
                }
            }),
            !any_tool_key(*keys) ==> *final(self) == *old(self),
    {
        let ghost start = *self;
        if let Some(tool) = pressed_tool(keys) {
            self.select_tool(tool);
        }
        if keys.g {
            self.toggle_grid();
        }
        if keys.left_bracket || keys.minus {
            self.change_brush_size(-1);
        }
        if keys.right_bracket || keys.equal {
            self.change_brush_size(1);
        }
        proof {
            let mid = after_tool_keys(start, *keys);
            assert(self.status@ == tool_keys_status(start, *keys));
            assert(*self == (App { status: self.status, ..mid }));
        }
        if keys.delete {
            self.clear_canvas();
        }
    }
}

} // verus!

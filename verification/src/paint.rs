//! Painting on the canvas: single cells, cell lists, lines, rectangles and
//! the brush.

use vstd::prelude::*;
use crate::app::App;
use crate::grid::{at, idx, in_grid, lemma_idx_in_grid, lemma_painted_add_cell, lemma_painted_same_sel, painted};
use crate::pixel::{Pixel, Tool, transparent};
use crate::setup::MAX_CANVAS_SIZE;
use crate::shapes::{abs_i32, pseudo_hash, xorshift, as_int, cells_as_int, in_rect_shape, line_cells, line_path, rect_cells, COORD_LIMIT};

verus! {

/// Whether `cells` lists cell `c`.
pub open spec fn lists(cells: Seq<(usize, usize)>, c: (int, int)) -> bool {
    exists|k: int| 0 <= k < cells.len() && as_int(#[trigger] cells[k]) == c
}

/// Whether `c` is covered by a brush stamp of `size` cells centred on
/// `(x, y)`; a dithered stamp only covers the cells of one checkerboard
/// colour.
pub open spec fn brush_covers(x: int, y: int, size: int, dither: bool, c: (int, int)) -> bool {
    let anchor = size / 2;
    &&& x - anchor <= c.0 < x - anchor + size
    &&& y - anchor <= c.1 < y - anchor + size
    &&& (!dither || (c.0 + c.1) % 2 == 0)
}

/// The part of a brush stamp painted before offset row `oy`, column `ox`.
pub open spec fn brush_done(x: int, y: int, size: int, dither: bool, oy: int, ox: int, c: (int, int)) -> bool {
    let anchor = size / 2;
    &&& brush_covers(x, y, size, dither, c)
    &&& (c.1 < y - anchor + oy || (c.1 == y - anchor + oy && c.0 < x - anchor + ox))
}

/// Remainder of Rust's integer division, which rounds towards zero.
pub open spec fn trunc_rem(a: int, m: int) -> int {
    if a >= 0 {
        a % m
    } else {
        -((-a) % m)
    }
}

/// Quotient of Rust's integer division, which rounds towards zero.
pub open spec fn trunc_div(a: int, m: int) -> int {
    if a >= 0 {
        a / m
    } else {
        -((-a) / m)
    }
}

/// Radius of the spray tool's disc for a brush size.
pub open spec fn spray_radius(brush: int) -> int {
    (if brush >= 2 {
        brush
    } else {
        2
    }) + 2
}

/// Number of drops the spray tool scatters per cell for a brush size.
pub open spec fn spray_density(brush: int) -> int {
    if brush * 5 >= 10 {
        brush * 5
    } else {
        10
    }
}

/// Seed of the spray pattern at cell `(x, y)` on frame `tick`; the sum
/// wraps around as two's complement does.
pub open spec fn spray_seed(tick: u64, x: int, y: int) -> i32 {
    (tick as i32).wrapping_add((x * 37) as i32).wrapping_add((y * 53) as i32)
}

/// Offset of drop `i` of a spray pattern from its cell.
pub open spec fn spray_offset(seed: i32, radius: int, i: int) -> (int, int) {
    let h = abs_i32(xorshift(seed.wrapping_add((i * 97) as i32))) as int;
    let m = 2 * radius + 1;
    (trunc_rem(h, m) - radius, trunc_rem(trunc_div(h, 17), m) - radius)
}

/// Whether drop `i` of the spray at `(x, y)` lands on `c` inside the disc.
pub open spec fn spray_drop(x: int, y: int, seed: i32, radius: int, i: int, c: (int, int)) -> bool {
    let o = spray_offset(seed, radius, i);
    &&& o.0 * o.0 + o.1 * o.1 <= radius * radius
    &&& c == (x + o.0, y + o.1)
}

/// Whether spraying at `(x, y)` on frame `tick` with brush size `brush`
/// drops paint on `c`.
pub open spec fn spray_covers(x: int, y: int, tick: u64, brush: int, c: (int, int)) -> bool {
    exists|i: int|
        0 <= i < spray_density(brush) && #[trigger] spray_drop(
            x,
            y,
            spray_seed(tick, x, y),
            spray_radius(brush),
            i,
            c,
        )
}

/// The cells one dab of `tool` at `(x, y)` paints.
pub open spec fn dab_cells(tool: Tool, width: int, x: int, y: int, brush: int, tick: u64) -> spec_fn((int, int)) -> bool {
    match tool {
        Tool::Spray => |c: (int, int)| spray_covers(x, y, tick, brush, c),
        Tool::Mirror => |c: (int, int)| brush_covers(x, y, brush, false, c) || brush_covers(width - 1 - x, y, brush, false, c),
        Tool::Dither => |c: (int, int)| brush_covers(x, y, brush, true, c),
        _ => |c: (int, int)| brush_covers(x, y, brush, false, c),
    }
}

/// The colour one dab of `tool` paints with.
pub open spec fn dab_color(tool: Tool, current: Pixel) -> Pixel {
    match tool {
        Tool::Eraser => transparent(),
        _ => current,
    }
}

/// Whether a brush stamp of `brush` cells whose first cell is at most `v`
/// keeps its far edge, `v + brush - 1`, within `i32`, in which the brush
/// works out its cells.
pub open spec fn stamp_fits(v: int, brush: int) -> bool {
    v + brush <= 0x8000_0000
}

/// Whether one dab of `tool` at `(x, y)` can be worked out: the brush
/// stamp fits in `i32`, the spray's seed terms `37 * x` and `53 * y` do, and
/// the mirror tool's cell lies on the canvas, so that its mirror image does.
pub open spec fn dab_in_range(tool: Tool, width: int, brush: int, x: int, y: int) -> bool {
    match tool {
        Tool::Spray => x * 37 <= 0x7fff_ffff && y * 53 <= 0x7fff_ffff,
        Tool::Mirror => x < width && stamp_fits(y, brush),
        _ => stamp_fits(x, brush) && stamp_fits(y, brush),
    }
}

/// The eraser clears the whole brush square, every cell of it, like the
/// brush paints it: the `size` by `size` cells whose corner lies `size / 2`
/// cells up and left of the cell, made fully transparent.
pub proof fn eraser_clears_the_whole_stamp(width: int, x: int, y: int, size: int, tick: u64, current: Pixel, c: (int, int))
    ensures
        dab_cells(Tool::Eraser, width, x, y, size, tick)(c) <==> {
            &&& x - size / 2 <= c.0 < x - size / 2 + size
            &&& y - size / 2 <= c.1 < y - size / 2 + size
        },
        dab_cells(Tool::Eraser, width, x, y, size, tick)(c) == dab_cells(Tool::Brush, width, x, y, size, tick)(c),
        dab_color(Tool::Eraser, current).a == 0,
        dab_color(Tool::Eraser, current) == transparent(),
{
}

/// Spray drops land within the spray radius of the sprayed cell.
pub proof fn spray_stays_in_disc(x: int, y: int, tick: u64, brush: int, c: (int, int))
    requires
        spray_covers(x, y, tick, brush, c),
    ensures
        (c.0 - x) * (c.0 - x) + (c.1 - y) * (c.1 - y) <= spray_radius(brush) * spray_radius(brush),
{
    let i = choose|i: int|
        0 <= i < spray_density(brush) && #[trigger] spray_drop(x, y, spray_seed(tick, x, y), spray_radius(brush), i, c);
    let o = spray_offset(spray_seed(tick, x, y), spray_radius(brush), i);
    assert(c.0 - x == o.0 && c.1 - y == o.1);
}

impl App {
    /// Everything but the canvas is as before.
    pub open spec fn same_but_canvas(&self, other: &App) -> bool {
        *other == (App { pixels: other.pixels, ..*self })
    }

    pub fn in_bounds(&self, x: usize, y: usize) -> (b: bool)
        ensures
            b == (x < self.width && y < self.height),
    {
        x < self.width && y < self.height
    }

    /// Position of cell `(x, y)` in the canvas.
    pub fn index(&self, x: usize, y: usize) -> (i: usize)
        requires
            self.wf(),
            x < self.width,
            y < self.height,
        ensures
            i as int == idx(self.width as int, x as int, y as int),
            i < self.pixels@.len(),
    {
        proof {
            lemma_idx_in_grid(self.width as int, self.height as int, x as int, y as int);
            assert(self.width * self.height <= MAX_CANVAS_SIZE * MAX_CANVAS_SIZE) by (nonlinear_arith)
                requires
                    self.width <= MAX_CANVAS_SIZE,
                    self.height <= MAX_CANVAS_SIZE;
        }
        y * self.width + x
    }

    /// The colour of cell `(x, y)`.
    pub fn pixel(&self, x: usize, y: usize) -> (p: Pixel)
        requires
            self.wf(),
            x < self.width,
            y < self.height,
        ensures
            p == at(self.pixels@, self.width as int, x as int, y as int),
    {
        let i = self.index(x, y);
        self.pixels[i]
    }

    /// Paints cell `(x, y)`; a cell outside the canvas is ignored.
    pub fn set_raw(&mut self, x: usize, y: usize, color: Pixel)
        requires
            old(self).wf(),
        ensures
            final(self).wf(),
            old(self).same_but_canvas(&*final(self)),
            painted(
                old(self).pixels@,
                final(self).pixels@,
                old(self).width as int,
                old(self).height as int,
                |c: (int, int)| c == (x as int, y as int),
                color,
            ),
    {
        let ghost w = self.width as int;
        let ghost h = self.height as int;
        let ghost before = self.pixels@;
        if self.in_bounds(x, y) {
            let i = self.index(x, y);
            self.pixels.set(i, color);
            proof {
                lemma_painted_add_cell(before, before, w, h, |c: (int, int)| false, color, (x as int, y as int));
                lemma_painted_same_sel(
                    before,
                    self.pixels@,
                    w,
                    h,
                    |c: (int, int)| false || c == (x as int, y as int),
                    |c: (int, int)| c == (x as int, y as int),
                    color,
                );
            }
        }
    }

    /// Paints every listed cell that lies on the canvas.
    pub fn paint_cells(&mut self, cells: &Vec<(usize, usize)>, color: Pixel)
        requires
            old(self).wf(),
        ensures
            final(self).wf(),
            old(self).same_but_canvas(&*final(self)),
            painted(
                old(self).pixels@,
                final(self).pixels@,
                old(self).width as int,
                old(self).height as int,
                |c: (int, int)| lists(cells@, c),
                color,
            ),
    {
        let ghost w = self.width as int;
        let ghost h = self.height as int;
        let ghost start = *self;
        let mut k: usize = 0;
        while k < cells.len()
            invariant
                0 <= k <= cells@.len(),
                self.wf(),
                start.same_but_canvas(&*self),
                w == start.width,
                h == start.height,
                painted(
                    start.pixels@,
                    self.pixels@,
                    w,
                    h,
                    |c: (int, int)| exists|j: int| 0 <= j < k && as_int(#[trigger] cells@[j]) == c,
                    color,
                ),
            decreases cells@.len() - k,
        {
            let (x, y) = cells[k];
            let ghost mid = self.pixels@;
            let ghost sel_k = |c: (int, int)| exists|j: int| 0 <= j < k && as_int(#[trigger] cells@[j]) == c;
            let ghost sel_next = |c: (int, int)| exists|j: int| 0 <= j < k + 1 && as_int(#[trigger] cells@[j]) == c;
            self.set_raw(x, y, color);
            proof {
                assert forall|c: (int, int)| in_grid(w, h, c) implies (sel_k(c) || c == (x as int, y as int)) == sel_next(c) by {
                    if c == (x as int, y as int) {
                        assert(as_int(cells@[k as int]) == c);
                    }
                    if sel_next(c) && !sel_k(c) {
                        let j = choose|j: int| 0 <= j < k + 1 && as_int(#[trigger] cells@[j]) == c;
                        assert(j == k);
                    }
                }
                crate::grid::lemma_painted_compose(
                    start.pixels@,
                    mid,
                    self.pixels@,
                    w,
                    h,
                    sel_k,
                    |c: (int, int)| c == (x as int, y as int),
                    color,
                );
                lemma_painted_same_sel(
                    start.pixels@,
                    self.pixels@,
                    w,
                    h,
                    |c: (int, int)| sel_k(c) || c == (x as int, y as int),
                    sel_next,
                    color,
                );
            }
            k = k + 1;
        }
        proof {
            lemma_painted_same_sel(
                start.pixels@,
                self.pixels@,
                w,
                h,
                |c: (int, int)| exists|j: int| 0 <= j < k && as_int(#[trigger] cells@[j]) == c,
                |c: (int, int)| lists(cells@, c),
                color,
            );
        }
    }

    /// Draws the line tool's line from `start` to `end`.
    pub fn draw_line(&mut self, start: (usize, usize), end: (usize, usize), color: Pixel)
        requires
            old(self).wf(),
            start.0 < COORD_LIMIT && start.1 < COORD_LIMIT,
            end.0 < COORD_LIMIT && end.1 < COORD_LIMIT,
        ensures
            final(self).wf(),
            old(self).same_but_canvas(&*final(self)),
            painted(
                old(self).pixels@,
                final(self).pixels@,
                old(self).width as int,
                old(self).height as int,
                |c: (int, int)| line_path(as_int(start), as_int(end)).contains(c),
                color,
            ),
    {
        let cells = line_cells(start, end);
        self.paint_cells(&cells, color);
        proof {
            let w = self.width as int;
            let h = self.height as int;
            assert forall|c: (int, int)| in_grid(w, h, c) implies lists(cells@, c) == line_path(
                as_int(start),
                as_int(end),
            ).contains(c) by {
                if lists(cells@, c) {
                    let k = choose|k: int| 0 <= k < cells@.len() && as_int(#[trigger] cells@[k]) == c;
                    assert(cells_as_int(cells@)[k] == c);
                }
                if line_path(as_int(start), as_int(end)).contains(c) {
                    let k = choose|k: int| 0 <= k < line_path(as_int(start), as_int(end)).len()
                        && line_path(as_int(start), as_int(end))[k] == c;
                    assert(cells_as_int(cells@)[k] == c);
                    assert(as_int(cells@[k]) == c);
                }
            }
            lemma_painted_same_sel(
                old(self).pixels@,
                self.pixels@,
                w,
                h,
                |c: (int, int)| lists(cells@, c),
                |c: (int, int)| line_path(as_int(start), as_int(end)).contains(c),
                color,
            );
        }
    }

    /// Draws the rectangle tool's rectangle spanned by `start` and `end`:
    /// its outline, or its whole area when `filled`.
    pub fn draw_rect(&mut self, start: (usize, usize), end: (usize, usize), color: Pixel, filled: bool)
        requires
            old(self).wf(),
        ensures
            final(self).wf(),
            old(self).same_but_canvas(&*final(self)),
            painted(
                old(self).pixels@,
                final(self).pixels@,
                old(self).width as int,
                old(self).height as int,
                |c: (int, int)| in_rect_shape(as_int(start), as_int(end), filled, c),
                color,
            ),
    {
        let cells = rect_cells(start, end, filled);
        self.paint_cells(&cells, color);
        proof {
            let w = self.width as int;
            let h = self.height as int;
            assert forall|c: (int, int)| in_grid(w, h, c) implies lists(cells@, c) == in_rect_shape(
                as_int(start),
                as_int(end),
                filled,
                c,
            ) by {
                if in_rect_shape(as_int(start), as_int(end), filled, c) {
                    let ux = c.0 as usize;
                    let uy = c.1 as usize;
                    assert(in_rect_shape(as_int(start), as_int(end), filled, (ux as int, uy as int)));
                    assert(cells@.contains((ux, uy)));
                    let k = choose|k: int| 0 <= k < cells@.len() && cells@[k] == (ux, uy);
                    assert(as_int(cells@[k]) == c);
                }
            }
            lemma_painted_same_sel(
                old(self).pixels@,
                self.pixels@,
                w,
                h,
                |c: (int, int)| lists(cells@, c),
                |c: (int, int)| in_rect_shape(as_int(start), as_int(end), filled, c),
                color,
            );
        }
    }

    /// Stamps the brush centred on `(x, y)` in `color`; a dithered stamp
    /// only paints the cells whose coordinates add up to an even number.
    pub fn paint_brush(&mut self, x: usize, y: usize, color: Pixel, dither: bool)
        requires
            old(self).wf(),
            stamp_fits(x as int, old(self).brush_size as int),
            stamp_fits(y as int, old(self).brush_size as int),
        ensures
            final(self).wf(),
            old(self).same_but_canvas(&*final(self)),
            painted(
                old(self).pixels@,
                final(self).pixels@,
                old(self).width as int,
                old(self).height as int,
                |c: (int, int)| brush_covers(x as int, y as int, old(self).brush_size as int, dither, c),
                color,
            ),
    {
        let ghost w = self.width as int;
        let ghost h = self.height as int;
        let ghost start = *self;
        let size: i32 = (if self.brush_size >= 1 { self.brush_size } else { 1 }) as i32;
        let anchor: i32 = size / 2;
        let center_x: i32 = x as i32;
        let center_y: i32 = y as i32;
        let ghost gx = x as int;
        let ghost gy = y as int;
        let ghost gs = size as int;
        let mut oy: i32 = 0;
        while oy < size
            invariant
                self.wf(),
                start.same_but_canvas(&*self),
                start.wf(),
                w == start.width,
                h == start.height,
                gs == start.brush_size,
                size as int == gs,
                1 <= gs <= 8,
                anchor == gs / 2,
                center_x == gx,
                center_y == gy,
                0 <= gx,
                0 <= gy,
                stamp_fits(gx, gs),
                stamp_fits(gy, gs),
                0 <= oy <= gs,
                painted(
                    start.pixels@,
                    self.pixels@,
                    w,
                    h,
                    |c: (int, int)| brush_done(gx, gy, gs, dither, oy as int, 0, c),
                    color,
                ),
            decreases gs - oy,
        {
            let mut ox: i32 = 0;
            while ox < size
                invariant
                    self.wf(),
                    start.same_but_canvas(&*self),
                    start.wf(),
                    w == start.width,
                    h == start.height,
                    gs == start.brush_size,
                    size as int == gs,
                    1 <= gs <= 8,
                    anchor == gs / 2,
                    center_x == gx,
                    center_y == gy,
                    0 <= gx,
                    0 <= gy,
                    stamp_fits(gx, gs),
                    stamp_fits(gy, gs),
                    0 <= oy < gs,
                    0 <= ox <= gs,
                    painted(
                        start.pixels@,
                        self.pixels@,
                        w,
                        h,
                        |c: (int, int)| brush_done(gx, gy, gs, dither, oy as int, ox as int, c),
                        color,
                    ),
                decreases gs - ox,
            {
                let ghost mid = self.pixels@;
                let ghost done = |c: (int, int)| brush_done(gx, gy, gs, dither, oy as int, ox as int, c);
                let ghost next = |c: (int, int)| brush_done(gx, gy, gs, dither, oy as int, ox + 1, c);
                let nx: i32 = center_x + ox - anchor;
                let ny: i32 = center_y + oy - anchor;
                let ghost cell = (nx as int, ny as int);
                if nx >= 0 && ny >= 0 {
                    let ux = nx as usize;
                    let uy = ny as usize;
                    if self.in_bounds(ux, uy) && (!dither || (ux + uy) % 2 == 0) {
                        self.set_raw(ux, uy, color);
                        proof {
                            crate::grid::lemma_painted_compose(
                                start.pixels@,
                                mid,
                                self.pixels@,
                                w,
                                h,
                                done,
                                |c: (int, int)| c == cell,
                                color,
                            );
                            lemma_painted_same_sel(
                                start.pixels@,
                                self.pixels@,
                                w,
                                h,
                                |c: (int, int)| done(c) || c == cell,
                                next,
                                color,
                            );
                        }
                    } else {
                        proof {
                            lemma_painted_same_sel(start.pixels@, self.pixels@, w, h, done, next, color);
                        }
                    }
                } else {
                    proof {
                        lemma_painted_same_sel(start.pixels@, self.pixels@, w, h, done, next, color);
                    }
                }
                ox = ox + 1;
            }
            proof {
                lemma_painted_same_sel(
                    start.pixels@,
                    self.pixels@,
                    w,
                    h,
                    |c: (int, int)| brush_done(gx, gy, gs, dither, oy as int, gs, c),
                    |c: (int, int)| brush_done(gx, gy, gs, dither, oy + 1, 0, c),
                    color,
                );
            }
            oy = oy + 1;
        }
        proof {
            lemma_painted_same_sel(
                start.pixels@,
                self.pixels@,
                w,
                h,
                |c: (int, int)| brush_done(gx, gy, gs, dither, gs, 0, c),
                |c: (int, int)| brush_covers(gx, gy, gs, dither, c),
                color,
            );
        }
    }

    /// Scatters drops of the current colour around `(x, y)`: a fixed
    /// pseudo-random pattern, chosen by the frame and the cell, of drops
    /// within the spray radius.
    pub fn spray_cell(&mut self, x: usize, y: usize)
        requires
            old(self).wf(),
            dab_in_range(Tool::Spray, old(self).width as int, old(self).brush_size as int, x as int, y as int),
        ensures
            final(self).wf(),
            old(self).same_but_canvas(&*final(self)),
            painted(
                old(self).pixels@,
                final(self).pixels@,
                old(self).width as int,
                old(self).height as int,
                |c: (int, int)| spray_covers(x as int, y as int, old(self).tick, old(self).brush_size as int, c),
                old(self).current,
            ),
    {
        let ghost w = self.width as int;
        let ghost h = self.height as int;
        let ghost start = *self;
        let brush = self.brush_size;
        let radius: i32 = (if brush >= 2 { brush } else { 2 }) as i32 + 2;
        let density: usize = if brush * 5 >= 10 { brush * 5 } else { 10 };
        let seed: i32 = (#[verifier::truncate] (self.tick as i32)).wrapping_add(x as i32 * 37).wrapping_add(y as i32 * 53);
        let color = self.current;
        let ghost gx = x as int;
        let ghost gy = y as int;
        proof {
            assert(seed == spray_seed(start.tick, gx, gy));
        }
        let mut i: usize = 0;
        while i < density
            invariant
                self.wf(),
                start.same_but_canvas(&*self),
                start.wf(),
                w == start.width,
                h == start.height,
                color == start.current,
                radius as int == spray_radius(start.brush_size as int),
                density as int == spray_density(start.brush_size as int),
                3 <= radius <= 10,
                density <= 40,
                seed == spray_seed(start.tick, gx, gy),
                gx == x,
                gy == y,
                0 <= gx,
                0 <= gy,
                gx * 37 <= 0x7fff_ffff,
                gy * 53 <= 0x7fff_ffff,
                0 <= i <= density,
                painted(
                    start.pixels@,
                    self.pixels@,
                    w,
                    h,
                    |c: (int, int)| exists|j: int| 0 <= j < i && #[trigger] spray_drop(gx, gy, seed, radius as int, j, c),
                    color,
                ),
            decreases density - i,
        {
            let ghost mid = self.pixels@;
            let ghost done = |c: (int, int)| exists|j: int| 0 <= j < i && #[trigger] spray_drop(gx, gy, seed, radius as int, j, c);
            let ghost next = |c: (int, int)| exists|j: int| 0 <= j < i + 1 && #[trigger] spray_drop(gx, gy, seed, radius as int, j, c);
            let ghost off = spray_offset(seed, radius as int, i as int);
            let hash = pseudo_hash(seed.wrapping_add(i as i32 * 97));
            let m: i32 = radius * 2 + 1;
            let dx: i32 = hash % m - radius;
            let dy: i32 = (hash / 17) % m - radius;
            proof {
                assert(dx as int == off.0);
                assert(dy as int == off.1);
                assert(-30 <= dx <= 30 && -30 <= dy <= 30);
                assert(0 <= dx * dx <= 900 && 0 <= dy * dy <= 900 && radius * radius <= 100) by (nonlinear_arith)
                    requires
                        -30 <= dx <= 30,
                        -30 <= dy <= 30,
                        3 <= radius <= 10;
            }
            let ghost cell = (gx + dx, gy + dy);
            proof {
                assert forall|c: (int, int)| in_grid(w, h, c) && c != cell implies done(c) == next(c) by {
                    if next(c) {
                        let j = choose|j: int| 0 <= j < i + 1 && #[trigger] spray_drop(gx, gy, seed, radius as int, j, c);
                        if j == i {
                            assert(c == cell);
                        }
                    }
                }
            }
            if dx * dx + dy * dy <= radius * radius {
                let nx: i32 = x as i32 + dx;
                let ny: i32 = y as i32 + dy;
                if nx >= 0 && ny >= 0 {
                    let ux = nx as usize;
                    let uy = ny as usize;
                    if self.in_bounds(ux, uy) {
                        self.set_raw(ux, uy, color);
                        proof {
                            assert(spray_drop(gx, gy, seed, radius as int, i as int, cell));
                            crate::grid::lemma_painted_compose(
                                start.pixels@,
                                mid,
                                self.pixels@,
                                w,
                                h,
                                done,
                                |c: (int, int)| c == cell,
                                color,
                            );
                            lemma_painted_same_sel(
                                start.pixels@,
                                self.pixels@,
                                w,
                                h,
                                |c: (int, int)| done(c) || c == cell,
                                next,
                                color,
                            );
                        }
                    } else {
                        proof {
                            lemma_painted_same_sel(start.pixels@, self.pixels@, w, h, done, next, color);
                        }
                    }
                } else {
                    proof {
                        lemma_painted_same_sel(start.pixels@, self.pixels@, w, h, done, next, color);
                    }
                }
            } else {
                proof {
                    assert forall|c: (int, int)| in_grid(w, h, c) implies done(c) == next(c) by {
                        if next(c) {
                            let j = choose|j: int| 0 <= j < i + 1 && #[trigger] spray_drop(gx, gy, seed, radius as int, j, c);
                            if j == i {
                                assert(spray_drop(gx, gy, seed, radius as int, i as int, c));
                            }
                        }
                    }
                    lemma_painted_same_sel(start.pixels@, self.pixels@, w, h, done, next, color);
                }
            }
            i = i + 1;
        }
        proof {
            lemma_painted_same_sel(
                start.pixels@,
                self.pixels@,
                w,
                h,
                |c: (int, int)| exists|j: int| 0 <= j < i && #[trigger] spray_drop(gx, gy, seed, radius as int, j, c),
                |c: (int, int)| spray_covers(gx, gy, start.tick, start.brush_size as int, c),
                color,
            );
        }
    }

    /// One dab of the current tool at `(x, y)`: the brush stamp in the
    /// current colour, mirrored across the canvas for the mirror tool,
    /// dithered for the dither tool, transparent for the eraser, and a spray
    /// pattern for the spray tool.
    pub fn paint_cell(&mut self, x: usize, y: usize)
        requires
            old(self).wf(),
            dab_in_range(old(self).tool, old(self).width as int, old(self).brush_size as int, x as int, y as int),
        ensures
            final(self).wf(),
            old(self).same_but_canvas(&*final(self)),
            painted(
                old(self).pixels@,
                final(self).pixels@,
                old(self).width as int,
                old(self).height as int,
                dab_cells(old(self).tool, old(self).width as int, x as int, y as int, old(self).brush_size as int, old(self).tick),
                dab_color(old(self).tool, old(self).current),
            ),
    {
        match self.tool {
            Tool::Spray => self.spray_cell(x, y),
            Tool::Mirror => {
                let ghost start = self.pixels@;
                self.paint_brush(x, y, self.current, false);
                let ghost mid = self.pixels@;
                let mirror_x = self.width - 1 - x;
                self.paint_brush(mirror_x, y, self.current, false);
                proof {
                    crate::grid::lemma_painted_compose(
                        start,
                        mid,
                        self.pixels@,
                        self.width as int,
                        self.height as int,
                        |c: (int, int)| brush_covers(x as int, y as int, self.brush_size as int, false, c),
                        |c: (int, int)| brush_covers(mirror_x as int, y as int, self.brush_size as int, false, c),
                        self.current,
                    );
                    lemma_painted_same_sel(
                        start,
                        self.pixels@,
                        self.width as int,
                        self.height as int,
                        |c: (int, int)| brush_covers(x as int, y as int, self.brush_size as int, false, c)
                            || brush_covers(mirror_x as int, y as int, self.brush_size as int, false, c),
                        dab_cells(Tool::Mirror, self.width as int, x as int, y as int, self.brush_size as int, self.tick),
                        self.current,
                    );
                }
            },
            Tool::Dither => self.paint_brush(x, y, self.current, true),
            Tool::Eraser => self.paint_brush(x, y, Pixel::transparent(), false),
            _ => self.paint_brush(x, y, self.current, false),
        }
    }
}

} // verus!

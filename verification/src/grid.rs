//! Row-major pixel grids: indexing, and what it means to paint a set of
//! cells.

use vstd::prelude::*;
use crate::pixel::Pixel;

verus! {

/// Position of cell `(x, y)` in a row-major grid `w` cells wide.
pub open spec fn idx(w: int, x: int, y: int) -> int {
    y * w + x
}

pub open spec fn in_grid(w: int, h: int, c: (int, int)) -> bool {
    0 <= c.0 < w && 0 <= c.1 < h
}

/// The pixel in column `x` of row `y`.
pub open spec fn at(pixels: Seq<Pixel>, w: int, x: int, y: int) -> Pixel {
    pixels[idx(w, x, y)]
}

/// `new` is `old` with every cell of the grid that `sel` picks painted
/// `color`, and every other cell unchanged. Cells that `sel` picks outside
/// the grid are ignored.
pub open spec fn painted(
    old: Seq<Pixel>,
    new: Seq<Pixel>,
    w: int,
    h: int,
    sel: spec_fn((int, int)) -> bool,
    color: Pixel,
) -> bool {
    &&& new.len() == old.len()
    &&& forall|x: int, y: int|
        0 <= x < w && 0 <= y < h ==> #[trigger] at(new, w, x, y) == if sel((x, y)) {
            color
        } else {
            at(old, w, x, y)
        }
}

/// Every position of a `w` by `h` grid is the index of exactly one cell.
pub proof fn lemma_idx_in_grid(w: int, h: int, x: int, y: int)
    requires
        0 <= x < w,
        0 <= y < h,
    ensures
        0 <= idx(w, x, y) < w * h,
        0 <= y * w + x < w * h,
{
    assert(0 <= y * w) by (nonlinear_arith)
        requires 0 <= y, 0 <= w;
    assert(y * w + x < w * h) by (nonlinear_arith)
        requires 0 <= x < w, 0 <= y < h;
}

pub proof fn lemma_idx_inj(w: int, x1: int, y1: int, x2: int, y2: int)
    requires
        0 <= x1 < w,
        0 <= x2 < w,
        0 <= y1,
        0 <= y2,
        idx(w, x1, y1) == idx(w, x2, y2),
    ensures
        x1 == x2,
        y1 == y2,
{
    if y1 < y2 {
        assert(y1 * w + w <= y2 * w) by (nonlinear_arith)
            requires y1 < y2, 0 <= w;
    } else if y2 < y1 {
        assert(y2 * w + w <= y1 * w) by (nonlinear_arith)
            requires y2 < y1, 0 <= w;
    }
}

/// The cell at index `i` of a `w`-wide grid.
pub proof fn lemma_cell_of_index(w: int, h: int, i: int) -> (c: (int, int))
    requires
        0 < w,
        0 <= h,
        0 <= i < w * h,
    ensures
        in_grid(w, h, c),
        idx(w, c.0, c.1) == i,
{
    let c = (i % w, i / w);
    assert(i == (i / w) * w + i % w) by (nonlinear_arith)
        requires 0 < w;
    assert(0 <= i % w < w) by (nonlinear_arith)
        requires 0 < w;
    assert(0 <= i / w < h) by (nonlinear_arith)
        requires 0 < w, 0 <= i < w * h;
    assert(idx(w, c.0, c.1) == (i / w) * w + i % w);
    c
}

/// Grids of the same size that agree on every cell are equal.
pub proof fn lemma_grid_ext(a: Seq<Pixel>, b: Seq<Pixel>, w: int, h: int)
    requires
        0 < w,
        0 <= h,
        a.len() == w * h,
        b.len() == w * h,
        forall|x: int, y: int| 0 <= x < w && 0 <= y < h ==> #[trigger] at(a, w, x, y) == at(b, w, x, y),
    ensures
        a == b,
{
    assert forall|i: int| 0 <= i < a.len() implies a[i] == b[i] by {
        let c = lemma_cell_of_index(w, h, i);
        assert(at(a, w, c.0, c.1) == at(b, w, c.0, c.1));
    }
    assert(a =~= b);
}

/// Painting one more cell on top of a painted set paints the union.
pub proof fn lemma_painted_add_cell(
    old: Seq<Pixel>,
    mid: Seq<Pixel>,
    w: int,
    h: int,
    sel: spec_fn((int, int)) -> bool,
    color: Pixel,
    cell: (int, int),
)
    requires
        painted(old, mid, w, h, sel, color),
        old.len() == w * h,
        in_grid(w, h, cell),
    ensures
        painted(
            old,
            mid.update(idx(w, cell.0, cell.1), color),
            w,
            h,
            |c: (int, int)| sel(c) || c == cell,
            color,
        ),
{
    let new = mid.update(idx(w, cell.0, cell.1), color);
    lemma_idx_in_grid(w, h, cell.0, cell.1);
    assert forall|x: int, y: int| 0 <= x < w && 0 <= y < h implies #[trigger] at(new, w, x, y) == if sel((x, y)) || (x, y) == cell {
        color
    } else {
        at(old, w, x, y)
    } by {
        lemma_idx_in_grid(w, h, x, y);
        if (x, y) != cell {
            if idx(w, x, y) == idx(w, cell.0, cell.1) {
                lemma_idx_inj(w, x, y, cell.0, cell.1);
            }
        }
        assert(at(mid, w, x, y) == if sel((x, y)) { color } else { at(old, w, x, y) });
    }
}

/// Painting the same selection two ways gives the same grid.
pub proof fn lemma_painted_same_sel(
    old: Seq<Pixel>,
    new: Seq<Pixel>,
    w: int,
    h: int,
    sel1: spec_fn((int, int)) -> bool,
    sel2: spec_fn((int, int)) -> bool,
    color: Pixel,
)
    requires
        painted(old, new, w, h, sel1, color),
        forall|c: (int, int)| in_grid(w, h, c) ==> (sel1(c) <==> sel2(c)),
    ensures
        painted(old, new, w, h, sel2, color),
{
    assert forall|x: int, y: int| 0 <= x < w && 0 <= y < h implies #[trigger] at(new, w, x, y) == if sel2((x, y)) {
        color
    } else {
        at(old, w, x, y)
    } by {
        assert(in_grid(w, h, (x, y)));
        assert(at(new, w, x, y) == if sel1((x, y)) { color } else { at(old, w, x, y) });
    }
}

/// Painting `a`, then `b`, with one colour paints their union.
pub proof fn lemma_painted_compose(
    old: Seq<Pixel>,
    mid: Seq<Pixel>,
    new: Seq<Pixel>,
    w: int,
    h: int,
    a: spec_fn((int, int)) -> bool,
    b: spec_fn((int, int)) -> bool,
    color: Pixel,
)
    requires
        painted(old, mid, w, h, a, color),
        painted(mid, new, w, h, b, color),
    ensures
        painted(old, new, w, h, |c: (int, int)| a(c) || b(c), color),
{
    assert forall|x: int, y: int| 0 <= x < w && 0 <= y < h implies #[trigger] at(new, w, x, y) == if a((x, y)) || b((x, y)) {
        color
    } else {
        at(old, w, x, y)
    } by {
        assert(at(new, w, x, y) == if b((x, y)) { color } else { at(mid, w, x, y) });
        assert(at(mid, w, x, y) == if a((x, y)) { color } else { at(old, w, x, y) });
    }
}

} // verus!

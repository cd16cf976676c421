//! The bucket tool: flood fill of a same-coloured region.

use vstd::prelude::*;
use crate::app::App;
use crate::grid::{at, idx, in_grid, lemma_idx_in_grid, lemma_idx_inj, painted};
use crate::paint::lists;
use crate::pixel::Pixel;
use crate::shapes::as_int;

verus! {

/// Cells that share a side.
pub open spec fn adjacent(a: (int, int), b: (int, int)) -> bool {
    ||| (a.0 == b.0 && (a.1 == b.1 + 1 || b.1 == a.1 + 1))
    ||| (a.1 == b.1 && (a.0 == b.0 + 1 || b.0 == a.0 + 1))
}

/// `path` walks from cell to side-sharing cell over cells of colour `color`.
pub open spec fn is_color_path(pixels: Seq<Pixel>, w: int, h: int, color: Pixel, path: Seq<(int, int)>) -> bool {
    &&& path.len() >= 1
    &&& forall|k: int| 0 <= k < path.len() ==> in_grid(w, h, #[trigger] path[k])
    &&& forall|k: int| 0 <= k < path.len() ==> at(pixels, w, path[k].0, path[k].1) == color
    &&& forall|k: int| 0 <= k < path.len() - 1 ==> adjacent(#[trigger] path[k], path[k + 1])
}

/// Whether `c` belongs to the region the bucket tool fills from `start`:
/// the cells joined to `start` by side-sharing cells of its colour.
pub open spec fn fill_region(pixels: Seq<Pixel>, w: int, h: int, start: (int, int), c: (int, int)) -> bool {
    exists|path: Seq<(int, int)>|
        #[trigger] is_color_path(pixels, w, h, at(pixels, w, start.0, start.1), path) && path[0] == start
            && path.last() == c
}

/// Number of cells of colour `color`.
pub open spec fn count_color(pixels: Seq<Pixel>, color: Pixel) -> nat
    decreases pixels.len(),
{
    if pixels.len() == 0 {
        0
    } else {
        count_color(pixels.drop_last(), color) + if pixels.last() == color {
            1nat
        } else {
            0nat
        }
    }
}

proof fn lemma_count_color_update(pixels: Seq<Pixel>, color: Pixel, i: int, other: Pixel)
    requires
        0 <= i < pixels.len(),
        pixels[i] == color,
        other != color,
    ensures
        count_color(pixels.update(i, other), color) + 1 == count_color(pixels, color),
    decreases pixels.len(),
{
    let u = pixels.update(i, other);
    if i == pixels.len() - 1 {
        assert(u.drop_last() == pixels.drop_last());
    } else {
        assert(u.drop_last() == pixels.drop_last().update(i, other));
        lemma_count_color_update(pixels.drop_last(), color, i, other);
    }
}

/// The region grows across a shared side onto a cell of its colour.
proof fn lemma_region_extend(pixels: Seq<Pixel>, w: int, h: int, start: (int, int), c: (int, int), n: (int, int))
    requires
        fill_region(pixels, w, h, start, c),
        adjacent(c, n),
        in_grid(w, h, n),
        at(pixels, w, n.0, n.1) == at(pixels, w, start.0, start.1),
    ensures
        fill_region(pixels, w, h, start, n),
{
    let t = at(pixels, w, start.0, start.1);
    let path = choose|path: Seq<(int, int)>|
        #[trigger] is_color_path(pixels, w, h, t, path) && path[0] == start && path.last() == c;
    let p2 = path.push(n);
    assert forall|k: int| 0 <= k < p2.len() - 1 implies adjacent(#[trigger] p2[k], p2[k + 1]) by {
        if k < path.len() - 1 {
            assert(p2[k] == path[k] && p2[k + 1] == path[k + 1]);
        }
    }
    assert(is_color_path(pixels, w, h, t, p2));
}

/// The start cell lies in its own region.
proof fn lemma_region_start(pixels: Seq<Pixel>, w: int, h: int, start: (int, int))
    requires
        in_grid(w, h, start),
    ensures
        fill_region(pixels, w, h, start, start),
{
    let p = seq![start];
    assert(is_color_path(pixels, w, h, at(pixels, w, start.0, start.1), p));
}

/// When the fill stops, every cell of a coloured path from the start has
/// been painted over.
proof fn lemma_path_filled(
    before: Seq<Pixel>,
    after: Seq<Pixel>,
    w: int,
    h: int,
    target: Pixel,
    path: Seq<(int, int)>,
)
    requires
        is_color_path(before, w, h, target, path),
        at(after, w, path[0].0, path[0].1) != target,
        forall|x: int, y: int|
            0 <= x < w && 0 <= y < h ==> at(after, w, x, y) == at(before, w, x, y) || at(after, w, x, y)
                != target,
        forall|c: (int, int), n: (int, int)|
            in_grid(w, h, c) && in_grid(w, h, n) && #[trigger] adjacent(c, n) && at(after, w, c.0, c.1)
                != at(before, w, c.0, c.1) ==> at(after, w, n.0, n.1) != target,
    ensures
        forall|k: int| 0 <= k < path.len() ==> at(after, w, (#[trigger] path[k]).0, path[k].1) != target,
    decreases path.len(),
{
    if path.len() > 1 {
        let shorter = path.drop_last();
        assert forall|k: int| 0 <= k < shorter.len() - 1 implies adjacent(#[trigger] shorter[k], shorter[k + 1]) by {
            assert(shorter[k] == path[k] && shorter[k + 1] == path[k + 1]);
        }
        assert(forall|k: int| 0 <= k < shorter.len() ==> #[trigger] shorter[k] == path[k]);
        assert(is_color_path(before, w, h, target, shorter));
        lemma_path_filled(before, after, w, h, target, shorter);
        let last = path.len() - 1;
        let c = path[last - 1];
        let n = path[last];
        assert(shorter[last - 1] == c);
        assert(in_grid(w, h, c) && in_grid(w, h, n));
        assert(adjacent(c, n));
        assert(at(after, w, c.0, c.1) != target);
        assert(at(before, w, c.0, c.1) == target);
        assert forall|k: int| 0 <= k < path.len() implies at(after, w, (#[trigger] path[k]).0, path[k].1) != target by {
            if k < last {
                assert(shorter[k] == path[k]);
            }
        }
    }
}

/// What holds between two rounds of the fill, for canvas `p` and pending
/// cells `stack`, started from `origin` on canvas `s0`.
#[verifier::opaque]
pub open spec fn fill_inv(
    s0: Seq<Pixel>,
    p: Seq<Pixel>,
    stack: Seq<(usize, usize)>,
    w: int,
    h: int,
    origin: (int, int),
    target: Pixel,
    replacement: Pixel,
) -> bool {
    &&& p.len() == s0.len()
    &&& forall|k: int| 0 <= k < stack.len() ==> in_grid(w, h, as_int(#[trigger] stack[k]))
    &&& forall|k: int|
        0 <= k < stack.len() && at(s0, w, (#[trigger] stack[k]).0 as int, stack[k].1 as int) == target
            ==> fill_region(s0, w, h, origin, as_int(stack[k]))
    &&& forall|a: int, b: int|
        0 <= a < w && 0 <= b < h ==> #[trigger] at(p, w, a, b) == at(s0, w, a, b) || (at(p, w, a, b)
            == replacement && fill_region(s0, w, h, origin, (a, b)))
    &&& forall|c: (int, int), n: (int, int)|
        in_grid(w, h, c) && in_grid(w, h, n) && #[trigger] adjacent(c, n) && at(p, w, c.0, c.1) != at(s0, w, c.0, c.1)
            ==> at(p, w, n.0, n.1) != target || lists(stack, n)
    &&& at(p, w, origin.0, origin.1) != target || lists(stack, origin)
}

proof fn lemma_fill_init(s0: Seq<Pixel>, w: int, h: int, origin: (int, int), replacement: Pixel, stack: Seq<(usize, usize)>)
    requires
        s0.len() == w * h,
        in_grid(w, h, origin),
        stack.len() == 1,
        as_int(stack[0]) == origin,
    ensures
        fill_inv(s0, s0, stack, w, h, origin, at(s0, w, origin.0, origin.1), replacement),
{
    reveal(fill_inv);
    lemma_region_start(s0, w, h, origin);
    assert(lists(stack, origin));
}

/// Pending cells lie on the canvas.
proof fn lemma_fill_top_in_grid(
    s0: Seq<Pixel>,
    p: Seq<Pixel>,
    stack: Seq<(usize, usize)>,
    w: int,
    h: int,
    origin: (int, int),
    target: Pixel,
    replacement: Pixel,
)
    requires
        fill_inv(s0, p, stack, w, h, origin, target, replacement),
        stack.len() > 0,
    ensures
        in_grid(w, h, as_int(stack.last())),
{
    reveal(fill_inv);
    assert(in_grid(w, h, as_int(stack[stack.len() - 1])));
}

/// Popping a cell that is no longer of the target colour.
proof fn lemma_fill_skip(
    s0: Seq<Pixel>,
    p: Seq<Pixel>,
    stack: Seq<(usize, usize)>,
    w: int,
    h: int,
    origin: (int, int),
    target: Pixel,
    replacement: Pixel,
)
    requires
        fill_inv(s0, p, stack, w, h, origin, target, replacement),
        stack.len() > 0,
        at(p, w, stack.last().0 as int, stack.last().1 as int) != target,
    ensures
        fill_inv(s0, p, stack.drop_last(), w, h, origin, target, replacement),
{
    reveal(fill_inv);
    let rest = stack.drop_last();
    let cell = as_int(stack.last());
    assert(forall|k: int| 0 <= k < rest.len() ==> #[trigger] rest[k] == stack[k]);
    assert forall|n: (int, int)| lists(stack, n) && n != cell implies lists(rest, n) by {
        let k = choose|k: int| 0 <= k < stack.len() && as_int(#[trigger] stack[k]) == n;
        assert(k < stack.len() - 1);
        assert(rest[k] == stack[k]);
    }
}

/// Popping a cell of the target colour: it is painted and its neighbours
/// on the canvas are pushed.
proof fn lemma_fill_paint(
    s0: Seq<Pixel>,
    p: Seq<Pixel>,
    stack: Seq<(usize, usize)>,
    pushed: Seq<(usize, usize)>,
    w: int,
    h: int,
    origin: (int, int),
    target: Pixel,
    replacement: Pixel,
)
    requires
        fill_inv(s0, p, stack, w, h, origin, target, replacement),
        s0.len() == w * h,
        0 < w,
        stack.len() > 0,
        target != replacement,
        at(s0, w, origin.0, origin.1) == target,
        at(p, w, stack.last().0 as int, stack.last().1 as int) == target,
        forall|k: int| 0 <= k < pushed.len() ==> in_grid(w, h, as_int(#[trigger] pushed[k])) && adjacent(
            as_int(stack.last()),
            as_int(pushed[k]),
        ),
        forall|n: (int, int)| in_grid(w, h, n) && adjacent(as_int(stack.last()), n) ==> lists(pushed, n),
    ensures
        fill_inv(
            s0,
            p.update(idx(w, stack.last().0 as int, stack.last().1 as int), replacement),
            stack.drop_last() + pushed,
            w,
            h,
            origin,
            target,
            replacement,
        ),
        count_color(p.update(idx(w, stack.last().0 as int, stack.last().1 as int), replacement), target) + 1
            == count_color(p, target),
{
    reveal(fill_inv);
    let cell = as_int(stack.last());
    let rest = stack.drop_last();
    let st2 = rest + pushed;
    let p1 = p.update(idx(w, cell.0, cell.1), replacement);
    assert(in_grid(w, h, as_int(stack[stack.len() - 1])));
    lemma_idx_in_grid(w, h, cell.0, cell.1);
    lemma_count_color_update(p, target, idx(w, cell.0, cell.1), replacement);
    assert(at(p, w, cell.0, cell.1) == at(s0, w, cell.0, cell.1));
    assert(fill_region(s0, w, h, origin, cell));
    assert(forall|k: int| 0 <= k < rest.len() ==> #[trigger] st2[k] == stack[k]);
    assert(forall|k: int| 0 <= k < pushed.len() ==> #[trigger] st2[rest.len() + k] == pushed[k]);
    assert forall|k: int| 0 <= k < st2.len() implies in_grid(w, h, as_int(#[trigger] st2[k])) by {
        if k >= rest.len() {
            assert(st2[k] == pushed[k - rest.len()]);
        }
    }
    assert forall|k: int|
        0 <= k < st2.len() && at(s0, w, (#[trigger] st2[k]).0 as int, st2[k].1 as int) == target
            implies fill_region(s0, w, h, origin, as_int(st2[k])) by {
        if k >= rest.len() {
            assert(st2[k] == pushed[k - rest.len()]);
            lemma_region_extend(s0, w, h, origin, cell, as_int(st2[k]));
        }
    }
    assert forall|n: (int, int)| lists(pushed, n) implies lists(st2, n) by {
        let k = choose|k: int| 0 <= k < pushed.len() && as_int(#[trigger] pushed[k]) == n;
        assert(st2[rest.len() + k] == pushed[k]);
    }
    assert forall|n: (int, int)| lists(stack, n) && n != cell implies lists(st2, n) by {
        let k = choose|k: int| 0 <= k < stack.len() && as_int(#[trigger] stack[k]) == n;
        assert(k < stack.len() - 1);
        assert(st2[k] == stack[k]);
    }
    assert forall|a: int, b: int| 0 <= a < w && 0 <= b < h implies #[trigger] at(p1, w, a, b) == at(s0, w, a, b) || (at(
        p1,
        w,
        a,
        b,
    ) == replacement && fill_region(s0, w, h, origin, (a, b))) by {
        lemma_idx_in_grid(w, h, a, b);
        if (a, b) != cell {
            if idx(w, a, b) == idx(w, cell.0, cell.1) {
                lemma_idx_inj(w, a, b, cell.0, cell.1);
            }
            assert(at(p1, w, a, b) == at(p, w, a, b));
        }
    }
    assert forall|c: (int, int), n: (int, int)|
        in_grid(w, h, c) && in_grid(w, h, n) && #[trigger] adjacent(c, n) && at(p1, w, c.0, c.1) != at(s0, w, c.0, c.1)
            implies at(p1, w, n.0, n.1) != target || lists(st2, n) by {
        lemma_idx_in_grid(w, h, c.0, c.1);
        lemma_idx_in_grid(w, h, n.0, n.1);
        if c != cell {
            if idx(w, c.0, c.1) == idx(w, cell.0, cell.1) {
                lemma_idx_inj(w, c.0, c.1, cell.0, cell.1);
            }
            assert(at(p1, w, c.0, c.1) == at(p, w, c.0, c.1));
            if n != cell {
                if idx(w, n.0, n.1) == idx(w, cell.0, cell.1) {
                    lemma_idx_inj(w, n.0, n.1, cell.0, cell.1);
                }
                assert(at(p1, w, n.0, n.1) == at(p, w, n.0, n.1));
            }
        }
    }
    if origin != cell {
        lemma_idx_in_grid(w, h, origin.0, origin.1);
        if idx(w, origin.0, origin.1) == idx(w, cell.0, cell.1) {
            lemma_idx_inj(w, origin.0, origin.1, cell.0, cell.1);
        }
        assert(at(p1, w, origin.0, origin.1) == at(p, w, origin.0, origin.1));
    }
}

/// When no cell is pending, the fill has painted exactly the region.
proof fn lemma_fill_done(
    s0: Seq<Pixel>,
    p: Seq<Pixel>,
    stack: Seq<(usize, usize)>,
    w: int,
    h: int,
    origin: (int, int),
    target: Pixel,
    replacement: Pixel,
)
    requires
        fill_inv(s0, p, stack, w, h, origin, target, replacement),
        stack.len() == 0,
        in_grid(w, h, origin),
        at(s0, w, origin.0, origin.1) == target,
        target != replacement,
    ensures
        painted(s0, p, w, h, |c: (int, int)| fill_region(s0, w, h, origin, c), replacement),
        at(p, w, origin.0, origin.1) != at(s0, w, origin.0, origin.1),
{
    reveal(fill_inv);
    lemma_region_start(s0, w, h, origin);
    assert forall|c: (int, int), n: (int, int)|
        in_grid(w, h, c) && in_grid(w, h, n) && #[trigger] adjacent(c, n) && at(p, w, c.0, c.1) != at(s0, w, c.0, c.1)
            implies at(p, w, n.0, n.1) != target by {
        assert(!lists(stack, n));
    }
    assert(!lists(stack, origin));
    assert forall|a: int, b: int| 0 <= a < w && 0 <= b < h implies #[trigger] at(p, w, a, b) == if fill_region(
        s0,
        w,
        h,
        origin,
        (a, b),
    ) {
        replacement
    } else {
        at(s0, w, a, b)
    } by {
        if fill_region(s0, w, h, origin, (a, b)) {
            let path = choose|path: Seq<(int, int)>|
                #[trigger] is_color_path(s0, w, h, target, path) && path[0] == origin && path.last() == (a, b);
            lemma_path_filled(s0, p, w, h, target, path);
            assert(at(p, w, path[path.len() - 1].0, path[path.len() - 1].1) != target);
            assert(at(s0, w, a, b) == target);
        }
    }
}

/// After a fill, the cell it started from has the fill colour, so filling
/// there again with the same colour changes nothing.
pub proof fn refill_changes_nothing(
    before: Seq<Pixel>,
    after: Seq<Pixel>,
    w: int,
    h: int,
    origin: (int, int),
    color: Pixel,
)
    requires
        in_grid(w, h, origin),
        painted(before, after, w, h, |c: (int, int)| fill_region(before, w, h, origin, c), color),
    ensures
        at(after, w, origin.0, origin.1) == color,
{
    lemma_region_start(before, w, h, origin);
}

impl App {
    /// The bucket tool at `(x, y)`: repaints the region of `(x, y)`'s colour
    /// around it with the current colour. Returns whether anything changed,
    /// which is exactly when the region's colour differs from the current
    /// colour.
    pub fn bucket_fill(&mut self, x: usize, y: usize) -> (changed: bool)
        requires
            old(self).wf(),
            x < old(self).width,
            y < old(self).height,
        ensures
            final(self).wf(),
            old(self).same_but_canvas(&*final(self)),
            changed == (at(old(self).pixels@, old(self).width as int, x as int, y as int) != old(self).current),
            painted(
                old(self).pixels@,
                final(self).pixels@,
                old(self).width as int,
                old(self).height as int,
                |c: (int, int)| changed && fill_region(old(self).pixels@, old(self).width as int, old(self).height as int, (x as int, y as int), c),
                old(self).current,
            ),
    {
        let ghost start = *self;
        let ghost w = self.width as int;
        let ghost h = self.height as int;
        let ghost s0 = self.pixels@;
        let ghost origin = (x as int, y as int);
        let target = self.pixel(x, y);
        let replacement = self.current;
        if target == replacement {
            return false;
        }
        let mut stack: Vec<(usize, usize)> = Vec::new();
        stack.push((x, y));
        let mut changed = false;
        proof {
            lemma_fill_init(s0, w, h, origin, replacement, stack@);
        }
        loop
            invariant
                self.wf(),
                start.same_but_canvas(&*self),
                w == start.width,
                h == start.height,
                s0 == start.pixels@,
                s0.len() == w * h,
                0 < w,
                target == at(s0, w, origin.0, origin.1),
                replacement == start.current,
                target != replacement,
                in_grid(w, h, origin),
                fill_inv(s0, self.pixels@, stack@, w, h, origin, target, replacement),
                !changed ==> self.pixels@ == s0,
            ensures
                stack@.len() == 0,
            decreases count_color(self.pixels@, target), stack@.len(),
        {
            let ghost p0 = self.pixels@;
            let ghost st0 = stack@;
            match stack.pop() {
                None => {
                    break;
                },
                Some((cx, cy)) => {
                    proof {
                        assert(stack@ == st0.drop_last());
                        lemma_fill_top_in_grid(s0, p0, st0, w, h, origin, target, replacement);
                    }
                    if self.pixel(cx, cy) != target {
                        proof {
                            lemma_fill_skip(s0, p0, st0, w, h, origin, target, replacement);
                        }
                        continue;
                    }
                    proof {
                        lemma_idx_in_grid(w, h, cx as int, cy as int);
                    }
                    self.set_raw(cx, cy, replacement);
                    changed = true;
                    proof {
                        lemma_set_raw_is_update(p0, self.pixels@, w, h, (cx as int, cy as int), replacement);
                    }
                    let ghost st1 = stack@;
                    let mut pushed: Vec<(usize, usize)> = Vec::new();
                    if cx > 0 {
                        pushed.push((cx - 1, cy));
                    }
                    if cx + 1 < self.width {
                        pushed.push((cx + 1, cy));
                    }
                    if cy > 0 {
                        pushed.push((cx, cy - 1));
                    }
                    if cy + 1 < self.height {
                        pushed.push((cx, cy + 1));
                    }
                    proof {
                        let cell = (cx as int, cy as int);
                        assert(as_int(st0.last()) == cell);
                        let i_left: int = 0;
                        let i_right: int = if cx > 0 { 1 } else { 0 };
                        let i_up: int = i_right + if cx + 1 < w { 1int } else { 0int };
                        let i_down: int = i_up + if cy > 0 { 1int } else { 0int };
                        assert forall|n: (int, int)| in_grid(w, h, n) && adjacent(cell, n) implies lists(pushed@, n) by {
                            if n == (cell.0 - 1, cell.1) {
                                assert(as_int(pushed@[i_left]) == n);
                            } else if n == (cell.0 + 1, cell.1) {
                                assert(as_int(pushed@[i_right]) == n);
                            } else if n == (cell.0, cell.1 - 1) {
                                assert(as_int(pushed@[i_up]) == n);
                            } else {
                                assert(as_int(pushed@[i_down]) == n);
                            }
                        }
                        lemma_fill_paint(s0, p0, st0, pushed@, w, h, origin, target, replacement);
                    }
                    let mut k: usize = 0;
                    while k < pushed.len()
                        invariant
                            0 <= k <= pushed@.len(),
                            stack@ == st1 + pushed@.take(k as int),
                        decreases pushed@.len() - k,
                    {
                        stack.push(pushed[k]);
                        proof {
                            assert(pushed@.take(k as int + 1) == pushed@.take(k as int).push(pushed@[k as int]));
                        }
                        k = k + 1;
                    }
                    proof {
                        assert(pushed@.take(pushed@.len() as int) == pushed@);
                    }
                },
            }
        }
        proof {
            lemma_fill_done(s0, self.pixels@, stack@, w, h, origin, target, replacement);
            assert(changed);
        }
        changed
    }
}

/// Painting one cell on the canvas replaces exactly its entry.
proof fn lemma_set_raw_is_update(before: Seq<Pixel>, after: Seq<Pixel>, w: int, h: int, cell: (int, int), color: Pixel)
    requires
        before.len() == w * h,
        0 < w,
        in_grid(w, h, cell),
        painted(before, after, w, h, |c: (int, int)| c == cell, color),
    ensures
        after == before.update(idx(w, cell.0, cell.1), color),
{
    let u = before.update(idx(w, cell.0, cell.1), color);
    lemma_idx_in_grid(w, h, cell.0, cell.1);
    assert forall|x: int, y: int| 0 <= x < w && 0 <= y < h implies #[trigger] at(after, w, x, y) == at(u, w, x, y) by {
        lemma_idx_in_grid(w, h, x, y);
        if (x, y) != cell && idx(w, x, y) == idx(w, cell.0, cell.1) {
            lemma_idx_inj(w, x, y, cell.0, cell.1);
        }
    }
    crate::grid::lemma_grid_ext(after, u, w, h);
}

} // verus!

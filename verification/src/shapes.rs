//! Cell sets of the shape tools: lines, rectangles, and the pseudo-random
//! hash that scatters the spray tool.

use vstd::prelude::*;

verus! {

/// Coordinates of the line tool stay below this bound. The doubled error
/// term of the line algorithm reaches up to three times the larger extent
/// of the line, so a line below the bound keeps it inside `i32`; from here
/// on some lines overflow it (from `(0, 0)` to `(1_000_000_000, 1)`, say).
pub const COORD_LIMIT: usize = 715_827_883;

pub open spec fn abs(v: int) -> int {
    if v < 0 {
        -v
    } else {
        v
    }
}

/// Direction of travel from `a` towards `b` (the algorithm steps `-1` when
/// they are equal, which never happens because it stops first).
pub open spec fn dir(a: int, b: int) -> int {
    if a < b {
        1
    } else {
        -1
    }
}

/// `a` moved `k` steps in direction `s`.
pub open spec fn walk(a: int, s: int, k: int) -> int {
    if s == 1 {
        a + k
    } else {
        a - k
    }
}

/// Error term of the line algorithm after `i` steps along x and `j` steps
/// along y, for spans `dx = |x1 - x0|` and `dy = |y1 - y0|`.
pub open spec fn line_err(dx: int, dy: int, i: int, j: int) -> int {
    dx * (1 + j) - dy * (1 + i)
}

/// Whether the step taken after `i` x-moves and `j` y-moves advances along x.
pub open spec fn moves_x(dx: int, dy: int, i: int, j: int) -> bool {
    2 * line_err(dx, dy, i, j) >= -dy
}

/// Whether the step taken after `i` x-moves and `j` y-moves advances along y.
pub open spec fn moves_y(dx: int, dy: int, i: int, j: int) -> bool {
    2 * line_err(dx, dy, i, j) <= dx
}

/// The cells of the line from `(x0, y0)` to `(x1, y1)` that follow the one
/// reached after `i` x-moves and `j` y-moves, that one included.
pub open spec fn line_from(x0: int, y0: int, x1: int, y1: int, i: int, j: int) -> Seq<(int, int)>
    decreases abs(x1 - x0) + abs(y1 - y0) + 2 - i - j,
{
    let dx = abs(x1 - x0);
    let dy = abs(y1 - y0);
    let here = (walk(x0, dir(x0, x1), i), walk(y0, dir(y0, y1), j));
    if i < 0 || j < 0 || i > dx || j > dy || (i == dx && j == dy) {
        seq![here]
    } else {
        let ni = if moves_x(dx, dy, i, j) { i + 1 } else { i };
        let nj = if moves_y(dx, dy, i, j) { j + 1 } else { j };
        seq![here] + line_from(x0, y0, x1, y1, ni, nj)
    }
}

/// The cells of the line tool from `start` to `end`, in drawing order.
pub open spec fn line_path(start: (int, int), end: (int, int)) -> Seq<(int, int)> {
    line_from(start.0, start.1, end.0, end.1, 0, 0)
}

pub open spec fn cells_as_int(cells: Seq<(usize, usize)>) -> Seq<(int, int)> {
    cells.map_values(|c: (usize, usize)| (c.0 as int, c.1 as int))
}

/// The closed form of the error term moves by `-dy` on an x-move and by `dx`
/// on a y-move.
proof fn lemma_line_err_step(dx: int, dy: int, i: int, j: int)
    ensures
        line_err(dx, dy, i + 1, j) == line_err(dx, dy, i, j) - dy,
        line_err(dx, dy, i, j + 1) == line_err(dx, dy, i, j) + dx,
        line_err(dx, dy, i + 1, j + 1) == line_err(dx, dy, i, j) + dx - dy,
        line_err(dx, dy, 0, 0) == dx - dy,
{
    assert(dx * (1 + j) + dx == dx * (1 + (j + 1))) by (nonlinear_arith);
    assert(dy * (1 + i) + dy == dy * (1 + (i + 1))) by (nonlinear_arith);
}

/// The line never moves past the end on either axis.
proof fn lemma_line_no_overshoot(dx: int, dy: int, i: int, j: int)
    requires
        0 <= i <= dx,
        0 <= j <= dy,
        !(i == dx && j == dy),
    ensures
        i == dx ==> !moves_x(dx, dy, i, j),
        j == dy ==> !moves_y(dx, dy, i, j),
        moves_x(dx, dy, i, j) || moves_y(dx, dy, i, j),
{
    if i == dx {
        assert(2 * (dx * (1 + j)) < dy * (1 + 2 * dx) ) by (nonlinear_arith)
            requires 0 <= j < dy, 0 <= dx;
        assert(2 * line_err(dx, dy, i, j) < -dy) by (nonlinear_arith)
            requires i == dx, 2 * (dx * (1 + j)) < dy * (1 + 2 * dx);
    }
    if j == dy {
        assert(2 * (dy * (1 + i)) < dx * (1 + 2 * dy)) by (nonlinear_arith)
            requires 0 <= i < dx, 0 <= dy;
        assert(2 * line_err(dx, dy, i, j) > dx) by (nonlinear_arith)
            requires j == dy, 2 * (dy * (1 + i)) < dx * (1 + 2 * dy);
    }
}

pub open spec fn between(a: int, lo_or_hi: int, hi_or_lo: int) -> bool {
    (lo_or_hi <= a <= hi_or_lo) || (hi_or_lo <= a <= lo_or_hi)
}

/// One step of the line: each coordinate stays or moves one cell towards the
/// end, and at least one of them moves.
pub open spec fn line_step(a: (int, int), b: (int, int), end_from: (int, int), end: (int, int)) -> bool {
    &&& (b.0 == a.0 || b.0 == a.0 + dir(end_from.0, end.0))
    &&& (b.1 == a.1 || b.1 == a.1 + dir(end_from.1, end.1))
    &&& b != a
}

/// The shape of the remaining line from any reachable point of the walk.
proof fn lemma_line_from_shape(x0: int, y0: int, x1: int, y1: int, i: int, j: int)
    requires
        0 <= i <= abs(x1 - x0),
        0 <= j <= abs(y1 - y0),
    ensures
        line_from(x0, y0, x1, y1, i, j).len() >= 1,
        line_from(x0, y0, x1, y1, i, j)[0] == (walk(x0, dir(x0, x1), i), walk(y0, dir(y0, y1), j)),
        line_from(x0, y0, x1, y1, i, j).last() == (x1, y1),
        forall|k: int|
            0 <= k < line_from(x0, y0, x1, y1, i, j).len() ==> between(
                #[trigger] line_from(x0, y0, x1, y1, i, j)[k].0,
                x0,
                x1,
            ) && between(line_from(x0, y0, x1, y1, i, j)[k].1, y0, y1),
        forall|k: int|
            0 <= k < line_from(x0, y0, x1, y1, i, j).len() - 1 ==> line_step(
                #[trigger] line_from(x0, y0, x1, y1, i, j)[k],
                line_from(x0, y0, x1, y1, i, j)[k + 1],
                (x0, y0),
                (x1, y1),
            ),
    decreases abs(x1 - x0) + abs(y1 - y0) + 2 - i - j,
{
    let dx = abs(x1 - x0);
    let dy = abs(y1 - y0);
    let path = line_from(x0, y0, x1, y1, i, j);
    if i == dx && j == dy {
        assert(path.last() == (x1, y1));
    } else {
        lemma_line_no_overshoot(dx, dy, i, j);
        let ni = if moves_x(dx, dy, i, j) { i + 1 } else { i };
        let nj = if moves_y(dx, dy, i, j) { j + 1 } else { j };
        lemma_line_from_shape(x0, y0, x1, y1, ni, nj);
        let rest = line_from(x0, y0, x1, y1, ni, nj);
        assert(path == seq![path[0]] + rest);
        assert forall|k: int| 0 <= k < path.len() implies between(#[trigger] path[k].0, x0, x1)
            && between(path[k].1, y0, y1) by {
            if k > 0 {
                assert(path[k] == rest[k - 1]);
            }
        }
        assert forall|k: int| 0 <= k < path.len() - 1 implies line_step(
            #[trigger] path[k],
            path[k + 1],
            (x0, y0),
            (x1, y1),
        ) by {
            if k > 0 {
                assert(path[k] == rest[k - 1]);
                assert(path[k + 1] == rest[k]);
            } else {
                assert(path[1] == rest[0]);
            }
        }
    }
}

/// Number of cells left on a line whose longer axis is x: one per x-move.
proof fn lemma_line_from_len_x(x0: int, y0: int, x1: int, y1: int, i: int, j: int)
    requires
        abs(y1 - y0) <= abs(x1 - x0),
        0 <= i <= abs(x1 - x0),
        0 <= j <= abs(y1 - y0),
        2 * line_err(abs(x1 - x0), abs(y1 - y0), i, j) >= -abs(y1 - y0),
    ensures
        line_from(x0, y0, x1, y1, i, j).len() == abs(x1 - x0) - i + 1,
    decreases abs(x1 - x0) + abs(y1 - y0) + 2 - i - j,
{
    let dx = abs(x1 - x0);
    let dy = abs(y1 - y0);
    if i == dx && j == dy {
    } else {
        lemma_line_no_overshoot(dx, dy, i, j);
        lemma_line_err_step(dx, dy, i, j);
        let nj = if moves_y(dx, dy, i, j) { j + 1 } else { j };
        lemma_line_from_len_x(x0, y0, x1, y1, i + 1, nj);
    }
}

/// Number of cells left on a line whose longer axis is y: one per y-move.
proof fn lemma_line_from_len_y(x0: int, y0: int, x1: int, y1: int, i: int, j: int)
    requires
        abs(x1 - x0) <= abs(y1 - y0),
        0 <= i <= abs(x1 - x0),
        0 <= j <= abs(y1 - y0),
        2 * line_err(abs(x1 - x0), abs(y1 - y0), i, j) <= abs(x1 - x0),
    ensures
        line_from(x0, y0, x1, y1, i, j).len() == abs(y1 - y0) - j + 1,
    decreases abs(x1 - x0) + abs(y1 - y0) + 2 - i - j,
{
    let dx = abs(x1 - x0);
    let dy = abs(y1 - y0);
    if i == dx && j == dy {
    } else {
        lemma_line_no_overshoot(dx, dy, i, j);
        lemma_line_err_step(dx, dy, i, j);
        let ni = if moves_x(dx, dy, i, j) { i + 1 } else { i };
        lemma_line_from_len_y(x0, y0, x1, y1, ni, j + 1);
    }
}

/// A line starts on its first cell and ends on its last one.
pub proof fn line_includes_endpoints(start: (int, int), end: (int, int))
    ensures
        line_path(start, end).len() >= 1,
        line_path(start, end)[0] == start,
        line_path(start, end).last() == end,
{
    lemma_line_from_shape(start.0, start.1, end.0, end.1, 0, 0);
}

/// Consecutive cells of a line touch (sideways or diagonally), every step
/// goes towards the end, and the line stays inside the box spanned by its
/// endpoints.
pub proof fn line_is_connected(start: (int, int), end: (int, int))
    ensures
        forall|k: int|
            0 <= k < line_path(start, end).len() ==> between(
                #[trigger] line_path(start, end)[k].0,
                start.0,
                end.0,
            ) && between(line_path(start, end)[k].1, start.1, end.1),
        forall|k: int|
            0 <= k < line_path(start, end).len() - 1 ==> line_step(
                #[trigger] line_path(start, end)[k],
                line_path(start, end)[k + 1],
                start,
                end,
            ),
{
    lemma_line_from_shape(start.0, start.1, end.0, end.1, 0, 0);
}

/// A line has exactly one cell per step along its longer axis, plus one.
pub proof fn line_length(start: (int, int), end: (int, int))
    ensures
        line_path(start, end).len() == if abs(end.0 - start.0) >= abs(end.1 - start.1) {
            abs(end.0 - start.0) + 1
        } else {
            abs(end.1 - start.1) + 1
        },
{
    let dx = abs(end.0 - start.0);
    let dy = abs(end.1 - start.1);
    lemma_line_err_step(dx, dy, 0, 0);
    if dx >= dy {
        lemma_line_from_len_x(start.0, start.1, end.0, end.1, 0, 0);
    } else {
        lemma_line_from_len_y(start.0, start.1, end.0, end.1, 0, 0);
    }
}

/// Cells of the straight line from `start` to `end`, both included, in the
/// order the line tool paints them.
pub fn line_cells(start: (usize, usize), end: (usize, usize)) -> (cells: Vec<(usize, usize)>)
    requires
        start.0 < COORD_LIMIT,
        start.1 < COORD_LIMIT,
        end.0 < COORD_LIMIT,
        end.1 < COORD_LIMIT,
    ensures
        cells_as_int(cells@) == line_path(
            (start.0 as int, start.1 as int),
            (end.0 as int, end.1 as int),
        ),
{
    let ghost gx0 = start.0 as int;
    let ghost gy0 = start.1 as int;
    let ghost gx1 = end.0 as int;
    let ghost gy1 = end.1 as int;
    let mut x0: i32 = start.0 as i32;
    let mut y0: i32 = start.1 as i32;
    let x1: i32 = end.0 as i32;
    let y1: i32 = end.1 as i32;
    let dx: i32 = if x1 >= x0 { x1 - x0 } else { x0 - x1 };
    let sx: i32 = if x0 < x1 { 1 } else { -1 };
    let dy: i32 = if y1 >= y0 { y0 - y1 } else { y1 - y0 };
    let sy: i32 = if y0 < y1 { 1 } else { -1 };
    let mut err: i32 = dx + dy;
    let mut cells: Vec<(usize, usize)> = Vec::new();
    let ghost mut i: int = 0;
    let ghost mut j: int = 0;
    let ghost ddx: int = dx as int;
    let ghost ddy: int = -(dy as int);
    proof {
        lemma_line_err_step(ddx, ddy, 0, 0);
    }
    loop
        invariant_except_break
            cells_as_int(cells@) + line_from(gx0, gy0, gx1, gy1, i, j) == line_path(
                (gx0, gy0),
                (gx1, gy1),
            ),
        invariant
            ddx == abs(gx1 - gx0),
            ddy == abs(gy1 - gy0),
            dx as int == ddx,
            dy as int == -ddy,
            0 <= ddx < COORD_LIMIT,
            0 <= ddy < COORD_LIMIT,
            sx as int == dir(gx0, gx1),
            sy as int == dir(gy0, gy1),
            x1 as int == gx1,
            y1 as int == gy1,
            0 <= gx0 < COORD_LIMIT,
            0 <= gy0 < COORD_LIMIT,
            0 <= gx1 < COORD_LIMIT,
            0 <= gy1 < COORD_LIMIT,
            0 <= i <= ddx,
            0 <= j <= ddy,
            x0 as int == walk(gx0, sx as int, i),
            y0 as int == walk(gy0, sy as int, j),
            err as int == line_err(ddx, ddy, i, j),
            -3 * ddy <= 2 * err <= 3 * ddx,
        ensures
            cells_as_int(cells@) == line_path((gx0, gy0), (gx1, gy1)),
        decreases ddx + ddy + 2 - i - j,
    {
        let ghost prev = cells@;
        proof {
            assert(0 <= x0 < COORD_LIMIT);
            assert(0 <= y0 < COORD_LIMIT);
        }
        cells.push((x0 as usize, y0 as usize));
        proof {
            assert(cells_as_int(cells@) =~= cells_as_int(prev).push((x0 as int, y0 as int)));
        }
        if x0 == x1 && y0 == y1 {
            proof {
                assert(i == ddx && j == ddy);
                assert(cells_as_int(cells@) =~= line_path((gx0, gy0), (gx1, gy1)));
            }
            break;
        }
        proof {
            lemma_line_no_overshoot(ddx, ddy, i, j);
            lemma_line_err_step(ddx, ddy, i, j);
        }
        let ghost ni = if moves_x(ddx, ddy, i, j) { i + 1 } else { i };
        let ghost nj = if moves_y(ddx, ddy, i, j) { j + 1 } else { j };
        proof {
            assert(line_from(gx0, gy0, gx1, gy1, i, j) == seq![(x0 as int, y0 as int)]
                + line_from(gx0, gy0, gx1, gy1, ni, nj));
            assert(cells_as_int(cells@) + line_from(gx0, gy0, gx1, gy1, ni, nj)
                =~= cells_as_int(prev) + line_from(gx0, gy0, gx1, gy1, i, j));
        }
        let e2: i32 = 2 * err;
        if e2 >= dy {
            err += dy;
            x0 += sx;
        }
        if e2 <= dx {
            err += dx;
            y0 += sy;
        }
        proof {
            i = ni;
            j = nj;
        }
    }
    cells
}

pub open spec fn min(a: int, b: int) -> int {
    if a <= b {
        a
    } else {
        b
    }
}

pub open spec fn max(a: int, b: int) -> int {
    if a >= b {
        a
    } else {
        b
    }
}

/// Whether cell `c` belongs to the rectangle spanned by `start` and `end`:
/// any cell of the box when `filled`, otherwise only its border.
pub open spec fn in_rect_shape(start: (int, int), end: (int, int), filled: bool, c: (int, int)) -> bool {
    let lx = min(start.0, end.0);
    let hx = max(start.0, end.0);
    let ly = min(start.1, end.1);
    let hy = max(start.1, end.1);
    &&& lx <= c.0 <= hx
    &&& ly <= c.1 <= hy
    &&& (filled || c.0 == lx || c.0 == hx || c.1 == ly || c.1 == hy)
}

/// Row-major order: by row, then by column.
pub open spec fn row_major_lt(a: (int, int), b: (int, int)) -> bool {
    a.1 < b.1 || (a.1 == b.1 && a.0 < b.0)
}

pub open spec fn as_int(c: (usize, usize)) -> (int, int) {
    (c.0 as int, c.1 as int)
}

/// The rectangle tool's cells as a row-major list of exactly the cells of
/// the shape.
pub open spec fn is_rect_listing(
    cells: Seq<(usize, usize)>,
    start: (int, int),
    end: (int, int),
    filled: bool,
) -> bool {
    &&& forall|k: int| 0 <= k < cells.len() ==> in_rect_shape(start, end, filled, as_int(#[trigger] cells[k]))
    &&& forall|x: usize, y: usize| in_rect_shape(start, end, filled, (x as int, y as int)) ==> cells.contains((x, y))
    &&& forall|k: int, l: int| 0 <= k < l < cells.len() ==> row_major_lt(as_int(#[trigger] cells[k]), as_int(#[trigger] cells[l]))
}

/// Cells of the rectangle spanned by `start` and `end`: its whole area when
/// `filled`, otherwise its outline, listed row by row.
pub fn rect_cells(start: (usize, usize), end: (usize, usize), filled: bool) -> (cells: Vec<(usize, usize)>)
    ensures
        is_rect_listing(cells@, as_int(start), as_int(end), filled),
{
    let ghost gs = as_int(start);
    let ghost ge = as_int(end);
    let min_x = if start.0 <= end.0 { start.0 } else { end.0 };
    let max_x = if start.0 >= end.0 { start.0 } else { end.0 };
    let min_y = if start.1 <= end.1 { start.1 } else { end.1 };
    let max_y = if start.1 >= end.1 { start.1 } else { end.1 };
    let mut cells: Vec<(usize, usize)> = Vec::new();
    let mut y = min_y;
    loop
        invariant_except_break
            forall|xx: usize, yy: usize|
                in_rect_shape(gs, ge, filled, (xx as int, yy as int)) && yy < y ==> cells@.contains((xx, yy)),
            forall|k: int| 0 <= k < cells.len() ==> (#[trigger] cells@[k]).1 < y,
        invariant
            gs == as_int(start),
            ge == as_int(end),
            min_x as int == min(gs.0, ge.0),
            max_x as int == max(gs.0, ge.0),
            min_y as int == min(gs.1, ge.1),
            max_y as int == max(gs.1, ge.1),
            min_y <= y <= max_y,
            forall|k: int| 0 <= k < cells.len() ==> in_rect_shape(gs, ge, filled, as_int(#[trigger] cells@[k])),
            forall|k: int, l: int| 0 <= k < l < cells.len() ==> row_major_lt(as_int(#[trigger] cells@[k]), as_int(#[trigger] cells@[l])),
        ensures
            forall|xx: usize, yy: usize|
                in_rect_shape(gs, ge, filled, (xx as int, yy as int)) ==> cells@.contains((xx, yy)),
        decreases max_y - y,
    {
        let mut x = min_x;
        loop
            invariant_except_break
                forall|xx: usize|
                    in_rect_shape(gs, ge, filled, (xx as int, y as int)) && xx < x ==> cells@.contains((xx, y)),
                forall|k: int| 0 <= k < cells.len() ==> row_major_lt(as_int(#[trigger] cells@[k]), (x as int, y as int)),
            invariant
                gs == as_int(start),
                ge == as_int(end),
                min_x as int == min(gs.0, ge.0),
                max_x as int == max(gs.0, ge.0),
                min_y as int == min(gs.1, ge.1),
                max_y as int == max(gs.1, ge.1),
                min_y <= y <= max_y,
                min_x <= x <= max_x,
                forall|xx: usize, yy: usize|
                    in_rect_shape(gs, ge, filled, (xx as int, yy as int)) && yy < y ==> cells@.contains((xx, yy)),
                forall|k: int| 0 <= k < cells.len() ==> in_rect_shape(gs, ge, filled, as_int(#[trigger] cells@[k])),
                forall|k: int, l: int| 0 <= k < l < cells.len() ==> row_major_lt(as_int(#[trigger] cells@[k]), as_int(#[trigger] cells@[l])),
            ensures
                forall|xx: usize|
                    in_rect_shape(gs, ge, filled, (xx as int, y as int)) ==> cells@.contains((xx, y)),
                forall|k: int| 0 <= k < cells.len() ==> (#[trigger] cells@[k]).1 <= y,
            decreases max_x - x,
        {
            let ghost prev = cells@;
            if filled || x == min_x || x == max_x || y == min_y || y == max_y {
                cells.push((x, y));
                proof {
                    assert forall|xx: usize, yy: usize|
                        in_rect_shape(gs, ge, filled, (xx as int, yy as int)) && yy < y implies cells@.contains((xx, yy)) by {
                        assert(prev.contains((xx, yy)));
                        let w = choose|w: int| 0 <= w < prev.len() && prev[w] == (xx, yy);
                        assert(cells@[w] == (xx, yy));
                    }
                }
            }
            proof {
                assert forall|xx: usize|
                    in_rect_shape(gs, ge, filled, (xx as int, y as int)) && xx <= x implies cells@.contains((xx, y)) by {
                    if xx < x {
                        assert(prev.contains((xx, y)));
                        let w = choose|w: int| 0 <= w < prev.len() && prev[w] == (xx, y);
                        assert(cells@[w] == (xx, y));
                    } else {
                        assert(cells@[cells.len() - 1] == (xx, y));
                    }
                }
            }
            if x == max_x {
                break;
            }
            x = x + 1;
        }
        if y == max_y {
            break;
        }
        y = y + 1;
    }
    cells
}

/// Whether `cells` is listed in strictly increasing row-major order.
pub open spec fn row_major_sorted(cells: Seq<(usize, usize)>) -> bool {
    forall|k: int, l: int| 0 <= k < l < cells.len() ==> row_major_lt(as_int(#[trigger] cells[k]), as_int(#[trigger] cells[l]))
}

/// Two row-major sorted lists with the same members are the same list.
proof fn lemma_sorted_same_members(s1: Seq<(usize, usize)>, s2: Seq<(usize, usize)>)
    requires
        row_major_sorted(s1),
        row_major_sorted(s2),
        forall|c: (usize, usize)| s1.contains(c) <==> s2.contains(c),
    ensures
        s1 == s2,
    decreases s1.len(),
{
    if s1.len() == 0 {
        if s2.len() > 0 {
            assert(s2.contains(s2[0]));
        }
        assert(s1 =~= s2);
    } else {
        assert(s1.contains(s1[0]));
        assert(s2.contains(s1[0]));
        assert(s2.contains(s2[0]));
        assert(s1.contains(s2[0]));
        let j = choose|j: int| 0 <= j < s2.len() && s2[j] == s1[0];
        let i = choose|i: int| 0 <= i < s1.len() && s1[i] == s2[0];
        if j > 0 {
            assert(row_major_lt(as_int(s2[0]), as_int(s2[j])));
            if i > 0 {
                assert(row_major_lt(as_int(s1[0]), as_int(s1[i])));
            }
        }
        assert(s1[0] == s2[0]);
        let t1 = s1.drop_first();
        let t2 = s2.drop_first();
        assert forall|c: (usize, usize)| t1.contains(c) implies t2.contains(c) by {
            let m = choose|m: int| 0 <= m < t1.len() && t1[m] == c;
            assert(s1[m + 1] == c);
            assert(row_major_lt(as_int(s1[0]), as_int(s1[m + 1])));
            assert(s2.contains(c));
            let n = choose|n: int| 0 <= n < s2.len() && s2[n] == c;
            assert(n != 0);
            assert(t2[n - 1] == c);
        }
        assert forall|c: (usize, usize)| t2.contains(c) implies t1.contains(c) by {
            let m = choose|m: int| 0 <= m < t2.len() && t2[m] == c;
            assert(s2[m + 1] == c);
            assert(row_major_lt(as_int(s2[0]), as_int(s2[m + 1])));
            assert(s1.contains(c));
            let n = choose|n: int| 0 <= n < s1.len() && s1[n] == c;
            assert(n != 0);
            assert(t1[n - 1] == c);
        }
        assert forall|k: int, l: int| 0 <= k < l < t1.len() implies row_major_lt(as_int(#[trigger] t1[k]), as_int(#[trigger] t1[l])) by {
            assert(t1[k] == s1[k + 1] && t1[l] == s1[l + 1]);
        }
        assert forall|k: int, l: int| 0 <= k < l < t2.len() implies row_major_lt(as_int(#[trigger] t2[k]), as_int(#[trigger] t2[l])) by {
            assert(t2[k] == s2[k + 1] && t2[l] == s2[l + 1]);
        }
        lemma_sorted_same_members(t1, t2);
        assert(s1 =~= s2) by {
            assert forall|k: int| 0 <= k < s1.len() implies s1[k] == s2[k] by {
                if k > 0 {
                    assert(s1[k] == t1[k - 1] && s2[k] == t2[k - 1]);
                }
            }
        }
    }
}

/// A rectangle listing holds exactly the cells of its shape.
proof fn lemma_rect_listing_members(cells: Seq<(usize, usize)>, start: (int, int), end: (int, int), filled: bool, c: (usize, usize))
    requires
        is_rect_listing(cells, start, end, filled),
    ensures
        cells.contains(c) <==> in_rect_shape(start, end, filled, as_int(c)),
{
    if cells.contains(c) {
        let k = choose|k: int| 0 <= k < cells.len() && cells[k] == c;
        assert(in_rect_shape(start, end, filled, as_int(cells[k])));
    }
    if in_rect_shape(start, end, filled, as_int(c)) {
        assert(in_rect_shape(start, end, filled, (c.0 as int, c.1 as int)));
    }
}

/// The rectangle's cells do not depend on which two opposite corners span
/// it: corners given in the other order, or the other two corners, give the
/// same list.
pub proof fn rect_corners_are_interchangeable(
    a: (int, int),
    b: (int, int),
    filled: bool,
    listed: Seq<(usize, usize)>,
    swapped: Seq<(usize, usize)>,
    crossed: Seq<(usize, usize)>,
)
    requires
        is_rect_listing(listed, a, b, filled),
        is_rect_listing(swapped, b, a, filled),
        is_rect_listing(crossed, (a.0, b.1), (b.0, a.1), filled),
    ensures
        swapped == listed,
        crossed == listed,
{
    assert forall|c: (usize, usize)| listed.contains(c) <==> swapped.contains(c) by {
        lemma_rect_listing_members(listed, a, b, filled, c);
        lemma_rect_listing_members(swapped, b, a, filled, c);
    }
    assert forall|c: (usize, usize)| listed.contains(c) <==> crossed.contains(c) by {
        lemma_rect_listing_members(listed, a, b, filled, c);
        lemma_rect_listing_members(crossed, (a.0, b.1), (b.0, a.1), filled, c);
    }
    lemma_sorted_same_members(listed, swapped);
    lemma_sorted_same_members(listed, crossed);
}

/// Every cell of a rectangle's outline is a cell of the filled rectangle.
pub proof fn rect_outline_within_filled(
    a: (int, int),
    b: (int, int),
    outline: Seq<(usize, usize)>,
    solid: Seq<(usize, usize)>,
)
    requires
        is_rect_listing(outline, a, b, false),
        is_rect_listing(solid, a, b, true),
    ensures
        forall|k: int| 0 <= k < outline.len() ==> solid.contains(#[trigger] outline[k]),
{
    assert forall|k: int| 0 <= k < outline.len() implies solid.contains(#[trigger] outline[k]) by {
        lemma_rect_listing_members(outline, a, b, false, outline[k]);
        lemma_rect_listing_members(solid, a, b, true, outline[k]);
        assert(outline.contains(outline[k]));
    }
}

/// The xorshift scramble behind the spray tool's scatter.
pub open spec fn xorshift(v: i32) -> i32 {
    let a = v ^ (v << 13u32);
    let b = a ^ (a >> 17u32);
    b ^ (b << 5u32)
}

/// Absolute value that leaves `i32::MIN`, whose negation does not fit, as is.
pub open spec fn abs_i32(v: i32) -> i32 {
    if v == i32::MIN {
        v
    } else if v < 0 {
        (-v) as i32
    } else {
        v
    }
}

/// Deterministic scatter value for the spray tool: the absolute value of the
/// xorshift of `value` (the single input whose xorshift is `i32::MIN` keeps
/// that value, as two's complement negation does).
pub fn pseudo_hash(value: i32) -> (h: i32)
    ensures
        h == abs_i32(xorshift(value)),
{
    let mut value = value;
    value ^= value << 13u32;
    value ^= value >> 17u32;
    value ^= value << 5u32;
    if value == i32::MIN {
        value
    } else if value < 0 {
        -value
    } else {
        value
    }
}

} // verus!

//! Stamping pixel-art sprites onto the canvas, and the demo cat.

use vstd::prelude::*;
use vstd::string::*;
use crate::app::App;
use crate::grid::{at, in_grid, lemma_painted_same_sel, painted};
use crate::pixel::{Pixel, sprite_color, sprite_pixel};

verus! {

/// A block of the canvas, columns `x.0 .. x.1` of rows `y.0 .. y.1`, to be
/// painted one colour.
pub type Stamp = ((usize, usize), (usize, usize), Pixel);

pub open spec fn stamp_covers(s: Stamp, c: (int, int)) -> bool {
    &&& s.0.0 <= c.0 < s.0.1
    &&& s.1.0 <= c.1 < s.1.1
}

/// The colour cell `(x, y)` ends up with after the stamps are painted in
/// order over `old`: that of the last stamp covering it, if any.
pub open spec fn stamped(old: Seq<Pixel>, w: int, stamps: Seq<Stamp>, x: int, y: int) -> Pixel
    decreases stamps.len(),
{
    if stamps.len() == 0 {
        at(old, w, x, y)
    } else if stamp_covers(stamps.last(), (x, y)) {
        stamps.last().2
    } else {
        stamped(old, w, stamps.drop_last(), x, y)
    }
}

/// The stamps of one sprite row: one per coloured marker, over the column
/// span of its position and the row's span.
pub open spec fn row_stamps(line: Seq<char>, cols: Seq<(usize, usize)>, row_span: (usize, usize)) -> Seq<Stamp>
    decreases line.len(),
{
    if line.len() == 0 {
        Seq::empty()
    } else {
        row_stamps(line.drop_last(), cols, row_span) + match sprite_color(line.last()) {
            Some(p) => seq![(cols[line.len() - 1], row_span, p)],
            None => Seq::<Stamp>::empty(),
        }
    }
}

/// The stamps of a sprite, row by row.
pub open spec fn sprite_stamps(rows: Seq<Seq<char>>, cols: Seq<(usize, usize)>, row_spans: Seq<(usize, usize)>) -> Seq<Stamp>
    decreases rows.len(),
{
    if rows.len() == 0 {
        Seq::empty()
    } else {
        sprite_stamps(rows.drop_last(), cols, row_spans) + row_stamps(rows.last(), cols, row_spans[rows.len() - 1])
    }
}

pub open spec fn row_chars(rows: Seq<&'static str>) -> Seq<Seq<char>> {
    rows.map_values(|r: &'static str| r@)
}

/// The canvas `new` is `old` with `stamps` painted in order.
pub open spec fn stamped_canvas(old: Seq<Pixel>, new: Seq<Pixel>, w: int, h: int, stamps: Seq<Stamp>) -> bool {
    &&& new.len() == old.len()
    &&& forall|x: int, y: int| 0 <= x < w && 0 <= y < h ==> #[trigger] at(new, w, x, y) == stamped(old, w, stamps, x, y)
}

/// Painting one more block over stamped cells.
proof fn lemma_stamp_more(old: Seq<Pixel>, mid: Seq<Pixel>, new: Seq<Pixel>, w: int, h: int, stamps: Seq<Stamp>, s: Stamp)
    requires
        stamped_canvas(old, mid, w, h, stamps),
        painted(mid, new, w, h, |c: (int, int)| stamp_covers(s, c), s.2),
    ensures
        stamped_canvas(old, new, w, h, stamps.push(s)),
{
    let more = stamps.push(s);
    assert(more.drop_last() == stamps);
    assert forall|x: int, y: int| 0 <= x < w && 0 <= y < h implies #[trigger] at(new, w, x, y) == stamped(old, w, more, x, y) by {
        assert(at(mid, w, x, y) == stamped(old, w, stamps, x, y));
    }
}

/// The rows of the demo cat.
pub open spec fn cat_sprite() -> Seq<Seq<char>> {
    seq![
        "........................................"@,
        "............xxx............xxx.........."@,
        "...........xppx..........xppx..........."@,
        "..........xpooxx........xxoopx.........."@,
        ".........xpooooxxxxxxxxxxoooopx........."@,
        "........xpoooooooooooooooooooopx........"@,
        ".......xoooooooooooooooooooooooox......."@,
        "......xoooosooooosooooosoooooooox......."@,
        ".....xoooosoooooosoooooosoooooooox......"@,
        "....xooooooooooooooooooooooooooooox....."@,
        "...xoooooooeeeoooooooeeeoooooooox......."@,
        "...xooooooeeweoooooeeweooooooooox......."@,
        "...xooooooeeeeooocooeeeeooooooooox......"@,
        "...xooooooooooocccccoooooooooooox......."@,
        "xxxxxxooooopoooocpcccoooopooooxxxxxx...."@,
        "...xoooooopoooocccccoooopooooox........."@,
        "....xoooooopoooocccoooopooooox.........."@,
        ".....xooooooopppppppppoooooox..........."@,
        "......xxooooooooooooooooooxx............"@,
        "........xxxxoooooooooxxxx..............."@,
        ".....xxxxxxoooooooooooxxxxxx............"@,
        "...xxoooooooooooooooooooooooxx.........."@,
        "..xoooooooooooocccoooooooooooox........."@,
        ".xoooooooooooocccccccoooooooooox........"@,
        ".xooooooooooocccccccccooooooooox........"@,
        ".xoooooooosooocccccccooosoooooox........"@,
        "xoooooooosssoooooooooossssoooooox......."@,
        "xooooooossssoooooooooossssoooooox......."@,
        ".xoooooooooooooooooooooooooooooox......."@,
        "..xoooooooooooooooooooooooooooox........"@,
        "...xxooooooxxxxxxxxxoooooooxx..........."@,
        ".....xxxxxx.........xxxxxx.............."@,
        "........................................"@
    ]
}

/// The rows of the demo cat sprite: `x` outline, `o` fur, `s` stripes,
/// `c` cream, `p` pink, `e` eyes, `w` eye shine, `.` left unpainted.
pub fn cat_rows() -> (rows: Vec<&'static str>)
    ensures
        row_chars(rows@) == cat_sprite(),
{
    let rows = vec![
        "........................................",
        "............xxx............xxx..........",
        "...........xppx..........xppx...........",
        "..........xpooxx........xxoopx..........",
        ".........xpooooxxxxxxxxxxoooopx.........",
        "........xpoooooooooooooooooooopx........",
        ".......xoooooooooooooooooooooooox.......",
        "......xoooosooooosooooosoooooooox.......",
        ".....xoooosoooooosoooooosoooooooox......",
        "....xooooooooooooooooooooooooooooox.....",
        "...xoooooooeeeoooooooeeeoooooooox.......",
        "...xooooooeeweoooooeeweooooooooox.......",
        "...xooooooeeeeooocooeeeeooooooooox......",
        "...xooooooooooocccccoooooooooooox.......",
        "xxxxxxooooopoooocpcccoooopooooxxxxxx....",
        "...xoooooopoooocccccoooopooooox.........",
        "....xoooooopoooocccoooopooooox..........",
        ".....xooooooopppppppppoooooox...........",
        "......xxooooooooooooooooooxx............",
        "........xxxxoooooooooxxxx...............",
        ".....xxxxxxoooooooooooxxxxxx............",
        "...xxoooooooooooooooooooooooxx..........",
        "..xoooooooooooocccoooooooooooox.........",
        ".xoooooooooooocccccccoooooooooox........",
        ".xooooooooooocccccccccooooooooox........",
        ".xoooooooosooocccccccooosoooooox........",
        "xoooooooosssoooooooooossssoooooox.......",
        "xooooooossssoooooooooossssoooooox.......",
        ".xoooooooooooooooooooooooooooooox.......",
        "..xoooooooooooooooooooooooooooox........",
        "...xxooooooxxxxxxxxxoooooooxx...........",
        ".....xxxxxx.........xxxxxx..............",
        "........................................"
    ];
    proof {
        assert(row_chars(rows@) =~= cat_sprite());
    }
    rows
}

impl App {
    /// Paints columns `x0 .. x1` of rows `y0 .. y1` in `color`; cells off
    /// the canvas are ignored.
    pub fn fill_block(&mut self, x0: usize, x1: usize, y0: usize, y1: usize, color: Pixel)
        requires
            old(self).wf(),
        ensures
            final(self).wf(),
            old(self).same_but_canvas(&*final(self)),
            painted(
                old(self).pixels@,
                final(self).pixels@,
                old(self).width as int,
                old(self).height as int,
                |c: (int, int)| stamp_covers(((x0, x1), (y0, y1), color), c),
                color,
            ),
    {
        let ghost w = self.width as int;
        let ghost h = self.height as int;
        let ghost start = *self;
        let ghost done_rows = |yy: int| |c: (int, int)| x0 <= c.0 < x1 && y0 <= c.1 < yy;
        let mut y = y0;
        proof {
            lemma_painted_same_sel(start.pixels@, self.pixels@, w, h, |c: (int, int)| false, done_rows(y0 as int), color);
        }
        while y < y1
            invariant
                self.wf(),
                start.same_but_canvas(&*self),
                w == start.width,
                h == start.height,
                y0 <= y,
                if y0 <= y1 { y <= y1 } else { y == y0 },
                painted(start.pixels@, self.pixels@, w, h, |c: (int, int)| x0 <= c.0 < x1 && y0 <= c.1 < y, color),
            decreases y1 - y,
        {
            let mut x = x0;
            while x < x1
                invariant
                    self.wf(),
                    start.same_but_canvas(&*self),
                    w == start.width,
                    h == start.height,
                    y0 <= y < y1,
                    x0 <= x,
                    if x0 <= x1 { x <= x1 } else { x == x0 },
                    painted(
                        start.pixels@,
                        self.pixels@,
                        w,
                        h,
                        |c: (int, int)| x0 <= c.0 < x1 && y0 <= c.1 < y || (c.1 == y && x0 <= c.0 < x),
                        color,
                    ),
                decreases x1 - x,
            {
                let ghost mid = self.pixels@;
                self.set_raw(x, y, color);
                proof {
                    crate::grid::lemma_painted_compose(
                        start.pixels@,
                        mid,
                        self.pixels@,
                        w,
                        h,
                        |c: (int, int)| x0 <= c.0 < x1 && y0 <= c.1 < y || (c.1 == y && x0 <= c.0 < x),
                        |c: (int, int)| c == (x as int, y as int),
                        color,
                    );
                    lemma_painted_same_sel(
                        start.pixels@,
                        self.pixels@,
                        w,
                        h,
                        |c: (int, int)| (x0 <= c.0 < x1 && y0 <= c.1 < y || (c.1 == y && x0 <= c.0 < x)) || c == (x as int, y as int),
                        |c: (int, int)| x0 <= c.0 < x1 && y0 <= c.1 < y || (c.1 == y && x0 <= c.0 < x + 1),
                        color,
                    );
                }
                x = x + 1;
            }
            proof {
                assert(x0 >= x1 || x == x1);
                assert forall|c: (int, int)| in_grid(w, h, c) implies
                    ((x0 <= c.0 < x1 && y0 <= c.1 < y || (c.1 == y && x0 <= c.0 < x)) <==> (x0 <= c.0 < x1 && y0 <= c.1 < y + 1)) by {
                    if c.1 == y {
                        assert(y0 <= c.1);
                    }
                }
                lemma_painted_same_sel(
                    start.pixels@,
                    self.pixels@,
                    w,
                    h,
                    |c: (int, int)| x0 <= c.0 < x1 && y0 <= c.1 < y || (c.1 == y && x0 <= c.0 < x),
                    |c: (int, int)| x0 <= c.0 < x1 && y0 <= c.1 < y + 1,
                    color,
                );
            }
            y = y + 1;
        }
        proof {
            assert(y0 >= y1 || y == y1);
            assert forall|c: (int, int)| in_grid(w, h, c) implies
                ((x0 <= c.0 < x1 && y0 <= c.1 < y) <==> stamp_covers(((x0, x1), (y0, y1), color), c)) by {
                let s: Stamp = ((x0, x1), (y0, y1), color);
                assert(s.1.0 == y0 && s.1.1 == y1 && s.0.0 == x0 && s.0.1 == x1);
            }
            lemma_painted_same_sel(
                start.pixels@,
                self.pixels@,
                w,
                h,
                |c: (int, int)| x0 <= c.0 < x1 && y0 <= c.1 < y,
                |c: (int, int)| stamp_covers(((x0, x1), (y0, y1), color), c),
                color,
            );
        }
    }

    /// Stamps a sprite: each coloured marker at column `c` of row `r`
    /// paints the block of column span `col_spans[c]` and row span
    /// `row_spans[r]`, row by row and left to right, later blocks over
    /// earlier ones.
    pub fn stamp_sprite(&mut self, rows: &Vec<&str>, col_spans: &Vec<(usize, usize)>, row_spans: &Vec<(usize, usize)>)
        requires
            old(self).wf(),
            row_spans@.len() == rows@.len(),
            forall|r: int| 0 <= r < rows@.len() ==> (#[trigger] rows@[r])@.len() <= col_spans@.len(),
        ensures
            final(self).wf(),
            old(self).same_but_canvas(&*final(self)),
            stamped_canvas(
                old(self).pixels@,
                final(self).pixels@,
                old(self).width as int,
                old(self).height as int,
                sprite_stamps(rows@.map_values(|r: &str| r@), col_spans@, row_spans@),
            ),
    {
        let ghost w = self.width as int;
        let ghost h = self.height as int;
        let ghost start = *self;
        let ghost lines = rows@.map_values(|r: &str| r@);
        let mut r: usize = 0;
        proof {
            assert(lines.take(0) =~= Seq::<Seq<char>>::empty());
        }
        while r < rows.len()
            invariant
                self.wf(),
                start.same_but_canvas(&*self),
                w == start.width,
                h == start.height,
                lines == rows@.map_values(|r: &str| r@),
                row_spans@.len() == rows@.len(),
                forall|k: int| 0 <= k < rows@.len() ==> (#[trigger] rows@[k])@.len() <= col_spans@.len(),
                0 <= r <= rows@.len(),
                stamped_canvas(start.pixels@, self.pixels@, w, h, sprite_stamps(lines.take(r as int), col_spans@, row_spans@)),
            decreases rows@.len() - r,
        {
            let line: &str = rows[r];
            let n = line.unicode_len();
            let (y0, y1) = row_spans[r];
            let ghost before = sprite_stamps(lines.take(r as int), col_spans@, row_spans@);
            proof {
                assert(lines[r as int] == line@);
                assert(row_stamps(line@.take(0), col_spans@, row_spans@[r as int]) =~= Seq::<Stamp>::empty());
                assert(before + Seq::<Stamp>::empty() =~= before);
            }
            let mut c: usize = 0;
            while c < n
                invariant
                    self.wf(),
                    start.same_but_canvas(&*self),
                    w == start.width,
                    h == start.height,
                    n == line@.len(),
                    n <= col_spans@.len(),
                    r < row_spans@.len(),
                    (y0, y1) == row_spans@[r as int],
                    0 <= c <= n,
                    stamped_canvas(start.pixels@, self.pixels@, w, h, before + row_stamps(line@.take(c as int), col_spans@, row_spans@[r as int])),
                decreases n - c,
            {
                let marker = line.get_char(c);
                let ghost done = before + row_stamps(line@.take(c as int), col_spans@, row_spans@[r as int]);
                proof {
                    assert(line@.take(c as int + 1).drop_last() == line@.take(c as int));
                    assert(line@.take(c as int + 1).last() == marker);
                }
                match sprite_pixel(marker) {
                    Some(color) => {
                        let (x0, x1) = col_spans[c];
                        let ghost mid = self.pixels@;
                        self.fill_block(x0, x1, y0, y1, color);
                        proof {
                            lemma_stamp_more(start.pixels@, mid, self.pixels@, w, h, done, ((x0, x1), (y0, y1), color));
                            assert(done.push(((x0, x1), (y0, y1), color)) =~= before + row_stamps(line@.take(c as int + 1), col_spans@, row_spans@[r as int]));
                        }
                    },
                    None => {
                        proof {
                            assert(done =~= before + row_stamps(line@.take(c as int + 1), col_spans@, row_spans@[r as int]));
                        }
                    },
                }
                c = c + 1;
            }
            proof {
                assert(line@.take(n as int) == line@);
                assert(lines.take(r as int + 1).drop_last() == lines.take(r as int));
                assert(lines.take(r as int + 1).last() == line@);
            }
            r = r + 1;
        }
        proof {
            assert(lines.take(rows@.len() as int) == lines);
        }
    }
    /// Stamps the demo cat, scaled by the given spans, on canvases of at
    /// least 16 by 16 cells; smaller canvases are left blank.
    pub fn seed_demo_art(&mut self, col_spans: &Vec<(usize, usize)>, row_spans: &Vec<(usize, usize)>)
        requires
            old(self).wf(),
            row_spans@.len() == cat_sprite().len(),
            forall|r: int| 0 <= r < cat_sprite().len() ==> (#[trigger] cat_sprite()[r]).len() <= col_spans@.len(),
        ensures
            final(self).wf(),
            old(self).same_but_canvas(&*final(self)),
            if old(self).width < 16 || old(self).height < 16 {
                final(self).pixels@ == old(self).pixels@
            } else {
                stamped_canvas(
                    old(self).pixels@,
                    final(self).pixels@,
                    old(self).width as int,
                    old(self).height as int,
                    sprite_stamps(cat_sprite(), col_spans@, row_spans@),
                )
            },
    {
        if self.width < 16 || self.height < 16 {
            return;
        }
        let rows = cat_rows();
        proof {
            assert(rows@.map_values(|r: &str| r@) == row_chars(rows@));
            assert forall|r: int| 0 <= r < rows@.len() implies (#[trigger] rows@[r])@.len() <= col_spans@.len() by {
                assert(row_chars(rows@)[r] == rows@[r]@);
            }
        }
        self.stamp_sprite(&rows, col_spans, row_spans);
    }
}

} // verus!

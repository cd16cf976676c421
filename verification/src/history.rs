//! Undo and redo.

use vstd::prelude::*;
use crate::app::{App, HISTORY_LIMIT, STATUS_HOLD_MS, snapshots_sized};
use crate::grid::painted;
use crate::pixel::{Pixel, background_pixel};

verus! {

/// The canvases a stack of snapshots holds.
pub open spec fn history(stack: Seq<Vec<Pixel>>) -> Seq<Seq<Pixel>> {
    stack.map_values(|v: Vec<Pixel>| v@)
}

/// Whether the latest undo snapshot already is canvas `pixels`.
pub open spec fn top_is(undo: Seq<Vec<Pixel>>, pixels: Seq<Pixel>) -> bool {
    undo.len() > 0 && undo.last()@ == pixels
}

/// The undo history after recording `pixels`: appended, and the oldest
/// snapshot dropped when the stack would pass the limit.
pub open spec fn recorded(undo: Seq<Seq<Pixel>>, pixels: Seq<Pixel>) -> Seq<Seq<Pixel>> {
    let pushed = undo.push(pixels);
    if pushed.len() > HISTORY_LIMIT {
        pushed.drop_first()
    } else {
        pushed
    }
}

/// Recording keeps the latest snapshots in order: the new history is a
/// suffix of the old history with the canvas appended, as long as the limit
/// allows (one longer than before, or `HISTORY_LIMIT` when that is passed),
/// so when the limit is passed it is the oldest snapshot that goes.
pub proof fn recording_keeps_the_latest_snapshots(undo: Seq<Seq<Pixel>>, pixels: Seq<Pixel>)
    requires
        undo.len() <= HISTORY_LIMIT,
    ensures
        recorded(undo, pixels).len() == if undo.len() < HISTORY_LIMIT {
            undo.len() + 1
        } else {
            HISTORY_LIMIT as nat
        },
        recorded(undo, pixels).last() == pixels,
        forall|i: int|
            0 <= i < recorded(undo, pixels).len() ==> #[trigger] recorded(undo, pixels)[i] == undo.push(pixels)[i
                + undo.len() + 1 - recorded(undo, pixels).len()],
{
}

/// `new` is `old` after recording the canvas for undo: nothing changes when
/// the latest snapshot already is this canvas; otherwise the canvas is
/// recorded and the redo stack is emptied.
pub open spec fn undo_recorded(old: App, new: App) -> bool {
    if top_is(old.undo@, old.pixels@) {
        new == old
    } else {
        &&& history(new.undo@) == recorded(history(old.undo@), old.pixels@)
        &&& new.redo@.len() == 0
        &&& new == (App { undo: new.undo, redo: new.redo, ..old })
    }
}

/// `new` is `old` after an undo: with no snapshot nothing changes; otherwise
/// the latest snapshot becomes the canvas and the canvas goes on the redo
/// stack.
pub open spec fn undone(old: App, new: App) -> bool {
    if old.undo@.len() == 0 {
        new == old
    } else {
        &&& new.pixels@ == old.undo@.last()@
        &&& history(new.undo@) == history(old.undo@).drop_last()
        &&& history(new.redo@) == history(old.redo@).push(old.pixels@)
        &&& new.status@ == "Undo"@
        &&& new == (App {
            pixels: new.pixels,
            undo: new.undo,
            redo: new.redo,
            status: new.status,
            status_hold_ms: Some(STATUS_HOLD_MS),
            ..old
        })
    }
}

/// `new` is `old` after a redo, the mirror image of an undo.
pub open spec fn redone(old: App, new: App) -> bool {
    if old.redo@.len() == 0 {
        new == old
    } else {
        &&& new.pixels@ == old.redo@.last()@
        &&& history(new.redo@) == history(old.redo@).drop_last()
        &&& history(new.undo@) == history(old.undo@).push(old.pixels@)
        &&& new.status@ == "Redo"@
        &&& new == (App {
            pixels: new.pixels,
            undo: new.undo,
            redo: new.redo,
            status: new.status,
            status_hold_ms: Some(STATUS_HOLD_MS),
            ..old
        })
    }
}

/// Whether two canvases hold the same pixels.
pub fn same_pixels(a: &Vec<Pixel>, b: &Vec<Pixel>) -> (same: bool)
    ensures
        same == (a@ == b@),
{
    if a.len() != b.len() {
        return false;
    }
    let mut i: usize = 0;
    while i < a.len()
        invariant
            a@.len() == b@.len(),
            0 <= i <= a@.len(),
            forall|k: int| 0 <= k < i ==> a@[k] == b@[k],
        decreases a@.len() - i,
    {
        if a[i] != b[i] {
            return false;
        }
        i = i + 1;
    }
    proof {
        assert(a@ =~= b@);
    }
    true
}

/// A copy of a canvas.
pub fn copy_pixels(a: &Vec<Pixel>) -> (b: Vec<Pixel>)
    ensures
        b@ == a@,
{
    let mut b: Vec<Pixel> = Vec::new();
    let mut i: usize = 0;
    while i < a.len()
        invariant
            0 <= i <= a@.len(),
            b@ == a@.take(i as int),
        decreases a@.len() - i,
    {
        b.push(a[i]);
        proof {
            assert(a@.take(i as int + 1) == a@.take(i as int).push(a@[i as int]));
        }
        i = i + 1;
    }
    proof {
        assert(a@.take(a@.len() as int) == a@);
    }
    b
}

/// The undo history once `a`'s canvas is recorded.
pub open spec fn recorded_undo(a: App) -> Seq<Seq<Pixel>> {
    if top_is(a.undo@, a.pixels@) {
        history(a.undo@)
    } else {
        recorded(history(a.undo@), a.pixels@)
    }
}

/// The redo history once `a`'s canvas is recorded.
pub open spec fn recorded_redo(a: App) -> Seq<Seq<Pixel>> {
    if top_is(a.undo@, a.pixels@) {
        history(a.redo@)
    } else {
        Seq::empty()
    }
}

/// Recording leaves everything but the histories as it was, and leaves the
/// histories as `recorded_undo` and `recorded_redo` say.
pub proof fn lemma_undo_recorded(old: App, new: App)
    requires
        undo_recorded(old, new),
    ensures
        history(new.undo@) == recorded_undo(old),
        history(new.redo@) == recorded_redo(old),
        new == (App { undo: new.undo, redo: new.redo, ..old }),
        recorded_undo(old).len() > 0,
{
    if !top_is(old.undo@, old.pixels@) {
        assert(history(new.redo@) =~= Seq::<Seq<Pixel>>::empty());
    }
}

/// `new` is `old` after the canvas was cleared: recorded for undo, then
/// filled with its background colour.
pub open spec fn canvas_cleared(old: App, new: App) -> bool {
    &&& history(new.undo@) == recorded_undo(old)
    &&& history(new.redo@) == recorded_redo(old)
    &&& new.pixels@ == Seq::new(old.pixels@.len(), |i: int| background_pixel(old.background))
    &&& new.status@ == "Canvas cleared"@
    &&& new == (App {
        pixels: new.pixels,
        undo: new.undo,
        redo: new.redo,
        status: new.status,
        status_hold_ms: Some(STATUS_HOLD_MS),
        ..old
    })
}

/// After the canvas is recorded, the latest snapshot is that canvas, so it
/// is never recorded twice in a row.
pub proof fn recording_tops_the_history(a0: App, a1: App)
    requires
        undo_recorded(a0, a1),
    ensures
        top_is(a1.undo@, a0.pixels@),
{
    if !top_is(a0.undo@, a0.pixels@) {
        let h = history(a1.undo@);
        assert(h.len() == a1.undo@.len());
        assert(h[h.len() - 1] == a1.undo@[a1.undo@.len() - 1]@);
    }
}

/// Whatever is painted after the canvas is recorded, one undo brings the
/// recorded canvas back.
pub proof fn undo_restores_recorded_canvas(a0: App, a1: App, a2: App, a3: App)
    requires
        undo_recorded(a0, a1),
        a2.undo == a1.undo,
        undone(a2, a3),
    ensures
        a3.pixels@ == a0.pixels@,
{
    recording_tops_the_history(a0, a1);
}

/// A redo takes back an undo: canvas and both histories are as before.
pub proof fn redo_reverts_undo(a0: App, a1: App, a2: App)
    requires
        a0.undo@.len() > 0,
        undone(a0, a1),
        redone(a1, a2),
    ensures
        a2.pixels@ == a0.pixels@,
        history(a2.undo@) == history(a0.undo@),
        history(a2.redo@) == history(a0.redo@),
{
    assert(history(a1.redo@).len() == a1.redo@.len());
    assert(a1.redo@.len() > 0);
    assert(history(a1.redo@).last() == a1.redo@.last()@);
    assert(history(a0.undo@).drop_last().push(history(a0.undo@).last()) =~= history(a0.undo@));
    assert(history(a0.undo@).last() == a0.undo@.last()@);
    assert(history(a0.redo@).push(a0.pixels@).drop_last() =~= history(a0.redo@));
}

/// An undo takes back a redo: canvas and both histories are as before.
pub proof fn undo_reverts_redo(a0: App, a1: App, a2: App)
    requires
        a0.redo@.len() > 0,
        redone(a0, a1),
        undone(a1, a2),
    ensures
        a2.pixels@ == a0.pixels@,
        history(a2.undo@) == history(a0.undo@),
        history(a2.redo@) == history(a0.redo@),
{
    assert(history(a1.undo@).len() == a1.undo@.len());
    assert(a1.undo@.len() > 0);
    assert(history(a1.undo@).last() == a1.undo@.last()@);
    assert(history(a0.redo@).drop_last().push(history(a0.redo@).last()) =~= history(a0.redo@));
    assert(history(a0.redo@).last() == a0.redo@.last()@);
    assert(history(a0.undo@).push(a0.pixels@).drop_last() =~= history(a0.undo@));
}

/// The undo and redo histories together never hold more than
/// `HISTORY_LIMIT` canvases: recording leaves at most that many to undo and
/// none to redo, and an undo or a redo moves one canvas from one history to
/// the other. The other operations only shorten or empty the histories;
/// `App::wf` carries the bound, and every operation keeps `App::wf`.
pub proof fn history_stays_bounded(a0: App, a1: App)
    requires
        a0.undo@.len() + a0.redo@.len() <= HISTORY_LIMIT,
        undo_recorded(a0, a1) || undone(a0, a1) || redone(a0, a1),
    ensures
        a1.undo@.len() + a1.redo@.len() <= HISTORY_LIMIT,
{
    assert(history(a0.undo@).len() == a0.undo@.len());
    assert(history(a0.redo@).len() == a0.redo@.len());
    assert(history(a1.undo@).len() == a1.undo@.len());
    assert(history(a1.redo@).len() == a1.redo@.len());
}

impl App {
    /// Records the canvas so that the next change can be undone.
    pub fn push_undo(&mut self)
        requires
            old(self).wf(),
        ensures
            final(self).wf(),
            undo_recorded(*old(self), *final(self)),
    {
        let n = self.undo.len();
        if n > 0 && same_pixels(&self.undo[n - 1], &self.pixels) {
            return;
        }
        let ghost before = *self;
        let snapshot = copy_pixels(&self.pixels);
        self.undo.push(snapshot);
        proof {
            assert(history(self.undo@) =~= history(before.undo@).push(before.pixels@));
        }
        if self.undo.len() > HISTORY_LIMIT {
            let ghost pushed = self.undo@;
            self.undo.remove(0);
            proof {
                assert(history(self.undo@) =~= history(pushed).drop_first());
            }
        }
        self.redo.clear();
        proof {
            let w = self.width * self.height;
            assert(snapshots_sized(self.undo@, w));
        }
    }

    /// Steps back to the latest snapshot, keeping the current canvas for
    /// redo.
    pub fn undo(&mut self)
        requires
            old(self).wf(),
        ensures
            final(self).wf(),
            undone(*old(self), *final(self)),
    {
        let ghost before = *self;
        if self.undo.len() > 0 {
            let previous = self.undo.pop().unwrap();
            let current = copy_pixels(&self.pixels);
            self.redo.push(current);
            self.pixels = previous;
            self.flash("Undo");
            proof {
                assert(history(self.undo@) =~= history(before.undo@).drop_last());
                assert(history(self.redo@) =~= history(before.redo@).push(before.pixels@));
                assert(snapshots_sized(self.redo@, self.width * self.height));
            }
        }
    }

    /// Steps forward to the latest undone canvas.
    pub fn redo(&mut self)
        requires
            old(self).wf(),
        ensures
            final(self).wf(),
            redone(*old(self), *final(self)),
    {
        let ghost before = *self;
        if self.redo.len() > 0 {
            let next = self.redo.pop().unwrap();
            let current = copy_pixels(&self.pixels);
            self.undo.push(current);
            self.pixels = next;
            self.flash("Redo");
            proof {
                assert(history(self.redo@) =~= history(before.redo@).drop_last());
                assert(history(self.undo@) =~= history(before.undo@).push(before.pixels@));
                assert(snapshots_sized(self.undo@, self.width * self.height));
            }
        }
    }

    /// Fills the whole canvas with its background colour, undoably.
    pub fn clear_canvas(&mut self)
        requires
            old(self).wf(),
        ensures
            final(self).wf(),
            canvas_cleared(*old(self), *final(self)),
    {
        let ghost start = *self;
        self.push_undo();
        let ghost mid = *self;
        proof {
            lemma_undo_recorded(start, mid);
        }
        let color = self.background.pixel();
        let n = self.pixels.len();
        let mut i: usize = 0;
        while i < n
            invariant
                self.wf(),
                *self == (App { pixels: self.pixels, ..mid }),
                n == self.pixels@.len(),
                0 <= i <= n,
                color == background_pixel(mid.background),
                forall|k: int| 0 <= k < i ==> self.pixels@[k] == color,
            decreases n - i,
        {
            self.pixels.set(i, color);
            i = i + 1;
        }
        proof {
            assert(self.pixels@ =~= Seq::new(n as nat, |k: int| color));
        }
        self.flash("Canvas cleared");
    }
}

} // verus!

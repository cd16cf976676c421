//! The reference photo shown under the canvas.

use vstd::prelude::*;
use crate::pixel::Pixel;

verus! {

/// A photo scaled to the canvas, kept as a grid of pixels.
pub struct ReferenceLayer {
    pub name: String,
    pub width: usize,
    pub height: usize,
    pub pixels: Vec<Pixel>,
}

impl ReferenceLayer {
    pub open spec fn wf(&self) -> bool {
        self.pixels@.len() == self.width * self.height
    }

    /// The photo's pixel in column `x` of row `y`.
    pub fn pixel(&self, x: usize, y: usize) -> (p: Pixel)
        requires
            self.wf(),
            x < self.width,
            y < self.height,
        ensures
            p == self.pixels@[y * self.width + x],
    {
        let count = self.pixels.len();
        proof {
            crate::grid::lemma_idx_in_grid(self.width as int, self.height as int, x as int, y as int);
            assert(y * self.width + x < count);
        }
        self.pixels[y * self.width + x]
    }
}

} // verus!

//! The plain color sample the codec works on, and the trimming of an image
//! to even dimensions.

use crate::array2::Array2;
use vstd::arithmetic::div_mod::{
    lemma_fundamental_div_mod_converse_div, lemma_fundamental_div_mod_converse_mod,
};
use vstd::prelude::*;

verus! {

/// One full-color sample: three unsigned channel values scaled relative to
/// an external denominator (the maximum channel value).
#[derive(Clone, Copy, PartialEq, Eq, Structural, Debug)]
pub struct Rgb {
    pub red: u16,
    pub green: u16,
    pub blue: u16,
}

/// Builds the pixel grid for compression from a row-major pixel sequence,
/// dropping the last column and/or the last row when the width and/or the
/// height is odd, so that both dimensions of the result are even. A pixel
/// sequence whose length is not exactly `width * height` is a contract
/// violation and is ruled out by the precondition.
pub fn trim_image(pixels: &Vec<Rgb>, width: usize, height: usize) -> (g: Array2<Rgb>)
    requires
        pixels@.len() == width * height,
    ensures
        g.wf(),
        g.spec_width() == width - width % 2,
        g.spec_height() == height - height % 2,
        forall|r: int, c: int|
            0 <= r < g.spec_height() && 0 <= c < g.spec_width() ==> #[trigger] g@[g.idx(r, c)]
                == pixels@[r * width + c],
{
    let new_width = width - width % 2;
    let new_height = height - height % 2;
    let len = pixels.len();
    proof {
        assert(new_width * new_height <= width * height && (new_width == 0 ==> new_width
            * new_height == 0)) by (nonlinear_arith)
            requires
                new_width <= width,
                new_height <= height,
        ;
    }
    let total = new_width * new_height;
    let mut cells: Vec<Rgb> = Vec::new();
    let mut p: usize = 0;
    while p < total
        invariant
            new_width <= width,
            new_height <= height,
            total == new_width * new_height,
            pixels@.len() == width * height,
            p <= total,
            total > 0 ==> new_width > 0,
            cells@.len() == p,
            forall|j: int| #![trigger cells@[j]]
                0 <= j < p ==> cells@[j] == pixels@[(j / (new_width as int)) * width + j % (
                new_width as int)],
        decreases total - p,
    {
        let r = p / new_width;
        let c = p % new_width;
        proof {
            assert((p as int) / (new_width as int) < new_height && ((p as int) / (
            new_width as int)) * width + (p as int) % (new_width as int) < width * height)
                by (nonlinear_arith)
                requires
                    0 < new_width <= width,
                    new_height <= height,
                    0 <= (p as int) < new_width * new_height,
            ;
        }
        let len = pixels.len();
        cells.push(pixels[r * width + c]);
        p = p + 1;
    }
    let g = Array2::from_row_major(cells, new_width, new_height);
    proof {
        assert forall|r: int, c: int|
            0 <= r < g.spec_height() && 0 <= c < g.spec_width() implies #[trigger] g@[g.idx(r, c)]
            == pixels@[r * width + c] by {
            let j = r * (new_width as int) + c;
            assert(0 <= r * (new_width as int) + c < new_width * new_height) by (nonlinear_arith)
                requires
                    0 <= r < new_height,
                    0 <= c < new_width,
            ;
            lemma_fundamental_div_mod_converse_div(j, new_width as int, r, c);
            lemma_fundamental_div_mod_converse_mod(j, new_width as int, r, c);
        }
    }
    g
}

} // verus!

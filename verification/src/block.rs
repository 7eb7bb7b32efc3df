//! Grouping of a pixel grid into its 2x2 blocks and the inverse expansion.
//!
//! A grid with even dimensions is partitioned into 2x2 neighborhoods; the
//! block grid has half the width and half the height of the source. The
//! cells themselves are carried unchanged: what a codec computes from the
//! four cells of a block (averages, transform coefficients) happens outside
//! these functions.

use crate::array2::Array2;
use vstd::arithmetic::div_mod::{
    lemma_fundamental_div_mod_converse_div, lemma_fundamental_div_mod_converse_mod,
};
use vstd::prelude::*;

verus! {

/// The four cells of one 2x2 neighborhood.
#[derive(Clone, Copy, PartialEq, Eq, Debug)]
pub struct Quad<T> {
    /// Top-left cell.
    pub tl: T,
    /// Top-right cell.
    pub tr: T,
    /// Bottom-left cell.
    pub bl: T,
    /// Bottom-right cell.
    pub br: T,
}

/// The quad gathered from the 2x2 neighborhood of `image` whose top-left
/// corner is at row `2 * r` and column `2 * c`.
pub open spec fn spec_quad_at<T>(image: Array2<T>, r: int, c: int) -> Quad<T>
    recommends
        image.wf(),
        0 <= r,
        0 <= c,
        2 * r + 1 < image.spec_height(),
        2 * c + 1 < image.spec_width(),
{
    Quad {
        tl: image@[image.idx(2 * r, 2 * c)],
        tr: image@[image.idx(2 * r, 2 * c + 1)],
        bl: image@[image.idx(2 * r + 1, 2 * c)],
        br: image@[image.idx(2 * r + 1, 2 * c + 1)],
    }
}

/// Partitions a grid with even dimensions into its 2x2 blocks: block `(r, c)`
/// of the result holds the four cells whose rows are `2r` and `2r + 1` and
/// whose columns are `2c` and `2c + 1`.
pub fn group_quads<T: Copy>(image: &Array2<T>) -> (blocks: Array2<Quad<T>>)
    requires
        image.wf(),
        image.spec_width() % 2 == 0,
        image.spec_height() % 2 == 0,
    ensures
        blocks.wf(),
        blocks.spec_width() == image.spec_width() / 2,
        blocks.spec_height() == image.spec_height() / 2,
        forall|r: int, c: int|
            0 <= r < blocks.spec_height() && 0 <= c < blocks.spec_width()
                ==> #[trigger] blocks@[blocks.idx(r, c)] == spec_quad_at(*image, r, c),
{
    let half_width = image.width() / 2;
    let half_height = image.height() / 2;
    proof {
        assert(half_width * half_height <= image.spec_width() * image.spec_height() && (half_width
            == 0 ==> half_width * half_height == 0)) by (nonlinear_arith)
            requires
                half_width <= image.spec_width(),
                half_height <= image.spec_height(),
        ;
        assert(image@.len() == image.spec_width() * image.spec_height());
        image.lemma_cell_count_fits();
    }
    let total = half_width * half_height;
    let mut cells: Vec<Quad<T>> = Vec::new();
    let mut p: usize = 0;
    while p < total
        invariant
            image.wf(),
            image.spec_width() % 2 == 0,
            image.spec_height() % 2 == 0,
            half_width == image.spec_width() / 2,
            half_height == image.spec_height() / 2,
            total == half_width * half_height,
            p <= total,
            total > 0 ==> half_width > 0,
            cells@.len() == p,
            forall|j: int| #![trigger cells@[j]]
                0 <= j < p ==> cells@[j] == spec_quad_at(
                    *image,
                    j / (half_width as int),
                    j % (half_width as int),
                ),
        decreases total - p,
    {
        let r = p / half_width;
        let c = p % half_width;
        proof {
            assert((p as int) / (half_width as int) < half_height) by (nonlinear_arith)
                requires
                    0 < half_width,
                    0 <= (p as int) < half_width * half_height,
            ;
            assert(2 * (r as int) + 1 < image.spec_height() && 2 * (c as int) + 1
                < image.spec_width()) by (nonlinear_arith)
                requires
                    0 <= (r as int) < half_height,
                    0 <= (c as int) < half_width,
                    half_width == image.spec_width() / 2,
                    half_height == image.spec_height() / 2,
                    image.spec_width() % 2 == 0,
                    image.spec_height() % 2 == 0,
            ;
        }
        let quad = Quad {
            tl: *image.get(2 * r, 2 * c).unwrap(),
            tr: *image.get(2 * r, 2 * c + 1).unwrap(),
            bl: *image.get(2 * r + 1, 2 * c).unwrap(),
            br: *image.get(2 * r + 1, 2 * c + 1).unwrap(),
        };
        cells.push(quad);
        p = p + 1;
    }
    let blocks = Array2::from_row_major(cells, half_width, half_height);
    proof {
        assert forall|r: int, c: int|
            0 <= r < blocks.spec_height() && 0 <= c < blocks.spec_width() implies #[trigger] blocks@[blocks.idx(
            r,
            c,
        )] == spec_quad_at(*image, r, c) by {
            let j = r * (half_width as int) + c;
            assert(0 <= r * (half_width as int) + c < half_width * half_height)
                by (nonlinear_arith)
                requires
                    0 <= r < half_height,
                    0 <= c < half_width,
            ;
            lemma_fundamental_div_mod_converse_div(j, half_width as int, r, c);
            lemma_fundamental_div_mod_converse_mod(j, half_width as int, r, c);
        }
    }
    blocks
}

/// Expands a grid of 2x2 blocks back to the grid of its cells: the four
/// cells of block `(r, c)` return to rows `2r` and `2r + 1` and columns `2c`
/// and `2c + 1`. The inverse of `group_quads`.
pub fn ungroup_quads<T: Copy>(blocks: &Array2<Quad<T>>) -> (image: Array2<T>)
    requires
        blocks.wf(),
        2 * blocks.spec_width() <= usize::MAX,
        2 * blocks.spec_height() <= usize::MAX,
        4 * blocks.spec_width() * blocks.spec_height() <= usize::MAX,
    ensures
        image.wf(),
        image.spec_width() == 2 * blocks.spec_width(),
        image.spec_height() == 2 * blocks.spec_height(),
        forall|r: int, c: int|
            0 <= r < blocks.spec_height() && 0 <= c < blocks.spec_width() ==> #[trigger] blocks@[blocks.idx(
                r,
                c,
            )] == spec_quad_at(image, r, c),
{
    let width = blocks.width();
    let height = blocks.height();
    let out_width = 2 * width;
    let out_height = 2 * height;
    proof {
        assert(out_width * out_height == 4 * (width * height) && (out_width == 0 ==> out_width
            * out_height == 0) && width * height <= 4 * width * height && out_width * out_height
            <= 4 * width * height) by (nonlinear_arith)
            requires
                out_width == 2 * width,
                out_height == 2 * height,
        ;
    }
    let total = out_width * out_height;
    let mut cells: Vec<T> = Vec::new();
    let mut p: usize = 0;
    while p < total
        invariant
            blocks.wf(),
            width == blocks.spec_width(),
            height == blocks.spec_height(),
            out_width == 2 * width,
            out_height == 2 * height,
            total == out_width * out_height,
            total <= usize::MAX,
            p <= total,
            total > 0 ==> out_width > 0,
            cells@.len() == p,
            forall|j: int| #![trigger cells@[j]]
                0 <= j < p ==> {
                    let row = j / (out_width as int);
                    let col = j % (out_width as int);
                    let quad = blocks@[blocks.idx(row / 2, col / 2)];
                    cells@[j] == (if row % 2 == 0 && col % 2 == 0 {
                        quad.tl
                    } else if row % 2 == 0 {
                        quad.tr
                    } else if col % 2 == 0 {
                        quad.bl
                    } else {
                        quad.br
                    })
                },
        decreases total - p,
    {
        let row = p / out_width;
        let col = p % out_width;
        proof {
            assert((p as int) / (out_width as int) < out_height) by (nonlinear_arith)
                requires
                    0 < out_width,
                    0 <= (p as int) < out_width * out_height,
            ;
            assert((row as int) / 2 < height && (col as int) / 2 < width) by (nonlinear_arith)
                requires
                    0 <= (row as int) < out_height,
                    0 <= (col as int) < out_width,
                    out_width == 2 * width,
                    out_height == 2 * height,
            ;
        }
        let quad = *blocks.get(row / 2, col / 2).unwrap();
        let cell = if row % 2 == 0 && col % 2 == 0 {
            quad.tl
        } else if row % 2 == 0 {
            quad.tr
        } else if col % 2 == 0 {
            quad.bl
        } else {
            quad.br
        };
        cells.push(cell);
        p = p + 1;
    }
    let image = Array2::from_row_major(cells, out_width, out_height);
    proof {
        let w = out_width as int;
        assert forall|r: int, c: int|
            0 <= r < blocks.spec_height() && 0 <= c < blocks.spec_width() implies #[trigger] blocks@[blocks.idx(
            r,
            c,
        )] == spec_quad_at(image, r, c) by {
            let j0 = (2 * r) * w + 2 * c;
            let j1 = (2 * r) * w + (2 * c + 1);
            let j2 = (2 * r + 1) * w + 2 * c;
            let j3 = (2 * r + 1) * w + (2 * c + 1);
            assert(0 <= (2 * r) * w + 2 * c && (2 * r) * w + (2 * c + 1) < w * (
            out_height as int) && (2 * r + 1) * w + 2 * c < w * (out_height as int) && (2 * r + 1)
                * w + (2 * c + 1) < w * (out_height as int)) by (nonlinear_arith)
                requires
                    0 <= 2 * r + 1 < out_height,
                    0 <= 2 * c + 1 < w,
            ;
            assert(total as int == w * (out_height as int));
            lemma_fundamental_div_mod_converse_div(j0, w, 2 * r, 2 * c);
            lemma_fundamental_div_mod_converse_mod(j0, w, 2 * r, 2 * c);
            lemma_fundamental_div_mod_converse_div(j1, w, 2 * r, 2 * c + 1);
            lemma_fundamental_div_mod_converse_mod(j1, w, 2 * r, 2 * c + 1);
            lemma_fundamental_div_mod_converse_div(j2, w, 2 * r + 1, 2 * c);
            lemma_fundamental_div_mod_converse_mod(j2, w, 2 * r + 1, 2 * c);
            lemma_fundamental_div_mod_converse_div(j3, w, 2 * r + 1, 2 * c + 1);
            lemma_fundamental_div_mod_converse_mod(j3, w, 2 * r + 1, 2 * c + 1);
            lemma_fundamental_div_mod_converse_div(2 * r, 2, r, 0);
            lemma_fundamental_div_mod_converse_mod(2 * r, 2, r, 0);
            lemma_fundamental_div_mod_converse_div(2 * r + 1, 2, r, 1);
            lemma_fundamental_div_mod_converse_mod(2 * r + 1, 2, r, 1);
            lemma_fundamental_div_mod_converse_div(2 * c, 2, c, 0);
            lemma_fundamental_div_mod_converse_mod(2 * c, 2, c, 0);
            lemma_fundamental_div_mod_converse_div(2 * c + 1, 2, c, 1);
            lemma_fundamental_div_mod_converse_mod(2 * c + 1, 2, c, 1);
            assert(image@[j0] == blocks@[blocks.idx(r, c)].tl);
            assert(image@[j1] == blocks@[blocks.idx(r, c)].tr);
            assert(image@[j2] == blocks@[blocks.idx(r, c)].bl);
            assert(image@[j3] == blocks@[blocks.idx(r, c)].br);
        }
    }
    image
}

/// Law: expanding a grouped grid gives the original grid back: grouping a
/// grid with even dimensions into 2x2 blocks and broadcasting the blocks'
/// cells back to their positions reproduces every cell.
pub proof fn lemma_group_ungroup_roundtrip<T>(image: Array2<T>, back: Array2<T>)
    requires
        image.wf(),
        back.wf(),
        image.spec_width() % 2 == 0,
        image.spec_height() % 2 == 0,
        back.spec_width() == image.spec_width(),
        back.spec_height() == image.spec_height(),
        forall|r: int, c: int|
            0 <= r < image.spec_height() / 2 && 0 <= c < image.spec_width() / 2
                ==> #[trigger] spec_quad_at(back, r, c) == spec_quad_at(image, r, c),
    ensures
        back@ =~= image@,
{
    let w = image.spec_width() as int;
    let h = image.spec_height() as int;
    assert forall|j: int| 0 <= j < image@.len() implies back@[j] == image@[j] by {
        let row = j / w;
        let col = j % w;
        assert(w > 0) by (nonlinear_arith)
            requires
                image@.len() == w * h,
                0 <= j < image@.len(),
                w >= 0,
        ;
        assert(0 <= row < h) by (nonlinear_arith)
            requires
                0 < w,
                image@.len() == w * h,
                0 <= j < image@.len(),
                row == j / w,
        ;
        vstd::arithmetic::div_mod::lemma_fundamental_div_mod(j, w);
        let r = row / 2;
        let c = col / 2;
        let dr = row % 2;
        let dc = col % 2;
        vstd::arithmetic::div_mod::lemma_fundamental_div_mod(row, 2);
        vstd::arithmetic::div_mod::lemma_fundamental_div_mod(col, 2);
        assert(0 <= r < h / 2 && 0 <= c < w / 2) by (nonlinear_arith)
            requires
                0 <= row < h,
                0 <= col < w,
                r == row / 2,
                c == col / 2,
                w % 2 == 0,
                h % 2 == 0,
        ;
        assert(spec_quad_at(back, r, c) == spec_quad_at(image, r, c));
        assert(j == (2 * r + dr) * w + (2 * c + dc)) by (nonlinear_arith)
            requires
                j == w * row + col,
                row == 2 * r + dr,
                col == 2 * c + dc,
        ;
    }
}

} // verus!

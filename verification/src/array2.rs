//! A two-dimensional polymorphic array backed by one row-major vector.
//!
//! The view of an `Array2` is the flat row-major sequence of its cells: the
//! cell at row `r` and column `c` is element `r * width + c` of the view.
//! Width and height are fixed at construction; a cell can be replaced but the
//! grid is never resized. Both the row and the column index are checked on
//! every access, with one "no value" outcome for either being out of bounds.

use vstd::pervasive::cloned;
use vstd::prelude::*;

verus! {

/// A fixed-size two-dimensional array of cells of type `T`.
pub struct Array2<T> {
    elements: Vec<T>,
    width: usize,
    height: usize,
}

impl<T> View for Array2<T> {
    type V = Seq<T>;

    closed spec fn view(&self) -> Seq<T> {
        self.elements@
    }
}

impl<T> Array2<T> {
    /// The number of columns.
    pub closed spec fn spec_width(&self) -> usize {
        self.width
    }

    /// The number of rows.
    pub closed spec fn spec_height(&self) -> usize {
        self.height
    }

    /// The backing store holds exactly one cell for every position of the
    /// grid.
    pub open spec fn wf(&self) -> bool {
        self@.len() == self.spec_width() * self.spec_height()
    }

    /// The number of cells is the length of one backing vector, so it fits
    /// in `usize`.
    pub proof fn lemma_cell_count_fits(&self)
        ensures
            self@.len() <= usize::MAX,
    {
        vstd::std_specs::vec::axiom_spec_len(&self.elements);
    }

    /// The position of the cell at row `row` and column `column` inside the
    /// row-major view.
    pub open spec fn idx(&self, row: int, column: int) -> int {
        row * self.spec_width() + column
    }

    /// Returns the width of the 2d array, also referred to as the amount of
    /// columns.
    #[verifier::when_used_as_spec(spec_width)]
    pub fn width(&self) -> (w: usize)
        ensures
            w == self.spec_width(),
    {
        self.width
    }

    /// Returns the height of the 2d array, also referred to as the amount of
    /// rows.
    #[verifier::when_used_as_spec(spec_height)]
    pub fn height(&self) -> (h: usize)
        ensures
            h == self.spec_height(),
    {
        self.height
    }

    /// Constructs a 2d array that owns `elements`, read in row-major order:
    /// consecutive runs of `width` elements become the rows, top row first.
    /// Handing a vector whose length is not exactly `width * height` is a
    /// contract violation and is ruled out by the precondition.
    pub fn from_row_major(elements: Vec<T>, width: usize, height: usize) -> (g: Self)
        requires
            elements@.len() == width * height,
        ensures
            g.wf(),
            g.spec_width() == width,
            g.spec_height() == height,
            g@ == elements@,
    {
        Array2 { elements, width, height }
    }

    /// Returns the row-major sequence of `(row, column, cell)` triples: the
    /// triple at position `k` of the result describes cell `k` of the view.
    pub fn iter_row_major(&self) -> (v: Vec<(usize, usize, &T)>)
        requires
            self.wf(),
        ensures
            v@.len() == self@.len(),
            forall|k: int| #![trigger v@[k]]
                0 <= k < v@.len() ==> v@[k].0 == k / (self.spec_width() as int) && v@[k].1 == k % (
                self.spec_width() as int) && v@[k].2 == &self@[k],
    {
        let total = self.elements.len();
        let mut v: Vec<(usize, usize, &T)> = Vec::new();
        let mut k: usize = 0;
        proof {
            assert(self.spec_width() == 0 ==> self.spec_width() * self.spec_height() == 0)
                by (nonlinear_arith);
        }
        while k < total
            invariant
                self.wf(),
                total == self@.len(),
                k <= total,
                total > 0 ==> self.spec_width() > 0,
                v@.len() == k,
                forall|j: int| #![trigger v@[j]]
                    0 <= j < k ==> v@[j].0 == j / (self.spec_width() as int) && v@[j].1 == j % (
                    self.spec_width() as int) && v@[j].2 == &self@[j],
            decreases total - k,
        {
            let row = k / self.width;
            let col = k % self.width;
            v.push((row, col, &self.elements[k]));
            k = k + 1;
        }
        v
    }

    /// Returns the column-major sequence of `(row, column, cell)` triples:
    /// each column is visited top to bottom, leftmost column first.
    pub fn iter_col_major(&self) -> (v: Vec<(usize, usize, &T)>)
        requires
            self.wf(),
        ensures
            v@.len() == self@.len(),
            forall|k: int| #![trigger v@[k]]
                0 <= k < v@.len() ==> v@[k].0 == k % (self.spec_height() as int) && v@[k].1 == k / (
                self.spec_height() as int) && v@[k].2 == &self@[
                    self.idx(
                        k % (self.spec_height() as int),
                        k / (self.spec_height() as int),
                    )
                ],
    {
        let total = self.elements.len();
        let mut v: Vec<(usize, usize, &T)> = Vec::new();
        let mut k: usize = 0;
        proof {
            assert(self.spec_height() == 0 ==> self.spec_width() * self.spec_height() == 0)
                by (nonlinear_arith);
        }
        while k < total
            invariant
                self.wf(),
                total == self@.len(),
                k <= total,
                total > 0 ==> self.spec_height() > 0,
                v@.len() == k,
                forall|j: int| #![trigger v@[j]]
                    0 <= j < k ==> v@[j].0 == j % (self.spec_height() as int) && v@[j].1 == j / (
                    self.spec_height() as int) && v@[j].2 == &self@[
                        self.idx(
                            j % (self.spec_height() as int),
                            j / (self.spec_height() as int),
                        )
                    ],
            decreases total - k,
        {
            let row = k % self.height;
            let col = k / self.height;
            proof {
                assert((k as int) / (self.spec_height() as int) < self.spec_width() && ((
                k as int) % (self.spec_height() as int)) * self.spec_width() + (k as int) / (
                self.spec_height() as int) < self.spec_width() * self.spec_height())
                    by (nonlinear_arith)
                    requires
                        0 < self.spec_height(),
                        0 <= (k as int) < self.spec_width() * self.spec_height(),
                ;
            }
            let cell = row * self.width + col;
            v.push((row, col, &self.elements[cell]));
            k = k + 1;
        }
        v
    }

    /// Returns a reference to the cell at `row` and `column`, or no value if
    /// either index is out of bounds.
    pub fn get(&self, row_idx: usize, column_idx: usize) -> (r: Option<&T>)
        requires
            self.wf(),
        ensures
            r is Some <==> row_idx < self.spec_height() && column_idx < self.spec_width(),
            r matches Some(cell) ==> *cell == self@[self.idx(row_idx as int, column_idx as int)],
    {
        let len = self.elements.len();
        if row_idx < self.height && column_idx < self.width {
            proof {
                assert(row_idx * self.spec_width() + column_idx < self.spec_width()
                    * self.spec_height()) by (nonlinear_arith)
                    requires
                        row_idx < self.spec_height(),
                        column_idx < self.spec_width(),
                ;
            }
            Some(&self.elements[row_idx * self.width + column_idx])
        } else {
            None
        }
    }

    /// Returns a mutable reference to the cell at `row` and `column`, or no
    /// value if either index is out of bounds; writing through the reference
    /// replaces exactly that cell.
    pub fn get_mut(&mut self, row_idx: usize, column_idx: usize) -> (r: Option<&mut T>)
        requires
            old(self).wf(),
        ensures
            r is Some <==> row_idx < old(self).spec_height() && column_idx < old(
                self,
            ).spec_width(),
            final(self).spec_width() == old(self).spec_width(),
            final(self).spec_height() == old(self).spec_height(),
            final(self).wf(),
            r matches Some(cell) ==> *cell == old(self)@[old(self).idx(
                row_idx as int,
                column_idx as int,
            )] && final(self)@ == old(self)@.update(
                old(self).idx(row_idx as int, column_idx as int),
                *final(cell),
            ),
            r is None ==> final(self)@ == old(self)@,
    {
        let len = self.elements.len();
        if row_idx < self.height && column_idx < self.width {
            proof {
                assert(row_idx * self.spec_width() + column_idx < self.spec_width()
                    * self.spec_height()) by (nonlinear_arith)
                    requires
                        row_idx < self.spec_height(),
                        column_idx < self.spec_width(),
                ;
            }
            Some(&mut self.elements[row_idx * self.width + column_idx])
        } else {
            None
        }
    }

    /// Overwrites the cell at `row` and `column` with `value`. An index out
    /// of bounds is a contract violation and is ruled out by the
    /// precondition.
    pub fn insert(&mut self, row_idx: usize, column_idx: usize, value: T)
        requires
            old(self).wf(),
            row_idx < old(self).spec_height(),
            column_idx < old(self).spec_width(),
        ensures
            final(self).wf(),
            final(self).spec_width() == old(self).spec_width(),
            final(self).spec_height() == old(self).spec_height(),
            final(self)@ == old(self)@.update(
                old(self).idx(row_idx as int, column_idx as int),
                value,
            ),
    {
        let len = self.elements.len();
        proof {
            assert(row_idx * self.spec_width() + column_idx < self.spec_width()
                * self.spec_height()) by (nonlinear_arith)
                requires
                    row_idx < self.spec_height(),
                    column_idx < self.spec_width(),
            ;
        }
        self.elements[row_idx * self.width + column_idx] = value;
    }
}

impl<T: Clone> Array2<T> {
    /// Constructs a 2d array from `elements` read in column-major order:
    /// consecutive runs of `height` elements become the columns, leftmost
    /// column first, so the grid is logically the same one that
    /// `from_row_major` builds from the transposed sequence. Each cell is a
    /// clone of its source element. A vector whose length is not exactly
    /// `width * height` is a contract violation and is ruled out by the
    /// precondition.
    pub fn from_col_major(elements: Vec<T>, width: usize, height: usize) -> (g: Self)
        requires
            elements@.len() == width * height,
        ensures
            g.wf(),
            g.spec_width() == width,
            g.spec_height() == height,
            forall|r: int, c: int|
                0 <= r < height && 0 <= c < width ==> cloned::<T>(
                    elements@[c * height + r],
                    #[trigger] g@[r * width + c],
                ),
    {
        let total = elements.len();
        let mut cells: Vec<T> = Vec::new();
        let mut k: usize = 0;
        proof {
            assert(width == 0 ==> width * height == 0) by (nonlinear_arith);
        }
        while k < total
            invariant
                total == elements@.len(),
                total == width * height,
                k <= total,
                total > 0 ==> width > 0,
                cells@.len() == k,
                forall|j: int|
                    0 <= j < k ==> cloned::<T>(
                        elements@[(j % (width as int)) * height + j / (width as int)],
                        #[trigger] cells@[j],
                    ),
            decreases total - k,
        {
            let row = k / width;
            let col = k % width;
            proof {
                assert((k as int) / (width as int) < height && ((k as int) % (width as int))
                    * height + (k as int) / (width as int) < width * height) by (nonlinear_arith)
                    requires
                        0 < width,
                        0 <= (k as int) < width * height,
                ;
            }
            let src = col * height + row;
            cells.push(elements[src].clone());
            k = k + 1;
        }
        let g = Array2 { elements: cells, width, height };
        proof {
            assert forall|r: int, c: int| 0 <= r < height && 0 <= c < width implies cloned::<T>(
                elements@[c * (height as int) + r],
                #[trigger] g@[r * (width as int) + c],
            ) by {
                let j = r * (width as int) + c;
                assert(0 <= r * (width as int) + c < width * height) by (nonlinear_arith)
                    requires
                        0 <= r < height,
                        0 <= c < width,
                ;
                vstd::arithmetic::div_mod::lemma_fundamental_div_mod_converse_div(
                    j,
                    width as int,
                    r,
                    c,
                );
                vstd::arithmetic::div_mod::lemma_fundamental_div_mod_converse_mod(
                    j,
                    width as int,
                    r,
                    c,
                );
            }
        }
        g
    }

    /// Constructs a 2d array whose every cell is a clone of
    /// `singular_value`.
    pub fn from_blank_state(singular_value: T, width: usize, height: usize) -> (g: Self)
        requires
            width * height <= usize::MAX,
        ensures
            g.wf(),
            g.spec_width() == width,
            g.spec_height() == height,
            forall|j: int| 0 <= j < g@.len() ==> cloned::<T>(singular_value, #[trigger] g@[j]),
    {
        let total = width * height;
        let mut cells: Vec<T> = Vec::new();
        let mut k: usize = 0;
        while k < total
            invariant
                k <= total,
                cells@.len() == k,
                forall|j: int| 0 <= j < k ==> cloned::<T>(singular_value, #[trigger] cells@[j]),
            decreases total - k,
        {
            cells.push(singular_value.clone());
            k = k + 1;
        }
        Array2 { elements: cells, width, height }
    }
}

impl<T: Copy> Array2<T> {
    /// Rewrites every cell in row-major order: the cell at row `r` and
    /// column `c` is replaced by `f(r, c, cell)`. The mutating counterpart of
    /// `iter_row_major`.
    pub fn iter_row_major_mut<F: Fn(usize, usize, T) -> T>(&mut self, f: F)
        requires
            old(self).wf(),
            forall|r: usize, c: usize, t: T|
                r < old(self).spec_height() && c < old(self).spec_width() ==> call_requires(
                    f,
                    (r, c, t),
                ),
        ensures
            final(self).wf(),
            final(self).spec_width() == old(self).spec_width(),
            final(self).spec_height() == old(self).spec_height(),
            final(self)@.len() == old(self)@.len(),
            forall|k: int| #![trigger final(self)@[k]]
                0 <= k < old(self)@.len() ==> call_ensures(
                    f,
                    (
                        ((k / (old(self).spec_width() as int)) as usize),
                        ((k % (old(self).spec_width() as int)) as usize),
                        old(self)@[k],
                    ),
                    final(self)@[k],
                ),
    {
        let total = self.elements.len();
        let mut k: usize = 0;
        proof {
            assert(self.spec_width() == 0 ==> self.spec_width() * self.spec_height() == 0)
                by (nonlinear_arith);
        }
        while k < total
            invariant
                self.wf(),
                self.spec_width() == old(self).spec_width(),
                self.spec_height() == old(self).spec_height(),
                total == old(self)@.len(),
                self@.len() == total,
                k <= total,
                total > 0 ==> self.spec_width() > 0,
                forall|r: usize, c: usize, t: T|
                    r < old(self).spec_height() && c < old(self).spec_width() ==> call_requires(
                        f,
                        (r, c, t),
                    ),
                forall|j: int| k <= j < total ==> self@[j] == old(self)@[j],
                forall|j: int| #![trigger self@[j]]
                    0 <= j < k ==> call_ensures(
                        f,
                        (
                            ((j / (old(self).spec_width() as int)) as usize),
                            ((j % (old(self).spec_width() as int)) as usize),
                            old(self)@[j],
                        ),
                        self@[j],
                    ),
            decreases total - k,
        {
            let row = k / self.width;
            let col = k % self.width;
            proof {
                assert((k as int) / (self.spec_width() as int) < self.spec_height())
                    by (nonlinear_arith)
                    requires
                        0 < self.spec_width(),
                        0 <= (k as int) < self.spec_width() * self.spec_height(),
                ;
            }
            let cell = self.elements[k];
            let new_cell = f(row, col, cell);
            self.elements[k] = new_cell;
            k = k + 1;
        }
    }
}

/// Law: a grid built from a row-major sequence, read back in row-major
/// order, reproduces that sequence exactly: position `k` of the traversal
/// holds element `k` of the sequence that built the grid.
pub proof fn lemma_row_major_roundtrip<T>(g: Array2<T>, elements: Seq<T>)
    requires
        g@ == elements,
    ensures
        forall|k: int| 0 <= k < elements.len() ==> g@[k] == elements[k],
{
}

} // verus!

//! A dense matrix stored row-major in one buffer.
//!
//! Every operation is stated over [`Grid`], the model that `@` gives. A
//! matrix always has at least one row and one column, and exactly
//! `rows * cols` cells: that is its type invariant, so no operation asks
//! for it.

use crate::scalar::{within, zero, Scalar};
use crate::tools::activations::{abs, abs_spec, is_pure, outcome};
use crate::tools::grid::{lemma_coordinate, lemma_position, Grid};
use vstd::prelude::*;

verus! {

/// The edge of the square tiles that [`Mat::mul`] works through.
pub const TILE: usize = 32;

pub struct Mat<T> {
    buffer: Vec<T>,
    row: usize,
    col: usize,
}

impl<T> View for Mat<T> {
    type V = Grid<T>;

    closed spec fn view(&self) -> Grid<T> {
        Grid { rows: self.row as nat, cols: self.col as nat, cells: self.buffer@ }
    }
}

impl<T> Mat<T> {
    #[verifier::type_invariant]
    pub open spec fn inv(&self) -> bool {
        self@.wf() && self@.cells.len() <= usize::MAX
    }

    /// The position in a row-major buffer of the cell in column `x` of row
    /// `y`, for rows of `width` cells.
    pub fn map_2_to_1(x: usize, y: usize, width: usize) -> (r: usize)
        requires
            width * y + x <= usize::MAX,
        ensures
            r == width * y + x,
    {
        assert(width * y <= width * y + x);
        width * y + x
    }

    pub fn row(&self) -> (r: usize)
        ensures
            r == self@.rows,
            r >= 1,
    {
        proof {
            use_type_invariant(self);
            reveal(Grid::wf);
        }
        self.row
    }

    pub fn col(&self) -> (r: usize)
        ensures
            r == self@.cols,
            r >= 1,
    {
        proof {
            use_type_invariant(self);
            reveal(Grid::wf);
        }
        self.col
    }

    pub fn shape(&self) -> (r: (usize, usize))
        ensures
            r.0 == self@.rows,
            r.1 == self@.cols,
    {
        (self.row, self.col)
    }
}

impl<T: Copy> Mat<T> {
    /// The matrix of `row` rows and `col` columns with every cell `val`.
    pub fn val_mat(row: usize, col: usize, val: T) -> (r: Mat<T>)
        requires
            row >= 1,
            col >= 1,
            row * col <= usize::MAX,
        ensures
            r@ == Grid::filled(row as nat, col as nat, val),
    {
        let size: usize = row * col;
        let mut buffer: Vec<T> = Vec::with_capacity(size);
        let mut i: usize = 0;
        while i < size
            invariant
                i <= size,
                buffer@.len() == i,
                forall|k: int| 0 <= k < i ==> buffer@[k] == val,
            decreases size - i,
        {
            buffer.push(val);
            i += 1;
        }
        proof {
            reveal(Grid::wf);
            assert(buffer@ =~= Grid::filled(row as nat, col as nat, val).cells);
        }
        Mat { buffer, row, col }
    }

    /// Wraps `buffer`, read row-major, as a matrix of `row` rows and `col`
    /// columns.
    pub fn from_vec(buffer: Vec<T>, row: usize, col: usize) -> (r: Mat<T>)
        requires
            row >= 1,
            col >= 1,
            buffer@.len() == row * col,
        ensures
            r@ == (Grid { rows: row as nat, cols: col as nat, cells: buffer@ }),
    {
        proof {
            reveal(Grid::wf);
            assert(buffer.len() == buffer@.len());
        }
        Mat { buffer, row, col }
    }

    /// The cell in row `row` and column `col`.
    pub fn get(&self, row: usize, col: usize) -> (r: T)
        requires
            row < self@.rows,
            col < self@.cols,
        ensures
            r == self@.at(row as int, col as int),
    {
        proof {
            use_type_invariant(self);
            reveal(Grid::wf);
            lemma_position(self@.rows, self@.cols, row as int, col as int);
        }
        self.buffer[Self::map_2_to_1(col, row, self.col)]
    }

    /// Writes `val` into the cell in row `row` and column `col`.
    pub fn set(&mut self, row: usize, col: usize, val: T)
        requires
            row < old(self)@.rows,
            col < old(self)@.cols,
        ensures
            final(self)@ == old(self)@.with(row as int, col as int, val),
    {
        proof {
            use_type_invariant(&*self);
            reveal(Grid::wf);
            lemma_position(self@.rows, self@.cols, row as int, col as int);
        }
        let k = Self::map_2_to_1(col, row, self.col);
        self.buffer[k] = val;
    }
}

impl<T: Copy> Mat<T> {
    /// Applies `f` to every cell and gathers the results in a matrix of the
    /// same shape. The receiver is left as it was.
    pub fn map<F: Fn(T) -> T>(&self, f: F) -> (r: Mat<T>)
        requires
            forall|k: int|
                0 <= k < self@.cells.len() ==> call_requires(f, (#[trigger] self@.cells[k],)),
        ensures
            r@.same_shape(self@),
            r@.cells.len() == self@.cells.len(),
            forall|k: int|
                0 <= k < self@.cells.len() ==> call_ensures(
                    f,
                    (self@.cells[k],),
                    #[trigger] r@.cells[k],
                ),
            is_pure(f) ==> r@ == self@.map(|v: T| outcome(f, v)),
    {
        proof {
            use_type_invariant(self);
            reveal(Grid::wf);
        }
        let size: usize = self.buffer.len();
        let mut buffer: Vec<T> = Vec::with_capacity(size);
        let mut i: usize = 0;
        while i < size
            invariant
                size == self.buffer@.len(),
                i <= size,
                buffer@.len() == i,
                forall|k: int|
                    0 <= k < size ==> call_requires(f, (#[trigger] self.buffer@[k],)),
                forall|k: int|
                    0 <= k < i ==> call_ensures(f, (self.buffer@[k],), #[trigger] buffer@[k]),
            decreases size - i,
        {
            let v = f(self.buffer[i]);
            buffer.push(v);
            i += 1;
        }
        proof {
            if is_pure(f) {
                assert(buffer@ =~= self@.map(|v: T| outcome(f, v)).cells);
            }
        }
        Mat { buffer, row: self.row, col: self.col }
    }
}

/// Appends `tail` to `text` with `String::push_str`: the text afterwards is
/// the text before with the characters of `tail` behind it.
#[verifier::external_body]
fn push_str(text: &mut String, tail: &str)
    ensures
        final(text)@ == old(text)@ + tail@,
{
    text.push_str(tail);
}

impl<T: Copy> Mat<T> {
    /// The matrix as text: one line for each row, each cell as `show`
    /// writes it, with a comma after it.
    pub fn display<F: Fn(T) -> String>(&self, show: &F) -> (r: String)
        requires
            is_pure(*show),
        ensures
            r@ == self@.text(self@.rows, |v: T| outcome(*show, v)@),
    {
        let ghost shown = |v: T| outcome(*show, v)@;
        let mut text = String::new();
        let mut i: usize = 0;
        while i < self.row
            invariant
                is_pure(*show),
                shown == (|v: T| outcome(*show, v)@),
                i <= self.row,
                text@ == self@.text(i as nat, shown),
            decreases self.row - i,
        {
            let ghost before = text@;
            let mut j: usize = 0;
            while j < self.col
                invariant
                    is_pure(*show),
                    shown == (|v: T| outcome(*show, v)@),
                    i < self.row,
                    j <= self.col,
                    text@ == before + self@.row_text(i as int, j as nat, shown),
                decreases self.col - j,
            {
                let cell = show(self.get(i, j));
                push_str(&mut text, cell.as_str());
                push_str(&mut text, ",");
                proof {
                    reveal_strlit(",");
                    assert(","@ =~= seq![',']);
                    assert(text@ =~= before + self@.row_text(i as int, (j + 1) as nat, shown));
                }
                j += 1;
            }
            push_str(&mut text, "\n");
            proof {
                reveal_strlit("\n");
                assert("\n"@ =~= seq!['\n']);
                assert(text@ =~= self@.text((i + 1) as nat, shown));
            }
            i += 1;
        }
        text
    }
}

impl<T> core::ops::Index<(usize, usize)> for Mat<T> {
    type Output = T;

    /// The cell in row `index.0` and column `index.1`.
    fn index(&self, index: (usize, usize)) -> (r: &T)
        ensures
            *r == self@.at(index.0 as int, index.1 as int),
    {
        proof {
            use_type_invariant(self);
            reveal(Grid::wf);
            lemma_position(self@.rows, self@.cols, index.0 as int, index.1 as int);
        }
        let (i, j) = index;
        &self.buffer[Self::map_2_to_1(j, i, self.col)]
    }
}

impl<T> vstd::std_specs::core::IndexSpecImpl<(usize, usize)> for Mat<T> {
    open spec fn index_req(&self, index: &(usize, usize)) -> bool {
        index.0 < self@.rows && index.1 < self@.cols
    }
}

impl<T: Copy> Clone for Mat<T> {
    fn clone(&self) -> (r: Self)
        ensures
            r@ == self@,
    {
        proof {
            use_type_invariant(self);
            reveal(Grid::wf);
        }
        let mut buffer: Vec<T> = Vec::with_capacity(self.buffer.len());
        let mut i: usize = 0;
        while i < self.buffer.len()
            invariant
                i <= self.buffer@.len(),
                buffer@.len() == i,
                forall|k: int| 0 <= k < i ==> buffer@[k] == self.buffer@[k],
            decreases self.buffer@.len() - i,
        {
            buffer.push(self.buffer[i]);
            i += 1;
        }
        assert(buffer@ =~= self.buffer@);
        Mat { buffer, row: self.row, col: self.col }
    }
}

impl<T: Scalar> Mat<T> {
    /// The matrix of zeros with `row` rows and `col` columns.
    pub fn new(row: usize, col: usize) -> (r: Mat<T>)
        requires
            row >= 1,
            col >= 1,
            row * col <= usize::MAX,
        ensures
            r@ == Grid::<T>::zeros(row as nat, col as nat),
    {
        Mat::val_mat(row, col, T::from_usize(0))
    }

    /// The matrix of zeros with the shape of `other`.
    pub fn zeroes_like(other: &Mat<T>) -> (r: Mat<T>)
        ensures
            r@ == Grid::<T>::zeros(other@.rows, other@.cols),
    {
        proof {
            use_type_invariant(other);
            reveal(Grid::wf);
        }
        Mat::new(other.row(), other.col())
    }

    /// The label vector of class `index` among `classes`: a column of
    /// zeros with a one in row `index`.
    pub fn one_hot(index: usize, classes: usize) -> (r: Mat<T>)
        requires
            index < classes,
        ensures
            r@ == Grid::<T>::one_hot(classes as nat, index as int),
    {
        let mut label: Mat<T> = Mat::new(classes, 1);
        label.set(index, 0, T::from_usize(1));
        assert(label@.cells =~= Grid::<T>::one_hot(classes as nat, index as int).cells);
        label
    }

    /// The sum of the cells of row `row`, taken from zero in rising column
    /// order.
    pub fn sum(&self, row: usize) -> (r: T)
        requires
            row < self@.rows,
        ensures
            r == self@.sum(row as int),
    {
        let mut total = T::from_usize(0);
        let mut j: usize = 0;
        while j < self.col()
            invariant
                row < self@.rows,
                j <= self@.cols,
                total == self@.sum_upto(row as int, j as nat),
            decreases self@.cols - j,
        {
            total = total.add(self.get(row, j));
            j += 1;
        }
        total
    }

    /// The sum of every cell, taken from zero in row-major order.
    pub fn sum_all(&self) -> (r: T)
        ensures
            r == self@.sum_all(),
    {
        let mut total = T::from_usize(0);
        let mut i: usize = 0;
        while i < self.buffer.len()
            invariant
                i <= self.buffer@.len(),
                total == self@.total_upto(i as nat),
            decreases self.buffer@.len() - i,
        {
            total = total.add(self.buffer[i]);
            i += 1;
        }
        total
    }

    /// The cell-by-cell product of two matrices of one shape.
    pub fn ele_mul(&self, other: &Mat<T>) -> (r: Mat<T>)
        requires
            self@.same_shape(other@),
        ensures
            r@ == self@.ele_mul(other@),
    {
        proof {
            use_type_invariant(self);
                        use_type_invariant(other);
            reveal(Grid::wf);
        }
        let size: usize = self.buffer.len();
        let mut buffer: Vec<T> = Vec::with_capacity(size);
        let mut i: usize = 0;
        while i < size
            invariant
                size == self.buffer@.len(),
                size == other.buffer@.len(),
                i <= size,
                buffer@.len() == i,
                forall|k: int|
                    0 <= k < i ==> buffer@[k] == self.buffer@[k].mul_spec(other.buffer@[k]),
            decreases size - i,
        {
            buffer.push(self.buffer[i].mul(other.buffer[i]));
            i += 1;
        }
        assert(buffer@ =~= self@.ele_mul(other@).cells);
        Mat { buffer, row: self.row, col: self.col }
    }

    /// Every cell times `val`.
    pub fn scaler_mul(&self, val: T) -> (r: Mat<T>)
        ensures
            r@ == self@.scaler_mul(val),
    {
        proof {
            use_type_invariant(self);
            reveal(Grid::wf);
        }
        let size: usize = self.buffer.len();
        let mut buffer: Vec<T> = Vec::with_capacity(size);
        let mut i: usize = 0;
        while i < size
            invariant
                size == self.buffer@.len(),
                i <= size,
                buffer@.len() == i,
                forall|k: int| 0 <= k < i ==> buffer@[k] == self.buffer@[k].mul_spec(val),
            decreases size - i,
        {
            buffer.push(self.buffer[i].mul(val));
            i += 1;
        }
        assert(buffer@ =~= self@.scaler_mul(val).cells);
        Mat { buffer, row: self.row, col: self.col }
    }

    /// The cell-by-cell sum of two matrices of one shape.
    pub fn add(&self, other: &Mat<T>) -> (r: Mat<T>)
        requires
            self@.same_shape(other@),
        ensures
            r@ == self@.add(other@),
    {
        proof {
            use_type_invariant(self);
                        use_type_invariant(other);
            reveal(Grid::wf);
        }
        let size: usize = self.buffer.len();
        let mut buffer: Vec<T> = Vec::with_capacity(size);
        let mut i: usize = 0;
        while i < size
            invariant
                size == self.buffer@.len(),
                size == other.buffer@.len(),
                i <= size,
                buffer@.len() == i,
                forall|k: int|
                    0 <= k < i ==> buffer@[k] == self.buffer@[k].add_spec(other.buffer@[k]),
            decreases size - i,
        {
            buffer.push(self.buffer[i].add(other.buffer[i]));
            i += 1;
        }
        assert(buffer@ =~= self@.add(other@).cells);
        Mat { buffer, row: self.row, col: self.col }
    }

    /// The cell-by-cell difference of two matrices of one shape.
    pub fn sub(&self, other: &Mat<T>) -> (r: Mat<T>)
        requires
            self@.same_shape(other@),
        ensures
            r@ == self@.sub(other@),
    {
        proof {
            use_type_invariant(self);
                        use_type_invariant(other);
            reveal(Grid::wf);
        }
        let size: usize = self.buffer.len();
        let mut buffer: Vec<T> = Vec::with_capacity(size);
        let mut i: usize = 0;
        while i < size
            invariant
                size == self.buffer@.len(),
                size == other.buffer@.len(),
                i <= size,
                buffer@.len() == i,
                forall|k: int|
                    0 <= k < i ==> buffer@[k] == self.buffer@[k].sub_spec(other.buffer@[k]),
            decreases size - i,
        {
            buffer.push(self.buffer[i].sub(other.buffer[i]));
            i += 1;
        }
        assert(buffer@ =~= self@.sub(other@).cells);
        Mat { buffer, row: self.row, col: self.col }
    }
    /// The matrix of `row` rows and `col` columns with every cell drawn
    /// on its own from the half-open range `min..max`.
    pub fn rand_mat(row: usize, col: usize, min: T, max: T) -> (r: Mat<T>)
        requires
            row >= 1,
            col >= 1,
            row * col <= usize::MAX,
            T::can_draw(min, max),
        ensures
            r@.has_shape(row as nat, col as nat),
            r@.wf(),
            r@.all_within(min, max),
    {
        let size: usize = row * col;
        let mut buffer: Vec<T> = Vec::with_capacity(size);
        let mut i: usize = 0;
        while i < size
            invariant
                T::can_draw(min, max),
                i <= size,
                buffer@.len() == i,
                forall|k: int| 0 <= k < i ==> within(#[trigger] buffer@[k], min, max),
            decreases size - i,
        {
            buffer.push(T::uniform(min, max));
            i += 1;
        }
        proof {
            reveal(Grid::wf);
        }
        Mat { buffer, row, col }
    }

    /// The position of the first cell of largest magnitude, and that
    /// magnitude. The scan starts with the first cell as its candidate and
    /// moves on only to a strictly larger magnitude.
    fn leader(&self) -> (r: (usize, T))
        ensures
            r.0 == self@.lead(self@.cells.len()),
            r.0 < self@.cells.len(),
            r.1 == self@.peak(),
    {
        proof {
            use_type_invariant(self);
            reveal(Grid::wf);
            assert(self@.cells.len() >= 1) by (nonlinear_arith)
                requires
                    self@.cells.len() == self@.rows * self@.cols,
                    self@.rows >= 1,
                    self@.cols >= 1,
            ;
        }
        let mut lead: usize = 0;
        let mut max = abs(self.buffer[0]);
        let mut i: usize = 0;
        while i < self.buffer.len()
            invariant
                i <= self.buffer@.len(),
                self.buffer@.len() >= 1,
                lead == self@.lead(i as nat),
                lead < self.buffer@.len(),
                max == self@.magnitude(lead as int),
            decreases self.buffer@.len() - i,
        {
            let magnitude = abs(self.buffer[i]);
            if max.less(magnitude) {
                max = magnitude;
                lead = i;
            }
            i += 1;
        }
        (lead, max)
    }

    /// Divides every cell by the largest magnitude among them. Where that
    /// is zero the cells become whatever the scalar's division by zero
    /// yields: nothing is guarded.
    pub fn normalize_self(&mut self)
        ensures
            final(self)@ == old(self)@.normalized(),
    {
        proof {
            use_type_invariant(&*self);
            reveal(Grid::wf);
        }
        let (_, max) = self.leader();
        let mut i: usize = 0;
        while i < self.buffer.len()
            invariant
                self@.same_shape(old(self)@),
                self.buffer@.len() == old(self).buffer@.len(),
                self@.wf(),
                i <= self.buffer@.len(),
                max == old(self)@.peak(),
                forall|k: int|
                    0 <= k < i ==> self.buffer@[k] == old(self).buffer@[k].div_spec(max),
                forall|k: int|
                    i <= k < self.buffer@.len() ==> self.buffer@[k] == old(self).buffer@[k],
            decreases self.buffer@.len() - i,
        {
            let v = self.buffer[i].div(max);
            proof {
                reveal(Grid::wf);
            }
            self.buffer[i] = v;
            i += 1;
        }
        assert(self.buffer@ =~= old(self)@.normalized().cells);
    }

    /// The coordinate, column first and row second, of the first cell of
    /// largest magnitude in row-major order.
    pub fn get_max(&self) -> (r: (usize, usize))
        ensures
            r.0 == self@.arg_max().0,
            r.1 == self@.arg_max().1,
            r.0 < self@.cols,
            r.1 < self@.rows,
    {
        proof {
            use_type_invariant(self);
            reveal(Grid::wf);
        }
        let (lead, _) = self.leader();
        proof {
            lemma_coordinate(self@.rows, self@.cols, lead as int);
        }
        (lead % self.col, lead / self.col)
    }

    /// The matrix with rows and columns exchanged.
    pub fn transpose(&self) -> (r: Mat<T>)
        ensures
            r@ == self@.transpose(),
            r@.has_shape(self@.cols, self@.rows),
            forall|i: int, j: int| #[trigger]
                self@.holds(i, j) ==> r@.at(j, i) == self@.at(i, j),
    {
        proof {
            use_type_invariant(self);
            reveal(Grid::wf);
            assert(self@.cols * self@.rows == self@.rows * self@.cols) by (nonlinear_arith);
        }
        let mut mat_t: Mat<T> = Mat::new(self.col, self.row);
        let mut i: usize = 0;
        while i < self.row
            invariant
                self@.wf(),
                i <= self.row,
                mat_t@.has_shape(self@.cols, self@.rows),
                mat_t@.cells.len() == mat_t@.rows * mat_t@.cols,
                forall|a: int, b: int|
                    0 <= a < i && 0 <= b < self@.cols ==> #[trigger] mat_t@.at(b, a) == self@.at(
                        a,
                        b,
                    ),
            decreases self.row - i,
        {
            let mut j: usize = 0;
            while j < self.col
                invariant
                    self@.wf(),
                    i < self.row,
                    j <= self.col,
                    mat_t@.has_shape(self@.cols, self@.rows),
                    mat_t@.cells.len() == mat_t@.rows * mat_t@.cols,
                    forall|a: int, b: int|
                        0 <= a < i && 0 <= b < self@.cols ==> #[trigger] mat_t@.at(b, a)
                            == self@.at(a, b),
                    forall|b: int| 0 <= b < j ==> #[trigger] mat_t@.at(b, i as int) == self@.at(
                        i as int,
                        b,
                    ),
                decreases self.col - j,
            {
                let ghost before = mat_t@;
                mat_t.set(j, i, self.get(i, j));
                proof {
                    before.lemma_with(j as int, i as int, self@.at(i as int, j as int));
                    assert forall|a: int, b: int|
                        0 <= a < i && 0 <= b < self@.cols implies #[trigger] mat_t@.at(b, a)
                        == self@.at(a, b) by {
                        assert(before.holds(b, a));
                    }
                    assert forall|b: int| 0 <= b < j + 1 implies #[trigger] mat_t@.at(b, i as int)
                        == self@.at(i as int, b) by {
                        assert(before.holds(b, i as int));
                    }
                }
                j += 1;
            }
            i += 1;
        }
        proof {
            self@.lemma_transpose();
            assert forall|b: int, a: int| #[trigger] mat_t@.holds(b, a) implies mat_t@.at(b, a)
                == self@.transpose().at(b, a) by {
                assert(self@.holds(a, b));
            }
            mat_t@.lemma_same_cells(self@.transpose());
        }
        mat_t
    }

    /// Carries the inner product of row `i` of `self` with column `j` of
    /// `other` on from its first `k0` terms to its first `k1`.
    fn dot_span(
        &self,
        other_t: &Mat<T>,
        i: usize,
        j: usize,
        k0: usize,
        k1: usize,
        acc: T,
        Ghost(other): Ghost<Grid<T>>,
    ) -> (r: T)
        requires
            other_t@.mirrors(other),
            self@.cols == other.rows,
            i < self@.rows,
            j < other.cols,
            k0 <= k1 <= self@.cols,
            acc == self@.dot(other, i as int, j as int, k0 as nat),
        ensures
            r == self@.dot(other, i as int, j as int, k1 as nat),
    {
        let mut acc = acc;
        let mut k: usize = k0;
        while k < k1
            invariant
                other_t@.mirrors(other),
                self@.cols == other.rows,
                i < self@.rows,
                j < other.cols,
                k0 <= k <= k1 <= self@.cols,
                acc == self@.dot(other, i as int, j as int, k as nat),
            decreases k1 - k,
        {
            assert(other.holds(k as int, j as int));
            acc = acc.add(self.get(i, k).mul(other_t.get(j, k)));
            k += 1;
        }
        acc
    }

    /// Adds the terms `k0..k1` to every inner product of the tile of rows
    /// `i0..i1` and columns `j0..j1`, and leaves the other cells alone.
    fn mul_tile(
        &self,
        other_t: &Mat<T>,
        out: &mut Mat<T>,
        i0: usize,
        i1: usize,
        j0: usize,
        j1: usize,
        k0: usize,
        k1: usize,
        Ghost(other): Ghost<Grid<T>>,
        Ghost(done): Ghost<spec_fn(int, int) -> nat>,
    )
        requires
            other_t@.mirrors(other),
            self@.cols == other.rows,
            i0 <= i1 <= self@.rows,
            j0 <= j1 <= other.cols,
            k0 <= k1 <= self@.cols,
            old(out)@.tallies(self@, other, done),
            forall|x: int, y: int| i0 <= x < i1 && j0 <= y < j1 ==> #[trigger] done(x, y) == k0,
        ensures
            final(out)@.tallies(
                self@,
                other,
                |x: int, y: int|
                    if i0 <= x < i1 && j0 <= y < j1 {
                        k1 as nat
                    } else {
                        done(x, y)
                    },
            ),
    {
        let mut ii: usize = i0;
        while ii < i1
            invariant
                other_t@.mirrors(other),
                self@.cols == other.rows,
                i0 <= ii <= i1 <= self@.rows,
                j0 <= j1 <= other.cols,
                k0 <= k1 <= self@.cols,
                forall|x: int, y: int| i0 <= x < i1 && j0 <= y < j1 ==> #[trigger] done(x, y) == k0,
                out@.tallies(
                    self@,
                    other,
                    |x: int, y: int|
                        if i0 <= x < ii && j0 <= y < j1 {
                            k1 as nat
                        } else {
                            done(x, y)
                        },
                ),
            decreases i1 - ii,
        {
            let mut jj: usize = j0;
            while jj < j1
                invariant
                    other_t@.mirrors(other),
                    self@.cols == other.rows,
                    i0 <= ii < i1 <= self@.rows,
                    j0 <= jj <= j1 <= other.cols,
                    k0 <= k1 <= self@.cols,
                    forall|x: int, y: int|
                        i0 <= x < i1 && j0 <= y < j1 ==> #[trigger] done(x, y) == k0,
                    out@.tallies(
                        self@,
                        other,
                        |x: int, y: int|
                            if (i0 <= x < ii && j0 <= y < j1) || (x == ii && j0 <= y < jj) {
                                k1 as nat
                            } else {
                                done(x, y)
                            },
                    ),
                decreases j1 - jj,
            {
                let ghost before = out@;
                assert(before.holds(ii as int, jj as int));
                let acc = self.dot_span(other_t, ii, jj, k0, k1, out.get(ii, jj), Ghost(other));
                out.set(ii, jj, acc);
                proof {
                    before.lemma_with(ii as int, jj as int, acc);
                }
                jj += 1;
            }
            ii += 1;
        }
    }

    /// The matrix product, worked through in square tiles of [`TILE`] cells
    /// a side over rows, columns and terms, the last tile of each clipped to
    /// the matrix. The right operand is transposed first, so that both are
    /// read along their rows. Every inner product still gathers its terms in
    /// rising order: the result is the plain row-by-column product.
    pub fn mul(&self, other: &Mat<T>) -> (r: Mat<T>)
        requires
            self@.cols == other@.rows,
            self@.rows * other@.cols <= usize::MAX,
        ensures
            r@ == self@.mul(other@),
            r@.has_shape(self@.rows, other@.cols),
            forall|i: int, j: int| #[trigger]
                r@.holds(i, j) ==> r@.at(i, j) == self@.dot(other@, i, j, self@.cols),
    {
        proof {
            use_type_invariant(self);
                        use_type_invariant(other);
            reveal(Grid::wf);
            other@.lemma_transpose();
        }
        let other_t = other.transpose();
        let rows: usize = self.row;
        let cols: usize = other.col;
        let depth: usize = self.col;
        let mut out: Mat<T> = Mat::new(rows, cols);
        proof {
            Grid::lemma_filled(rows as nat, cols as nat, zero::<T>());
        }
        let mut i: usize = 0;
        while i < rows
            invariant
                other_t@.mirrors(other@),
                self@.cols == other@.rows,
                rows == self@.rows,
                cols == other@.cols,
                depth == self@.cols,
                i <= rows,
                out@.tallies(
                    self@,
                    other@,
                    |x: int, y: int|
                        if x < i {
                            depth as nat
                        } else {
                            0nat
                        },
                ),
            decreases rows - i,
        {
            let i_end = tile_end(i, rows);
            let mut j: usize = 0;
            while j < cols
                invariant
                    other_t@.mirrors(other@),
                    self@.cols == other@.rows,
                    rows == self@.rows,
                    cols == other@.cols,
                    depth == self@.cols,
                    i < i_end <= rows,
                    j <= cols,
                    out@.tallies(
                        self@,
                        other@,
                        |x: int, y: int|
                            if x < i || (x < i_end && y < j) {
                                depth as nat
                            } else {
                                0nat
                            },
                    ),
                decreases cols - j,
            {
                let j_end = tile_end(j, cols);
                let mut k: usize = 0;
                while k < depth
                    invariant
                        other_t@.mirrors(other@),
                        self@.cols == other@.rows,
                        rows == self@.rows,
                        cols == other@.cols,
                        depth == self@.cols,
                        i < i_end <= rows,
                        j < j_end <= cols,
                        k <= depth,
                        out@.tallies(
                            self@,
                            other@,
                            |x: int, y: int|
                                if x < i || (x < i_end && y < j) {
                                    depth as nat
                                } else if x < i_end && y < j_end {
                                    k as nat
                                } else {
                                    0nat
                                },
                        ),
                    decreases depth - k,
                {
                    let k_end = tile_end(k, depth);
                    let ghost done = |x: int, y: int|
                        if x < i || (x < i_end && y < j) {
                            depth as nat
                        } else if x < i_end && y < j_end {
                            k as nat
                        } else {
                            0nat
                        };
                    self.mul_tile(
                        &other_t,
                        &mut out,
                        i,
                        i_end,
                        j,
                        j_end,
                        k,
                        k_end,
                        Ghost(other@),
                        Ghost(done),
                    );
                    k = k_end;
                }
                j = j_end;
            }
            i = i_end;
        }
        proof {
            Grid::lemma_tabulate(
                self@.rows,
                other@.cols,
                |i: int, j: int| self@.dot(other@, i, j, self@.cols),
            );
            out@.lemma_same_cells(self@.mul(other@));
        }
        out
    }
}

/// Where the tile that starts at `start` ends: [`TILE`] cells on, or at
/// `limit` where fewer are left.
fn tile_end(start: usize, limit: usize) -> (end: usize)
    requires
        start < limit,
    ensures
        start < end <= limit,
        end == if limit - start > TILE {
            start + TILE
        } else {
            limit as int
        },
{
    if limit - start > TILE {
        start + TILE
    } else {
        limit
    }
}

} // verus!

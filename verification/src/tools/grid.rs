//! The mathematical model of a dense matrix: its two dimensions and its
//! cells in row-major order, with the matrix algebra stated over them.

use crate::scalar::{one, within, zero, Scalar};
use crate::tools::activations::{abs_spec, drelu_spec, relu_spec, sigmoid_spec};
use vstd::arithmetic::div_mod::{lemma_fundamental_div_mod, lemma_fundamental_div_mod_converse};
use vstd::prelude::*;

verus! {

pub struct Grid<T> {
    pub rows: nat,
    pub cols: nat,
    pub cells: Seq<T>,
}

impl<T> Grid<T> {
    /// At least one row and one column, and exactly one cell for each
    /// coordinate. Kept opaque, so that the product of the two dimensions
    /// enters a proof only where `reveal(Grid::wf)` asks for it.
    #[verifier::opaque]
    pub open spec fn wf(self) -> bool {
        &&& self.rows >= 1
        &&& self.cols >= 1
        &&& self.cells.len() == self.rows * self.cols
    }

    pub open spec fn has_shape(self, rows: nat, cols: nat) -> bool {
        self.rows == rows && self.cols == cols
    }

    pub open spec fn same_shape(self, other: Grid<T>) -> bool {
        self.rows == other.rows && self.cols == other.cols
    }

    /// Whether `(i, j)` names a cell.
    pub open spec fn holds(self, i: int, j: int) -> bool {
        0 <= i < self.rows && 0 <= j < self.cols
    }

    /// The cell in row `i` and column `j`.
    pub open spec fn at(self, i: int, j: int) -> T {
        self.cells[i * self.cols + j]
    }

    /// The grid whose cell `(i, j)` is `f(i, j)`.
    pub open spec fn tabulate(rows: nat, cols: nat, f: spec_fn(int, int) -> T) -> Grid<T> {
        Grid {
            rows,
            cols,
            cells: Seq::new(rows * cols, |k: int| f(k / cols as int, k % cols as int)),
        }
    }

    /// The grid with every cell equal to `v`.
    pub open spec fn filled(rows: nat, cols: nat, v: T) -> Grid<T> {
        Grid { rows, cols, cells: Seq::new(rows * cols, |k: int| v) }
    }

    /// The grid with cell `(i, j)` replaced by `v`.
    pub open spec fn with(self, i: int, j: int, v: T) -> Grid<T> {
        Grid { rows: self.rows, cols: self.cols, cells: self.cells.update(i * self.cols + j, v) }
    }

    /// Rows and columns exchanged: cell `(j, i)` of the result is cell
    /// `(i, j)` of `self`.
    pub open spec fn transpose(self) -> Grid<T> {
        Grid::tabulate(self.cols, self.rows, |j: int, i: int| self.at(i, j))
    }

    /// `f` applied to every cell.
    pub open spec fn map(self, f: spec_fn(T) -> T) -> Grid<T> {
        Grid {
            rows: self.rows,
            cols: self.cols,
            cells: Seq::new(self.cells.len(), |k: int| f(self.cells[k])),
        }
    }

    /// `f` applied to every pair of cells that share a position.
    pub open spec fn zip(self, other: Grid<T>, f: spec_fn(T, T) -> T) -> Grid<T> {
        Grid {
            rows: self.rows,
            cols: self.cols,
            cells: Seq::new(self.cells.len(), |k: int| f(self.cells[k], other.cells[k])),
        }
    }

    /// The first `n` cells of row `i` as text: each cell as `show` writes
    /// it, with a comma after it.
    pub open spec fn row_text(self, i: int, n: nat, show: spec_fn(T) -> Seq<char>) -> Seq<char>
        decreases n,
    {
        if n == 0 {
            Seq::empty()
        } else {
            self.row_text(i, (n - 1) as nat, show) + show(self.at(i, n - 1)) + seq![',']
        }
    }

    /// The first `n` rows as text: each row on a line of its own.
    pub open spec fn text(self, n: nat, show: spec_fn(T) -> Seq<char>) -> Seq<char>
        decreases n,
    {
        if n == 0 {
            Seq::empty()
        } else {
            self.text((n - 1) as nat, show) + self.row_text(n - 1, self.cols, show) + seq!['\n']
        }
    }
}

/// A coordinate inside a grid has a position inside its cells, and the
/// position gives the coordinate back.
pub proof fn lemma_position(rows: nat, cols: nat, i: int, j: int)
    requires
        0 <= i < rows,
        0 <= j < cols,
    ensures
        0 <= i * cols + j < rows * cols,
        cols * i + j == i * cols + j,
        (i * cols + j) / (cols as int) == i,
        (i * cols + j) % (cols as int) == j,
{
    assert(cols * i == i * cols) by (nonlinear_arith);
    assert(i * cols + j < rows * cols) by (nonlinear_arith)
        requires
            0 <= i < rows,
            0 <= j < cols,
    ;
    assert(0 <= i * cols + j) by (nonlinear_arith)
        requires
            0 <= i,
            0 <= j,
            0 <= cols,
    ;
    lemma_fundamental_div_mod_converse(i * cols + j, cols as int, i, j);
}

/// A position inside the cells of a grid has a coordinate inside the grid,
/// and the coordinate gives the position back.
pub proof fn lemma_coordinate(rows: nat, cols: nat, k: int)
    requires
        0 <= k < rows * cols,
    ensures
        cols > 0,
        0 <= k / (cols as int) < rows,
        0 <= k % (cols as int) < cols,
        (k / (cols as int)) * cols + k % (cols as int) == k,
{
    assert(cols > 0) by (nonlinear_arith)
        requires
            0 <= k < rows * cols,
    ;
    let c = cols as int;
    lemma_fundamental_div_mod(k, c);
    let q = k / c;
    let r = k % c;
    assert(0 <= r < c);
    assert(c * q == q * c) by (nonlinear_arith);
    assert(0 <= q < rows) by (nonlinear_arith)
        requires
            k == q * c + r,
            0 <= r < c,
            0 <= k < rows * c,
    ;
}

impl<T> Grid<T> {
    /// A tabulated grid holds `f(i, j)` at `(i, j)`.
    pub proof fn lemma_tabulate(rows: nat, cols: nat, f: spec_fn(int, int) -> T)
        ensures
            Grid::tabulate(rows, cols, f).rows == rows,
            Grid::tabulate(rows, cols, f).cols == cols,
            Grid::tabulate(rows, cols, f).cells.len() == rows * cols,
            forall|i: int, j: int|
                0 <= i < rows && 0 <= j < cols ==> #[trigger] Grid::tabulate(rows, cols, f).at(
                    i,
                    j,
                ) == f(i, j),
    {
        let g = Grid::tabulate(rows, cols, f);
        assert forall|i: int, j: int| 0 <= i < rows && 0 <= j < cols implies #[trigger] g.at(i, j)
            == f(i, j) by {
            lemma_position(rows, cols, i, j);
        }
    }

    /// Two grids of one shape that agree at every coordinate are the same
    /// grid.
    pub proof fn lemma_same_cells(self, other: Grid<T>)
        requires
            self.cells.len() == self.rows * self.cols,
            other.cells.len() == other.rows * other.cols,
            self.same_shape(other),
            forall|i: int, j: int| #[trigger] self.holds(i, j) ==> self.at(i, j) == other.at(i, j),
        ensures
            self == other,
    {
        assert forall|k: int| 0 <= k < self.cells.len() implies self.cells[k] == other.cells[k] by {
            lemma_coordinate(self.rows, self.cols, k);
            let i = k / (self.cols as int);
            let j = k % (self.cols as int);
            assert(self.holds(i, j));
            assert(self.at(i, j) == self.cells[k]);
            assert(other.at(i, j) == other.cells[k]);
        }
        assert(self.cells =~= other.cells);
    }

    /// A grid with one cell replaced holds the new value there and the old
    /// values everywhere else.
    pub proof fn lemma_with(self, i: int, j: int, v: T)
        requires
            self.cells.len() == self.rows * self.cols,
            self.holds(i, j),
        ensures
            self.with(i, j, v).same_shape(self),
            self.with(i, j, v).cells.len() == self.cells.len(),
            forall|x: int, y: int|
                self.holds(x, y) ==> #[trigger] self.with(i, j, v).at(x, y) == (if x == i && y
                    == j {
                    v
                } else {
                    self.at(x, y)
                }),
    {
        lemma_position(self.rows, self.cols, i, j);
        assert forall|x: int, y: int| self.holds(x, y) implies #[trigger] self.with(i, j, v).at(
            x,
            y,
        ) == (if x == i && y == j {
            v
        } else {
            self.at(x, y)
        }) by {
            lemma_position(self.rows, self.cols, x, y);
        }
    }

    /// A filled grid holds the filling value at every coordinate.
    pub proof fn lemma_filled(rows: nat, cols: nat, v: T)
        ensures
            forall|i: int, j: int|
                0 <= i < rows && 0 <= j < cols ==> #[trigger] Grid::filled(rows, cols, v).at(i, j)
                    == v,
    {
        assert forall|i: int, j: int| 0 <= i < rows && 0 <= j < cols implies #[trigger] Grid::filled(
            rows,
            cols,
            v,
        ).at(i, j) == v by {
            lemma_position(rows, cols, i, j);
        }
    }

    /// Whether `self` holds at `(j, i)` what `other` holds at `(i, j)`.
    pub open spec fn mirrors(self, other: Grid<T>) -> bool {
        &&& self.rows == other.cols
        &&& self.cols == other.rows
        &&& forall|i: int, j: int| #[trigger]
            other.holds(i, j) ==> self.at(j, i) == other.at(i, j)
    }

    /// The transpose has the dimensions exchanged and the cells mirrored.
    pub proof fn lemma_transpose(self)
        ensures
            self.transpose().rows == self.cols,
            self.transpose().cols == self.rows,
            self.wf() ==> self.transpose().wf(),
            forall|i: int, j: int| #[trigger]
                self.holds(i, j) ==> self.transpose().at(j, i) == self.at(i, j),
            self.transpose().mirrors(self),
    {
        reveal(Grid::wf);
        Grid::lemma_tabulate(self.cols, self.rows, |j: int, i: int| self.at(i, j));
        assert(self.cols * self.rows == self.rows * self.cols) by (nonlinear_arith);
    }

    /// Transposing twice gives the grid back.
    pub proof fn lemma_transpose_twice(self)
        requires
            self.wf(),
        ensures
            self.transpose().transpose() == self,
    {
        reveal(Grid::wf);
        let t = self.transpose();
        self.lemma_transpose();
        t.lemma_transpose();
        let tt = t.transpose();
        assert forall|i: int, j: int| #[trigger] tt.holds(i, j) implies tt.at(i, j) == self.at(
            i,
            j,
        ) by {
            assert(t.holds(j, i));
            assert(self.holds(i, j));
        }
        t.transpose().lemma_same_cells(self);
    }
}

impl<T: Scalar> Grid<T> {
    /// The grid of zeros.
    pub open spec fn zeros(rows: nat, cols: nat) -> Grid<T> {
        Grid::filled(rows, cols, zero::<T>())
    }

    /// Whether every cell lies in the half-open range `low..high`.
    pub open spec fn all_within(self, low: T, high: T) -> bool {
        forall|k: int| 0 <= k < self.cells.len() ==> within(#[trigger] self.cells[k], low, high)
    }

    /// The cell-by-cell sum.
    pub open spec fn add(self, other: Grid<T>) -> Grid<T> {
        self.zip(other, |a: T, b: T| a.add_spec(b))
    }

    /// The cell-by-cell difference.
    pub open spec fn sub(self, other: Grid<T>) -> Grid<T> {
        self.zip(other, |a: T, b: T| a.sub_spec(b))
    }

    /// The cell-by-cell product.
    pub open spec fn ele_mul(self, other: Grid<T>) -> Grid<T> {
        self.zip(other, |a: T, b: T| a.mul_spec(b))
    }

    /// Every cell times `v`.
    pub open spec fn scaler_mul(self, v: T) -> Grid<T> {
        self.map(|a: T| a.mul_spec(v))
    }

    /// Every cell rectified.
    pub open spec fn relu(self) -> Grid<T> {
        self.map(|a: T| relu_spec(a))
    }

    /// The slope of the rectifier at every cell.
    pub open spec fn drelu(self) -> Grid<T> {
        self.map(|a: T| drelu_spec(a))
    }

    /// The magnitude of every cell.
    pub open spec fn abs(self) -> Grid<T> {
        self.map(|a: T| abs_spec(a))
    }

    /// The logistic function of every cell, under the exponential `exp`.
    pub open spec fn sigmoid<E: Fn(T) -> T>(self, exp: E) -> Grid<T> {
        self.map(|a: T| sigmoid_spec(exp, a))
    }

    /// The inner product of row `i` of `self` with column `j` of `other`
    /// over their first `n` terms, summed from zero in rising order.
    pub open spec fn dot(self, other: Grid<T>, i: int, j: int, n: nat) -> T
        decreases n,
    {
        if n == 0 {
            zero::<T>()
        } else {
            self.dot(other, i, j, (n - 1) as nat).add_spec(
                self.at(i, n - 1).mul_spec(other.at(n - 1, j)),
            )
        }
    }

    /// The matrix product: cell `(i, j)` is the inner product of row `i` of
    /// `self` with column `j` of `other`.
    pub open spec fn mul(self, other: Grid<T>) -> Grid<T> {
        Grid::tabulate(
            self.rows,
            other.cols,
            |i: int, j: int| self.dot(other, i, j, self.cols),
        )
    }

    /// Whether cell `(x, y)` of `self` holds the inner product of row `x` of
    /// `a` with column `y` of `b` over their first `done(x, y)` terms.
    pub open spec fn tallies(self, a: Grid<T>, b: Grid<T>, done: spec_fn(int, int) -> nat) -> bool {
        &&& self.rows == a.rows
        &&& self.cols == b.cols
        &&& self.cells.len() == self.rows * self.cols
        &&& forall|x: int, y: int|
            self.holds(x, y) ==> #[trigger] self.at(x, y) == a.dot(b, x, y, done(x, y))
    }

    /// The first `n` cells of row `i`, summed from zero in rising order.
    pub open spec fn sum_upto(self, i: int, n: nat) -> T
        decreases n,
    {
        if n == 0 {
            zero::<T>()
        } else {
            self.sum_upto(i, (n - 1) as nat).add_spec(self.at(i, n - 1))
        }
    }

    /// The sum of row `i`.
    pub open spec fn sum(self, i: int) -> T {
        self.sum_upto(i, self.cols)
    }

    /// The first `n` cells in row-major order, summed from zero.
    pub open spec fn total_upto(self, n: nat) -> T
        decreases n,
    {
        if n == 0 {
            zero::<T>()
        } else {
            self.total_upto((n - 1) as nat).add_spec(self.cells[n - 1])
        }
    }

    /// The sum of every cell.
    pub open spec fn sum_all(self) -> T {
        self.total_upto(self.cells.len())
    }

    /// The magnitude of the cell at position `k`.
    pub open spec fn magnitude(self, k: int) -> T {
        abs_spec(self.cells[k])
    }

    /// The position of the first cell of largest magnitude among the first
    /// `n`: a later cell takes the lead only where its magnitude is strictly
    /// above the leader's.
    pub open spec fn lead(self, n: nat) -> int
        decreases n,
    {
        if n == 0 {
            0
        } else {
            let before = self.lead((n - 1) as nat);
            if self.magnitude(before).less_spec(self.magnitude(n - 1)) {
                n - 1
            } else {
                before
            }
        }
    }

    /// The largest magnitude of any cell.
    pub open spec fn peak(self) -> T {
        self.magnitude(self.lead(self.cells.len()))
    }

    /// Every cell divided by the largest magnitude.
    pub open spec fn normalized(self) -> Grid<T> {
        self.map(|a: T| a.div_spec(self.peak()))
    }

    /// The coordinate of the first cell of largest magnitude, column first.
    pub open spec fn arg_max(self) -> (int, int) {
        let k = self.lead(self.cells.len());
        (k % (self.cols as int), k / (self.cols as int))
    }

    /// The column vector of `n` cells with one at position `k` and zero
    /// everywhere else.
    pub open spec fn one_hot(n: nat, k: int) -> Grid<T> {
        Grid {
            rows: n,
            cols: 1,
            cells: Seq::new(
                n,
                |i: int|
                    if i == k {
                        one::<T>()
                    } else {
                        zero::<T>()
                    },
            ),
        }
    }

    /// Whether subtracting `other` from the sum of `self` and `other`
    /// gives every cell of `self` back exactly.
    pub open spec fn sub_undoes_add(self, other: Grid<T>) -> bool {
        forall|k: int|
            0 <= k < self.cells.len() ==> (#[trigger] self.cells[k]).add_spec(
                other.cells[k],
            ).sub_spec(other.cells[k]) == self.cells[k]
    }

    /// Adding a grid and subtracting it again gives the first grid back,
    /// wherever the scalar's subtraction undoes its addition on their cells.
    pub proof fn lemma_add_then_sub(self, other: Grid<T>)
        requires
            self.wf(),
            other.wf(),
            self.same_shape(other),
            self.sub_undoes_add(other),
        ensures
            self.add(other).sub(other) == self,
    {
        assert(self.add(other).sub(other).cells =~= self.cells);
    }

    /// Whether the scalar orders the magnitudes of the cells as numbers are
    /// ordered: no two of them lie below each other, and where one lies
    /// below another, the one lies below any third or that third lies below
    /// the other.
    pub open spec fn magnitudes_ordered(self) -> bool {
        &&& forall|i: int, j: int|
            0 <= i < self.cells.len() && 0 <= j < self.cells.len() && (#[trigger] self.magnitude(
                i,
            )).less_spec(#[trigger] self.magnitude(j)) ==> !self.magnitude(j).less_spec(
                self.magnitude(i),
            )
        &&& forall|i: int, j: int, k: int|
            0 <= i < self.cells.len() && 0 <= j < self.cells.len() && 0 <= k < self.cells.len()
                && (#[trigger] self.magnitude(i)).less_spec(#[trigger] self.magnitude(k))
                ==> self.magnitude(i).less_spec(#[trigger] self.magnitude(j)) || self.magnitude(
                j,
            ).less_spec(self.magnitude(k))
    }

    /// Where the magnitudes are ordered, the leader among the first `n`
    /// cells is the first of the largest: none of them lies above it, and
    /// every one before it lies strictly below it.
    pub proof fn lemma_lead_is_first_largest(self, n: nat)
        requires
            1 <= n <= self.cells.len(),
            self.magnitudes_ordered(),
        ensures
            0 <= self.lead(n) < n,
            forall|j: int|
                0 <= j < n ==> !self.magnitude(self.lead(n)).less_spec(#[trigger] self.magnitude(j)),
            forall|j: int|
                0 <= j < self.lead(n) ==> (#[trigger] self.magnitude(j)).less_spec(
                    self.magnitude(self.lead(n)),
                ),
        decreases n,
    {
        let top = self.magnitude(n - 1);
        if n == 1 {
            assert(self.lead(0) == 0);
            assert(!self.magnitude(0).less_spec(self.magnitude(0)));
        } else {
            self.lemma_lead_is_first_largest((n - 1) as nat);
            let before = self.lead((n - 1) as nat);
            let best = self.magnitude(before);
            if best.less_spec(top) {
                assert(!top.less_spec(top));
                assert forall|j: int| 0 <= j < n implies !top.less_spec(
                    #[trigger] self.magnitude(j),
                ) by {
                    if j < n - 1 && top.less_spec(self.magnitude(j)) {
                        assert(best.less_spec(top) || top.less_spec(self.magnitude(j)));
                        assert(!best.less_spec(self.magnitude(j)));
                        assert(best.less_spec(self.magnitude(j)) || self.magnitude(j).less_spec(
                            top,
                        ));
                    }
                }
                assert forall|j: int| 0 <= j < n - 1 implies (#[trigger] self.magnitude(
                    j,
                )).less_spec(top) by {
                    assert(!best.less_spec(self.magnitude(j)));
                    assert(best.less_spec(self.magnitude(j)) || self.magnitude(j).less_spec(
                        top,
                    ));
                }
            }
        }
    }

    /// Whether the scalar orders the magnitudes of zero and one as the
    /// numbers are ordered: zero below one, one not below zero, zero not
    /// below itself.
    pub open spec fn zero_below_one() -> bool {
        &&& abs_spec(zero::<T>()).less_spec(abs_spec(one::<T>()))
        &&& !abs_spec(one::<T>()).less_spec(abs_spec(zero::<T>()))
        &&& !abs_spec(zero::<T>()).less_spec(abs_spec(zero::<T>()))
    }

    /// In a one-hot vector the scan stays at the first cell until it has
    /// seen the one, and at the one from then on.
    proof fn lemma_lead_one_hot(n: nat, k: int, m: nat)
        requires
            0 <= k < n,
            m <= n,
            Self::zero_below_one(),
        ensures
            Self::one_hot(n, k).lead(m) == (if m <= k {
                0
            } else {
                k
            }),
        decreases m,
    {
        if m > 0 {
            Self::lemma_lead_one_hot(n, k, (m - 1) as nat);
        }
    }

    /// The arg-max of a one-hot vector is the position of its one: column
    /// zero, row `k`.
    pub proof fn lemma_arg_max_one_hot(n: nat, k: int)
        requires
            0 <= k < n,
            Self::zero_below_one(),
        ensures
            Self::one_hot(n, k).arg_max() == (0int, k),
    {
        Self::lemma_lead_one_hot(n, k, n);
    }
}

/// The integers order the magnitudes of the cells of any grid.
pub proof fn lemma_i64_magnitudes_ordered(g: Grid<i64>)
    ensures
        g.magnitudes_ordered(),
{
}

/// On a grid of integers subtraction undoes addition.
pub proof fn lemma_i64_grid_sub_undoes_add(a: Grid<i64>, b: Grid<i64>)
    ensures
        a.sub_undoes_add(b),
{
}

/// The integers order the magnitudes of zero and one as they should.
pub proof fn lemma_i64_zero_below_one()
    ensures
        Grid::<i64>::zero_below_one(),
{
}

} // verus!

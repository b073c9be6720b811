//! A dynamically sized two-dimensional grid, stored row-major in a flat
//! vector, with windowed iteration over fixed-size sub-blocks.

use vstd::prelude::*;

verus! {

/// 2D matrix of cells indexed by (row, column).
///
/// Well-formed values hold exactly `row * column` cells in row-major order.
#[derive(Clone, Debug, PartialEq)]
pub struct Matrix<T> {
    pub row: usize,
    pub column: usize,
    pub data: Vec<T>,
}

/// A (row, column) pair inside the grid maps to a flat index below the cell count.
pub proof fn lemma_flat_index_bound(i: int, j: int, r: int, c: int)
    requires
        0 <= i < r,
        0 <= j < c,
    ensures
        0 <= i * c + j < r * c,
{
    assert(0 <= i * c + j < r * c) by (nonlinear_arith)
        requires
            0 <= i < r,
            0 <= j < c,
    ;
}

/// Distinct (row, column) pairs inside a grid map to distinct flat indices.
pub proof fn lemma_flat_index_injective(i1: int, j1: int, i2: int, j2: int, c: int)
    requires
        0 <= j1 < c,
        0 <= j2 < c,
        i1 != i2 || j1 != j2,
    ensures
        i1 * c + j1 != i2 * c + j2,
{
    if i1 != i2 {
        assert(i1 * c + j1 != i2 * c + j2) by (nonlinear_arith)
            requires
                0 <= j1 < c,
                0 <= j2 < c,
                i1 != i2,
        ;
    }
}

impl<T> View for Matrix<T> {
    type V = Seq<Seq<T>>;

    open spec fn view(&self) -> Seq<Seq<T>> {
        Seq::new(
            self.row as nat,
            |i: int| Seq::new(self.column as nat, |j: int| self.data@[i * self.column + j]),
        )
    }
}

impl<T> Matrix<T> {
    /// The flat data holds one value for every (row, column) pair.
    pub open spec fn wf(&self) -> bool {
        &&& self.data@.len() == self.row * self.column
        &&& self.row * self.column <= usize::MAX
    }

    /// The cell at grid coordinates (i, j).
    pub open spec fn cell(&self, i: int, j: int) -> T {
        self.data@[i * self.column + j]
    }

    /// Whether (i, j) lies inside the grid.
    pub open spec fn in_bounds(&self, i: int, j: int) -> bool {
        0 <= i < self.row && 0 <= j < self.column
    }

    /// Builds a matrix from row-major cell data; the data length must match
    /// the requested dimensions.
    pub fn from_vec(row: usize, column: usize, data: Vec<T>) -> (m: Matrix<T>)
        requires
            data@.len() == row * column,
        ensures
            m.wf(),
            m.row == row,
            m.column == column,
            m.data == data,
    {
        let n = data.len();
        proof {
            assert(n <= usize::MAX);
        }
        Matrix { row, column, data }
    }

    /// Returns the matrix's row and column counts.
    pub fn size(&self) -> (s: (usize, usize))
        ensures
            s.0 == self.row,
            s.1 == self.column,
    {
        (self.row, self.column)
    }

    /// Returns the matrix's row count.
    pub fn row(&self) -> (r: usize)
        ensures
            r == self.row,
    {
        self.row
    }

    /// Returns the matrix's column count.
    pub fn column(&self) -> (c: usize)
        ensures
            c == self.column,
    {
        self.column
    }
}

impl<T: Copy> Matrix<T> {
    /// Allocates a row×column grid with every cell set to `default`.
    pub fn new(default: T, row: usize, column: usize) -> (m: Matrix<T>)
        requires
            row * column <= usize::MAX,
        ensures
            m.wf(),
            m.row == row,
            m.column == column,
            forall|i: int, j: int| m.in_bounds(i, j) ==> m.cell(i, j) == default,
    {
        let total: usize = row * column;
        let mut data: Vec<T> = Vec::new();
        for k in 0..total
            invariant
                data@.len() == k,
                forall|x: int| 0 <= x < k ==> data@[x] == default,
        {
            data.push(default);
        }
        let m = Matrix { row, column, data };
        proof {
            assert forall|i: int, j: int| m.in_bounds(i, j) implies m.cell(i, j) == default by {
                lemma_flat_index_bound(i, j, row as int, column as int);
            }
        }
        m
    }

    /// Bounds-checked read of the cell at (i, j).
    pub fn get(&self, i: usize, j: usize) -> (t: T)
        requires
            self.wf(),
            i < self.row,
            j < self.column,
        ensures
            t == self.cell(i as int, j as int),
    {
        proof {
            lemma_flat_index_bound(i as int, j as int, self.row as int, self.column as int);
        }
        self.data[i * self.column + j]
    }

    /// Bounds-checked write of the cell at (i, j); all other cells keep
    /// their values.
    pub fn set(&mut self, i: usize, j: usize, value: T)
        requires
            old(self).wf(),
            i < old(self).row,
            j < old(self).column,
        ensures
            final(self).wf(),
            final(self).row == old(self).row,
            final(self).column == old(self).column,
            final(self).cell(i as int, j as int) == value,
            forall|a: int, b: int|
                old(self).in_bounds(a, b) && (a != i || b != j)
                    ==> final(self).cell(a, b) == old(self).cell(a, b),
    {
        proof {
            lemma_flat_index_bound(i as int, j as int, self.row as int, self.column as int);
        }
        let idx: usize = i * self.column + j;
        self.data.set(idx, value);
        proof {
            assert forall|a: int, b: int|
                old(self).in_bounds(a, b) && (a != i || b != j)
                    implies self.cell(a, b) == old(self).cell(a, b) by {
                lemma_flat_index_bound(a, b, self.row as int, self.column as int);
                lemma_flat_index_injective(a, b, i as int, j as int, self.column as int);
            }
        }
    }

    /// Builds a row×column grid whose cell (i, j) is produced by `f(i, j)`.
    pub fn from_fn<F: Fn(usize, usize) -> T>(row: usize, column: usize, f: F) -> (m: Matrix<T>)
        requires
            row * column <= usize::MAX,
            forall|i: usize, j: usize| i < row && j < column ==> call_requires(f, (i, j)),
        ensures
            m.wf(),
            m.row == row,
            m.column == column,
            forall|i: int, j: int|
                0 <= i < row && 0 <= j < column
                    ==> call_ensures(f, ((i as usize), (j as usize)), #[trigger] m.cell(i, j)),
    {
        let mut data: Vec<T> = Vec::new();
        for i in 0..row
            invariant
                data@.len() == i * column,
                i <= row,
                row * column <= usize::MAX,
                forall|a: usize, b: usize| a < row && b < column ==> call_requires(f, (a, b)),
                forall|a: int, b: int|
                    0 <= a < i && 0 <= b < column
                        ==> call_ensures(
                            f,
                            ((a as usize), (b as usize)),
                            #[trigger] data@[a * column + b],
                        ),
        {
            proof {
                assert((i + 1) * column == i * column + column) by (nonlinear_arith);
                assert((i + 1) * column <= row * column) by (nonlinear_arith)
                    requires
                        0 <= i < row,
                        0 <= column,
                ;
            }
            for j in 0..column
                invariant
                    data@.len() == i * column + j,
                    i < row,
                    j <= column,
                    i * column + column <= row * column,
                    (i + 1) * column == i * column + column,
                    row * column <= usize::MAX,
                    forall|a: usize, b: usize| a < row && b < column ==> call_requires(f, (a, b)),
                    forall|a: int, b: int|
                        0 <= a < i && 0 <= b < column
                            ==> call_ensures(
                                f,
                                ((a as usize), (b as usize)),
                                #[trigger] data@[a * column + b],
                            ),
                    forall|b: int|
                        0 <= b < j
                            ==> call_ensures(
                                f,
                                (i, (b as usize)),
                                #[trigger] data@[i * column + b],
                            ),
            {
                let t = f(i, j);
                data.push(t);
                proof {
                    assert forall|a: int, b: int| 0 <= a < i && 0 <= b < column implies call_ensures(
                        f,
                        ((a as usize), (b as usize)),
                        #[trigger] data@[a * column + b],
                    ) by {
                        lemma_flat_index_bound(a, b, i as int, column as int);
                    }
                }
            }
        }
        let m = Matrix { row, column, data };
        proof {
            assert forall|i: int, j: int| 0 <= i < row && 0 <= j < column implies call_ensures(
                f,
                ((i as usize), (j as usize)),
                #[trigger] m.cell(i, j),
            ) by {
                lemma_flat_index_bound(i, j, row as int, column as int);
            }
        }
        m
    }

    /// Returns the transpose: cell (i, j) of the result is cell (j, i) of `self`.
    pub fn trans(&self) -> (t: Matrix<T>)
        requires
            self.wf(),
        ensures
            t.wf(),
            t.row == self.column,
            t.column == self.row,
            forall|i: int, j: int|
                0 <= i < self.column && 0 <= j < self.row
                    ==> #[trigger] t.cell(i, j) == self.cell(j, i),
    {
        proof {
            assert(self.column * self.row == self.row * self.column) by (nonlinear_arith);
        }
        let read_flipped = |a: usize, b: usize| -> (v: T)
            requires
                self.wf(),
                a < self.column,
                b < self.row,
            ensures
                v == self.cell(b as int, a as int),
            {
                self.get(b, a)
            };
        let t = Matrix::from_fn(self.column, self.row, read_flipped);
        t
    }

    /// Transposes the matrix in place.
    pub fn trans_in_place(&mut self)
        requires
            old(self).wf(),
        ensures
            final(self).wf(),
            final(self).row == old(self).column,
            final(self).column == old(self).row,
            forall|i: int, j: int|
                0 <= i < old(self).column && 0 <= j < old(self).row
                    ==> #[trigger] final(self).cell(i, j) == old(self).cell(j, i),
    {
        let t = self.trans();
        *self = t;
    }

    /// Returns a cursor over every window of the given dimensions that fits
    /// inside the grid, visited in row-major anchor order.
    pub fn windows(&self, row: usize, column: usize) -> (w: MatrixWindows<'_, T>)
        requires
            self.wf(),
            1 <= row <= self.row,
            1 <= column <= self.column,
        ensures
            w.wf(),
            w.matrix == self,
            w.window_row == row,
            w.window_column == column,
            w.i == 0,
            w.j == 0,
    {
        MatrixWindows { matrix: self, i: 0, j: 0, window_row: row, window_column: column }
    }

    /// Returns all cells in row-major order; a full grid yields exactly
    /// row×column entries.
    pub fn iter(&self) -> (r: Vec<T>)
        requires
            self.wf(),
        ensures
            r@ == self.data@,
            r@.len() == self.row * self.column,
    {
        let mut out: Vec<T> = Vec::new();
        let n = self.data.len();
        for k in 0..n
            invariant
                n == self.data@.len(),
                out@.len() == k,
                forall|x: int| 0 <= x < k ==> out@[x] == self.data@[x],
        {
            out.push(self.data[k]);
        }
        proof {
            assert(out@ =~= self.data@);
        }
        out
    }
}

/// A cursor over the fixed-size windows of a matrix, yielding each anchor
/// position together with a copy of the window's cells, in row-major
/// anchor order.
pub struct MatrixWindows<'a, T> {
    pub matrix: &'a Matrix<T>,
    pub i: usize,
    pub j: usize,
    pub window_row: usize,
    pub window_column: usize,
}

impl<'a, T: Copy> MatrixWindows<'a, T> {
    /// The window dimensions fit the grid and the cursor position is
    /// reachable by advancing from the first anchor.
    pub open spec fn wf(&self) -> bool {
        &&& self.matrix.wf()
        &&& 1 <= self.window_row <= self.matrix.row
        &&& 1 <= self.window_column <= self.matrix.column
        &&& self.j + self.window_column <= self.matrix.column
        &&& self.i + self.window_row <= self.matrix.row + 1
    }

    /// Yields the window anchored at the current cursor position and
    /// advances, or returns None once every fitting anchor has been visited.
    pub fn next(&mut self) -> (r: Option<(usize, usize, Matrix<T>)>)
        requires
            old(self).wf(),
        ensures
            final(self).wf(),
            final(self).matrix == old(self).matrix,
            final(self).window_row == old(self).window_row,
            final(self).window_column == old(self).window_column,
            old(self).i + old(self).window_row <= old(self).matrix.row ==> {
                &&& r matches Some(w)
                &&& w.0 == old(self).i
                &&& w.1 == old(self).j
                &&& w.2.wf()
                &&& w.2.row == old(self).window_row
                &&& w.2.column == old(self).window_column
                &&& forall|a: int, b: int|
                    0 <= a < old(self).window_row && 0 <= b < old(self).window_column
                        ==> #[trigger] w.2.cell(a, b)
                            == old(self).matrix.cell(old(self).i + a, old(self).j + b)
                &&& if old(self).j + old(self).window_column < old(self).matrix.column {
                    final(self).i == old(self).i && final(self).j == old(self).j + 1
                } else {
                    final(self).i == old(self).i + 1 && final(self).j == 0
                }
            },
            old(self).i + old(self).window_row > old(self).matrix.row
                ==> r is None && *final(self) == *old(self),
    {
        let max_i = self.matrix.row - self.window_row;
        let max_j = self.matrix.column - self.window_column;
        if self.i <= max_i {
            let oi = self.i;
            let oj = self.j;
            let m_ref: &Matrix<T> = self.matrix;
            let wr = self.window_row;
            let wc = self.window_column;
            proof {
                assert(wr * wc <= m_ref.row * m_ref.column) by (nonlinear_arith)
                    requires
                        1 <= wr <= m_ref.row,
                        1 <= wc <= m_ref.column,
                ;
            }
            let read_window = |a: usize, b: usize| -> (v: T)
                requires
                    m_ref.wf(),
                    a < wr,
                    b < wc,
                    oi + wr <= m_ref.row,
                    oj + wc <= m_ref.column,
                ensures
                    v == m_ref.cell(oi + a, oj + b),
                {
                    m_ref.get(oi + a, oj + b)
                };
            let w = Matrix::from_fn(wr, wc, read_window);
            if self.j < max_j {
                self.j = self.j + 1;
            } else {
                self.j = 0;
                self.i = self.i + 1;
            }
            Some((oi, oj, w))
        } else {
            None
        }
    }
}

} // verus!

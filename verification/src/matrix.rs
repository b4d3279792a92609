use vstd::prelude::*;
use crate::error::LinearError;

verus! {

/// What a matrix is, mathematically: a shape and the cells in row-major order.
/// A cell is the IEEE-754 bit pattern of a single-precision number.
pub struct Grid {
    pub rows: nat,
    pub cols: nat,
    pub cells: Seq<u32>,
}

impl Grid {
    /// The cells fill the shape exactly.
    pub open spec fn wf(self) -> bool {
        self.cells.len() == self.rows * self.cols
    }

    /// Whether `(i, j)` names a cell.
    pub open spec fn holds(self, i: int, j: int) -> bool {
        0 <= i < self.rows && 0 <= j < self.cols
    }

    /// The place of cell `(i, j)` in the row-major sequence.
    pub open spec fn offset(self, i: int, j: int) -> int {
        i * self.cols + j
    }

    /// The cell in row `i`, column `j`.
    pub open spec fn at(self, i: int, j: int) -> u32 {
        self.cells[self.offset(i, j)]
    }

    /// The grid with `bits` in cell `(i, j)`, or the grid itself where it has no
    /// such cell.
    pub open spec fn with_cell(self, i: int, j: int, bits: u32) -> Grid {
        if self.holds(i, j) {
            Grid { cells: self.cells.update(self.offset(i, j), bits), ..self }
        } else {
            self
        }
    }

    /// Row `i` as a sequence of its own.
    pub open spec fn row(self, i: int) -> Seq<u32> {
        self.cells.subrange(self.offset(i, 0), self.offset(i + 1, 0))
    }
}

/// Every cell of a well-formed grid has its own place inside the sequence:
/// the offset is in range, and two cells share an offset only if they are the
/// same cell.
pub proof fn lemma_offset_injective(g: Grid, i: int, j: int, k: int, l: int)
    requires
        g.wf(),
        g.holds(i, j),
        g.holds(k, l),
    ensures
        0 <= g.offset(i, j) < g.cells.len(),
        g.offset(i, j) == g.offset(k, l) ==> i == k && j == l,
{
    lemma_offset_in_range(g.rows as int, g.cols as int, i, j);
    let c = g.cols as int;
    if i < k {
        assert(i * c + c <= k * c) by (nonlinear_arith)
            requires
                i + 1 <= k,
                c >= 0,
        ;
    } else if k < i {
        assert(k * c + c <= i * c) by (nonlinear_arith)
            requires
                k + 1 <= i,
                c >= 0,
        ;
    }
}

/// Writing a cell changes that cell and no other: afterwards it holds what
/// was written, and every other cell holds what it held before. The shape is
/// untouched.
pub proof fn lemma_with_cell(g: Grid, i: int, j: int, bits: u32, k: int, l: int)
    requires
        g.wf(),
        g.holds(i, j),
        g.holds(k, l),
    ensures
        g.with_cell(i, j, bits).wf(),
        g.with_cell(i, j, bits).rows == g.rows,
        g.with_cell(i, j, bits).cols == g.cols,
        g.with_cell(i, j, bits).at(k, l) == if k == i && l == j {
            bits
        } else {
            g.at(k, l)
        },
{
    lemma_offset_injective(g, i, j, k, l);
    lemma_offset_injective(g, k, l, i, j);
}

/// A cell of a row is the cell of the grid in that row.
pub proof fn lemma_row_cell(g: Grid, i: int, j: int)
    requires
        g.wf(),
        g.holds(i, j),
    ensures
        g.row(i).len() == g.cols,
        g.row(i)[j] == g.at(i, j),
{
    let c = g.cols as int;
    assert((i + 1) * c == i * c + c) by (nonlinear_arith);
    assert((i + 1) * c <= g.rows * c) by (nonlinear_arith)
        requires
            i + 1 <= g.rows,
            c >= 0,
    ;
    assert(0 <= i * c) by (nonlinear_arith)
        requires
            0 <= i,
            c >= 0,
    ;
}

proof fn lemma_offset_in_range(rows: int, cols: int, i: int, j: int)
    requires
        0 <= i < rows,
        0 <= j < cols,
    ensures
        0 <= i * cols + j < rows * cols,
{
    assert(0 <= i * cols) by (nonlinear_arith)
        requires
            0 <= i,
            0 <= cols,
    ;
    assert(i * cols + cols <= rows * cols) by (nonlinear_arith)
        requires
            i + 1 <= rows,
            0 <= cols,
    ;
}

/// A dense two-dimensional array of single-precision bit patterns whose shape
/// is fixed when it is made.
#[derive(Debug)]
pub struct Matrix {
    rows: usize,
    cols: usize,
    cells: Vec<u32>,
}

impl View for Matrix {
    type V = Grid;

    closed spec fn view(&self) -> Grid {
        Grid { rows: self.rows as nat, cols: self.cols as nat, cells: self.cells@ }
    }
}

impl Matrix {
    #[verifier::type_invariant]
    spec fn inv(self) -> bool {
        self.cells@.len() == self.rows * self.cols
    }

    /// Makes the matrix of shape `(rows, cols)` from its cells in row-major
    /// order. Succeeds exactly when the cells fill the shape.
    pub fn from_cells(rows: usize, cols: usize, cells: Vec<u32>) -> (r: Result<Matrix, LinearError>)
        ensures
            cells@.len() == rows * cols ==> r.is_ok() && r.unwrap()@ == (Grid {
                rows: rows as nat,
                cols: cols as nat,
                cells: cells@,
            }),
            cells@.len() != rows * cols ==> r == Err::<Matrix, LinearError>(
                LinearError::ShapeMismatch,
            ),
    {
        let given: usize = cells.len();
        match rows.checked_mul(cols) {
            Some(count) => {
                if count == given {
                    Ok(Matrix { rows, cols, cells })
                } else {
                    Err(LinearError::ShapeMismatch)
                }
            },
            None => Err(LinearError::ShapeMismatch),
        }
    }

    /// The number of rows.
    pub fn rows(&self) -> (r: usize)
        ensures
            r == self@.rows,
            self@.wf(),
    {
        proof {
            use_type_invariant(self);
        }
        self.rows
    }

    /// The number of columns.
    pub fn cols(&self) -> (r: usize)
        ensures
            r == self@.cols,
            self@.wf(),
    {
        proof {
            use_type_invariant(self);
        }
        self.cols
    }

    /// The cells in row-major order.
    pub fn cells(&self) -> (r: &Vec<u32>)
        ensures
            r@ == self@.cells,
            self@.wf(),
    {
        proof {
            use_type_invariant(self);
        }
        &self.cells
    }

    /// The cell in row `i`, column `j`, or `None` where the matrix has no such
    /// cell.
    pub fn get(&self, i: usize, j: usize) -> (r: Option<u32>)
        ensures
            r == if self@.holds(i as int, j as int) {
                Some(self@.at(i as int, j as int))
            } else {
                None
            },
    {
        proof {
            use_type_invariant(self);
        }
        let count: usize = self.cells.len();
        if i < self.rows && j < self.cols {
            proof {
                lemma_offset_in_range(self.rows as int, self.cols as int, i as int, j as int);
            }
            Some(self.cells[i * self.cols + j])
        } else {
            None
        }
    }

    /// Writes `bits` into the cell in row `i`, column `j`, and hands back what
    /// the cell held. Where the matrix has no such cell, nothing changes and
    /// `None` comes back. The shape stays as it is either way.
    pub fn set(&mut self, i: usize, j: usize, bits: u32) -> (r: Option<u32>)
        ensures
            final(self)@ == old(self)@.with_cell(i as int, j as int, bits),
            final(self)@.wf(),
            r == if old(self)@.holds(i as int, j as int) {
                Some(old(self)@.at(i as int, j as int))
            } else {
                None
            },
        no_unwind
    {
        proof {
            use_type_invariant(&*self);
        }
        let count: usize = self.cells.len();
        if i < self.rows && j < self.cols {
            proof {
                lemma_offset_in_range(self.rows as int, self.cols as int, i as int, j as int);
            }
            let at: usize = i * self.cols + j;
            let before: u32 = self.cells[at];
            self.cells[at] = bits;
            Some(before)
        } else {
            None
        }
    }

    /// Row `i` as a vector of its own, or `None` where the matrix has no such
    /// row.
    pub fn row(&self, i: usize) -> (r: Option<Vec<u32>>)
        ensures
            match r {
                Some(v) => i < self@.rows && v@ == self@.row(i as int),
                None => i >= self@.rows,
            },
    {
        proof {
            use_type_invariant(self);
        }
        if i >= self.rows {
            return None;
        }
        let cols: usize = self.cols;
        let count: usize = self.cells.len();
        proof {
            assert(i * cols + cols <= self.rows * cols) by (nonlinear_arith)
                requires
                    i + 1 <= self.rows,
                    0 <= cols,
            ;
            assert((i + 1) * cols == i * cols + cols) by (nonlinear_arith);
            assert(0 <= i * cols) by (nonlinear_arith)
                requires
                    0 <= i,
                    0 <= cols,
            ;
        }
        let start: usize = i * cols;
        let mut out: Vec<u32> = Vec::new();
        let mut j: usize = 0;
        while j < cols
            invariant
                j <= cols,
                cols == self.cols,
                start == i * cols,
                start + cols <= count,
                count == self.cells@.len(),
                out@ == self.cells@.subrange(start as int, start + j),
            decreases cols - j,
        {
            out.push(self.cells[start + j]);
            j += 1;
        }
        Some(out)
    }
}

} // verus!

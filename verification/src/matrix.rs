//! A dense `rows x cols` matrix of `i64` stored as a flat row-major buffer.
//!
//! A matrix is immutable after construction: multiplication never mutates an
//! input, it produces a new matrix. The shape invariant
//! `data.len() == rows * cols` is validated at construction.

use vstd::prelude::*;

use crate::error::MatrixError;
use crate::jobs::assemble_replies;
use crate::jobs::compute_job;
use crate::jobs::job_ok;
use crate::jobs::plan_jobs;
use crate::jobs::MsgOutput;
use crate::vector::dot_spec;
use crate::vector::Vector;

verus! {

/// A dense matrix: `rows * cols` elements in one flat row-major buffer,
/// element `(i, j)` at index `i * cols + j`.
#[derive(Debug)]
pub struct Matrix {
    /// Number of rows.
    pub rows: usize,
    /// Number of columns.
    pub cols: usize,
    /// The elements, row-major.
    pub data: Vec<i64>,
}

impl Matrix {
    /// The shape invariant: the buffer holds exactly one element per cell.
    pub open spec fn wf(self) -> bool {
        self.data@.len() == self.rows * self.cols
    }

    /// Element `(i, j)`.
    pub open spec fn at(self, i: int, j: int) -> i64 {
        self.data@[i * self.cols + j]
    }

    /// Row `i` as a sequence: the `cols` contiguous elements from
    /// `i * cols`.
    pub open spec fn row_spec(self, i: int) -> Seq<i64> {
        Seq::new(self.cols as nat, |j: int| self.data@[i * self.cols + j])
    }

    /// Column `j` as a sequence: every `cols`-th element starting at
    /// offset `j`, `rows` elements in all.
    pub open spec fn col_spec(self, j: int) -> Seq<i64> {
        Seq::new(self.rows as nat, |i: int| self.data@[i * self.cols + j])
    }

    /// Builds a matrix from a shape and a flat row-major buffer.
    ///
    /// Fails with `DimensionMismatch` exactly when the buffer's length is
    /// not `rows * cols`.
    pub fn new(rows: usize, cols: usize, data: Vec<i64>) -> (r: Result<Matrix, MatrixError>)
        ensures
            match r {
                Ok(m) => data@.len() == rows * cols && m.rows == rows && m.cols == cols
                    && m.data@ == data@ && m.wf(),
                Err(e) => data@.len() != rows * cols && e == MatrixError::DimensionMismatch,
            },
    {
        let buffer_len: usize = data.len();
        match rows.checked_mul(cols) {
            Some(len) => {
                if buffer_len == len {
                    Ok(Matrix { rows, cols, data })
                } else {
                    Err(MatrixError::DimensionMismatch)
                }
            },
            None => {
                proof {
                    assert(buffer_len <= usize::MAX < rows * cols);
                }
                Err(MatrixError::DimensionMismatch)
            },
        }
    }

    /// Copies row `i` into an owned vector of `cols` elements.
    pub fn row(&self, i: usize) -> (r: Vector)
        requires
            self.wf(),
            i < self.rows,
        ensures
            r@ == self.row_spec(i as int),
    {
        let mut out: Vec<i64> = Vec::new();
        let buffer_len: usize = self.data.len();
        let mut j: usize = 0;
        while j < self.cols
            invariant
                self.wf(),
                buffer_len == self.data@.len(),
                i < self.rows,
                j <= self.cols,
                out@ =~= self.row_spec(i as int).take(j as int),
            decreases self.cols - j,
        {
            proof {
                lemma_cell_index_in_bounds(*self, i as int, j as int);
            }
            out.push(self.data[i * self.cols + j]);
            j = j + 1;
        }
        proof {
            assert(out@ =~= self.row_spec(i as int));
        }
        Vector::new(out)
    }

    /// Copies column `j` into an owned vector by a strided gather: `rows`
    /// elements, one from each row.
    pub fn column(&self, j: usize) -> (r: Vector)
        requires
            self.wf(),
            j < self.cols,
        ensures
            r@ == self.col_spec(j as int),
    {
        let mut out: Vec<i64> = Vec::new();
        let buffer_len: usize = self.data.len();
        let mut i: usize = 0;
        while i < self.rows
            invariant
                self.wf(),
                buffer_len == self.data@.len(),
                j < self.cols,
                i <= self.rows,
                out@ =~= self.col_spec(j as int).take(i as int),
            decreases self.rows - i,
        {
            proof {
                lemma_cell_index_in_bounds(*self, i as int, j as int);
            }
            out.push(self.data[i * self.cols + j]);
            i = i + 1;
        }
        proof {
            assert(out@ =~= self.col_spec(j as int));
        }
        Vector::new(out)
    }
}

/// The one result matrix of `a * b`, flat row-major: cell `k` is the
/// wrapping dot product of row `k / b.cols` of `a` and column `k % b.cols`
/// of `b`.
pub open spec fn multiply_spec(a: Matrix, b: Matrix) -> Seq<i64> {
    Seq::new(
        (a.rows * b.cols) as nat,
        |k: int| dot_spec(a.row_spec(k / (b.cols as int)), b.col_spec(k % (b.cols as int))),
    )
}

/// Multiplies two matrices through the job pipeline: one dot-product job
/// per output cell, each reply written back at its recorded destination
/// index.
///
/// Fails with `DimensionMismatch` exactly when the inner dimensions
/// disagree, before any job is planned; otherwise returns the
/// `a.rows x b.cols` matrix whose every cell `(i, j)` is the wrapping dot
/// product of row `i` of `a` and column `j` of `b`.
pub fn multiply_matrix(a: &Matrix, b: &Matrix) -> (r: Result<Matrix, MatrixError>)
    requires
        a.wf(),
        b.wf(),
        a.rows * b.cols <= usize::MAX,
    ensures
        match r {
            Ok(c) => {
                &&& a.cols == b.rows
                &&& c.rows == a.rows
                &&& c.cols == b.cols
                &&& c.wf()
                &&& c.data@ == multiply_spec(*a, *b)
                &&& forall|i: int, j: int|
                    0 <= i < a.rows && 0 <= j < b.cols ==> c.at(i, j) == dot_spec(
                        a.row_spec(i),
                        b.col_spec(j),
                    )
            },
            Err(e) => a.cols != b.rows && e == MatrixError::DimensionMismatch,
        },
{
    if a.cols != b.rows {
        return Err(MatrixError::DimensionMismatch);
    }
    let mut jobs = plan_jobs(a, b);
    let ghost jobs0: Seq<crate::jobs::MsgInput> = jobs@;
    let ghost total: int = jobs0.len() as int;
    let mut replies: Vec<MsgOutput> = Vec::new();
    while jobs.len() > 0
        invariant
            a.wf(),
            b.wf(),
            a.cols == b.rows,
            total == a.rows * b.cols,
            jobs0.len() == total,
            forall|k: int| 0 <= k < total ==> job_ok(jobs0, *a, *b, k),
            jobs@ == jobs0.take(jobs@.len() as int),
            replies@.len() == total - jobs@.len(),
            forall|t: int|
                0 <= t < replies@.len() ==> (#[trigger] replies@[t].idx) == total - 1 - t
                    && replies@[t].value == dot_spec(
                    a.row_spec((total - 1 - t) / (b.cols as int)),
                    b.col_spec((total - 1 - t) % (b.cols as int)),
                ),
        decreases jobs@.len(),
    {
        let ghost k: int = jobs@.len() - 1;
        proof {
            assert(jobs@[k] == jobs0[k]);
            assert(job_ok(jobs0, *a, *b, k));
        }
        let job = jobs.pop().unwrap();
        match compute_job(job) {
            Ok(reply) => {
                replies.push(reply);
            },
            Err(_) => {
                // A planned job pairs a row of `a` with a column of `b`,
                // which have equal length once the inner dimensions agree.
                proof {
                    assert(job.row@.len() == a.cols);
                    assert(job.col@.len() == b.rows);
                    assert(false);
                }
            },
        }
    }
    match assemble_replies(a.rows, b.cols, replies) {
        Ok(c) => {
            proof {
                assert forall|k: int| 0 <= k < total implies c.data@[k] == multiply_spec(*a, *b)[k] by {
                    let t = total - 1 - k;
                    assert(replies@[t].idx == k);
                    assert(c.data@[k] == replies@[t].value);
                }
                assert(c.data@ =~= multiply_spec(*a, *b));
                assert forall|i: int, j: int|
                    0 <= i < a.rows && 0 <= j < b.cols implies c.at(i, j) == dot_spec(
                    a.row_spec(i),
                    b.col_spec(j),
                ) by {
                    lemma_cell_index_in_bounds(c, i, j);
                    vstd::arithmetic::div_mod::lemma_fundamental_div_mod_converse(
                        i * c.cols + j,
                        b.cols as int,
                        i,
                        j,
                    );
                }
            }
            Ok(c)
        },
        Err(_) => {
            // One reply was collected per job, each with its own index, so
            // the replies cover every cell and assembly cannot fail.
            proof {
                assert forall|k: int| 0 <= k < total implies crate::jobs::covered(replies@, k) by {
                    assert(replies@[total - 1 - k].idx == k);
                }
                assert(false);
            }
            Err(MatrixError::JobLost)
        },
    }
}

/// Repeated multiplications of the same inputs produce identical output:
/// any two matrices of the right shape whose buffers both satisfy the
/// multiplication formula are equal, cell for cell, so the result does not
/// depend on worker count, scheduling, or the order replies arrive in.
pub proof fn lemma_multiply_deterministic(a: Matrix, b: Matrix, c1: Matrix, c2: Matrix)
    requires
        c1.rows == a.rows,
        c1.cols == b.cols,
        c1.data@ == multiply_spec(a, b),
        c2.rows == a.rows,
        c2.cols == b.cols,
        c2.data@ == multiply_spec(a, b),
    ensures
        c1.rows == c2.rows,
        c1.cols == c2.cols,
        c1.data@ == c2.data@,
{
}

/// The flat index of a cell in range lies strictly inside the buffer.
proof fn lemma_cell_index_in_bounds(m: Matrix, i: int, j: int)
    requires
        m.wf(),
        0 <= i < m.rows,
        0 <= j < m.cols,
    ensures
        0 <= i * m.cols + j < m.data@.len(),
{
    assert(i * m.cols + j < m.rows * m.cols) by (nonlinear_arith)
        requires
            0 <= i < m.rows,
            0 <= j < m.cols,
    ;
}

} // verus!


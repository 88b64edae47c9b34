//! The job pipeline behind a matrix multiplication.
//!
//! A multiplication is split into one job per output cell. A job carries the
//! destination index `i * cols + j`, the row of the left matrix and the
//! column of the right matrix; a reply carries the destination index back
//! with the computed value. The planner enumerates jobs row-major, the
//! round-robin rule assigns job `k` to worker `k % n`, and assembly writes
//! every reply by its recorded index, rejecting duplicates, out-of-range
//! indices and missing replies, so each output index is written exactly
//! once.

use vstd::prelude::*;

use crate::error::MatrixError;
use crate::matrix::Matrix;
use crate::vector::dot_product;
use crate::vector::dot_spec;
use crate::vector::Vector;

verus! {

/// One unit of work: compute the dot product of `row` and `col` and deliver
/// it to flat output index `idx`. Created immediately before dispatch and
/// consumed by exactly one worker.
pub struct MsgInput {
    /// Flat row-major destination index in the output buffer.
    pub idx: usize,
    /// The left matrix's row for this cell.
    pub row: Vector,
    /// The right matrix's column for this cell.
    pub col: Vector,
}

impl MsgInput {
    /// Bundles a destination index with the row and column it pairs.
    pub fn new(idx: usize, row: Vector, col: Vector) -> (r: MsgInput)
        ensures
            r.idx == idx,
            r.row@ == row@,
            r.col@ == col@,
    {
        MsgInput { idx, row, col }
    }
}

/// One worker's reply: the value for flat output index `idx`.
#[derive(Clone, Copy, Debug, PartialEq, Eq, Structural)]
pub struct MsgOutput {
    /// The destination index copied from the job.
    pub idx: usize,
    /// The computed dot product.
    pub value: i64,
}

impl MsgOutput {
    /// Pairs a destination index with its computed value.
    pub fn new(idx: usize, value: i64) -> (r: MsgOutput)
        ensures
            r.idx == idx,
            r.value == value,
    {
        MsgOutput { idx, value }
    }
}

/// Job `k` of a multiplication `a * b` is well-formed: it is addressed to
/// cell `k`, and carries row `k / b.cols` of `a` and column `k % b.cols` of
/// `b`.
pub open spec fn job_ok(jobs: Seq<MsgInput>, a: Matrix, b: Matrix, k: int) -> bool {
    &&& jobs[k].idx == k
    &&& jobs[k].row@ == a.row_spec(k / (b.cols as int))
    &&& jobs[k].col@ == b.col_spec(k % (b.cols as int))
}

/// The round-robin dispatch rule: job `idx` goes to worker `idx % workers`.
/// Keyed by destination index, not by arrival order, so the distribution of
/// work is deterministic and independent of submission timing.
pub fn worker_for_job(idx: usize, workers: usize) -> (r: usize)
    requires
        workers > 0,
    ensures
        r == idx % workers,
{
    idx % workers
}

/// Builds the full job list for `a * b` in row-major enumeration order: one
/// job per output cell, job `k` holding destination `k`, row `k / b.cols`
/// and column `k % b.cols`.
pub fn plan_jobs(a: &Matrix, b: &Matrix) -> (jobs: Vec<MsgInput>)
    requires
        a.wf(),
        b.wf(),
        a.cols == b.rows,
        a.rows * b.cols <= usize::MAX,
    ensures
        jobs@.len() == a.rows * b.cols,
        forall|k: int| 0 <= k < jobs@.len() ==> job_ok(jobs@, *a, *b, k),
{
    let mut jobs: Vec<MsgInput> = Vec::new();
    let mut i: usize = 0;
    while i < a.rows
        invariant
            a.wf(),
            b.wf(),
            a.cols == b.rows,
            a.rows * b.cols <= usize::MAX,
            i <= a.rows,
            jobs@.len() == i * b.cols,
            forall|k: int| 0 <= k < jobs@.len() ==> job_ok(jobs@, *a, *b, k),
        decreases a.rows - i,
    {
        let mut j: usize = 0;
        while j < b.cols
            invariant
                a.wf(),
                b.wf(),
                a.cols == b.rows,
                a.rows * b.cols <= usize::MAX,
                i < a.rows,
                j <= b.cols,
                jobs@.len() == i * b.cols + j,
                forall|k: int| 0 <= k < jobs@.len() ==> job_ok(jobs@, *a, *b, k),
            decreases b.cols - j,
        {
            proof {
                lemma_flat_index_in_bounds(a.rows as int, b.cols as int, i as int, j as int);
            }
            let idx: usize = i * b.cols + j;
            let row = a.row(i);
            let col = b.column(j);
            let job = MsgInput::new(idx, row, col);
            let ghost prev = jobs@;
            jobs.push(job);
            proof {
                vstd::arithmetic::div_mod::lemma_fundamental_div_mod_converse(
                    idx as int,
                    b.cols as int,
                    i as int,
                    j as int,
                );
                assert forall|k: int| 0 <= k < jobs@.len() implies job_ok(jobs@, *a, *b, k) by {
                    if k < prev.len() {
                        assert(jobs@[k] == prev[k]);
                        assert(job_ok(prev, *a, *b, k));
                    } else {
                        assert(jobs@[k] == job);
                    }
                }
            }
            j = j + 1;
        }
        proof {
            vstd::arithmetic::mul::lemma_mul_is_distributive_add_other_way(
                b.cols as int,
                i as int,
                1,
            );
        }
        i = i + 1;
    }
    jobs
}

/// Computes one job: the worker's step. Always produces an explicit reply,
/// success or failure, so the orchestrator never waits forever.
///
/// Succeeds exactly when the job's row and column have equal length, and
/// then carries the job's own destination index and the wrapping dot
/// product.
pub fn compute_job(job: MsgInput) -> (r: Result<MsgOutput, MatrixError>)
    ensures
        match r {
            Ok(o) => job.row@.len() == job.col@.len() && o.idx == job.idx && o.value == dot_spec(
                job.row@,
                job.col@,
            ),
            Err(e) => job.row@.len() != job.col@.len() && e == MatrixError::DimensionMismatch,
        },
{
    let idx: usize = job.idx;
    match dot_product(job.row, job.col) {
        Ok(value) => Ok(MsgOutput::new(idx, value)),
        Err(e) => Err(e),
    }
}

/// Every reply addresses an index inside the `n`-cell output buffer.
pub open spec fn replies_in_range(rs: Seq<MsgOutput>, n: int) -> bool {
    forall|p: int| 0 <= p < rs.len() ==> (#[trigger] rs[p].idx) < n
}

/// No two replies address the same destination index.
pub open spec fn replies_unique(rs: Seq<MsgOutput>) -> bool {
    forall|p: int, q: int| 0 <= p < q < rs.len() ==> rs[p].idx != rs[q].idx
}

/// Some reply addresses index `k`.
pub open spec fn covered(rs: Seq<MsgOutput>, k: int) -> bool {
    exists|p: int| 0 <= p < rs.len() && (#[trigger] rs[p].idx) == k
}

/// Every index in `[0, n)` is addressed by some reply.
pub open spec fn replies_cover(rs: Seq<MsgOutput>, n: int) -> bool {
    forall|k: int| 0 <= k < n ==> #[trigger] covered(rs, k)
}

/// How many entries of `s` are set.
pub open spec fn count_trues(s: Seq<bool>) -> nat
    decreases s.len(),
{
    if s.len() == 0 {
        0nat
    } else {
        count_trues(s.drop_last()) + if s.last() {
            1nat
        } else {
            0nat
        }
    }
}

/// Assembles the collected replies of one multiplication into the result
/// matrix, writing each value at its reply's recorded index.
///
/// Succeeds exactly when the replies' indices are all in range, pairwise
/// distinct, and cover every index of `[0, rows * cols)` — that is, every
/// output index is written exactly once. Any duplicate, out-of-range or
/// missing reply fails with `JobLost` instead of producing a partial
/// result.
pub fn assemble_replies(rows: usize, cols: usize, replies: Vec<MsgOutput>) -> (r: Result<
    Matrix,
    MatrixError,
>)
    requires
        rows * cols <= usize::MAX,
    ensures
        match r {
            Ok(m) => {
                &&& replies_in_range(replies@, rows * cols)
                &&& replies_unique(replies@)
                &&& replies_cover(replies@, rows * cols)
                &&& m.rows == rows
                &&& m.cols == cols
                &&& m.wf()
                &&& forall|p: int|
                    0 <= p < replies@.len() ==> m.data@[(#[trigger] replies@[p].idx) as int]
                        == replies@[p].value
            },
            Err(e) => {
                &&& e == MatrixError::JobLost
                &&& !(replies_in_range(replies@, rows * cols) && replies_unique(replies@)
                    && replies_cover(replies@, rows * cols))
            },
        },
{
    let n: usize = rows * cols;
    let mut data: Vec<i64> = Vec::new();
    let mut written: Vec<bool> = Vec::new();
    while data.len() < n
        invariant
            data@.len() <= n,
        decreases n - data@.len(),
    {
        data.push(0i64);
    }
    while written.len() < n
        invariant
            written@.len() <= n,
            count_trues(written@) == 0,
            forall|t: int| 0 <= t < written@.len() ==> !written@[t],
        decreases n - written@.len(),
    {
        proof {
            lemma_count_trues_push(written@, false);
        }
        written.push(false);
    }
    let mut count: usize = 0;
    let mut p: usize = 0;
    while p < replies.len()
        invariant
            n == rows * cols,
            data@.len() == n,
            written@.len() == n,
            p <= replies@.len(),
            count == count_trues(written@),
            count <= n,
            forall|t: int|
                0 <= t < n ==> (written@[t] <==> exists|q: int|
                    0 <= q < p && (#[trigger] replies@[q].idx) == t),
            forall|q: int| 0 <= q < p ==> (#[trigger] replies@[q].idx) < n,
            forall|q1: int, q2: int| 0 <= q1 < q2 < p ==> replies@[q1].idx != replies@[q2].idx,
            forall|q: int|
                0 <= q < p ==> data@[(#[trigger] replies@[q].idx) as int] == replies@[q].value,
        decreases replies@.len() - p,
    {
        let idx: usize = replies[p].idx;
        if idx >= n {
            proof {
                assert(!replies_in_range(replies@, rows * cols));
            }
            return Err(MatrixError::JobLost);
        }
        if written[idx] {
            proof {
                let q = choose|q: int| 0 <= q < p && (#[trigger] replies@[q].idx) == idx;
                assert(replies@[q].idx == replies@[p as int].idx);
                assert(!replies_unique(replies@));
            }
            return Err(MatrixError::JobLost);
        }
        data[idx] = replies[p].value;
        proof {
            lemma_count_trues_update(written@, idx as int);
        }
        written[idx] = true;
        proof {
            lemma_count_trues_le(written@);
            assert forall|t: int|
                0 <= t < n implies (written@[t] <==> exists|q: int|
                    0 <= q < p + 1 && (#[trigger] replies@[q].idx) == t) by {
                if t == idx {
                    assert(replies@[p as int].idx == t);
                }
            }
        }
        count = count + 1;
        p = p + 1;
    }
    if count != n {
        proof {
            lemma_count_trues_full(written@);
            assert(!(forall|t: int| 0 <= t < written@.len() ==> written@[t]));
            let t = choose|t: int| !(0 <= t < written@.len() ==> written@[t]);
            assert(!covered(replies@, t));
            assert(!replies_cover(replies@, rows * cols));
        }
        Err(MatrixError::JobLost)
    } else {
        proof {
            lemma_count_trues_full(written@);
            assert forall|k: int| 0 <= k < rows * cols implies covered(replies@, k) by {
                assert(written@[k]);
            }
        }
        Ok(Matrix { rows, cols, data })
    }
}

/// The flat index of a cell in range lies strictly below `rows * cols`.
proof fn lemma_flat_index_in_bounds(rows: int, cols: int, i: int, j: int)
    requires
        0 <= i < rows,
        0 <= j < cols,
    ensures
        0 <= i * cols + j < rows * cols,
{
    assert(i * cols + j < rows * cols) by (nonlinear_arith)
        requires
            0 <= i < rows,
            0 <= j < cols,
    ;
}

proof fn lemma_count_trues_push(s: Seq<bool>, x: bool)
    ensures
        count_trues(s.push(x)) == count_trues(s) + if x {
            1nat
        } else {
            0nat
        },
{
    assert(s.push(x).drop_last() =~= s);
    assert(s.push(x).last() == x);
}

/// Setting an unset entry raises the count by one.
proof fn lemma_count_trues_update(s: Seq<bool>, i: int)
    requires
        0 <= i < s.len(),
        !s[i],
    ensures
        count_trues(s.update(i, true)) == count_trues(s) + 1,
    decreases s.len(),
{
    if i == s.len() - 1 {
        assert(s.update(i, true).drop_last() =~= s.drop_last());
    } else {
        assert(s.update(i, true).drop_last() =~= s.drop_last().update(i, true));
        lemma_count_trues_update(s.drop_last(), i);
    }
}

proof fn lemma_count_trues_le(s: Seq<bool>)
    ensures
        count_trues(s) <= s.len(),
    decreases s.len(),
{
    if s.len() > 0 {
        lemma_count_trues_le(s.drop_last());
    }
}

/// The count reaches the length exactly when every entry is set.
proof fn lemma_count_trues_full(s: Seq<bool>)
    ensures
        count_trues(s) == s.len() <==> (forall|t: int| 0 <= t < s.len() ==> s[t]),
    decreases s.len(),
{
    if s.len() > 0 {
        lemma_count_trues_full(s.drop_last());
        lemma_count_trues_le(s.drop_last());
        if count_trues(s) == s.len() {
            assert(forall|t: int|
                0 <= t < s.len() - 1 ==> s[t] == s.drop_last()[t]);
        }
        if forall|t: int| 0 <= t < s.len() ==> s[t] {
            assert(forall|t: int|
                0 <= t < s.drop_last().len() ==> s.drop_last()[t]);
        }
    }
}

} // verus!

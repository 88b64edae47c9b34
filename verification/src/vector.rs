//! An immutable fixed-length sequence of `i64` elements with a dot-product
//! operation.
//!
//! The dot product uses wrapping add and wrapping multiply throughout: that
//! is this crate's explicit overflow policy, so the operation is total and
//! deterministic for every pair of equal-length vectors.

use vstd::prelude::*;

use crate::error::MatrixError;

verus! {

/// An immutable ordered sequence of numeric elements. One is built fresh for
/// each job from a matrix row or a strided matrix column.
#[derive(Debug)]
pub struct Vector {
    /// The elements, in order.
    pub data: Vec<i64>,
}

impl View for Vector {
    type V = Seq<i64>;

    open spec fn view(&self) -> Seq<i64> {
        self.data@
    }
}

impl Vector {
    /// Takes ownership of a sequence of elements.
    pub fn new(data: Vec<i64>) -> (r: Vector)
        ensures
            r@ == data@,
    {
        Vector { data }
    }

    /// The number of elements.
    pub fn len(&self) -> (r: usize)
        ensures
            r == self@.len(),
    {
        self.data.len()
    }
}

/// The wrapping sum of the first `k` element-wise products of `a` and `b`:
/// each partial product and each partial sum is reduced into `i64` range the
/// way `wrapping_mul` and `wrapping_add` reduce it.
pub open spec fn dot_prefix(a: Seq<i64>, b: Seq<i64>, k: int) -> i64
    decreases k,
{
    if k <= 0 {
        0i64
    } else {
        dot_prefix(a, b, k - 1).wrapping_add(a[k - 1].wrapping_mul(b[k - 1]))
    }
}

/// The full wrapping dot product of two equal-length sequences: the naive
/// left-to-right sum of element-wise products, under wrapping arithmetic.
pub open spec fn dot_spec(a: Seq<i64>, b: Seq<i64>) -> i64 {
    dot_prefix(a, b, a.len() as int)
}

/// The exact (unbounded integer) sum of the first `k` element-wise products.
pub open spec fn exact_dot_prefix(a: Seq<i64>, b: Seq<i64>, k: int) -> int
    decreases k,
{
    if k <= 0 {
        0int
    } else {
        exact_dot_prefix(a, b, k - 1) + a[k - 1] * b[k - 1]
    }
}

/// Computes the dot product of two vectors.
///
/// Fails with `DimensionMismatch` exactly when the lengths differ; otherwise
/// returns the wrapping sum of element-wise products.
pub fn dot_product(a: Vector, b: Vector) -> (r: Result<i64, MatrixError>)
    ensures
        match r {
            Ok(v) => a@.len() == b@.len() && v == dot_spec(a@, b@),
            Err(e) => a@.len() != b@.len() && e == MatrixError::DimensionMismatch,
        },
{
    if a.data.len() != b.data.len() {
        return Err(MatrixError::DimensionMismatch);
    }
    let n: usize = a.data.len();
    let mut acc: i64 = 0;
    let mut k: usize = 0;
    while k < n
        invariant
            n == a@.len(),
            n == b@.len(),
            k <= n,
            acc == dot_prefix(a@, b@, k as int),
        decreases n - k,
    {
        acc = acc.wrapping_add(a.data[k].wrapping_mul(b.data[k]));
        k = k + 1;
    }
    Ok(acc)
}

/// Wherever no partial product and no partial sum leaves `i64` range, the
/// wrapping dot product agrees with the exact mathematical sum
/// `Σ_k a[k] * b[k]`.
pub proof fn lemma_dot_matches_exact(a: Seq<i64>, b: Seq<i64>)
    requires
        forall|k: int|
            0 <= k < a.len() ==> i64::MIN <= #[trigger] (a[k] * b[k]) <= i64::MAX,
        forall|k: int|
            0 <= k <= a.len() ==> i64::MIN <= #[trigger] exact_dot_prefix(a, b, k) <= i64::MAX,
    ensures
        dot_spec(a, b) == exact_dot_prefix(a, b, a.len() as int),
{
    lemma_dot_prefix_matches_exact(a, b, a.len() as int);
}

proof fn lemma_dot_prefix_matches_exact(a: Seq<i64>, b: Seq<i64>, n: int)
    requires
        n <= a.len(),
        forall|k: int|
            0 <= k < a.len() ==> i64::MIN <= #[trigger] (a[k] * b[k]) <= i64::MAX,
        forall|k: int|
            0 <= k <= a.len() ==> i64::MIN <= #[trigger] exact_dot_prefix(a, b, k) <= i64::MAX,
    ensures
        dot_prefix(a, b, n) == exact_dot_prefix(a, b, n),
    decreases n,
{
    if n > 0 {
        lemma_dot_prefix_matches_exact(a, b, n - 1);
        lemma_wrapping_mul_exact(a[n - 1], b[n - 1]);
    }
}

/// A wrapping multiply whose exact product fits in `i64` returns exactly it.
proof fn lemma_wrapping_mul_exact(x: i64, y: i64)
    requires
        i64::MIN <= x * y <= i64::MAX,
    ensures
        x.wrapping_mul(y) == x * y,
{
    let p: int = x * y;
    let r: int = 0x1_0000_0000_0000_0000;
    if p >= 0 {
        vstd::arithmetic::div_mod::lemma_small_mod(p as nat, r as nat);
    } else {
        vstd::arithmetic::div_mod::lemma_mod_add_multiples_vanish(p, r);
        vstd::arithmetic::div_mod::lemma_small_mod((p + r) as nat, r as nat);
    }
}

} // verus!

use matrix_engine::dot_product;
use matrix_engine::MatrixError;
use matrix_engine::Vector;

#[test]
fn dot_product_matches_naive_sum() {
    let a = Vector::new(vec![1, 2, 3]);
    let b = Vector::new(vec![4, 5, 6]);
    assert_eq!(dot_product(a, b).unwrap(), 1 * 4 + 2 * 5 + 3 * 6);
}

#[test]
fn dot_product_of_empty_vectors_is_zero() {
    let a = Vector::new(vec![]);
    let b = Vector::new(vec![]);
    assert_eq!(dot_product(a, b).unwrap(), 0);
}

#[test]
fn dot_product_with_negatives() {
    let a = Vector::new(vec![-1, 2, -3]);
    let b = Vector::new(vec![5, -7, 11]);
    assert_eq!(dot_product(a, b).unwrap(), -5 - 14 - 33);
}

#[test]
fn dot_product_rejects_mismatched_lengths() {
    let a = Vector::new(vec![1, 2, 3]);
    let b = Vector::new(vec![1, 2]);
    assert_eq!(dot_product(a, b).unwrap_err(), MatrixError::DimensionMismatch);
}

#[test]
fn dot_product_wraps_on_overflow() {
    let a = Vector::new(vec![i64::MAX, 1]);
    let b = Vector::new(vec![2, 3]);
    let expected = i64::MAX.wrapping_mul(2).wrapping_add(3);
    assert_eq!(dot_product(a, b).unwrap(), expected);
}

#[test]
fn vector_len_counts_elements() {
    let a = Vector::new(vec![9, 9, 9, 9]);
    assert_eq!(a.len(), 4);
}

use matrix_engine::multiply_matrix;
use matrix_engine::Matrix;
use matrix_engine::MatrixError;

#[test]
fn test_matrix_multiplication() {
    let a = Matrix::new(3, 2, vec![1, 2, 3, 4, 5, 6]).unwrap();
    let b = Matrix::new(2, 3, vec![1, 2, 3, 4, 5, 6]).unwrap();
    let c = multiply_matrix(&a, &b).unwrap();
    assert_eq!(c.rows, 3);
    assert_eq!(c.cols, 3);
    assert_eq!(c.data, vec![9, 12, 15, 19, 26, 33, 29, 40, 51]);
    assert_eq!(c.render(), "{9 12 15, 19 26 33, 29 40 51}");
}

#[test]
fn test_matrix_multiplication_error() {
    let a = Matrix::new(3, 2, vec![1, 2, 3, 4, 5, 6]).unwrap();
    let b = Matrix::new(3, 2, vec![1, 2, 3, 4, 5, 6]).unwrap();
    let c = multiply_matrix(&a, &b);
    assert!(c.is_err());
}

#[test]
fn wrong_way_multiplication_is_dimension_error() {
    let a = Matrix::new(3, 2, vec![1, 2, 3, 4, 5, 6]).unwrap();
    let b = Matrix::new(2, 4, vec![1, 2, 3, 4, 5, 6, 7, 8]).unwrap();
    let c = multiply_matrix(&b, &a);
    assert_eq!(c.unwrap_err(), MatrixError::DimensionMismatch);
}

#[test]
fn three_by_two_times_two_by_four() {
    let a = Matrix::new(3, 2, vec![1, 2, 3, 4, 5, 6]).unwrap();
    let b = Matrix::new(2, 4, vec![1, 2, 3, 4, 5, 6, 7, 8]).unwrap();
    let c = multiply_matrix(&a, &b).unwrap();
    assert_eq!(c.rows, 3);
    assert_eq!(c.cols, 4);
    assert_eq!(c.data, vec![11, 14, 17, 20, 23, 30, 37, 44, 35, 46, 57, 68]);
}

#[test]
fn result_dimensions_follow_inputs() {
    let a = Matrix::new(4, 3, vec![0; 12]).unwrap();
    let b = Matrix::new(3, 5, vec![0; 15]).unwrap();
    let c = multiply_matrix(&a, &b).unwrap();
    assert_eq!(c.rows, 4);
    assert_eq!(c.cols, 5);
    assert_eq!(c.data.len(), 20);
}

#[test]
fn repeated_multiplication_is_deterministic() {
    let a = Matrix::new(2, 2, vec![7, -3, 0, 1_000_000_007]).unwrap();
    let b = Matrix::new(2, 2, vec![-9, 4, 123, -77]).unwrap();
    let c1 = multiply_matrix(&a, &b).unwrap();
    let c2 = multiply_matrix(&a, &b).unwrap();
    assert_eq!(c1.data, c2.data);
    assert_eq!(c1.rows, c2.rows);
    assert_eq!(c1.cols, c2.cols);
}

#[test]
fn multiplication_wraps_on_overflow() {
    let a = Matrix::new(1, 1, vec![i64::MAX]).unwrap();
    let b = Matrix::new(1, 1, vec![2]).unwrap();
    let c = multiply_matrix(&a, &b).unwrap();
    assert_eq!(c.data, vec![i64::MAX.wrapping_mul(2)]);
}

#[test]
fn construction_rejects_wrong_buffer_length() {
    let m = Matrix::new(2, 3, vec![1, 2, 3, 4, 5]);
    assert_eq!(m.unwrap_err(), MatrixError::DimensionMismatch);
}

#[test]
fn construction_accepts_exact_buffer() {
    let m = Matrix::new(2, 2, vec![1, 2, 3, 4]).unwrap();
    assert_eq!(m.rows, 2);
    assert_eq!(m.cols, 2);
    assert_eq!(m.data, vec![1, 2, 3, 4]);
}

#[test]
fn row_and_column_extraction() {
    let m = Matrix::new(3, 2, vec![1, 2, 3, 4, 5, 6]).unwrap();
    assert_eq!(m.row(1).data, vec![3, 4]);
    assert_eq!(m.column(0).data, vec![1, 3, 5]);
    assert_eq!(m.column(1).data, vec![2, 4, 6]);
}

#[test]
fn render_two_by_three() {
    let m = Matrix::new(2, 3, vec![1, 2, 3, 4, 5, 6]).unwrap();
    assert_eq!(m.render(), "{1 2 3, 4 5 6}");
}

#[test]
fn render_negative_and_large_values() {
    let m = Matrix::new(1, 3, vec![-5, 10, -1234567890123]).unwrap();
    assert_eq!(m.render(), "{-5 10 -1234567890123}");
}

#[test]
fn render_extreme_values() {
    let m = Matrix::new(1, 2, vec![i64::MIN, i64::MAX]).unwrap();
    assert_eq!(m.render(), "{-9223372036854775808 9223372036854775807}");
}

#[test]
fn render_single_cell_and_zero() {
    let m = Matrix::new(1, 1, vec![0]).unwrap();
    assert_eq!(m.render(), "{0}");
}

#[test]
fn empty_matrix_multiplication_and_render() {
    let a = Matrix::new(0, 0, vec![]).unwrap();
    let b = Matrix::new(0, 0, vec![]).unwrap();
    let c = multiply_matrix(&a, &b).unwrap();
    assert_eq!(c.rows, 0);
    assert_eq!(c.cols, 0);
    assert_eq!(c.data.len(), 0);
    assert_eq!(c.render(), "{}");
}

#[test]
fn empty_inner_dimension_gives_zero_matrix() {
    let a = Matrix::new(2, 0, vec![]).unwrap();
    let b = Matrix::new(0, 3, vec![]).unwrap();
    let c = multiply_matrix(&a, &b).unwrap();
    assert_eq!(c.rows, 2);
    assert_eq!(c.cols, 3);
    assert_eq!(c.data, vec![0, 0, 0, 0, 0, 0]);
}

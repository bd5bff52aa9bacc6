use matrix_kernel::{dense_matric_from_vector, matmul, DenseMatrix, Matrix, Scalar};

/// Single-precision elements.
#[derive(Clone, Copy, Debug, PartialEq)]
struct Real(f32);

impl Scalar for Real {
    // The three `*_spec` items describe the arithmetic to the verifier; no
    // compiled code calls them.
    fn zero_spec() -> Self {
        unreachable!()
    }

    fn plus_spec(self, _rhs: Self) -> Self {
        unreachable!()
    }

    fn times_spec(self, _rhs: Self) -> Self {
        unreachable!()
    }

    fn zero() -> Self {
        Real(0.0)
    }

    fn plus(self, rhs: Self) -> Self {
        Real(self.0 + rhs.0)
    }

    fn times(self, rhs: Self) -> Self {
        Real(self.0 * rhs.0)
    }
}

fn dense(row_major_data: Vec<f32>, n_rows: usize, n_cols: usize) -> DenseMatrix<Real> {
    assert_eq!(n_rows * n_cols, row_major_data.len());
    dense_matric_from_vector(row_major_data.into_iter().map(Real).collect(), n_rows, n_cols)
}

fn row_major_data(matrix: &DenseMatrix<Real>) -> Vec<f32> {
    matrix.row_major_data().iter().map(|element| element.0).collect()
}

#[test]
fn test_dense_matmul_0() {
    let a = dense(vec![1.0, 2.0, 3.0, 4.0, 5.0, 6.0], 3, 2);
    let b = dense(vec![1.0, 2.0, 3.0, 4.0, 5.0, 6.0], 2, 3);
    let result = matmul(&a, &b);
    assert_eq!(
        row_major_data(&result),
        vec![9.0, 12.0, 15.0, 19.0, 26.0, 33.0, 29.0, 40.0, 51.0]
    );
    assert_eq!(result.get_n_rows(), 3);
    assert_eq!(result.get_n_cols(), 3);
}

#[test]
fn test_dense_matmul_1() {
    let a = dense(vec![1., 2., 3., 4.], 2, 2);
    let result = matmul(&a, &a);
    assert_eq!(row_major_data(&result), vec![7.0, 10.0, 15.0, 22.0]);
    assert_eq!(result.get_n_cols(), 2);
    assert_eq!(result.get_n_rows(), 2);
}

#[test]
fn test_dense_matmul_2() {
    let a = dense(
        vec![
            1.0, 2.0, 6.0, 2.0, 4.0, 6.0, 3.0, 8.0, 5.0, 8.0, 7.0, 2.0, 8.0, 6.0, 9.0, 8.0, 3.0,
            7.0, 0.0, 7.0, 1.0, 2.0, 1.0, 2.0, 8.0, 4.0, 2.0, 3.0,
        ],
        4,
        7,
    );
    let b = dense(
        vec![
            5.0, 4.0, 3.0, 6.0, 7.0, 3.0, 5.0, 0.0, 3.0, 3.0, 9.0, 8.0, 6.0, 4.0, 6.0, 4.0, 6.0,
            9.0, 6.0, 3.0, 7.0, 7.0, 9.0, 0.0, 9.0, 1.0, 8.0, 8.0,
        ],
        7,
        4,
    );
    let result = matmul(&a, &b);
    assert_eq!(
        row_major_data(&result),
        vec![
            142.0, 117.0, 181.0, 98.0, 263.0, 179.0, 295.0, 194.0, 210.0, 147.0, 207.0, 114.0,
            136.0, 102.0, 143.0, 96.0
        ]
    );
    assert_eq!(result.get_n_rows(), 4);
    assert_eq!(result.get_n_cols(), 4);
}

#[test]
fn test_dense_matmul_3() {
    let a = dense(vec![5.0], 1, 1);
    let b = dense(vec![9.0], 1, 1);
    let result = matmul(&a, &b);
    assert_eq!(row_major_data(&result), vec![45.0]);
    assert_eq!(result.get_n_rows(), 1);
    assert_eq!(result.get_n_cols(), 1);
}

#[test]
fn test_dense_matmul_4() {
    let a = dense(vec![5.0], 1, 1);
    let b = dense(vec![9.0], 1, 1);
    let result = matmul(&a, &b);
    assert_eq!(row_major_data(&result), vec![45.0]);
    assert_eq!(result.get_n_rows(), 1);
    assert_eq!(result.get_n_cols(), 1);
}

#[test]
fn test_dense_matmul_5() {
    let a = dense(
        vec![9.0, 9.0, 2.0, 0.0, 3.0, 3.0, 1.0, 0.0, 8.0, 6.0, 5.0, 7.0, 0.0, 6.0, 3.0],
        5,
        3,
    );
    let b = dense(
        vec![
            5.0, 0.0, 8.0, 8.0, 3.0, 2.0, 1.0, 9.0, 4.0, 8.0, 2.0, 2.0, 3.0, 4.0, 7.0, 2.0, 0.0,
            8.0, 7.0, 3.0, 4.0,
        ],
        3,
        7,
    );
    let result = matmul(&a, &b);
    assert_eq!(
        row_major_data(&result),
        vec![
            140.0, 40.0, 144.0, 106.0, 59.0, 51.0, 53.0, 48.0, 18.0, 24.0, 30.0, 27.0, 18.0, 24.0,
            61.0, 16.0, 8.0, 72.0, 59.0, 26.0, 33.0, 124.0, 34.0, 88.0, 114.0, 77.0, 48.0, 54.0,
            75.0, 30.0, 48.0, 36.0, 33.0, 27.0, 36.0
        ]
    );
    assert_eq!(result.get_n_rows(), 5);
    assert_eq!(result.get_n_cols(), 7);
}

#[test]
fn test_dense_matmul_6() {
    let a = dense(vec![4.0, 4.5, 1.0, 0.0, 2.0, 4.5, 3.5], 7, 1);
    let b = dense(vec![4.5, 1.5, 4.0, 1.5, 3.0, 1.5, 2.5, 4.0, 0.5], 1, 9);
    let result = matmul(&a, &b);
    assert_eq!(
        row_major_data(&result),
        vec![
            18.0, 6.0, 16.0, 6.0, 12.0, 6.0, 10.0, 16.0, 2.0, 20.25, 6.75, 18.0, 6.75, 13.5, 6.75,
            11.25, 18.0, 2.25, 4.5, 1.5, 4.0, 1.5, 3.0, 1.5, 2.5, 4.0, 0.5, 0.0, 0.0, 0.0, 0.0,
            0.0, 0.0, 0.0, 0.0, 0.0, 9.0, 3.0, 8.0, 3.0, 6.0, 3.0, 5.0, 8.0, 1.0, 20.25, 6.75,
            18.0, 6.75, 13.5, 6.75, 11.25, 18.0, 2.25, 15.75, 5.25, 14.0, 5.25, 10.5, 5.25, 8.75,
            14.0, 1.75
        ]
    );
    assert_eq!(result.get_n_rows(), 7);
    assert_eq!(result.get_n_cols(), 9);
}

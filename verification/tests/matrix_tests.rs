use dense_matrix::matrix::{Matrix, MatrixError};

#[test]
fn shape_invariant_constructions() {
    let z: Matrix<i64> = Matrix::zeroes(3, 2);
    assert_eq!(z.rows, 3);
    assert_eq!(z.columns, 2);
    assert_eq!(z.contents.len(), 6);

    let o: Matrix<i64> = Matrix::ones(2, 5);
    assert_eq!(o.contents.len(), 10);

    let m: Matrix<i64> = Matrix::new(2, 3, vec![7, 8]).unwrap();
    assert_eq!(m.contents.len(), 6);

    let id: Matrix<i64> = Matrix::identity(4);
    assert_eq!(id.rows, 4);
    assert_eq!(id.columns, 4);
    assert_eq!(id.contents.len(), 16);
}

#[test]
fn shape_invariant_results() {
    let a: Matrix<i64> = Matrix::new(2, 3, vec![1, 2, 3, 4, 5, 6]).unwrap();
    let b: Matrix<i64> = Matrix::ones(2, 3);
    let s = a.add(b).unwrap();
    assert_eq!(s.contents.len(), s.rows * s.columns);

    let c: Matrix<i64> = Matrix::new(3, 2, vec![1, 2, 3, 4, 5, 6]).unwrap();
    let d: Matrix<i64> = Matrix::new(2, 4, vec![1, 2, 3, 4, 5, 6, 7, 8]).unwrap();
    let p = c.multiply(d).unwrap();
    assert_eq!(p.contents.len(), p.rows * p.columns);
}

#[test]
fn construction_values() {
    let z: Matrix<i64> = Matrix::zeroes(2, 2);
    assert_eq!(z.contents, vec![0, 0, 0, 0]);

    let o: Matrix<i64> = Matrix::ones(2, 2);
    assert_eq!(o.contents, vec![1, 1, 1, 1]);

    let id: Matrix<i64> = Matrix::identity(3);
    assert_eq!(id.contents, vec![1, 0, 0, 0, 1, 0, 0, 0, 1]);
}

#[test]
fn construction_padding() {
    let m: Matrix<i64> = Matrix::new(2, 3, vec![9, 8, 7]).unwrap();
    assert_eq!(m.rows, 2);
    assert_eq!(m.columns, 3);
    assert_eq!(m.contents, vec![9, 8, 7, 0, 0, 0]);
}

#[test]
fn construction_exact_fit() {
    let m: Matrix<i64> = Matrix::new(2, 2, vec![1, 2, 3, 4]).unwrap();
    assert_eq!(m.contents, vec![1, 2, 3, 4]);
}

#[test]
fn construction_overflow() {
    let r: Result<Matrix<i64>, MatrixError> = Matrix::new(2, 2, vec![1, 2, 3, 4, 5]);
    assert_eq!(r, Err(MatrixError::ShapeOverflow));
}

#[test]
fn addition_identity() {
    let a: Matrix<i64> = Matrix::new(2, 2, vec![3, -1, 4, 1]).unwrap();
    let z: Matrix<i64> = Matrix::zeroes(a.rows, a.columns);
    let expected = a.contents.clone();
    let s = a.add(z).unwrap();
    assert_eq!(s.rows, 2);
    assert_eq!(s.columns, 2);
    assert_eq!(s.contents, expected);
}

#[test]
fn addition_commutes() {
    let a1: Matrix<i64> = Matrix::new(2, 3, vec![1, -2, 3, -4, 5, -6]).unwrap();
    let b1: Matrix<i64> = Matrix::new(2, 3, vec![10, 20, 30, 40, 50, 60]).unwrap();
    let a2: Matrix<i64> = Matrix::new(2, 3, vec![1, -2, 3, -4, 5, -6]).unwrap();
    let b2: Matrix<i64> = Matrix::new(2, 3, vec![10, 20, 30, 40, 50, 60]).unwrap();
    let s1 = a1.add(b1).unwrap();
    let s2 = b2.add(a2).unwrap();
    assert_eq!(s1.contents, s2.contents);
    assert_eq!(s1.contents, vec![11, 18, 33, 36, 55, 54]);
}

#[test]
fn addition_wraps() {
    let a: Matrix<i64> = Matrix::new(1, 1, vec![i64::MAX]).unwrap();
    let b: Matrix<i64> = Matrix::new(1, 1, vec![1]).unwrap();
    let s = a.add(b).unwrap();
    assert_eq!(s.contents, vec![i64::MIN]);
}

#[test]
fn multiplication_identity() {
    let a: Matrix<i64> = Matrix::new(3, 3, vec![2, -3, 5, 7, 11, -13, 17, 19, 23]).unwrap();
    let expected = a.contents.clone();
    let id: Matrix<i64> = Matrix::identity(3);
    let p = a.multiply(id).unwrap();
    assert_eq!(p.rows, 3);
    assert_eq!(p.columns, 3);
    assert_eq!(p.contents, expected);
}

#[test]
fn multiplication_shape() {
    let a: Matrix<i64> = Matrix::new(2, 3, vec![1, 2, 3, 4, 5, 6]).unwrap();
    let b: Matrix<i64> = Matrix::new(3, 4, vec![1, 0, 0, 0, 0, 1, 0, 0, 0, 0, 1, 0]).unwrap();
    let p = a.multiply(b).unwrap();
    assert_eq!(p.rows, 2);
    assert_eq!(p.columns, 4);
}

#[test]
fn multiplication_values() {
    let a: Matrix<i64> = Matrix::new(2, 3, vec![1, 2, 3, 4, 5, 6]).unwrap();
    let b: Matrix<i64> = Matrix::new(3, 2, vec![7, 8, 9, 10, 11, 12]).unwrap();
    let p = a.multiply(b).unwrap();
    assert_eq!(p.rows, 2);
    assert_eq!(p.columns, 2);
    assert_eq!(p.contents, vec![58, 64, 139, 154]);
}

#[test]
fn hadamard_values() {
    let a: Matrix<i64> = Matrix::new(2, 2, vec![1, -2, 3, -4]).unwrap();
    let b: Matrix<i64> = Matrix::new(2, 2, vec![5, 6, -7, 8]).unwrap();
    let h = a.hadamard(b).unwrap();
    assert_eq!(h.contents, vec![5, -12, -21, -32]);
}

#[test]
fn dimension_mismatch_add() {
    let a: Matrix<i64> = Matrix::zeroes(2, 3);
    let b: Matrix<i64> = Matrix::zeroes(3, 2);
    let r = a.add(b);
    assert_eq!(
        r,
        Err(MatrixError::DimensionMismatch {
            left_rows: 2,
            left_columns: 3,
            right_rows: 3,
            right_columns: 2,
        })
    );
}

#[test]
fn dimension_mismatch_hadamard() {
    let a: Matrix<i64> = Matrix::ones(2, 3);
    let b: Matrix<i64> = Matrix::ones(3, 2);
    let r = a.hadamard(b);
    assert_eq!(
        r,
        Err(MatrixError::DimensionMismatch {
            left_rows: 2,
            left_columns: 3,
            right_rows: 3,
            right_columns: 2,
        })
    );
}

#[test]
fn multiplication_mismatch() {
    let a: Matrix<i64> = Matrix::ones(2, 3);
    let b: Matrix<i64> = Matrix::ones(2, 3);
    let r = a.multiply(b);
    assert_eq!(
        r,
        Err(MatrixError::DimensionMismatch {
            left_rows: 2,
            left_columns: 3,
            right_rows: 2,
            right_columns: 3,
        })
    );
}

#[test]
fn non_commutativity() {
    let a: Matrix<i64> = Matrix::new(2, 3, vec![1, 2, 3, 4, 5, 6]).unwrap();
    let b: Matrix<i64> = Matrix::new(3, 2, vec![6, 5, 4, 3, 2, 1]).unwrap();
    let a2: Matrix<i64> = Matrix::new(2, 3, vec![1, 2, 3, 4, 5, 6]).unwrap();
    let b2: Matrix<i64> = Matrix::new(3, 2, vec![6, 5, 4, 3, 2, 1]).unwrap();
    let ab = a.multiply(b).unwrap();
    let ba = b2.multiply(a2).unwrap();
    assert_eq!((ab.rows, ab.columns), (2, 2));
    assert_eq!((ba.rows, ba.columns), (3, 3));
    // Results of different shapes can never be equal matrices.
    assert_ne!((ab.rows, ab.columns), (ba.rows, ba.columns));
}

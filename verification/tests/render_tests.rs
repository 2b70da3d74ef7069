use dense_matrix::matrix::Matrix;

#[test]
fn formatting_example() {
    let m: Matrix<i64> = Matrix::new(2, 2, vec![1, 2, 3, 4]).unwrap();
    let expected = "\u{250c}    \u{2510}\n\u{2502} 1 2 \u{2502}\n\u{2502} 3 4 \u{2502}\n\u{2514}    \u{2518}";
    assert_eq!(m.render(), expected);
}

#[test]
fn formatting_alignment() {
    // Widest element is "100" (3 chars), so every cell is right-justified
    // to width 3 and followed by one space.
    let m: Matrix<i64> = Matrix::new(2, 2, vec![1, 100, -7, 4]).unwrap();
    let expected = "\u{250c}        \u{2510}\n\u{2502}   1 100 \u{2502}\n\u{2502}  -7   4 \u{2502}\n\u{2514}        \u{2518}";
    assert_eq!(m.render(), expected);
}

#[test]
fn formatting_negative_numbers() {
    let m: Matrix<i64> = Matrix::new(1, 2, vec![-5, 12]).unwrap();
    let expected = "\u{250c}      \u{2510}\n\u{2502} -5 12 \u{2502}\n\u{2514}      \u{2518}";
    assert_eq!(m.render(), expected);
}

#[test]
fn formatting_empty_matrix() {
    let m: Matrix<i64> = Matrix::zeroes(0, 0);
    assert_eq!(m.render(), "\u{250c}\u{2510}\n\u{2514}\u{2518}");
}

#[test]
fn formatting_zero_columns() {
    let m: Matrix<i64> = Matrix::zeroes(2, 0);
    assert_eq!(m.render(), "\u{250c}\u{2510}\n\u{2502} \u{2502}\n\u{2502} \u{2502}\n\u{2514}\u{2518}");
}

#[test]
fn formatting_zero_rows() {
    let m: Matrix<i64> = Matrix::zeroes(0, 3);
    // Width of the widest element over an empty buffer is zero, so the
    // interior is (0 + 1) * 3 spaces.
    assert_eq!(m.render(), "\u{250c}   \u{2510}\n\u{2514}   \u{2518}");
}

#[test]
fn formatting_single_digit_rows() {
    let m: Matrix<i64> = Matrix::new(3, 1, vec![7, 8, 9]).unwrap();
    let expected = "\u{250c}  \u{2510}\n\u{2502} 7 \u{2502}\n\u{2502} 8 \u{2502}\n\u{2502} 9 \u{2502}\n\u{2514}  \u{2518}";
    assert_eq!(m.render(), expected);
}

use matrix::{Matrix, MatrixError};

fn rows(cells: &[&[i64]]) -> Matrix<i64> {
    let mut m = Matrix::new(0i64, cells.len(), cells[0].len()).unwrap();
    for i in 0..cells.len() {
        for j in 0..cells[i].len() {
            m.set(i, j, cells[i][j]).unwrap();
        }
    }
    m
}

#[test]
fn new_refuses_zero_rows() {
    assert!(matches!(Matrix::new(1i32, 0, 3), Err(MatrixError::InvalidShape)));
}

#[test]
fn new_refuses_zero_columns() {
    assert!(matches!(Matrix::new(1i32, 3, 0), Err(MatrixError::InvalidShape)));
}

#[test]
fn new_accepts_single_cell() {
    let m = Matrix::new(7i32, 1, 1).unwrap();
    assert_eq!(m.len(), (1, 1));
    assert_eq!(m.get(0, 0), Ok(7));
}

#[test]
fn get_refuses_positions_outside() {
    let m = rows(&[&[1, 2, 3], &[4, 5, 6]]);
    assert_eq!(m.get(2, 0), Err(MatrixError::IndexOutOfRange));
    assert_eq!(m.get(0, 3), Err(MatrixError::IndexOutOfRange));
    assert_eq!(m.get(1, 2), Ok(6));
}

#[test]
fn set_refuses_positions_outside_and_changes_nothing() {
    let mut m = rows(&[&[1, 2, 3], &[4, 5, 6]]);
    assert_eq!(m.set(2, 0, 9), Err(MatrixError::IndexOutOfRange));
    assert_eq!(m.set(0, 3, 9), Err(MatrixError::IndexOutOfRange));
    assert!(m.equals(&rows(&[&[1, 2, 3], &[4, 5, 6]])));
}

#[test]
fn add_refuses_different_shapes() {
    let r = rows(&[&[1, 2]]).add(rows(&[&[1], &[2]]));
    assert!(matches!(r, Err(MatrixError::ShapeMismatch)));
}

#[test]
fn sub_refuses_different_shapes() {
    let r = rows(&[&[1, 2], &[3, 4]]).sub(rows(&[&[1, 2, 3], &[4, 5, 6]]));
    assert!(matches!(r, Err(MatrixError::ShapeMismatch)));
}

#[test]
fn mul_refuses_inner_dimensions_that_differ() {
    let r = rows(&[&[1, 2], &[3, 4]]).mul(rows(&[&[1, 2, 3]]));
    assert!(matches!(r, Err(MatrixError::ShapeMismatch)));
}

#[test]
fn minor_refuses_small_matrices() {
    assert!(matches!(rows(&[&[1, 2, 3]]).reduse_matrix(0, 0), Err(MatrixError::InvalidShape)));
    assert!(matches!(rows(&[&[1], &[2]]).reduse_matrix(0, 0), Err(MatrixError::InvalidShape)));
    assert!(matches!(rows(&[&[1]]).reduse_matrix(5, 5), Err(MatrixError::InvalidShape)));
}

#[test]
fn minor_refuses_positions_outside() {
    let m = rows(&[&[1, 2], &[3, 4]]);
    assert!(matches!(m.reduse_matrix(2, 0), Err(MatrixError::IndexOutOfRange)));
    assert!(matches!(m.reduse_matrix(0, 2), Err(MatrixError::IndexOutOfRange)));
}

#[test]
fn determinant_refuses_non_square() {
    assert_eq!(rows(&[&[1, 2, 3], &[4, 5, 6]]).determinant::<i64>(), Err(MatrixError::NotSquare));
}

#[test]
fn cofactors_refuse_non_square() {
    let r = rows(&[&[1, 2, 3], &[4, 5, 6]]).calc_complements::<i64>();
    assert!(matches!(r, Err(MatrixError::NotSquare)));
    let r = rows(&[&[1, 2, 3]]).calc_complements::<i64>();
    assert!(matches!(r, Err(MatrixError::NotSquare)));
}

#[test]
fn cofactors_refuse_single_cell() {
    assert!(matches!(rows(&[&[3]]).calc_complements::<i64>(), Err(MatrixError::InvalidShape)));
}

#[test]
fn inverse_refuses_non_square() {
    let m = Matrix::new(1.0f64, 2, 3).unwrap();
    assert!(matches!(m.inverse_matrix::<f64>(), Err(MatrixError::NotSquare)));
}

#[test]
fn inverse_refuses_singular() {
    let m = Matrix::new(4.0f64, 3, 3).unwrap();
    assert!(matches!(m.inverse_matrix::<f64>(), Err(MatrixError::Singular)));
    let z = Matrix::new(0.0f64, 1, 1).unwrap();
    assert!(matches!(z.inverse_matrix::<f64>(), Err(MatrixError::Singular)));
}

#[test]
fn inverse_refuses_single_cell() {
    let m = Matrix::new(2.0f64, 1, 1).unwrap();
    assert!(matches!(m.inverse_matrix::<f64>(), Err(MatrixError::InvalidShape)));
}

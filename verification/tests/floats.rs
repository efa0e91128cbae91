use matrix::Matrix;

fn close(a: f64, b: f64) -> bool {
    (a - b).abs() <= 1e-6
}

fn sample() -> Matrix<f64> {
    let mut m = Matrix::new(4.0f64, 3, 3).unwrap();
    m.set(0, 0, 5.0).unwrap();
    m.set(2, 2, 5.0).unwrap();
    m
}

#[test]
fn new_then_set_changes_one_cell() {
    let mut m = Matrix::new(5.5f64, 3, 3).unwrap();
    assert_eq!(m.set(2, 0, 2.0), Ok(()));
    assert_eq!(m.len(), (3, 3));
    for i in 0..3 {
        for j in 0..3 {
            let expected = if (i, j) == (2, 0) { 2.0 } else { 5.5 };
            assert_eq!(m.get(i, j), Ok(expected));
        }
    }
}

#[test]
fn sum_of_filled_matrices() {
    let a = Matrix::new(2.0f32, 3, 3).unwrap();
    let b = Matrix::new(3.0f32, 3, 3).unwrap();
    let s = a.add(b).unwrap();
    assert_eq!(s.len(), (3, 3));
    for i in 0..3 {
        for j in 0..3 {
            assert_eq!(s.get(i, j), Ok(5.0));
        }
    }
}

#[test]
fn difference_of_filled_matrices() {
    let a = Matrix::new(7.0f32, 3, 3).unwrap();
    let b = Matrix::new(3.0f32, 3, 3).unwrap();
    let d = a.sub(b).unwrap();
    assert_eq!(d.len(), (3, 3));
    for i in 0..3 {
        for j in 0..3 {
            assert_eq!(d.get(i, j), Ok(4.0));
        }
    }
}

#[test]
fn product_of_filled_matrices() {
    let a = Matrix::new(4.0f32, 2, 3).unwrap();
    let b = Matrix::new(5.0f32, 3, 2).unwrap();
    let p = a.mul(b).unwrap();
    assert_eq!(p.len(), (2, 2));
    for i in 0..2 {
        for j in 0..2 {
            assert_eq!(p.get(i, j), Ok(60.0));
        }
    }
}

#[test]
fn determinant_of_sample() {
    // 5 * (4 * 5 - 4 * 4) - 4 * (4 * 5 - 4 * 4) + 4 * (4 * 4 - 4 * 4)
    assert_eq!(sample().determinant::<f64>(), Ok(4.0));
}

#[test]
fn cofactors_of_sample() {
    let c = sample().calc_complements::<f64>().unwrap();
    let expected = [[4.0, -4.0, 0.0], [-4.0, 9.0, -4.0], [0.0, -4.0, 4.0]];
    assert_eq!(c.len(), (3, 3));
    for i in 0..3 {
        for j in 0..3 {
            assert!(close(c.get(i, j).unwrap(), expected[i][j]));
        }
    }
}

#[test]
fn inverse_of_sample_times_sample_is_identity() {
    let inv = sample().inverse_matrix::<f64>().unwrap();
    let p = inv.mul(sample()).unwrap();
    assert_eq!(p.len(), (3, 3));
    for i in 0..3 {
        for j in 0..3 {
            let expected = if i == j { 1.0 } else { 0.0 };
            assert!(close(p.get(i, j).unwrap(), expected));
        }
    }
}

#[test]
fn sample_times_inverse_of_sample_is_identity() {
    let inv = sample().inverse_matrix::<f64>().unwrap();
    let p = sample().mul(inv).unwrap();
    for i in 0..3 {
        for j in 0..3 {
            let expected = if i == j { 1.0 } else { 0.0 };
            assert!(close(p.get(i, j).unwrap(), expected));
        }
    }
}

#[test]
fn inverse_of_sample_cells() {
    let inv = sample().inverse_matrix::<f64>().unwrap();
    let expected = [[1.0, -1.0, 0.0], [-1.0, 2.25, -1.0], [0.0, -1.0, 1.0]];
    for i in 0..3 {
        for j in 0..3 {
            assert!(close(inv.get(i, j).unwrap(), expected[i][j]));
        }
    }
}

#[test]
fn equals_compares_shape_and_cells() {
    let a = Matrix::new(2.0f32, 2, 2).unwrap();
    assert!(a.equals(&Matrix::new(2.0f32, 2, 2).unwrap()));
    assert!(!a.equals(&Matrix::new(3.0f32, 2, 2).unwrap()));
    assert!(!a.equals(&Matrix::new(2.0f32, 2, 3).unwrap()));
}

#[test]
fn scaling_doubles_every_cell() {
    let mut m = Matrix::new(4.0f32, 2, 2).unwrap();
    m.mul_matrix_by_value(2.0);
    assert!(m.equals(&Matrix::new(8.0f32, 2, 2).unwrap()));
}

#[test]
fn transpose_swaps_the_shape() {
    let mut m = Matrix::new(4.0f32, 3, 2).unwrap();
    m.transpose();
    assert_eq!(m.len(), (2, 3));
    assert!(m.equals(&Matrix::new(4.0f32, 2, 3).unwrap()));
}

#[test]
fn minor_of_filled_four_by_four() {
    let m = Matrix::new(4.0f32, 4, 4).unwrap();
    let r = m.reduse_matrix(1, 1).unwrap();
    assert!(r.equals(&Matrix::new(4.0f32, 3, 3).unwrap()));
}

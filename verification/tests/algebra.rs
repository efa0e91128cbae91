use matrix::Matrix;

fn rows(cells: &[&[i64]]) -> Matrix<i64> {
    let mut m = Matrix::new(0i64, cells.len(), cells[0].len()).unwrap();
    for i in 0..cells.len() {
        for j in 0..cells[i].len() {
            m.set(i, j, cells[i][j]).unwrap();
        }
    }
    m
}

fn a() -> Matrix<i64> {
    rows(&[&[1, -2, 3], &[4, 5, -6]])
}

fn b() -> Matrix<i64> {
    rows(&[&[7, 8, 9], &[-1, 0, 2]])
}

fn c() -> Matrix<i64> {
    rows(&[&[3, 3, -4], &[10, -20, 30]])
}

fn identity(n: usize) -> Matrix<i64> {
    let mut m = Matrix::new(0i64, n, n).unwrap();
    for i in 0..n {
        m.set(i, i, 1).unwrap();
    }
    m
}

fn square() -> Matrix<i64> {
    rows(&[&[2, 0, 1, 3], &[1, 4, -1, 0], &[0, 5, 2, 6], &[7, -2, 0, 1]])
}

#[test]
fn transpose_moves_each_cell() {
    let mut m = a();
    m.transpose();
    assert_eq!(m.len(), (3, 2));
    assert!(m.equals(&rows(&[&[1, 4], &[-2, 5], &[3, -6]])));
}

#[test]
fn transpose_twice_is_the_matrix() {
    let mut m = a();
    m.transpose();
    m.transpose();
    assert_eq!(m.len(), (2, 3));
    assert!(m.equals(&a()));
}

#[test]
fn addition_commutes() {
    let left = a().add(b()).unwrap();
    let right = b().add(a()).unwrap();
    assert!(left.equals(&right));
    assert!(left.equals(&rows(&[&[8, 6, 12], &[3, 5, -4]])));
}

#[test]
fn addition_associates() {
    let left = a().add(b()).unwrap().add(c()).unwrap();
    let right = a().add(b().add(c()).unwrap()).unwrap();
    assert!(left.equals(&right));
}

#[test]
fn subtraction_undoes_addition() {
    let back = a().add(b()).unwrap().sub(b()).unwrap();
    assert!(back.equals(&a()));
}

#[test]
fn subtraction_cells() {
    let d = a().sub(b()).unwrap();
    assert!(d.equals(&rows(&[&[-6, -10, -6], &[5, 5, -8]])));
}

#[test]
fn product_cells() {
    let p = rows(&[&[1, 2], &[3, 4]]).mul(rows(&[&[5, 6], &[7, 8]])).unwrap();
    assert!(p.equals(&rows(&[&[19, 22], &[43, 50]])));
}

#[test]
fn product_needs_only_matching_inner_dimensions() {
    let left = rows(&[&[1, 2, 3], &[4, 5, 6]]);
    let right = rows(&[&[1, 0, 2, 0], &[0, 1, 0, 2], &[1, 1, 1, 1]]);
    let p = left.mul(right).unwrap();
    assert_eq!(p.len(), (2, 4));
    assert!(p.equals(&rows(&[&[4, 5, 5, 7], &[10, 11, 14, 16]])));
}

#[test]
fn product_of_row_and_column() {
    let p = rows(&[&[1, 2, 3]]).mul(rows(&[&[4], &[5], &[6]])).unwrap();
    assert_eq!(p.len(), (1, 1));
    assert_eq!(p.get(0, 0), Ok(32));
}

#[test]
fn identity_is_neutral_on_both_sides() {
    let right = a().mul(identity(3)).unwrap();
    assert!(right.equals(&a()));
    let left = identity(2).mul(a()).unwrap();
    assert!(left.equals(&a()));
}

#[test]
fn multiplication_associates() {
    let x = rows(&[&[1, 2], &[3, 4], &[5, 6]]);
    let y = rows(&[&[1, -1, 2], &[0, 3, 1]]);
    let z = rows(&[&[2, 1], &[0, -1], &[4, 3]]);
    let left = x.mul(y).unwrap().mul(z).unwrap();
    let x = rows(&[&[1, 2], &[3, 4], &[5, 6]]);
    let y = rows(&[&[1, -1, 2], &[0, 3, 1]]);
    let z = rows(&[&[2, 1], &[0, -1], &[4, 3]]);
    let right = x.mul(y.mul(z).unwrap()).unwrap();
    assert_eq!(left.len(), (3, 2));
    assert!(left.equals(&right));
}

#[test]
fn scaling_by_one_changes_nothing() {
    let mut m = a();
    m.mul_matrix_by_value(1);
    assert!(m.equals(&a()));
}

#[test]
fn scaling_twice_is_scaling_by_the_product() {
    let mut twice = a();
    twice.mul_matrix_by_value(3);
    twice.mul_matrix_by_value(-5);
    let mut once = a();
    once.mul_matrix_by_value(3 * -5);
    assert!(twice.equals(&once));
    assert!(once.equals(&rows(&[&[-15, 30, -45], &[-60, -75, 90]])));
}

#[test]
fn equals_is_cell_by_cell() {
    assert!(a().equals(&a()));
    let mut other = a();
    other.set(1, 2, 0).unwrap();
    assert!(!a().equals(&other));
    assert!(!a().equals(&rows(&[&[1, -2], &[3, 4], &[5, -6]])));
}

#[test]
fn minor_keeps_the_other_cells_in_order() {
    let m = rows(&[&[1, 2, 3, 4], &[5, 6, 7, 8], &[9, 10, 11, 12]]);
    let r = m.reduse_matrix(1, 2).unwrap();
    assert_eq!(r.len(), (2, 3));
    assert!(r.equals(&rows(&[&[1, 2, 4], &[9, 10, 12]])));
}

#[test]
fn minor_at_every_position_has_one_row_and_column_less() {
    let m = rows(&[&[1, 2, 3, 4], &[5, 6, 7, 8], &[9, 10, 11, 12]]);
    for r in 0..3 {
        for c in 0..4 {
            let minor = m.reduse_matrix(r, c).unwrap();
            assert_eq!(minor.len(), (2, 3));
            for i in 0..2 {
                for j in 0..3 {
                    let from_row = if i < r { i } else { i + 1 };
                    let from_col = if j < c { j } else { j + 1 };
                    assert_eq!(minor.get(i, j), m.get(from_row, from_col));
                }
            }
        }
    }
}

#[test]
fn determinant_of_single_cell() {
    assert_eq!(rows(&[&[-7]]).determinant::<i64>(), Ok(-7));
}

#[test]
fn determinant_of_two_rows() {
    assert_eq!(rows(&[&[3, 8], &[4, 6]]).determinant::<i64>(), Ok(-14));
}

#[test]
fn determinant_of_three_rows() {
    let m = rows(&[&[6, 1, 1], &[4, -2, 5], &[2, 8, 7]]);
    assert_eq!(m.determinant::<i64>(), Ok(-306));
}

#[test]
fn determinant_of_four_rows() {
    assert_eq!(square().determinant::<i64>(), Ok(-50));
}

#[test]
fn determinant_in_a_wider_type() {
    let mut m = Matrix::new(0i32, 2, 2).unwrap();
    m.set(0, 0, 3).unwrap();
    m.set(0, 1, 8).unwrap();
    m.set(1, 0, 4).unwrap();
    m.set(1, 1, 6).unwrap();
    assert_eq!(m.determinant::<i64>(), Ok(-14i64));
    assert_eq!(m.determinant::<f64>(), Ok(-14.0f64));
}

#[test]
fn determinant_of_transpose_is_the_determinant() {
    let mut t = square();
    t.transpose();
    assert_eq!(t.determinant::<i64>(), square().determinant::<i64>());
    let m = rows(&[&[6, 1, 1], &[4, -2, 5], &[2, 8, 7]]);
    let mut t = rows(&[&[6, 1, 1], &[4, -2, 5], &[2, 8, 7]]);
    t.transpose();
    assert_eq!(t.determinant::<i64>(), m.determinant::<i64>());
}

#[test]
fn cofactors_of_two_rows() {
    let c = rows(&[&[1, 2], &[3, 4]]).calc_complements::<i64>().unwrap();
    assert!(c.equals(&rows(&[&[4, -3], &[-2, 1]])));
}

#[test]
fn cofactors_of_three_rows() {
    let c = rows(&[&[1, 2, 3], &[0, 4, 5], &[1, 0, 6]]).calc_complements::<i64>().unwrap();
    assert!(c.equals(&rows(&[&[24, 5, -4], &[-12, 3, 2], &[-2, -5, 4]])));
}

#[test]
fn inverse_with_determinant_one_is_exact_in_integers() {
    let inv = rows(&[&[2, 1], &[1, 1]]).inverse_matrix::<i64>().unwrap();
    assert!(inv.equals(&rows(&[&[1, -1], &[-1, 2]])));
}

#[test]
fn inverse_of_two_rows_in_floating_point() {
    let mut m = Matrix::new(0.0f64, 2, 2).unwrap();
    m.set(0, 0, 4.0).unwrap();
    m.set(0, 1, 7.0).unwrap();
    m.set(1, 0, 2.0).unwrap();
    m.set(1, 1, 6.0).unwrap();
    let inv = m.inverse_matrix::<f64>().unwrap();
    let expected = [[0.6, -0.7], [-0.2, 0.4]];
    for i in 0..2 {
        for j in 0..2 {
            assert!((inv.get(i, j).unwrap() - expected[i][j]).abs() <= 1e-6);
        }
    }
}

#[test]
fn matrix_times_transposed_cofactors_is_determinant_times_identity() {
    let det = square().determinant::<i64>().unwrap();
    let mut adjugate = square().calc_complements::<i64>().unwrap();
    adjugate.transpose();
    let p = square().mul(adjugate).unwrap();
    let mut expected = identity(4);
    expected.mul_matrix_by_value(det);
    assert!(p.equals(&expected));
}

#[test]
fn determinant_with_two_equal_rows_is_zero() {
    let m = rows(&[&[1, 2, 3], &[4, 5, 6], &[1, 2, 3]]);
    assert_eq!(m.determinant::<i64>(), Ok(0));
}

#[test]
fn exchanging_neighbouring_rows_negates_the_determinant() {
    let m = rows(&[&[6, 1, 1], &[4, -2, 5], &[2, 8, 7]]);
    let e = rows(&[&[6, 1, 1], &[2, 8, 7], &[4, -2, 5]]);
    assert_eq!(e.determinant::<i64>(), Ok(306));
    assert_eq!(m.determinant::<i64>(), Ok(-306));
}

#[test]
fn matrix_with_determinant_one_times_its_inverse_is_identity() {
    let m = rows(&[&[2, 1], &[1, 1]]);
    let inv = m.inverse_matrix::<i64>().unwrap();
    let p = rows(&[&[2, 1], &[1, 1]]).mul(inv).unwrap();
    assert!(p.equals(&identity(2)));
    let m = rows(&[&[1, 2, 3], &[0, 1, 4], &[5, 6, 0]]);
    assert_eq!(m.determinant::<i64>(), Ok(1));
    let inv = m.inverse_matrix::<i64>().unwrap();
    assert!(inv.equals(&rows(&[&[-24, 18, 5], &[20, -15, -4], &[-5, 4, 1]])));
    let p = rows(&[&[1, 2, 3], &[0, 1, 4], &[5, 6, 0]]).mul(inv).unwrap();
    assert!(p.equals(&identity(3)));
}

#[test]
fn integer_inverse_truncates_for_other_determinants() {
    let inv = rows(&[&[2, 0], &[0, 2]]).inverse_matrix::<i64>().unwrap();
    assert!(inv.equals(&rows(&[&[0, 0], &[0, 0]])));
}

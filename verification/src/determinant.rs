//! Determinant, cofactor matrix and inverse.
//!
//! The three are computed in a scalar type `F` of the caller's choice, into
//! which the cells and the small integers 0, 1 and -1 convert: `f64` for
//! numerical work, a wide integer type for exact results. Since results are
//! fed back into further operations, the operators and conversions involved
//! must return what their specifications say.

use crate::error::MatrixError;
use crate::matrix::Matrix;
use crate::model::{
    cofactor, cofactor_defined, cofactors, cofactors_defined, det, det_defined,
    determinant_arithmetic_obeys, expansion, expansion_defined, height, inverse,
    inverse_defined, sign, singular, square, width,
};
use std::ops::{Add, Div, Mul, Sub};
use vstd::prelude::*;
use vstd::std_specs::cmp::PartialEqSpec;
use vstd::std_specs::ops::DivSpec;

verus! {

/// `(-1)^k`.
fn sign_of(k: usize) -> (s: i32)
    ensures
        s == sign(k as int),
{
    if k % 2 == 0 {
        1
    } else {
        -1
    }
}

/// An expansion that is defined over `n` terms is defined over any prefix of them.
proof fn lemma_expansion_defined_prefix<
    T: Sub<Output = T> + Mul<Output = T>,
    F: From<T> + From<i32> + Add<Output = F> + Mul<Output = F>,
>(m: Seq<Seq<T>>, n: nat, k: nat)
    requires
        k <= n,
        expansion_defined::<T, F>(m, n),
    ensures
        expansion_defined::<T, F>(m, k),
    decreases n,
{
    if k < n {
        lemma_expansion_defined_prefix::<T, F>(m, (n - 1) as nat, k);
    }
}

impl<T: Copy + Sub<Output = T> + Mul<Output = T>> Matrix<T> {
    /// The determinant, as a scalar of type `F`.
    ///
    /// Refused with `NotSquare` unless the matrix is square.
    #[verifier::loop_isolation(false)]
    pub fn determinant<F>(&self) -> (r: Result<F, MatrixError>) where
        F: Copy + From<T> + From<i32> + Add<Output = F> + Mul<Output = F>,

        requires
            self.wf(),
            determinant_arithmetic_obeys::<T, F>(),
            square(self@) ==> det_defined::<T, F>(self@),
        ensures
            !square(self@) <==> r == Err::<F, MatrixError>(MatrixError::NotSquare),
            square(self@) ==> r == Ok::<F, MatrixError>(det::<T, F>(self@)),
        decreases height(self@),
    {
        proof {
            self.lemma_view_rectangular();
        }
        let (row, col) = self.len();
        if row != col {
            return Err(MatrixError::NotSquare);
        }
        if row == 1 {
            Ok(<F as From<T>>::from(self.get(0, 0).unwrap()))
        } else if row == 2 {
            let main = self.get(0, 0).unwrap() * self.get(1, 1).unwrap();
            let anti = self.get(0, 1).unwrap() * self.get(1, 0).unwrap();
            Ok(<F as From<T>>::from(main - anti))
        } else {
            let mut det: F = <F as From<i32>>::from(0i32);
            let mut i: usize = 0;
            while i < row
                invariant
                    i <= row,
                    det == expansion::<T, F>(self@, i as nat),
                decreases row - i,
            {
                proof {
                    lemma_expansion_defined_prefix::<T, F>(self@, row as nat, (i + 1) as nat);
                }
                let buf = self.reduse_matrix(i, 0).unwrap();
                let tmp_det = buf.determinant::<F>().unwrap();
                let tmp_matrix_num = <F as From<T>>::from(self.get(i, 0).unwrap());
                let tmp_pow = <F as From<i32>>::from(sign_of(i));
                det = det + tmp_matrix_num * tmp_pow * tmp_det;
                i += 1;
            }
            Ok(det)
        }
    }

    /// The matrix of cofactors, with cells of type `F`.
    ///
    /// Refused with `NotSquare` unless the matrix is square, and with
    /// `InvalidShape` for a square matrix of fewer than two rows.
    #[verifier::loop_isolation(false)]
    pub fn calc_complements<F>(&self) -> (r: Result<Matrix<F>, MatrixError>) where
        F: Copy + From<T> + From<i32> + Add<Output = F> + Mul<Output = F>,

        requires
            self.wf(),
            determinant_arithmetic_obeys::<T, F>(),
            square(self@) && height(self@) >= 2 ==> cofactors_defined::<T, F>(self@),
        ensures
            !square(self@) <==> r == Err::<Matrix<F>, MatrixError>(MatrixError::NotSquare),
            square(self@) && height(self@) < 2 <==> r == Err::<Matrix<F>, MatrixError>(
                MatrixError::InvalidShape,
            ),
            square(self@) && height(self@) >= 2 ==> r is Ok && r.unwrap().wf() && r.unwrap()@
                == cofactors::<T, F>(self@),
    {
        proof {
            self.lemma_view_rectangular();
        }
        let (row, col) = self.len();
        if row != col {
            return Err(MatrixError::NotSquare);
        }
        if row < 2 {
            return Err(MatrixError::InvalidShape);
        }
        proof {
            assert(row + row <= row * row) by (nonlinear_arith)
                requires
                    row >= 2,
            ;
        }
        let mut result = Matrix::<F>::new(<F as From<i32>>::from(0i32), row, col).unwrap();
        let mut i: usize = 0;
        while i < row
            invariant
                result.wf(),
                i <= row,
                height(result@) == row,
                width(result@) == row,
                forall|p: int, q: int|
                    0 <= p < i && 0 <= q < row ==> #[trigger] result@[p][q] == cofactor::<T, F>(
                        self@,
                        p,
                        q,
                    ),
            decreases row - i,
        {
            let mut j: usize = 0;
            while j < col
                invariant
                    result.wf(),
                    j <= col,
                    height(result@) == row,
                    width(result@) == row,
                    forall|p: int, q: int|
                        0 <= p < i && 0 <= q < row ==> #[trigger] result@[p][q] == cofactor::<T, F>(
                            self@,
                            p,
                            q,
                        ),
                    forall|q: int|
                        0 <= q < j ==> #[trigger] result@[i as int][q] == cofactor::<T, F>(
                            self@,
                            i as int,
                            q,
                        ),
                decreases col - j,
            {
                proof {
                    result.lemma_view_rectangular();
                    assert(cofactor_defined::<T, F>(self@, i as int, j as int));
                }
                let buf = self.reduse_matrix(i, j).unwrap();
                let pow = <F as From<i32>>::from(sign_of(i + j));
                let det = buf.determinant::<F>().unwrap();
                result.set(i, j, det * pow).unwrap();
                j += 1;
            }
            i += 1;
        }
        proof {
            result.lemma_view_rectangular();
            assert(result@ =~~= cofactors::<T, F>(self@));
        }
        Ok(result)
    }

    /// The inverse, with cells of type `F`: the transposed matrix of
    /// cofactors, every cell multiplied by `1 / determinant`.
    ///
    /// Refused with `NotSquare` unless the matrix is square, with `Singular`
    /// when the determinant is zero, and with `InvalidShape` for a single cell
    /// that is not zero, which has no matrix of cofactors.
    pub fn inverse_matrix<F>(&self) -> (r: Result<Matrix<F>, MatrixError>) where
        F: Copy + From<T> + From<i32> + Add<Output = F> + Mul<Output = F> + Div<Output = F>
            + PartialEq,

        requires
            self.wf(),
            determinant_arithmetic_obeys::<T, F>(),
            F::obeys_div_spec(),
            F::obeys_eq_spec(),
            square(self@) ==> det_defined::<T, F>(self@),
            square(self@) && height(self@) >= 2 && !singular::<T, F>(self@) ==> inverse_defined::<
                T,
                F,
            >(self@),
        ensures
            !square(self@) <==> r == Err::<Matrix<F>, MatrixError>(MatrixError::NotSquare),
            square(self@) && singular::<T, F>(self@) <==> r == Err::<Matrix<F>, MatrixError>(
                MatrixError::Singular,
            ),
            square(self@) && height(self@) < 2 && !singular::<T, F>(self@) <==> r == Err::<
                Matrix<F>,
                MatrixError,
            >(MatrixError::InvalidShape),
            square(self@) && height(self@) >= 2 && !singular::<T, F>(self@) ==> r is Ok
                && r.unwrap().wf() && r.unwrap()@ == inverse::<T, F>(self@),
    {
        proof {
            self.lemma_view_rectangular();
        }
        let det = match self.determinant::<F>() {
            Ok(det) => det,
            Err(e) => {
                return Err(e);
            },
        };
        if det == <F as From<i32>>::from(0i32) {
            return Err(MatrixError::Singular);
        }
        let mut result = match self.calc_complements::<F>() {
            Ok(result) => result,
            Err(e) => {
                return Err(e);
            },
        };
        result.transpose();
        result.mul_matrix_by_value(<F as From<i32>>::from(1i32) / det);
        Ok(result)
    }
}

} // verus!

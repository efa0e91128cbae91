//! Element types whose arithmetic is exact integer arithmetic.
//!
//! The algebraic laws of matrices are laws of rings. Machine integers form a
//! ring only as long as no result leaves the type, so the laws are stated for
//! element types whose operators are permitted exactly when the integer result
//! fits and then return that result.

use std::ops::{Add, Div, Mul, Sub};
use vstd::prelude::*;
use vstd::std_specs::convert::FromSpec;
use vstd::std_specs::ops::{AddSpec, DivSpec, MulSpec, SubSpec};

verus! {

/// The integer that `x` holds.
pub open spec fn value<T: Integer>(x: T) -> int {
    x as int
}

/// Some element of `T` holds the integer `n`.
pub open spec fn representable<T: Integer>(n: int) -> bool {
    exists|z: T| #[trigger] value(z) == n
}

/// `+`, `-` and `*` on `T` are permitted exactly when the integer result fits
/// `T`, and then return it; and distinct elements hold distinct integers.
pub open spec fn exact_arithmetic<
    T: Integer + Add<Output = T> + Sub<Output = T> + Mul<Output = T>,
>() -> bool {
    &&& T::obeys_add_spec()
    &&& T::obeys_sub_spec()
    &&& T::obeys_mul_spec()
    &&& forall|x: T, y: T| #![trigger value(x), value(y)] value(x) == value(y) ==> x == y
    &&& forall|x: T, y: T| #[trigger] x.add_req(y) <==> representable::<T>(value(x) + value(y))
    &&& forall|x: T, y: T| #[trigger] x.sub_req(y) <==> representable::<T>(value(x) - value(y))
    &&& forall|x: T, y: T| #[trigger] x.mul_req(y) <==> representable::<T>(value(x) * value(y))
    &&& forall|x: T, y: T|
        x.add_req(y) ==> value(#[trigger] x.add_spec(y)) == value(x) + value(y)
    &&& forall|x: T, y: T|
        x.sub_req(y) ==> value(#[trigger] x.sub_spec(y)) == value(x) - value(y)
    &&& forall|x: T, y: T|
        x.mul_req(y) ==> value(#[trigger] x.mul_spec(y)) == value(x) * value(y)
}

/// Converting a `T` into an `F` keeps the integer that it holds.
pub open spec fn exact_conversion<T: Integer, F: Integer + From<T>>() -> bool {
    &&& <F as FromSpec<T>>::obeys_from_spec()
    &&& forall|x: T| value(#[trigger] <F as FromSpec<T>>::from_spec(x)) == value(x)
}

/// One may be divided by an element that holds 1 or -1, and the quotient
/// holds the same integer as that element.
pub open spec fn exact_unit_reciprocal<F: Integer + From<i32> + Div<Output = F>>() -> bool {
    &&& F::obeys_div_spec()
    &&& forall|d: F|
        value(d) == 1 || value(d) == -1 ==> (#[trigger] <F as FromSpec<i32>>::from_spec(
            1i32,
        ).div_req(d)) && value(<F as FromSpec<i32>>::from_spec(1i32).div_spec(d)) == value(d)
}

/// The integers that the cells of `m` hold.
pub open spec fn values<T: Integer>(m: Seq<Seq<T>>) -> Seq<Seq<int>> {
    Seq::new(m.len(), |i: int| Seq::new(m[0].len(), |j: int| value(m[i][j])))
}

/// `i8` has exact arithmetic.
pub proof fn lemma_i8_exact()
    ensures
        exact_arithmetic::<i8>(),
{
    assert forall|x: i8, y: i8| #[trigger] x.add_req(y) implies representable::<i8>(
        value(x) + value(y),
    ) by {
        assert(value(x.add_spec(y)) == value(x) + value(y));
    }
    assert forall|x: i8, y: i8| #[trigger] x.sub_req(y) implies representable::<i8>(
        value(x) - value(y),
    ) by {
        assert(value(x.sub_spec(y)) == value(x) - value(y));
    }
    assert forall|x: i8, y: i8| #[trigger] x.mul_req(y) implies representable::<i8>(
        value(x) * value(y),
    ) by {
        assert(value(x.mul_spec(y)) == value(x) * value(y));
    }
}

/// `i16` has exact arithmetic.
pub proof fn lemma_i16_exact()
    ensures
        exact_arithmetic::<i16>(),
{
    assert forall|x: i16, y: i16| #[trigger] x.add_req(y) implies representable::<i16>(
        value(x) + value(y),
    ) by {
        assert(value(x.add_spec(y)) == value(x) + value(y));
    }
    assert forall|x: i16, y: i16| #[trigger] x.sub_req(y) implies representable::<i16>(
        value(x) - value(y),
    ) by {
        assert(value(x.sub_spec(y)) == value(x) - value(y));
    }
    assert forall|x: i16, y: i16| #[trigger] x.mul_req(y) implies representable::<i16>(
        value(x) * value(y),
    ) by {
        assert(value(x.mul_spec(y)) == value(x) * value(y));
    }
}

/// `i32` has exact arithmetic.
pub proof fn lemma_i32_exact()
    ensures
        exact_arithmetic::<i32>(),
{
    assert forall|x: i32, y: i32| #[trigger] x.add_req(y) implies representable::<i32>(
        value(x) + value(y),
    ) by {
        assert(value(x.add_spec(y)) == value(x) + value(y));
    }
    assert forall|x: i32, y: i32| #[trigger] x.sub_req(y) implies representable::<i32>(
        value(x) - value(y),
    ) by {
        assert(value(x.sub_spec(y)) == value(x) - value(y));
    }
    assert forall|x: i32, y: i32| #[trigger] x.mul_req(y) implies representable::<i32>(
        value(x) * value(y),
    ) by {
        assert(value(x.mul_spec(y)) == value(x) * value(y));
    }
}

/// `i64` has exact arithmetic.
pub proof fn lemma_i64_exact()
    ensures
        exact_arithmetic::<i64>(),
{
    assert forall|x: i64, y: i64| #[trigger] x.add_req(y) implies representable::<i64>(
        value(x) + value(y),
    ) by {
        assert(value(x.add_spec(y)) == value(x) + value(y));
    }
    assert forall|x: i64, y: i64| #[trigger] x.sub_req(y) implies representable::<i64>(
        value(x) - value(y),
    ) by {
        assert(value(x.sub_spec(y)) == value(x) - value(y));
    }
    assert forall|x: i64, y: i64| #[trigger] x.mul_req(y) implies representable::<i64>(
        value(x) * value(y),
    ) by {
        assert(value(x.mul_spec(y)) == value(x) * value(y));
    }
}

/// `i128` has exact arithmetic.
pub proof fn lemma_i128_exact()
    ensures
        exact_arithmetic::<i128>(),
{
    assert forall|x: i128, y: i128| #[trigger] x.add_req(y) implies representable::<i128>(
        value(x) + value(y),
    ) by {
        assert(value(x.add_spec(y)) == value(x) + value(y));
    }
    assert forall|x: i128, y: i128| #[trigger] x.sub_req(y) implies representable::<i128>(
        value(x) - value(y),
    ) by {
        assert(value(x.sub_spec(y)) == value(x) - value(y));
    }
    assert forall|x: i128, y: i128| #[trigger] x.mul_req(y) implies representable::<i128>(
        value(x) * value(y),
    ) by {
        assert(value(x.mul_spec(y)) == value(x) * value(y));
    }
}

/// `isize` has exact arithmetic.
pub proof fn lemma_isize_exact()
    ensures
        exact_arithmetic::<isize>(),
{
    assert forall|x: isize, y: isize| #[trigger] x.add_req(y) implies representable::<isize>(
        value(x) + value(y),
    ) by {
        assert(value(x.add_spec(y)) == value(x) + value(y));
    }
    assert forall|x: isize, y: isize| #[trigger] x.sub_req(y) implies representable::<isize>(
        value(x) - value(y),
    ) by {
        assert(value(x.sub_spec(y)) == value(x) - value(y));
    }
    assert forall|x: isize, y: isize| #[trigger] x.mul_req(y) implies representable::<isize>(
        value(x) * value(y),
    ) by {
        assert(value(x.mul_spec(y)) == value(x) * value(y));
    }
}

/// `u8` has exact arithmetic.
pub proof fn lemma_u8_exact()
    ensures
        exact_arithmetic::<u8>(),
{
    assert forall|x: u8, y: u8| #[trigger] x.add_req(y) implies representable::<u8>(
        value(x) + value(y),
    ) by {
        assert(value(x.add_spec(y)) == value(x) + value(y));
    }
    assert forall|x: u8, y: u8| #[trigger] x.sub_req(y) implies representable::<u8>(
        value(x) - value(y),
    ) by {
        assert(value(x.sub_spec(y)) == value(x) - value(y));
    }
    assert forall|x: u8, y: u8| #[trigger] x.mul_req(y) implies representable::<u8>(
        value(x) * value(y),
    ) by {
        assert(value(x.mul_spec(y)) == value(x) * value(y));
    }
}

/// `u16` has exact arithmetic.
pub proof fn lemma_u16_exact()
    ensures
        exact_arithmetic::<u16>(),
{
    assert forall|x: u16, y: u16| #[trigger] x.add_req(y) implies representable::<u16>(
        value(x) + value(y),
    ) by {
        assert(value(x.add_spec(y)) == value(x) + value(y));
    }
    assert forall|x: u16, y: u16| #[trigger] x.sub_req(y) implies representable::<u16>(
        value(x) - value(y),
    ) by {
        assert(value(x.sub_spec(y)) == value(x) - value(y));
    }
    assert forall|x: u16, y: u16| #[trigger] x.mul_req(y) implies representable::<u16>(
        value(x) * value(y),
    ) by {
        assert(value(x.mul_spec(y)) == value(x) * value(y));
    }
}

/// `u32` has exact arithmetic.
pub proof fn lemma_u32_exact()
    ensures
        exact_arithmetic::<u32>(),
{
    assert forall|x: u32, y: u32| #[trigger] x.add_req(y) implies representable::<u32>(
        value(x) + value(y),
    ) by {
        assert(value(x.add_spec(y)) == value(x) + value(y));
    }
    assert forall|x: u32, y: u32| #[trigger] x.sub_req(y) implies representable::<u32>(
        value(x) - value(y),
    ) by {
        assert(value(x.sub_spec(y)) == value(x) - value(y));
    }
    assert forall|x: u32, y: u32| #[trigger] x.mul_req(y) implies representable::<u32>(
        value(x) * value(y),
    ) by {
        assert(value(x.mul_spec(y)) == value(x) * value(y));
    }
}

/// `u64` has exact arithmetic.
pub proof fn lemma_u64_exact()
    ensures
        exact_arithmetic::<u64>(),
{
    assert forall|x: u64, y: u64| #[trigger] x.add_req(y) implies representable::<u64>(
        value(x) + value(y),
    ) by {
        assert(value(x.add_spec(y)) == value(x) + value(y));
    }
    assert forall|x: u64, y: u64| #[trigger] x.sub_req(y) implies representable::<u64>(
        value(x) - value(y),
    ) by {
        assert(value(x.sub_spec(y)) == value(x) - value(y));
    }
    assert forall|x: u64, y: u64| #[trigger] x.mul_req(y) implies representable::<u64>(
        value(x) * value(y),
    ) by {
        assert(value(x.mul_spec(y)) == value(x) * value(y));
    }
}

/// `u128` has exact arithmetic.
pub proof fn lemma_u128_exact()
    ensures
        exact_arithmetic::<u128>(),
{
    assert forall|x: u128, y: u128| #[trigger] x.add_req(y) implies representable::<u128>(
        value(x) + value(y),
    ) by {
        assert(value(x.add_spec(y)) == value(x) + value(y));
    }
    assert forall|x: u128, y: u128| #[trigger] x.sub_req(y) implies representable::<u128>(
        value(x) - value(y),
    ) by {
        assert(value(x.sub_spec(y)) == value(x) - value(y));
    }
    assert forall|x: u128, y: u128| #[trigger] x.mul_req(y) implies representable::<u128>(
        value(x) * value(y),
    ) by {
        assert(value(x.mul_spec(y)) == value(x) * value(y));
    }
}

/// `usize` has exact arithmetic.
pub proof fn lemma_usize_exact()
    ensures
        exact_arithmetic::<usize>(),
{
    assert forall|x: usize, y: usize| #[trigger] x.add_req(y) implies representable::<usize>(
        value(x) + value(y),
    ) by {
        assert(value(x.add_spec(y)) == value(x) + value(y));
    }
    assert forall|x: usize, y: usize| #[trigger] x.sub_req(y) implies representable::<usize>(
        value(x) - value(y),
    ) by {
        assert(value(x.sub_spec(y)) == value(x) - value(y));
    }
    assert forall|x: usize, y: usize| #[trigger] x.mul_req(y) implies representable::<usize>(
        value(x) * value(y),
    ) by {
        assert(value(x.mul_spec(y)) == value(x) * value(y));
    }
}

/// Converting an `i8` into an `i64` keeps the integer.
pub proof fn lemma_i8_into_i64_exact()
    ensures
        exact_conversion::<i8, i64>(),
{
}

/// Converting an `i16` into an `i64` keeps the integer.
pub proof fn lemma_i16_into_i64_exact()
    ensures
        exact_conversion::<i16, i64>(),
{
}

/// Converting an `i32` into an `i64` keeps the integer.
pub proof fn lemma_i32_into_i64_exact()
    ensures
        exact_conversion::<i32, i64>(),
{
}

/// Converting an `i8` into an `i128` keeps the integer.
pub proof fn lemma_i8_into_i128_exact()
    ensures
        exact_conversion::<i8, i128>(),
{
}

/// Converting an `i16` into an `i128` keeps the integer.
pub proof fn lemma_i16_into_i128_exact()
    ensures
        exact_conversion::<i16, i128>(),
{
}

/// Converting an `i32` into an `i128` keeps the integer.
pub proof fn lemma_i32_into_i128_exact()
    ensures
        exact_conversion::<i32, i128>(),
{
}

/// Converting an `i64` into an `i128` keeps the integer.
pub proof fn lemma_i64_into_i128_exact()
    ensures
        exact_conversion::<i64, i128>(),
{
}

/// In `i64`, one divided by 1 or -1 is 1 or -1.
pub proof fn lemma_i64_unit_reciprocal()
    ensures
        exact_unit_reciprocal::<i64>(),
{
}

/// In `i128`, one divided by 1 or -1 is 1 or -1.
pub proof fn lemma_i128_unit_reciprocal()
    ensures
        exact_unit_reciprocal::<i128>(),
{
}

} // verus!

//! The arithmetic that a matrix needs from its elements.

use vstd::prelude::*;

verus! {

/// An element type: a zero, an addition and a multiplication.
///
/// No algebraic law is asked of the three. In particular the addition need
/// not be associative, and the zero need not be neutral: everything that is
/// proved about a matrix product holds for rounding arithmetic as well.
/// What is asked is that each operation is a function of its operands, which
/// is what the `*_spec` functions express.
pub trait Scalar: Copy {
    /// The value of an unwritten cell, and the start of every sum.
    spec fn zero_spec() -> Self;

    /// The sum `self + rhs`.
    spec fn plus_spec(self, rhs: Self) -> Self;

    /// The product `self * rhs`.
    spec fn times_spec(self, rhs: Self) -> Self;

    /// Returns the zero.
    fn zero() -> (z: Self)
        ensures
            z == Self::zero_spec(),
    ;

    /// Adds `rhs` to `self`.
    fn plus(self, rhs: Self) -> (sum: Self)
        ensures
            sum == self.plus_spec(rhs),
    ;

    /// Multiplies `self` by `rhs`.
    fn times(self, rhs: Self) -> (product: Self)
        ensures
            product == self.times_spec(rhs),
    ;
}

/// Signed 64-bit integers with wrapping arithmetic, that is the integers
/// modulo 2^64.
impl Scalar for i64 {
    open spec fn zero_spec() -> i64 {
        0
    }

    open spec fn plus_spec(self, rhs: i64) -> i64 {
        self.wrapping_add(rhs)
    }

    open spec fn times_spec(self, rhs: i64) -> i64 {
        self.wrapping_mul(rhs)
    }

    fn zero() -> (z: i64) {
        0
    }

    fn plus(self, rhs: i64) -> (sum: i64) {
        self.wrapping_add(rhs)
    }

    fn times(self, rhs: i64) -> (product: i64) {
        self.wrapping_mul(rhs)
    }
}

/// Where the sum or the product of two `i64` lies in the range of `i64`,
/// the wrapping operation returns it unchanged.
pub proof fn lemma_i64_in_range(x: i64, y: i64)
    ensures
        i64::MIN <= x + y <= i64::MAX ==> x.plus_spec(y) == x + y,
        i64::MIN <= x * y <= i64::MAX ==> x.times_spec(y) == x * y,
{
    let product = x * y;
    if i64::MIN <= product <= i64::MAX {
        if product >= 0 {
            vstd::arithmetic::div_mod::lemma_small_mod(
                product as nat,
                0x1_0000_0000_0000_0000nat,
            );
        } else {
            vstd::arithmetic::div_mod::lemma_small_mod(
                (product + 0x1_0000_0000_0000_0000) as nat,
                0x1_0000_0000_0000_0000nat,
            );
            vstd::arithmetic::div_mod::lemma_mod_add_multiples_vanish(
                product,
                0x1_0000_0000_0000_0000int,
            );
        }
    }
}

} // verus!

//! The arithmetic a layer needs from its scalar type.
use vstd::prelude::*;

verus! {

/// A scalar with a zero value and the three ring operations.
///
/// The spec functions give the meaning of each operation; an implementation's
/// executable methods return exactly those values. No algebraic law is asked
/// for: floating-point types, where addition is not associative and `0 * x`
/// need not be `0`, are valid scalars.
pub trait Scalar: Copy + Sized {
    spec fn spec_zero() -> Self;

    spec fn spec_plus(self, other: Self) -> Self;

    spec fn spec_minus(self, other: Self) -> Self;

    spec fn spec_times(self, other: Self) -> Self;

    fn zero() -> (r: Self)
        ensures
            r == Self::spec_zero(),
    ;

    fn plus(self, other: Self) -> (r: Self)
        ensures
            r == self.spec_plus(other),
    ;

    fn minus(self, other: Self) -> (r: Self)
        ensures
            r == self.spec_minus(other),
    ;

    fn times(self, other: Self) -> (r: Self)
        ensures
            r == self.spec_times(other),
    ;
}

/// Two's-complement integers with wrapping arithmetic, as used by
/// fixed-point networks.
impl Scalar for i64 {
    open spec fn spec_zero() -> i64 {
        0
    }

    open spec fn spec_plus(self, other: i64) -> i64 {
        self.wrapping_add(other)
    }

    open spec fn spec_minus(self, other: i64) -> i64 {
        self.wrapping_sub(other)
    }

    open spec fn spec_times(self, other: i64) -> i64 {
        self.wrapping_mul(other)
    }

    fn zero() -> (r: i64) {
        0
    }

    fn plus(self, other: i64) -> (r: i64) {
        self.wrapping_add(other)
    }

    fn minus(self, other: i64) -> (r: i64) {
        self.wrapping_sub(other)
    }

    fn times(self, other: i64) -> (r: i64) {
        self.wrapping_mul(other)
    }
}

} // verus!

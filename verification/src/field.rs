//! The algebraic scalar contract: the minimal surface a scalar type must
//! supply to serve as the component type of a vector space.

use vstd::prelude::*;

verus! {

/// Truncating division (rounding toward zero), the quotient a machine
/// integer division produces.
pub open spec fn trunc_div(a: int, b: int) -> int
    recommends
        b != 0,
{
    if a == 0 {
        0
    } else if a > 0 && b > 0 {
        a / b
    } else if a < 0 && b < 0 {
        (a * -1) / (b * -1)
    } else if a < 0 {
        ((a * -1) / b) * -1
    } else {
        (a / (b * -1)) * -1
    }
}

/// An exact scalar: addition, subtraction, multiplication, division,
/// negation, the two identities, and an exact equality predicate.
///
/// Every value is mirrored by a mathematical integer (`sval`), and
/// `in_range` says which mathematical results the representation can hold;
/// the arithmetic contracts demand representable results and promise the
/// exact mathematical value in return.
pub trait Field: Sized + Copy {
    /// The mathematical value a scalar stands for.
    spec fn sval(self) -> int;

    /// Whether a mathematical value is representable as a scalar.
    spec fn in_range(x: int) -> bool;

    /// Every existing scalar holds a representable value.
    proof fn lemma_sval_in_range(self)
        ensures
            Self::in_range(self.sval()),
    ;

    /// Exact equality of scalar values.
    fn equals(&self, rhs: Self) -> (r: bool)
        ensures
            r <==> self.sval() == rhs.sval(),
    ;

    /// The multiplicative identity.
    fn one() -> (r: Self)
        ensures
            r.sval() == 1,
    ;

    /// The additive identity.
    fn zero() -> (r: Self)
        ensures
            r.sval() == 0,
    ;

    /// Exact sum of two scalars.
    fn plus(self, rhs: Self) -> (r: Self)
        requires
            Self::in_range(self.sval() + rhs.sval()),
        ensures
            r.sval() == self.sval() + rhs.sval(),
    ;

    /// Exact difference of two scalars.
    fn minus(self, rhs: Self) -> (r: Self)
        requires
            Self::in_range(self.sval() - rhs.sval()),
        ensures
            r.sval() == self.sval() - rhs.sval(),
    ;

    /// Exact product of two scalars.
    fn times(self, rhs: Self) -> (r: Self)
        requires
            Self::in_range(self.sval() * rhs.sval()),
        ensures
            r.sval() == self.sval() * rhs.sval(),
    ;

    /// Truncating quotient of two scalars; the divisor must not be the
    /// additive identity.
    fn quot(self, rhs: Self) -> (r: Self)
        requires
            rhs.sval() != 0,
            Self::in_range(trunc_div(self.sval(), rhs.sval())),
        ensures
            r.sval() == trunc_div(self.sval(), rhs.sval()),
    ;

    /// Exact negation of a scalar.
    fn negate(self) -> (r: Self)
        requires
            Self::in_range(-self.sval()),
        ensures
            r.sval() == -self.sval(),
    ;
}

impl Field for i64 {
    open spec fn sval(self) -> int {
        self as int
    }

    open spec fn in_range(x: int) -> bool {
        i64::MIN <= x <= i64::MAX
    }

    proof fn lemma_sval_in_range(self) {
    }

    fn equals(&self, rhs: Self) -> (r: bool) {
        *self == rhs
    }

    fn one() -> (r: Self) {
        1
    }

    fn zero() -> (r: Self) {
        0
    }

    fn plus(self, rhs: Self) -> (r: Self) {
        self + rhs
    }

    fn minus(self, rhs: Self) -> (r: Self) {
        self - rhs
    }

    fn times(self, rhs: Self) -> (r: Self) {
        self * rhs
    }

    fn quot(self, rhs: Self) -> (r: Self) {
        self.checked_div(rhs).unwrap()
    }

    fn negate(self) -> (r: Self) {
        -self
    }
}

} // verus!

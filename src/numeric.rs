//! The arithmetic capability that every element type of a column must offer.
//!
//! Each operation has a specification counterpart (`add_spec` for `add`, ...), so
//! that the algorithms of this crate are stated once, generically, over whatever
//! rounding and saturation a concrete type chooses. The order laws at the end are
//! the few facts about ordering that bounded indicators (such as RSI) rely on.
use vstd::prelude::*;

verus! {

/// A numeric element type: constants, the four operations, an absolute value and
/// a total order, each with its specification, and the order laws that hold of
/// them.
pub trait Numeric: Copy + Sized {
    spec fn zero_spec() -> Self;

    spec fn one_spec() -> Self;

    spec fn fifty_spec() -> Self;

    spec fn hundred_spec() -> Self;

    /// The value that stands for a count of `n` units.
    spec fn from_count_spec(n: usize) -> Self;

    spec fn add_spec(self, other: Self) -> Self;

    spec fn sub_spec(self, other: Self) -> Self;

    spec fn mul_spec(self, other: Self) -> Self;

    /// Division; total, so a type chooses what a division by zero yields.
    spec fn div_spec(self, other: Self) -> Self;

    spec fn abs_spec(self) -> Self;

    /// The strict order of the type.
    spec fn lt_spec(self, other: Self) -> bool;

    fn zero() -> (r: Self)
        ensures
            r == Self::zero_spec(),
    ;

    fn one() -> (r: Self)
        ensures
            r == Self::one_spec(),
    ;

    fn two() -> (r: Self)
        ensures
            r == Self::one_spec().add_spec(Self::one_spec()),
    ;

    fn fifty() -> (r: Self)
        ensures
            r == Self::fifty_spec(),
    ;

    fn hundred() -> (r: Self)
        ensures
            r == Self::hundred_spec(),
    ;

    fn from_count(n: usize) -> (r: Self)
        ensures
            r == Self::from_count_spec(n),
    ;

    fn add(self, other: Self) -> (r: Self)
        ensures
            r == self.add_spec(other),
    ;

    fn sub(self, other: Self) -> (r: Self)
        ensures
            r == self.sub_spec(other),
    ;

    fn mul(self, other: Self) -> (r: Self)
        ensures
            r == self.mul_spec(other),
    ;

    fn div(self, other: Self) -> (r: Self)
        ensures
            r == self.div_spec(other),
    ;

    fn abs(self) -> (r: Self)
        ensures
            r == self.abs_spec(),
    ;

    fn lt(self, other: Self) -> (r: bool)
        ensures
            r == self.lt_spec(other),
    ;

    fn is_zero(self) -> (r: bool)
        ensures
            r == (self == Self::zero_spec()),
    ;

    fn is_positive(self) -> (r: bool)
        ensures
            r == Self::zero_spec().lt_spec(self),
    ;

    /// The larger of the two values; `self` when neither is larger.
    fn max(self, other: Self) -> (r: Self)
        ensures
            r == (if self.lt_spec(other) {
                other
            } else {
                self
            }),
    ;

    /// The strict order is irreflexive and asymmetric.
    proof fn lemma_lt_asymmetric(a: Self, b: Self)
        ensures
            !a.lt_spec(a),
            a.lt_spec(b) ==> !b.lt_spec(a),
    ;

    /// The order is total and transitive.
    proof fn lemma_lt_total_transitive(a: Self, b: Self, c: Self)
        ensures
            a.lt_spec(b) || b.lt_spec(a) || a == b,
            a.lt_spec(b) && b.lt_spec(c) ==> a.lt_spec(c),
    ;

    /// Zero, one, fifty and a hundred are ordered as their names say.
    proof fn lemma_constants_ordered()
        ensures
            Self::zero_spec().lt_spec(Self::one_spec()),
            Self::zero_spec().lt_spec(Self::fifty_spec()),
            Self::fifty_spec().lt_spec(Self::hundred_spec()),
    ;

    /// An absolute value is never negative.
    proof fn lemma_abs_nonneg(a: Self)
        ensures
            !a.abs_spec().lt_spec(Self::zero_spec()),
    ;

    /// The sum of two non-negative values is non-negative, not below either term,
    /// and zero only when both terms are.
    proof fn lemma_add_nonneg(a: Self, b: Self)
        requires
            !a.lt_spec(Self::zero_spec()),
            !b.lt_spec(Self::zero_spec()),
        ensures
            !a.add_spec(b).lt_spec(Self::zero_spec()),
            !a.add_spec(b).lt_spec(a),
            a.add_spec(b) == Self::zero_spec() ==> a == Self::zero_spec() && b
                == Self::zero_spec(),
    ;

    /// The product of two non-negative values is non-negative, and multiplying by a
    /// factor of at most one does not increase a non-negative value.
    proof fn lemma_mul_nonneg(a: Self, b: Self)
        requires
            !a.lt_spec(Self::zero_spec()),
            !b.lt_spec(Self::zero_spec()),
        ensures
            !a.mul_spec(b).lt_spec(Self::zero_spec()),
            !Self::one_spec().lt_spec(b) ==> !a.lt_spec(a.mul_spec(b)),
    ;

    /// Subtracting a smaller value from a larger one leaves a non-negative value.
    proof fn lemma_sub_nonneg(a: Self, b: Self)
        requires
            b.lt_spec(a),
        ensures
            !a.sub_spec(b).lt_spec(Self::zero_spec()),
    ;

    /// A non-negative value divided by a non-zero value not below it lies in `[0, 1]`.
    proof fn lemma_div_unit(a: Self, b: Self)
        requires
            !a.lt_spec(Self::zero_spec()),
            !b.lt_spec(a),
            b != Self::zero_spec(),
        ensures
            !a.div_spec(b).lt_spec(Self::zero_spec()),
            !Self::one_spec().lt_spec(a.div_spec(b)),
    ;
}

/// `a <= b` in the order of the type.
pub open spec fn le<T: Numeric>(a: T, b: T) -> bool {
    !b.lt_spec(a)
}

/// `a >= 0` in the order of the type.
pub open spec fn nonneg<T: Numeric>(a: T) -> bool {
    le(T::zero_spec(), a)
}

/// The larger of two values; the first one when neither is larger.
pub open spec fn max_of<T: Numeric>(a: T, b: T) -> T {
    if a.lt_spec(b) {
        b
    } else {
        a
    }
}

/// The smaller of two values; the first one when neither is smaller.
pub open spec fn min_of<T: Numeric>(a: T, b: T) -> T {
    if b.lt_spec(a) {
        b
    } else {
        a
    }
}

/// A smoothing factor strictly between zero and one.
pub open spec fn alpha_in_unit<T: Numeric>(alpha: T) -> bool {
    T::zero_spec().lt_spec(alpha) && alpha.lt_spec(T::one_spec())
}

} // verus!

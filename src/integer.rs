//! Signed 64-bit integers as column elements: operations saturate at the bounds
//! of the type, quotients are truncated toward zero, and a division by zero yields
//! zero.
use vstd::prelude::*;

use crate::fixed::{abs_int, clamp, clamp_wide, trunc_div, trunc_div_wide, wide_mul};
use crate::numeric::Numeric;

verus! {

impl Numeric for i64 {
    open spec fn zero_spec() -> i64 {
        0
    }

    open spec fn one_spec() -> i64 {
        1
    }

    open spec fn fifty_spec() -> i64 {
        50
    }

    open spec fn hundred_spec() -> i64 {
        100
    }

    open spec fn from_count_spec(n: usize) -> i64 {
        clamp(n as int)
    }

    open spec fn add_spec(self, other: i64) -> i64 {
        clamp(self + other)
    }

    open spec fn sub_spec(self, other: i64) -> i64 {
        clamp(self - other)
    }

    open spec fn mul_spec(self, other: i64) -> i64 {
        clamp(self * other)
    }

    open spec fn div_spec(self, other: i64) -> i64 {
        if other == 0 {
            0
        } else {
            clamp(trunc_div(self as int, other as int))
        }
    }

    open spec fn abs_spec(self) -> i64 {
        clamp(abs_int(self as int))
    }

    open spec fn lt_spec(self, other: i64) -> bool {
        self < other
    }

    fn zero() -> (r: i64) {
        0
    }

    fn one() -> (r: i64) {
        1
    }

    fn two() -> (r: i64) {
        2
    }

    fn fifty() -> (r: i64) {
        50
    }

    fn hundred() -> (r: i64) {
        100
    }

    fn from_count(n: usize) -> (r: i64) {
        clamp_wide(n as i128)
    }

    fn add(self, other: i64) -> (r: i64) {
        clamp_wide(self as i128 + other as i128)
    }

    fn sub(self, other: i64) -> (r: i64) {
        clamp_wide(self as i128 - other as i128)
    }

    fn mul(self, other: i64) -> (r: i64) {
        clamp_wide(wide_mul(self, other))
    }

    fn div(self, other: i64) -> (r: i64) {
        if other == 0 {
            0
        } else {
            clamp_wide(trunc_div_wide(self as i128, other as i128))
        }
    }

    fn abs(self) -> (r: i64) {
        if self < 0 {
            clamp_wide(-(self as i128))
        } else {
            self
        }
    }

    fn lt(self, other: i64) -> (r: bool) {
        self < other
    }

    fn is_zero(self) -> (r: bool) {
        self == 0
    }

    fn is_positive(self) -> (r: bool) {
        self > 0
    }

    fn max(self, other: i64) -> (r: i64) {
        if self < other {
            other
        } else {
            self
        }
    }

    proof fn lemma_lt_asymmetric(a: i64, b: i64) {
    }

    proof fn lemma_lt_total_transitive(a: i64, b: i64, c: i64) {
    }

    proof fn lemma_constants_ordered() {
    }

    proof fn lemma_abs_nonneg(a: i64) {
    }

    proof fn lemma_add_nonneg(a: i64, b: i64) {
    }

    proof fn lemma_mul_nonneg(a: i64, b: i64) {
        assert(a * b >= 0) by (nonlinear_arith)
            requires
                a >= 0,
                b >= 0,
        ;
        if b <= 1 {
            assert(a * b <= a) by (nonlinear_arith)
                requires
                    a >= 0,
                    0 <= b <= 1,
            ;
        }
    }

    proof fn lemma_sub_nonneg(a: i64, b: i64) {
    }

    proof fn lemma_div_unit(a: i64, b: i64) {
        assert(0 <= (a as int) / (b as int) <= 1) by (nonlinear_arith)
            requires
                0 <= a <= b,
                b != 0,
        ;
    }
}

} // verus!

//! A signed fixed-point decimal with eight fractional digits.
//!
//! Every operation saturates at the bounds of the underlying `i64`, products and
//! quotients are truncated toward zero, and a division by zero yields zero.
use vstd::prelude::*;

use crate::numeric::Numeric;

verus! {

/// Raw units in one whole unit: values carry eight decimal places.
pub const SCALE: i64 = 100_000_000;

/// A decimal number `raw / SCALE`.
#[derive(Clone, Copy, Debug, PartialEq, Eq, Structural)]
pub struct Fixed {
    pub raw: i64,
}

/// `x` held to the range of `i64`.
pub open spec fn clamp(x: int) -> i64 {
    if x > i64::MAX {
        i64::MAX
    } else if x < i64::MIN {
        i64::MIN
    } else {
        x as i64
    }
}

pub open spec fn abs_int(x: int) -> int {
    if x < 0 {
        -x
    } else {
        x
    }
}

/// Integer division rounded toward zero.
pub open spec fn trunc_div(x: int, d: int) -> int {
    let q = abs_int(x) / abs_int(d);
    if (x < 0) == (d < 0) {
        q
    } else {
        -q
    }
}

pub(crate) fn clamp_wide(x: i128) -> (r: i64)
    ensures
        r == clamp(x as int),
{
    if x > i64::MAX as i128 {
        i64::MAX
    } else if x < i64::MIN as i128 {
        i64::MIN
    } else {
        x as i64
    }
}

pub(crate) fn trunc_div_wide(x: i128, d: i128) -> (r: i128)
    requires
        d != 0,
        x > i128::MIN,
        d > i128::MIN,
    ensures
        r == trunc_div(x as int, d as int),
{
    let xa: i128 = if x < 0 {
        -x
    } else {
        x
    };
    let da: i128 = if d < 0 {
        -d
    } else {
        d
    };
    let q: i128 = xa / da;
    proof {
        assert(0 <= q <= xa) by (nonlinear_arith)
            requires
                q == xa / da,
                xa >= 0,
                da > 0,
        ;
    }
    if (x < 0) == (d < 0) {
        q
    } else {
        -q
    }
}

/// The exact product of two `i64` values.
pub(crate) fn wide_mul(a: i64, b: i64) -> (r: i128)
    ensures
        r == a * b,
        -0x4000_0000_0000_0000_0000_0000_0000_0000 <= r <= 0x4000_0000_0000_0000_0000_0000_0000_0000,
{
    proof {
        assert(-0x4000_0000_0000_0000_0000_0000_0000_0000 <= a * b
            <= 0x4000_0000_0000_0000_0000_0000_0000_0000) by (nonlinear_arith)
            requires
                i64::MIN <= a <= i64::MAX,
                i64::MIN <= b <= i64::MAX,
        ;
    }
    a as i128 * b as i128
}

impl Fixed {
    /// The decimal `raw / SCALE`.
    pub fn from_raw(raw: i64) -> (r: Fixed)
        ensures
            r.raw == raw,
    {
        Fixed { raw }
    }

    /// The whole number `n`, saturated at the bounds of the type.
    pub fn from_int(n: i64) -> (r: Fixed)
        ensures
            r.raw == clamp(n * SCALE),
    {
        Fixed { raw: clamp_wide(wide_mul(n, SCALE)) }
    }

    /// The underlying count of `1 / SCALE` units.
    pub fn raw(&self) -> (r: i64)
        ensures
            r == self.raw,
    {
        self.raw
    }
}

impl Numeric for Fixed {
    open spec fn zero_spec() -> Fixed {
        Fixed { raw: 0 }
    }

    open spec fn one_spec() -> Fixed {
        Fixed { raw: SCALE }
    }

    open spec fn fifty_spec() -> Fixed {
        Fixed { raw: 5_000_000_000 }
    }

    open spec fn hundred_spec() -> Fixed {
        Fixed { raw: 10_000_000_000 }
    }

    open spec fn from_count_spec(n: usize) -> Fixed {
        Fixed { raw: clamp(n * SCALE) }
    }

    open spec fn add_spec(self, other: Fixed) -> Fixed {
        Fixed { raw: clamp(self.raw + other.raw) }
    }

    open spec fn sub_spec(self, other: Fixed) -> Fixed {
        Fixed { raw: clamp(self.raw - other.raw) }
    }

    open spec fn mul_spec(self, other: Fixed) -> Fixed {
        Fixed { raw: clamp(trunc_div(self.raw * other.raw, SCALE as int)) }
    }

    open spec fn div_spec(self, other: Fixed) -> Fixed {
        if other.raw == 0 {
            Fixed { raw: 0 }
        } else {
            Fixed { raw: clamp(trunc_div(self.raw * SCALE, other.raw as int)) }
        }
    }

    open spec fn abs_spec(self) -> Fixed {
        Fixed { raw: clamp(abs_int(self.raw as int)) }
    }

    open spec fn lt_spec(self, other: Fixed) -> bool {
        self.raw < other.raw
    }

    fn zero() -> (r: Fixed) {
        Fixed { raw: 0 }
    }

    fn one() -> (r: Fixed) {
        Fixed { raw: SCALE }
    }

    fn two() -> (r: Fixed) {
        Fixed { raw: 2 * SCALE }
    }

    fn fifty() -> (r: Fixed) {
        Fixed { raw: 5_000_000_000 }
    }

    fn hundred() -> (r: Fixed) {
        Fixed { raw: 10_000_000_000 }
    }

    fn from_count(n: usize) -> (r: Fixed) {
        let wide: i128 = n as i128;
        proof {
            assert(0 <= wide * SCALE <= 0x1_0000_0000_0000_0000 * 0x1_0000_0000) by (nonlinear_arith)
                requires
                    0 <= wide < 0x1_0000_0000_0000_0000,
            ;
        }
        Fixed { raw: clamp_wide(wide * SCALE as i128) }
    }

    fn add(self, other: Fixed) -> (r: Fixed) {
        Fixed { raw: clamp_wide(self.raw as i128 + other.raw as i128) }
    }

    fn sub(self, other: Fixed) -> (r: Fixed) {
        Fixed { raw: clamp_wide(self.raw as i128 - other.raw as i128) }
    }

    fn mul(self, other: Fixed) -> (r: Fixed) {
        let p: i128 = wide_mul(self.raw, other.raw);
        Fixed { raw: clamp_wide(trunc_div_wide(p, SCALE as i128)) }
    }

    fn div(self, other: Fixed) -> (r: Fixed) {
        if other.raw == 0 {
            Fixed { raw: 0 }
        } else {
            let p: i128 = wide_mul(self.raw, SCALE);
            Fixed { raw: clamp_wide(trunc_div_wide(p, other.raw as i128)) }
        }
    }

    fn abs(self) -> (r: Fixed) {
        if self.raw < 0 {
            Fixed { raw: clamp_wide(-(self.raw as i128)) }
        } else {
            self
        }
    }

    fn lt(self, other: Fixed) -> (r: bool) {
        self.raw < other.raw
    }

    fn is_zero(self) -> (r: bool) {
        self.raw == 0
    }

    fn is_positive(self) -> (r: bool) {
        self.raw > 0
    }

    fn max(self, other: Fixed) -> (r: Fixed) {
        if self.raw < other.raw {
            other
        } else {
            self
        }
    }

    proof fn lemma_lt_asymmetric(a: Fixed, b: Fixed) {
    }

    proof fn lemma_lt_total_transitive(a: Fixed, b: Fixed, c: Fixed) {
    }

    proof fn lemma_constants_ordered() {
    }

    proof fn lemma_abs_nonneg(a: Fixed) {
    }

    proof fn lemma_add_nonneg(a: Fixed, b: Fixed) {
    }

    proof fn lemma_mul_nonneg(a: Fixed, b: Fixed) {
        let p = a.raw * b.raw;
        let s = SCALE as int;
        assert(p >= 0) by (nonlinear_arith)
            requires
                p == a.raw * b.raw,
                a.raw >= 0,
                b.raw >= 0,
        ;
        assert(p / s >= 0) by (nonlinear_arith)
            requires
                p >= 0,
                s > 0,
        ;
        if b.raw <= SCALE {
            assert(p / s <= a.raw) by (nonlinear_arith)
                requires
                    p == a.raw * b.raw,
                    a.raw >= 0,
                    0 <= b.raw <= s,
                    s > 0,
            ;
        }
    }

    proof fn lemma_sub_nonneg(a: Fixed, b: Fixed) {
    }

    proof fn lemma_div_unit(a: Fixed, b: Fixed) {
        let p = a.raw * SCALE;
        let s = SCALE as int;
        assert(0 <= p / (b.raw as int) <= s) by (nonlinear_arith)
            requires
                p == a.raw * s,
                0 <= a.raw <= b.raw,
                b.raw != 0,
                s > 0,
        ;
    }
}

} // verus!

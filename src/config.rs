//! Parameters shared by the indicators.
use vstd::prelude::*;

use crate::fixed::Fixed;
use crate::numeric::{alpha_in_unit, Numeric};

verus! {

/// Smoothing factor, look-back period and retained history of an indicator.
#[derive(Clone, Copy, Debug)]
pub struct Config<T> {
    /// Weight of the newest value in the exponential recurrence, in `(0, 1)`.
    pub alpha: T,
    /// Number of periods; an indicator needs `period + 1` observations.
    pub period: usize,
    /// Number of trailing observations an indicator reads; at least `period`.
    pub max_history: usize,
}

/// `alpha = 2 / (period + 1)`, the smoothing of a standard exponential average.
pub open spec fn ema_alpha<T: Numeric>(period: usize) -> T {
    T::one_spec().add_spec(T::one_spec()).div_spec(T::from_count_spec(period).add_spec(T::one_spec()))
}

/// `alpha = 1 / period`, Wilder's smoothing.
pub open spec fn wilder_alpha<T: Numeric>(period: usize) -> T {
    T::one_spec().div_spec(T::from_count_spec(period))
}

/// The configuration of `alpha`, `period` and `max_history` when these are valid:
/// `alpha` strictly between zero and one and `max_history` not below `period`.
pub open spec fn checked_config<T: Numeric>(alpha: T, period: usize, max_history: usize) -> Option<
    Config<T>,
> {
    if alpha_in_unit(alpha) && max_history >= period {
        Some(Config { alpha, period, max_history })
    } else {
        None
    }
}

impl<T: Numeric> Config<T> {
    /// `alpha` lies strictly between zero and one and `max_history` is not below
    /// `period`.
    pub open spec fn wf(&self) -> bool {
        alpha_in_unit(self.alpha) && self.max_history >= self.period
    }

    /// A configuration with the given smoothing factor; `None` when `alpha` is not
    /// strictly between zero and one or `max_history < period`.
    pub fn new(alpha: T, period: usize, max_history: usize) -> (r: Option<Self>)
        ensures
            r == checked_config(alpha, period, max_history),
            r matches Some(c) ==> c.wf(),
    {
        let zero = T::zero();
        let one = T::one();
        if zero.lt(alpha) && alpha.lt(one) && max_history >= period {
            Some(Config { alpha, period, max_history })
        } else {
            None
        }
    }

    /// A configuration with exponential-average smoothing, `alpha = 2 / (period + 1)`;
    /// `None` when that is not strictly between zero and one or
    /// `max_history < period`.
    pub fn new_ema(period: usize, max_history: usize) -> (r: Option<Self>)
        ensures
            r == checked_config(ema_alpha::<T>(period), period, max_history),
            r matches Some(c) ==> c.wf(),
    {
        let alpha = T::two().div(T::from_count(period).add(T::one()));
        Self::new(alpha, period, max_history)
    }

    /// A configuration with Wilder's smoothing, `alpha = 1 / period`; `None` when
    /// that is not strictly between zero and one or `max_history < period`.
    pub fn new_wilder(period: usize, max_history: usize) -> (r: Option<Self>)
        ensures
            r == checked_config(wilder_alpha::<T>(period), period, max_history),
            r matches Some(c) ==> c.wf(),
    {
        let alpha = T::one().div(T::from_count(period));
        Self::new(alpha, period, max_history)
    }
}

impl Default for Config<Fixed> {
    /// Fourteen periods with exponential-average smoothing, reading the last 140
    /// observations.
    fn default() -> (r: Config<Fixed>)
        ensures
            r == (Config { alpha: ema_alpha::<Fixed>(14), period: 14, max_history: 140 }),
            r.wf(),
    {
        let period: usize = 14;
        let alpha = Fixed::two().div(Fixed::from_count(period).add(Fixed::one()));
        assert(alpha.raw == 13_333_333) by {
            assert(20_000_000_000_000_000int / 1_500_000_000int == 13_333_333int);
        }
        Config { alpha, period, max_history: period * 10 }
    }
}

} // verus!

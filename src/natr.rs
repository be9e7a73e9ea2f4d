//! Normalized Average True Range.
use vstd::prelude::*;

use crate::candle::{
    closes_of, highs_of, lows_of, true_range_columns, window_true_range, CandleSeries,
};
use crate::column::{ewm_seq, window_start, Column};
use crate::config::Config;
use crate::error::Error;
use crate::series::Series;
use crate::numeric::Numeric;

verus! {

/// `100 * atr / close`, and zero when the close is zero.
pub open spec fn natr_value<T: Numeric>(atr: T, close: T) -> T {
    if close == T::zero_spec() {
        T::zero_spec()
    } else {
        T::hundred_spec().mul_spec(atr.div_spec(close))
    }
}

/// Average true range of parallel high, low and close sequences, over the trailing
/// `max_history` bars.
pub open spec fn atr_of<T: Numeric>(h: Seq<T>, l: Seq<T>, c: Seq<T>, config: Config<T>) -> Seq<T> {
    ewm_seq(window_true_range(h, l, c, Some(config.max_history)), config.alpha)
}

/// NATR of parallel high, low and close sequences over the trailing `max_history`
/// bars: each average true range against the close of the same bar.
pub open spec fn natr_of<T: Numeric>(h: Seq<T>, l: Seq<T>, c: Seq<T>, config: Config<T>) -> Seq<T> {
    let start = window_start(h.len(), Some(config.max_history));
    let atr = atr_of(h, l, c, config);
    Seq::new(atr.len(), |k: int| natr_value(atr[k], c[start + k]))
}

/// NATR at each position of an average-true-range column against the closes of
/// the same bars, which start at `start` in `closes`.
fn natr_column<T: Numeric>(atr: &Column<T>, closes: &Column<T>, start: usize) -> (r: Column<T>)
    requires
        start + atr@.len() <= closes@.len(),
    ensures
        r@ == Seq::new(atr@.len(), |k: int| natr_value(atr@[k], closes@[start + k])),
{
    let n = atr.len();
    let m = closes.len();
    let hundred = T::hundred();
    let mut out: Column<T> = Column::with_capacity(n);
    let mut i: usize = 0;
    while i < n
        invariant
            n == atr@.len(),
            start + n <= m,
            m == closes@.len(),
            hundred == T::hundred_spec(),
            i <= n,
            out@.len() == i,
            forall|j: int| 0 <= j < i ==> out@[j] == natr_value(atr@[j], closes@[start + j]),
        decreases n - i,
    {
        let value = *atr.get(i).unwrap();
        let close = *closes.get(start + i).unwrap();
        if close.is_zero() {
            out.push(T::zero());
        } else {
            out.push(hundred.mul(value.div(close)));
        }
        i += 1;
    }
    assert(out@ =~= Seq::new(atr@.len(), |k: int| natr_value(atr@[k], closes@[start + k])));
    out
}

/// First position of the window of at most `max_history` of `len` bars.
fn window_start_of(len: usize, max_history: usize) -> (r: usize)
    ensures
        r == window_start(len as nat, Some(max_history)),
{
    if len > max_history {
        len - max_history
    } else {
        0
    }
}

/// NATR of `candles` over the trailing `max_history` of them: the exponential
/// average of the true range, as a percentage of the close of the same candle, and
/// zero where that close is zero. Fails with `NotEnoughData` when there are fewer
/// than `period + 1` candles, an empty series included.
pub fn natr_series<T: Numeric>(candles: &CandleSeries<T>, config: &Config<T>) -> (r: Result<
    Column<T>,
    Error,
>)
    requires
        candles.wf(),
        config.wf(),
    ensures
        candles@.len() < config.period + 1 ==> r == Err::<Column<T>, Error>(Error::NotEnoughData),
        candles@.len() >= config.period + 1 ==> r is Ok && r->Ok_0@ == natr_of(
            highs_of(candles@),
            lows_of(candles@),
            closes_of(candles@),
            *config,
        ),
{
    if candles.len() <= config.period {
        return Err(Error::NotEnoughData);
    }
    let tr = candles.true_range(Some(config.max_history));
    let atr = tr.into_ewm_mean(config.alpha);
    let start = window_start_of(candles.len(), config.max_history);
    Ok(natr_column(&atr, candles.closes(), start))
}

/// The last value of [`natr_series`]. Fails with `NotEnoughData` when there are
/// fewer than `period + 1` candles, or when `max_history` is zero, so that the
/// window holds no candle.
pub fn natr_latest<T: Numeric>(candles: &CandleSeries<T>, config: &Config<T>) -> (r: Result<
    T,
    Error,
>)
    requires
        candles.wf(),
        config.wf(),
    ensures
        candles@.len() < config.period + 1 || config.max_history == 0 ==> r == Err::<T, Error>(
            Error::NotEnoughData,
        ),
        candles@.len() >= config.period + 1 && config.max_history > 0 ==> r == Ok::<T, Error>(
            natr_of(highs_of(candles@), lows_of(candles@), closes_of(candles@), *config).last(),
        ),
{
    if candles.len() <= config.period || config.max_history == 0 {
        return Err(Error::NotEnoughData);
    }
    let tr = candles.true_range(Some(config.max_history));
    let atr = tr.into_ewm_mean(config.alpha);
    let value = *atr.last().unwrap();
    let close = *candles.closes().last().unwrap();
    if close.is_zero() {
        Ok(T::zero())
    } else {
        Ok(T::hundred().mul(value.div(close)))
    }
}

/// NATR of parallel high, low and close series with the true range and its
/// average, each labelled like the closes.
#[derive(Clone, Debug)]
pub struct NatrResult<T, I> {
    pub natr: Series<T, I>,
    pub atr: Series<T, I>,
    pub true_range: Series<T, I>,
}

/// NATR of three parallel series over all their bars: the true range, its
/// exponential average, and that average as a percentage of the close of the same
/// bar (zero where that close is zero). Fails with `NotEnoughData` when there are
/// fewer than `period + 1` bars, empty series included.
pub fn natr<T: Numeric, I: Copy>(
    high: &Series<T, I>,
    low: &Series<T, I>,
    close: &Series<T, I>,
    config: &Config<T>,
) -> (r: Result<NatrResult<T, I>, Error>)
    requires
        high.wf(),
        low.wf(),
        close.wf(),
        low.spec_values().len() == high.spec_values().len(),
        close.spec_values().len() == high.spec_values().len(),
        config.wf(),
    ensures
        close.spec_values().len() < config.period + 1 ==> r == Err::<NatrResult<T, I>, Error>(
            Error::NotEnoughData,
        ),
        close.spec_values().len() >= config.period + 1 ==> r is Ok,
        r matches Ok(res) ==> {
            &&& res.true_range.spec_values() == window_true_range(
                high.spec_values(),
                low.spec_values(),
                close.spec_values(),
                None,
            )
            &&& res.atr.spec_values() == ewm_seq(res.true_range.spec_values(), config.alpha)
            &&& res.natr.spec_values().len() == close.spec_values().len()
            &&& forall|i: int|
                0 <= i < close.spec_values().len() ==> #[trigger] res.natr.spec_values()[i]
                    == natr_value(res.atr.spec_values()[i], close.spec_values()[i])
            &&& res.natr.wf() && res.atr.wf() && res.true_range.wf()
            &&& res.natr.spec_index() == close.spec_index()
            &&& res.atr.spec_index() == close.spec_index()
            &&& res.true_range.spec_index() == close.spec_index()
        },
{
    if close.len() <= config.period {
        return Err(Error::NotEnoughData);
    }
    let tr = true_range_columns(high.column(), low.column(), close.column(), None);
    let atr = tr.ewm_mean(config.alpha);
    let values = natr_column(&atr, close.column(), 0);
    Ok(
        NatrResult {
            natr: close.with_values(values),
            atr: close.with_values(atr),
            true_range: close.with_values(tr),
        },
    )
}

/// At every position of the window, NATR is zero where the close is zero, and
/// otherwise exactly `100 * (atr / close)` of the average true range and the close
/// of the same bar.
pub proof fn lemma_natr_formula<T: Numeric>(h: Seq<T>, l: Seq<T>, c: Seq<T>, config: Config<T>)
    requires
        l.len() == h.len(),
        c.len() == h.len(),
    ensures
        ({
            let start = window_start(h.len(), Some(config.max_history));
            let atr = atr_of(h, l, c, config);
            let natr = natr_of(h, l, c, config);
            &&& natr.len() == h.len() - start
            &&& forall|k: int|
                0 <= k < natr.len() ==> (c[start + k] == T::zero_spec() ==> #[trigger] natr[k]
                    == T::zero_spec()) && (c[start + k] != T::zero_spec() ==> natr[k]
                    == T::hundred_spec().mul_spec(atr[k].div_spec(c[start + k])))
        }),
{
}

} // verus!

//! Relative Strength Index.
use vstd::prelude::*;

use crate::candle::{closes_of, CandleSeries};
use crate::column::{
    change_at, ewm_at, ewm_seq, gain_of, loss_of, window_gains, window_losses, window_start, Column,
};
use crate::config::Config;
use crate::error::Error;
use crate::series::Series;
use crate::numeric::{alpha_in_unit, le, nonneg, Numeric};

verus! {

/// `100 * gain / (gain + loss)`, and exactly 50 when both averages are zero.
pub open spec fn rsi_value<T: Numeric>(gain: T, loss: T) -> T {
    if gain == T::zero_spec() && loss == T::zero_spec() {
        T::fifty_spec()
    } else {
        T::hundred_spec().mul_spec(gain.div_spec(gain.add_spec(loss)))
    }
}

/// RSI at each position of parallel average-gain and average-loss sequences.
pub open spec fn rsi_from_averages<T: Numeric>(avg_gain: Seq<T>, avg_loss: Seq<T>) -> Seq<T> {
    Seq::new(avg_gain.len(), |i: int| rsi_value(avg_gain[i], avg_loss[i]))
}

/// Gains of the prices of the window that `max_history` selects, smoothed with
/// `alpha`.
pub open spec fn smoothed_gains<T: Numeric>(
    prices: Seq<T>,
    alpha: T,
    max_history: Option<usize>,
) -> Seq<T> {
    ewm_seq(window_gains(prices, max_history), alpha)
}

/// Losses of the prices of the window that `max_history` selects, smoothed with
/// `alpha`.
pub open spec fn smoothed_losses<T: Numeric>(
    prices: Seq<T>,
    alpha: T,
    max_history: Option<usize>,
) -> Seq<T> {
    ewm_seq(window_losses(prices, max_history), alpha)
}

/// RSI over the window of prices that `max_history` selects, one value per price.
pub open spec fn rsi_over<T: Numeric>(prices: Seq<T>, alpha: T, max_history: Option<usize>) -> Seq<
    T,
> {
    rsi_from_averages(
        smoothed_gains(prices, alpha, max_history),
        smoothed_losses(prices, alpha, max_history),
    )
}

/// RSI over the trailing `max_history` closes, one value per close of the window.
pub open spec fn rsi_of_closes<T: Numeric>(closes: Seq<T>, config: Config<T>) -> Seq<T> {
    rsi_over(closes, config.alpha, Some(config.max_history))
}

/// RSI at each position of two equally long columns of average gains and losses.
fn rsi_column<T: Numeric>(avg_gain: &Column<T>, avg_loss: &Column<T>) -> (r: Column<T>)
    requires
        avg_gain@.len() == avg_loss@.len(),
    ensures
        r@ == rsi_from_averages(avg_gain@, avg_loss@),
{
    let n = avg_gain.len();
    let fifty = T::fifty();
    let hundred = T::hundred();
    let mut out: Column<T> = Column::with_capacity(n);
    let mut i: usize = 0;
    while i < n
        invariant
            n == avg_gain@.len(),
            n == avg_loss@.len(),
            fifty == T::fifty_spec(),
            hundred == T::hundred_spec(),
            i <= n,
            out@.len() == i,
            forall|j: int| 0 <= j < i ==> out@[j] == rsi_value(avg_gain@[j], avg_loss@[j]),
        decreases n - i,
    {
        let gain = *avg_gain.get(i).unwrap();
        let loss = *avg_loss.get(i).unwrap();
        if gain.is_zero() && loss.is_zero() {
            out.push(fifty);
        } else {
            out.push(hundred.mul(gain.div(gain.add(loss))));
        }
        i += 1;
    }
    assert(out@ =~= rsi_from_averages(avg_gain@, avg_loss@));
    out
}

/// Average gains and losses of the closes of `candles`.
fn averages<T: Numeric>(candles: &CandleSeries<T>, config: &Config<T>) -> (r: (Column<T>, Column<T>))
    requires
        candles.wf(),
        config.wf(),
    ensures
        r.0@ == smoothed_gains(closes_of(candles@), config.alpha, Some(config.max_history)),
        r.1@ == smoothed_losses(closes_of(candles@), config.alpha, Some(config.max_history)),
{
    let closes = candles.closes();
    let (gains, losses) = closes.gains_losses(Some(config.max_history));
    (gains.into_ewm_mean(config.alpha), losses.into_ewm_mean(config.alpha))
}

/// RSI of the closes of `candles`, over the trailing `max_history` of them: one
/// value per close of that window. The first value of the series is a warm-up
/// artifact (50 when the prices are flat). Fails with `NotEnoughData` when there
/// are fewer than `period + 1` candles, an empty series included.
pub fn rsi_series<T: Numeric>(candles: &CandleSeries<T>, config: &Config<T>) -> (r: Result<
    Column<T>,
    Error,
>)
    requires
        candles.wf(),
        config.wf(),
    ensures
        candles@.len() < config.period + 1 ==> r == Err::<Column<T>, Error>(Error::NotEnoughData),
        candles@.len() >= config.period + 1 ==> r is Ok && r->Ok_0@ == rsi_of_closes(
            closes_of(candles@),
            *config,
        ),
{
    if candles.len() <= config.period {
        return Err(Error::NotEnoughData);
    }
    let (avg_gain, avg_loss) = averages(candles, config);
    Ok(rsi_column(&avg_gain, &avg_loss))
}

/// The last value of [`rsi_series`]. Fails with `NotEnoughData` when there are
/// fewer than `period + 1` candles, or when `max_history` is zero, so that the
/// window holds no candle.
pub fn rsi_latest<T: Numeric>(candles: &CandleSeries<T>, config: &Config<T>) -> (r: Result<
    T,
    Error,
>)
    requires
        candles.wf(),
        config.wf(),
    ensures
        candles@.len() < config.period + 1 || config.max_history == 0 ==> r == Err::<T, Error>(
            Error::NotEnoughData,
        ),
        candles@.len() >= config.period + 1 && config.max_history > 0 ==> r == Ok::<T, Error>(
            rsi_of_closes(closes_of(candles@), *config).last(),
        ),
{
    if candles.len() <= config.period || config.max_history == 0 {
        return Err(Error::NotEnoughData);
    }
    let (avg_gain, avg_loss) = averages(candles, config);
    let gain = *avg_gain.last().unwrap();
    let loss = *avg_loss.last().unwrap();
    if gain.is_zero() && loss.is_zero() {
        Ok(T::fifty())
    } else {
        Ok(T::hundred().mul(gain.div(gain.add(loss))))
    }
}

/// RSI of a price series with the averages it is built from, each labelled like
/// the prices.
#[derive(Clone, Debug)]
pub struct RsiResult<T, I> {
    pub rsi: Series<T, I>,
    pub avg_gain: Series<T, I>,
    pub avg_loss: Series<T, I>,
}

/// RSI of a price series: the changes (zero at position 0), split into gains and
/// losses, each smoothed with `alpha`, combined by [`rsi_value`]. One value per
/// price, under the label of that price; the first is a warm-up artifact. Fails
/// with `NotEnoughData` when there are fewer than `period + 1` prices, an empty
/// series included.
pub fn rsi<T: Numeric, I: Copy>(prices: &Series<T, I>, config: &Config<T>) -> (r: Result<
    RsiResult<T, I>,
    Error,
>)
    requires
        prices.wf(),
        config.wf(),
    ensures
        prices.spec_values().len() < config.period + 1 ==> r == Err::<RsiResult<T, I>, Error>(
            Error::NotEnoughData,
        ),
        prices.spec_values().len() >= config.period + 1 ==> r is Ok,
        r matches Ok(res) ==> {
            &&& res.avg_gain.spec_values() == smoothed_gains(prices.spec_values(), config.alpha, None)
            &&& res.avg_loss.spec_values() == smoothed_losses(
                prices.spec_values(),
                config.alpha,
                None,
            )
            &&& res.rsi.spec_values() == rsi_over(prices.spec_values(), config.alpha, None)
            &&& res.rsi.wf() && res.avg_gain.wf() && res.avg_loss.wf()
            &&& res.rsi.spec_index() == prices.spec_index()
            &&& res.avg_gain.spec_index() == prices.spec_index()
            &&& res.avg_loss.spec_index() == prices.spec_index()
        },
{
    if prices.len() <= config.period {
        return Err(Error::NotEnoughData);
    }
    let (gains, losses) = prices.column().gains_losses(None);
    let avg_gain = gains.into_ewm_mean(config.alpha);
    let avg_loss = losses.into_ewm_mean(config.alpha);
    let values = rsi_column(&avg_gain, &avg_loss);
    Ok(
        RsiResult {
            rsi: prices.with_values(values),
            avg_gain: prices.with_values(avg_gain),
            avg_loss: prices.with_values(avg_loss),
        },
    )
}

/// A gain or a loss is never negative.
proof fn lemma_split_nonneg<T: Numeric>(c: T)
    ensures
        nonneg(gain_of(c)),
        nonneg(loss_of(c)),
{
    T::lemma_lt_asymmetric(T::zero_spec(), c);
    T::lemma_abs_nonneg(c);
}

/// The exponential recurrence, with a smoothing factor strictly between zero and
/// one, keeps non-negative values non-negative.
pub proof fn lemma_ewm_nonneg<T: Numeric>(raw: Seq<T>, alpha: T, i: int)
    requires
        alpha_in_unit(alpha),
        forall|j: int| 0 <= j < raw.len() ==> nonneg(#[trigger] raw[j]),
        0 <= i < raw.len(),
    ensures
        nonneg(ewm_at(raw, alpha, i)),
    decreases i,
{
    if i > 0 {
        lemma_ewm_nonneg(raw, alpha, i - 1);
        let prev = ewm_at(raw, alpha, i - 1);
        let keep = T::one_spec().sub_spec(alpha);
        T::lemma_lt_asymmetric(T::zero_spec(), alpha);
        T::lemma_sub_nonneg(T::one_spec(), alpha);
        T::lemma_mul_nonneg(alpha, raw[i]);
        T::lemma_mul_nonneg(keep, prev);
        T::lemma_add_nonneg(alpha.mul_spec(raw[i]), keep.mul_spec(prev));
    }
}

/// RSI of non-negative average gain and loss lies in `[0, 100]`.
proof fn lemma_rsi_value_bounded<T: Numeric>(gain: T, loss: T)
    requires
        nonneg(gain),
        nonneg(loss),
    ensures
        nonneg(rsi_value(gain, loss)),
        le(rsi_value(gain, loss), T::hundred_spec()),
{
    let zero = T::zero_spec();
    let fifty = T::fifty_spec();
    let hundred = T::hundred_spec();
    T::lemma_constants_ordered();
    T::lemma_lt_total_transitive(zero, fifty, hundred);
    T::lemma_lt_asymmetric(zero, fifty);
    T::lemma_lt_asymmetric(fifty, hundred);
    T::lemma_lt_asymmetric(zero, hundred);
    if !(gain == zero && loss == zero) {
        let sum = gain.add_spec(loss);
        T::lemma_add_nonneg(gain, loss);
        T::lemma_div_unit(gain, sum);
        T::lemma_mul_nonneg(hundred, gain.div_spec(sum));
    }
}

/// Whatever the prices, RSI lies in `[0, 100]` at every position, and is exactly
/// 50 wherever both smoothed averages are zero.
pub proof fn lemma_rsi_in_range<T: Numeric>(prices: Seq<T>, alpha: T, max_history: Option<usize>)
    requires
        alpha_in_unit(alpha),
    ensures
        forall|i: int|
            0 <= i < rsi_over(prices, alpha, max_history).len() ==> nonneg(
                #[trigger] rsi_over(prices, alpha, max_history)[i],
            ) && le(rsi_over(prices, alpha, max_history)[i], T::hundred_spec()),
        forall|i: int|
            0 <= i < rsi_over(prices, alpha, max_history).len() && smoothed_gains(
                prices,
                alpha,
                max_history,
            )[i] == T::zero_spec() && smoothed_losses(prices, alpha, max_history)[i]
                == T::zero_spec() ==> #[trigger] rsi_over(prices, alpha, max_history)[i]
                == T::fifty_spec(),
{
    let gains = window_gains(prices, max_history);
    let losses = window_losses(prices, max_history);
    assert forall|j: int| 0 <= j < gains.len() implies nonneg(#[trigger] gains[j]) && nonneg(
        losses[j],
    ) by {
        lemma_split_nonneg(change_at(prices, window_start(prices.len(), max_history) + j));
    }
    assert forall|i: int| 0 <= i < rsi_over(prices, alpha, max_history).len() implies nonneg(
        #[trigger] rsi_over(prices, alpha, max_history)[i],
    ) && le(rsi_over(prices, alpha, max_history)[i], T::hundred_spec()) by {
        assert forall|j: int| 0 <= j < losses.len() implies nonneg(#[trigger] losses[j]) by {
            assert(nonneg(gains[j]) && nonneg(losses[j]));
        }
        lemma_ewm_nonneg(gains, alpha, i);
        lemma_ewm_nonneg(losses, alpha, i);
        lemma_rsi_value_bounded(ewm_at(gains, alpha, i), ewm_at(losses, alpha, i));
    }
}

} // verus!

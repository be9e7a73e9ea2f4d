//! OHLCV candles and the state machine that folds price ticks into fixed-width
//! time buckets.
use vstd::prelude::*;

use crate::column::{window_start, Column};
use crate::error::Error;
use crate::numeric::{le, max_of, min_of, Numeric};

verus! {

/// One fixed-width time bucket: first, highest, lowest and last price, and the
/// traded volume.
#[derive(Clone, Copy, Debug, PartialEq)]
pub struct Candle<T> {
    pub open: T,
    pub high: T,
    pub low: T,
    pub close: T,
    pub volume: T,
}

/// Borrowed view of the fields of one stored candle.
#[derive(Clone, Copy, Debug, PartialEq)]
pub struct CandleRef<'a, T> {
    pub open: &'a T,
    pub high: &'a T,
    pub low: &'a T,
    pub close: &'a T,
    pub volume: &'a T,
}

/// `max(high - low, |high - prev_close|, |low - prev_close|)`.
pub open spec fn range_with_prev<T: Numeric>(high: T, low: T, prev_close: T) -> T {
    let hl = high.sub_spec(low);
    let hc = high.sub_spec(prev_close).abs_spec();
    let lc = low.sub_spec(prev_close).abs_spec();
    max_of(max_of(hl, hc), lc)
}

/// True range at position `i` of parallel high, low and close sequences: the plain
/// range of the first bar, the range widened to the previous close afterwards.
pub open spec fn true_range_at<T: Numeric>(h: Seq<T>, l: Seq<T>, c: Seq<T>, i: int) -> T {
    if i == 0 {
        h[0].sub_spec(l[0])
    } else {
        range_with_prev(h[i], l[i], c[i - 1])
    }
}

/// True ranges over the trailing window of at most `max_history` bars.
pub open spec fn window_true_range<T: Numeric>(
    h: Seq<T>,
    l: Seq<T>,
    c: Seq<T>,
    max_history: Option<usize>,
) -> Seq<T> {
    let start = window_start(h.len(), max_history);
    Seq::new((h.len() - start) as nat, |k: int| true_range_at(h, l, c, start + k))
}

/// Start of the bucket of width `timeframe` that holds `ts`.
pub open spec fn bucket_start(ts: u64, timeframe: u64) -> u64 {
    (ts - ts % timeframe) as u64
}

/// The candle that a first tick opens.
pub open spec fn opened_by<T>(price: T, volume: T) -> Candle<T> {
    Candle { open: price, high: price, low: price, close: price, volume }
}

/// `c` after one more tick in its bucket.
pub open spec fn absorb<T: Numeric>(c: Candle<T>, price: T, volume: T) -> Candle<T> {
    Candle {
        open: c.open,
        high: max_of(c.high, price),
        low: min_of(c.low, price),
        close: price,
        volume: c.volume.add_spec(volume),
    }
}

/// The bars after a tick whose bucket starts at `start`: a new bar after the last
/// one, the last bar updated when the bucket is the same, and `None` when the
/// bucket starts before the last bar.
pub open spec fn after_tick<T: Numeric>(
    bars: Seq<(u64, Candle<T>)>,
    start: u64,
    price: T,
    volume: T,
) -> Option<Seq<(u64, Candle<T>)>> {
    if bars.len() == 0 || bars.last().0 < start {
        Some(bars.push((start, opened_by(price, volume))))
    } else if bars.last().0 == start {
        Some(bars.update(bars.len() - 1, (start, absorb(bars.last().1, price, volume))))
    } else {
        None
    }
}

/// The bars after feeding `ticks` of `(price, volume, time)`, in order, to
/// `bars`, where a tick whose bucket starts before the last bar is dropped.
pub open spec fn after_ticks<T: Numeric>(
    bars: Seq<(u64, Candle<T>)>,
    ticks: Seq<(T, T, u64)>,
    timeframe: u64,
) -> Seq<(u64, Candle<T>)>
    decreases ticks.len(),
{
    if ticks.len() == 0 {
        bars
    } else {
        let prev = after_ticks(bars, ticks.drop_last(), timeframe);
        let t = ticks.last();
        match after_tick(prev, bucket_start(t.2, timeframe), t.0, t.1) {
            Some(next) => next,
            None => prev,
        }
    }
}

/// The volumes of `ticks` added up from the first one on.
pub open spec fn volume_sum<T: Numeric>(ticks: Seq<(T, T, u64)>) -> T
    decreases ticks.len(),
{
    if ticks.len() == 0 {
        T::zero_spec()
    } else if ticks.len() == 1 {
        ticks[0].1
    } else {
        volume_sum(ticks.drop_last()).add_spec(ticks.last().1)
    }
}

/// Ticks that all fall in one bucket of width `timeframe` make a single candle
/// at that bucket's start, whose open is the first price, close the last price,
/// high the largest and low the smallest price, and volume the sum of the volumes.
pub proof fn lemma_single_bucket<T: Numeric>(ticks: Seq<(T, T, u64)>, timeframe: u64)
    requires
        ticks.len() > 0,
        timeframe > 0,
        forall|j: int|
            0 <= j < ticks.len() ==> bucket_start(#[trigger] ticks[j].2, timeframe) == bucket_start(
                ticks[0].2,
                timeframe,
            ),
    ensures
        ({
            let bars = after_ticks(Seq::empty(), ticks, timeframe);
            let c = bars[0].1;
            &&& bars.len() == 1
            &&& bars[0].0 == bucket_start(ticks[0].2, timeframe)
            &&& c.open == ticks[0].0
            &&& c.close == ticks.last().0
            &&& c.volume == volume_sum(ticks)
            &&& forall|j: int| 0 <= j < ticks.len() ==> le(#[trigger] ticks[j].0, c.high)
            &&& exists|j: int| 0 <= j < ticks.len() && c.high == #[trigger] ticks[j].0
            &&& forall|j: int| 0 <= j < ticks.len() ==> le(c.low, #[trigger] ticks[j].0)
            &&& exists|j: int| 0 <= j < ticks.len() && c.low == #[trigger] ticks[j].0
        }),
    decreases ticks.len(),
{
    let n = ticks.len();
    let bars = after_ticks(Seq::empty(), ticks, timeframe);
    let t = ticks.last();
    if n == 1 {
        assert(ticks.drop_last() =~= Seq::<(T, T, u64)>::empty());
        assert(after_ticks(Seq::empty(), ticks.drop_last(), timeframe) == Seq::<
            (u64, Candle<T>),
        >::empty());
        T::lemma_lt_asymmetric(t.0, t.0);
        assert(ticks[0] == t);
    } else {
        let init = ticks.drop_last();
        assert forall|j: int| 0 <= j < init.len() implies bucket_start(
            #[trigger] init[j].2,
            timeframe,
        ) == bucket_start(init[0].2, timeframe) by {
            assert(init[j] == ticks[j]);
            assert(init[0] == ticks[0]);
        }
        lemma_single_bucket(init, timeframe);
        let prev = after_ticks(Seq::empty(), init, timeframe);
        let c = prev[0].1;
        let p = t.0;
        assert(init[0] == ticks[0]);
        assert(bucket_start(ticks[n - 1].2, timeframe) == bucket_start(ticks[0].2, timeframe));
        let next = absorb(c, p, t.1);
        assert(bars == prev.update(0, (prev[0].0, next)));
        assert(init.last() == ticks[n - 2]);
        let jh = choose|j: int| 0 <= j < init.len() && c.high == #[trigger] init[j].0;
        let jl = choose|j: int| 0 <= j < init.len() && c.low == #[trigger] init[j].0;
        assert(init[jh] == ticks[jh]);
        assert(init[jl] == ticks[jl]);
        T::lemma_lt_asymmetric(p, p);
        T::lemma_lt_asymmetric(c.high, p);
        T::lemma_lt_asymmetric(p, c.low);
        assert forall|j: int| 0 <= j < n implies le(#[trigger] ticks[j].0, next.high) && le(
            next.low,
            ticks[j].0,
        ) by {
            if j < n - 1 {
                assert(init[j] == ticks[j]);
                T::lemma_lt_total_transitive(c.high, p, ticks[j].0);
                T::lemma_lt_total_transitive(ticks[j].0, p, c.low);
                T::lemma_lt_total_transitive(p, ticks[j].0, c.high);
                T::lemma_lt_total_transitive(c.low, ticks[j].0, p);
            } else {
                assert(ticks[j] == t);
            }
        }
        if c.high.lt_spec(p) {
            assert(next.high == ticks[n - 1].0);
        } else {
            assert(next.high == ticks[jh].0);
        }
        if p.lt_spec(c.low) {
            assert(next.low == ticks[n - 1].0);
        } else {
            assert(next.low == ticks[jl].0);
        }
    }
}

pub open spec fn opens_of<T>(bars: Seq<(u64, Candle<T>)>) -> Seq<T> {
    bars.map_values(|b: (u64, Candle<T>)| b.1.open)
}

pub open spec fn highs_of<T>(bars: Seq<(u64, Candle<T>)>) -> Seq<T> {
    bars.map_values(|b: (u64, Candle<T>)| b.1.high)
}

pub open spec fn lows_of<T>(bars: Seq<(u64, Candle<T>)>) -> Seq<T> {
    bars.map_values(|b: (u64, Candle<T>)| b.1.low)
}

pub open spec fn closes_of<T>(bars: Seq<(u64, Candle<T>)>) -> Seq<T> {
    bars.map_values(|b: (u64, Candle<T>)| b.1.close)
}

pub open spec fn volumes_of<T>(bars: Seq<(u64, Candle<T>)>) -> Seq<T> {
    bars.map_values(|b: (u64, Candle<T>)| b.1.volume)
}

/// `max(high - low, |high - prev_close|, |low - prev_close|)`.
fn range_with_prev_close<T: Numeric>(high: T, low: T, prev_close: T) -> (r: T)
    ensures
        r == range_with_prev(high, low, prev_close),
{
    let hl = high.sub(low);
    let hc = high.sub(prev_close).abs();
    let lc = low.sub(prev_close).abs();
    hl.max(hc).max(lc)
}

/// True range of each bar of the trailing window of at most `max_history` bars
/// (all of them when `None`) of parallel high, low and close columns: the first bar
/// of the columns has `high - low`, every later one also reaches to the previous
/// close. Computed in one pass from left to right.
pub fn true_range_columns<T: Numeric>(
    highs: &Column<T>,
    lows: &Column<T>,
    closes: &Column<T>,
    max_history: Option<usize>,
) -> (r: Column<T>)
    requires
        lows@.len() == highs@.len(),
        closes@.len() == highs@.len(),
    ensures
        r@ == window_true_range(highs@, lows@, closes@, max_history),
{
    let len = highs.len();
    let start: usize = match max_history {
        Some(max) => if len > max {
            len - max
        } else {
            0
        },
        None => 0,
    };
    let mut tr: Column<T> = Column::with_capacity(len - start);
    let mut i: usize = start;
    while i < len
        invariant
            len == highs@.len(),
            lows@.len() == len,
            closes@.len() == len,
            start == window_start(highs@.len(), max_history),
            start <= i <= len,
            tr@.len() == i - start,
            forall|k: int|
                0 <= k < i - start ==> tr@[k] == true_range_at(highs@, lows@, closes@, start + k),
        decreases len - i,
    {
        let high = *highs.get(i).unwrap();
        let low = *lows.get(i).unwrap();
        if i == 0 {
            tr.push(high.sub(low));
        } else {
            let prev_close = *closes.get(i - 1).unwrap();
            tr.push(range_with_prev_close(high, low, prev_close));
        }
        i += 1;
    }
    assert(tr@ =~= window_true_range(highs@, lows@, closes@, max_history));
    tr
}

impl<T: Numeric> Candle<T> {
    /// True range of this candle against the previous one.
    pub fn true_range(&self, prev: &Candle<T>) -> (r: T)
        ensures
            r == range_with_prev(self.high, self.low, prev.close),
    {
        range_with_prev_close(self.high, self.low, prev.close)
    }
}

impl<'a, T: Numeric> CandleRef<'a, T> {
    /// The candle whose fields this refers to.
    pub open spec fn values(&self) -> Candle<T> {
        Candle {
            open: *self.open,
            high: *self.high,
            low: *self.low,
            close: *self.close,
            volume: *self.volume,
        }
    }

    /// True range of this candle against the previous one.
    pub fn true_range(&self, prev: &CandleRef<T>) -> (r: T)
        ensures
            r == range_with_prev(*self.high, *self.low, *prev.close),
    {
        range_with_prev_close(*self.high, *self.low, *prev.close)
    }
}

impl<'a, T: Numeric> From<&'a Candle<T>> for CandleRef<'a, T> {
    fn from(candle: &'a Candle<T>) -> (r: CandleRef<'a, T>) {
        CandleRef {
            open: &candle.open,
            high: &candle.high,
            low: &candle.low,
            close: &candle.close,
            volume: &candle.volume,
        }
    }
}

impl<'a, T: Numeric> vstd::std_specs::convert::FromSpecImpl<&'a Candle<T>> for CandleRef<'a, T> {
    open spec fn obeys_from_spec() -> bool {
        true
    }

    open spec fn from_spec(candle: &'a Candle<T>) -> CandleRef<'a, T> {
        CandleRef {
            open: &candle.open,
            high: &candle.high,
            low: &candle.low,
            close: &candle.close,
            volume: &candle.volume,
        }
    }
}

impl<'a, T: Numeric> From<CandleRef<'a, T>> for Candle<T> {
    fn from(candle: CandleRef<'a, T>) -> (r: Candle<T>) {
        Candle {
            open: *candle.open,
            high: *candle.high,
            low: *candle.low,
            close: *candle.close,
            volume: *candle.volume,
        }
    }
}

impl<'a, T: Numeric> vstd::std_specs::convert::FromSpecImpl<CandleRef<'a, T>> for Candle<T> {
    open spec fn obeys_from_spec() -> bool {
        true
    }

    open spec fn from_spec(candle: CandleRef<'a, T>) -> Candle<T> {
        candle.values()
    }
}

/// A time series of OHLCV candles in buckets of a fixed width.
#[derive(Clone, Debug)]
pub struct CandleSeries<T> {
    opens: Column<T>,
    highs: Column<T>,
    lows: Column<T>,
    closes: Column<T>,
    volumes: Column<T>,
    timestamps: Vec<u64>,
    timeframe: u64,
}

impl<T> View for CandleSeries<T> {
    /// Each stored bar: its bucket start and its candle.
    type V = Seq<(u64, Candle<T>)>;

    closed spec fn view(&self) -> Seq<(u64, Candle<T>)> {
        Seq::new(
            self.timestamps@.len(),
            |i: int|
                (
                    self.timestamps@[i],
                    Candle {
                        open: self.opens@[i],
                        high: self.highs@[i],
                        low: self.lows@[i],
                        close: self.closes@[i],
                        volume: self.volumes@[i],
                    },
                ),
        )
    }
}

impl<T: Numeric> CandleSeries<T> {
    /// The columns run in parallel and the bucket width is positive.
    pub closed spec fn wf(&self) -> bool {
        &&& self.opens@.len() == self.timestamps@.len()
        &&& self.highs@.len() == self.timestamps@.len()
        &&& self.lows@.len() == self.timestamps@.len()
        &&& self.closes@.len() == self.timestamps@.len()
        &&& self.volumes@.len() == self.timestamps@.len()
        &&& self.timeframe > 0
    }

    /// The bucket width.
    pub closed spec fn spec_timeframe(&self) -> u64 {
        self.timeframe
    }

    proof fn lemma_columns(&self)
        requires
            self.wf(),
        ensures
            self.opens@ == opens_of(self@),
            self.highs@ == highs_of(self@),
            self.lows@ == lows_of(self@),
            self.closes@ == closes_of(self@),
            self.volumes@ == volumes_of(self@),
    {
        assert(self.opens@ =~= opens_of(self@));
        assert(self.highs@ =~= highs_of(self@));
        assert(self.lows@ =~= lows_of(self@));
        assert(self.closes@ =~= closes_of(self@));
        assert(self.volumes@ =~= volumes_of(self@));
    }

    /// An empty series with buckets `timeframe` time units wide.
    pub fn new(timeframe: u64) -> (r: Self)
        requires
            timeframe > 0,
        ensures
            r.wf(),
            r@ == Seq::<(u64, Candle<T>)>::empty(),
            r.spec_timeframe() == timeframe,
    {
        let r = CandleSeries {
            opens: Column::new(),
            highs: Column::new(),
            lows: Column::new(),
            closes: Column::new(),
            volumes: Column::new(),
            timestamps: Vec::new(),
            timeframe,
        };
        assert(r@ =~= Seq::<(u64, Candle<T>)>::empty());
        r
    }

    pub fn opens(&self) -> (r: &Column<T>)
        requires
            self.wf(),
        ensures
            r@ == opens_of(self@),
    {
        proof {
            self.lemma_columns();
        }
        &self.opens
    }

    pub fn highs(&self) -> (r: &Column<T>)
        requires
            self.wf(),
        ensures
            r@ == highs_of(self@),
    {
        proof {
            self.lemma_columns();
        }
        &self.highs
    }

    pub fn lows(&self) -> (r: &Column<T>)
        requires
            self.wf(),
        ensures
            r@ == lows_of(self@),
    {
        proof {
            self.lemma_columns();
        }
        &self.lows
    }

    pub fn closes(&self) -> (r: &Column<T>)
        requires
            self.wf(),
        ensures
            r@ == closes_of(self@),
    {
        proof {
            self.lemma_columns();
        }
        &self.closes
    }

    pub fn volumes(&self) -> (r: &Column<T>)
        requires
            self.wf(),
        ensures
            r@ == volumes_of(self@),
    {
        proof {
            self.lemma_columns();
        }
        &self.volumes
    }

    /// The bucket width.
    pub fn timeframe(&self) -> (r: u64)
        ensures
            r == self.spec_timeframe(),
    {
        self.timeframe
    }

    /// The bucket start of each stored candle, in order.
    pub fn timestamps(&self) -> (r: &[u64])
        requires
            self.wf(),
        ensures
            r@ == self@.map_values(|b: (u64, Candle<T>)| b.0),
    {
        assert(self.timestamps@ =~= self@.map_values(|b: (u64, Candle<T>)| b.0));
        self.timestamps.as_slice()
    }

    /// The number of stored candles.
    pub fn len(&self) -> (r: usize)
        ensures
            r == self@.len(),
    {
        self.timestamps.len()
    }

    pub fn is_empty(&self) -> (r: bool)
        ensures
            r == (self@.len() == 0),
    {
        self.timestamps.len() == 0
    }

    /// The candle at `index`, as references into the series.
    pub fn get(&self, index: usize) -> (r: Option<CandleRef<'_, T>>)
        requires
            self.wf(),
        ensures
            index < self@.len() ==> r is Some && r->0.values() == self@[index as int].1,
            index >= self@.len() ==> r is None,
    {
        if index >= self.len() {
            return None;
        }
        Some(
            CandleRef {
                open: self.opens.get(index).unwrap(),
                high: self.highs.get(index).unwrap(),
                low: self.lows.get(index).unwrap(),
                close: self.closes.get(index).unwrap(),
                volume: self.volumes.get(index).unwrap(),
            },
        )
    }

    /// The candle at `index`, copied out of the series.
    pub fn get_owned(&self, index: usize) -> (r: Option<Candle<T>>)
        requires
            self.wf(),
        ensures
            r == (if index < self@.len() {
                Some(self@[index as int].1)
            } else {
                None
            }),
    {
        if index >= self.len() {
            return None;
        }
        Some(
            Candle {
                open: *self.opens.get(index).unwrap(),
                high: *self.highs.get(index).unwrap(),
                low: *self.lows.get(index).unwrap(),
                close: *self.closes.get(index).unwrap(),
                volume: *self.volumes.get(index).unwrap(),
            },
        )
    }
    /// Appends a candle opened by one tick, at bucket start `start`.
    fn push_new_candle(&mut self, price: T, vol: T, start: u64)
        requires
            old(self).wf(),
        ensures
            final(self).wf(),
            final(self)@ == old(self)@.push((start, opened_by(price, vol))),
            final(self).spec_timeframe() == old(self).spec_timeframe(),
    {
        self.opens.push(price);
        self.highs.push(price);
        self.lows.push(price);
        self.closes.push(price);
        self.volumes.push(vol);
        self.timestamps.push(start);
        assert(self@ =~= old(self)@.push((start, opened_by(price, vol))));
    }

    /// Folds one more tick into the last candle.
    fn update_last_candle(&mut self, price: T, vol: T)
        requires
            old(self).wf(),
            old(self)@.len() > 0,
        ensures
            final(self).wf(),
            final(self)@ == old(self)@.update(
                old(self)@.len() - 1,
                (old(self)@.last().0, absorb(old(self)@.last().1, price, vol)),
            ),
            final(self).spec_timeframe() == old(self).spec_timeframe(),
    {
        let i = self.len() - 1;
        let high = *self.highs.get(i).unwrap();
        if high.lt(price) {
            self.highs.set(i, price);
        }
        let low = *self.lows.get(i).unwrap();
        if price.lt(low) {
            self.lows.set(i, price);
        }
        self.closes.set(i, price);
        let volume = *self.volumes.get(i).unwrap();
        self.volumes.set(i, volume.add(vol));
        assert(self@ =~= old(self)@.update(
            old(self)@.len() - 1,
            (old(self)@.last().0, absorb(old(self)@.last().1, price, vol)),
        ));
    }

    /// The start of the bucket that holds `ts`.
    fn bucket_of(&self, ts: u64) -> (r: u64)
        requires
            self.wf(),
        ensures
            r == bucket_start(ts, self.spec_timeframe()),
    {
        let tf = self.timeframe;
        assert(ts % tf <= ts) by (nonlinear_arith)
            requires
                tf > 0,
        ;
        ts - (ts % tf)
    }

    /// Folds the tick `(price, vol)` at time `ts` into the series: it opens a new
    /// candle when its bucket starts after the last stored one (or when there is
    /// none), and updates the last candle when the bucket is the same. A tick whose
    /// bucket starts before the last stored one is refused with `InvalidTimestamp`
    /// carrying that bucket start, and the series is left as it was.
    pub fn push(&mut self, price: T, vol: T, ts: u64) -> (r: Result<(), Error>)
        requires
            old(self).wf(),
        ensures
            final(self).wf(),
            final(self).spec_timeframe() == old(self).spec_timeframe(),
            ({
                let start = bucket_start(ts, old(self).spec_timeframe());
                match after_tick(old(self)@, start, price, vol) {
                    Some(bars) => r is Ok && final(self)@ == bars,
                    None => r == Err::<(), Error>(Error::InvalidTimestamp(start)) && final(self)@
                        == old(self)@,
                }
            }),
    {
        let next_start = self.bucket_of(ts);
        let n = self.timestamps.len();
        if n == 0 {
            self.push_new_candle(price, vol, next_start);
        } else {
            let last_ts = self.timestamps[n - 1];
            if next_start > last_ts {
                self.push_new_candle(price, vol, next_start);
            } else if next_start == last_ts {
                self.update_last_candle(price, vol);
            } else {
                return Err(Error::InvalidTimestamp(next_start));
            }
        }
        Ok(())
    }

    /// Folds a tick like [`CandleSeries::push`], except that a tick whose bucket
    /// starts before the last stored one is silently dropped.
    pub fn push_unchecked(&mut self, price: T, vol: T, ts: u64)
        requires
            old(self).wf(),
        ensures
            final(self).wf(),
            final(self).spec_timeframe() == old(self).spec_timeframe(),
            final(self)@ == (match after_tick(
                old(self)@,
                bucket_start(ts, old(self).spec_timeframe()),
                price,
                vol,
            ) {
                Some(bars) => bars,
                None => old(self)@,
            }),
    {
        let next_start = self.bucket_of(ts);
        let n = self.timestamps.len();
        if n == 0 {
            self.push_new_candle(price, vol, next_start);
        } else {
            let last_ts = self.timestamps[n - 1];
            if next_start > last_ts {
                self.push_new_candle(price, vol, next_start);
            } else if next_start == last_ts {
                self.update_last_candle(price, vol);
            }
        }
    }

    /// A series with buckets `timeframe` wide holding the ticks of
    /// `(price, volume, time)` in order, each folded in as by
    /// [`CandleSeries::push_unchecked`].
    pub fn from_ticks(timeframe: u64, ticks: &[(T, T, u64)]) -> (r: Self)
        requires
            timeframe > 0,
        ensures
            r.wf(),
            r.spec_timeframe() == timeframe,
            r@ == after_ticks(Seq::empty(), ticks@, timeframe),
    {
        let mut series = CandleSeries::new(timeframe);
        let n = ticks.len();
        let mut i: usize = 0;
        assert(ticks@.subrange(0, 0) =~= Seq::<(T, T, u64)>::empty());
        while i < n
            invariant
                n == ticks@.len(),
                i <= n,
                series.wf(),
                series.spec_timeframe() == timeframe,
                series@ == after_ticks(Seq::empty(), ticks@.subrange(0, i as int), timeframe),
            decreases n - i,
        {
            let (price, vol, ts) = ticks[i];
            series.push_unchecked(price, vol, ts);
            assert(ticks@.subrange(0, i + 1).drop_last() =~= ticks@.subrange(0, i as int));
            i += 1;
        }
        assert(ticks@.subrange(0, n as int) =~= ticks@);
        series
    }

    /// Appends a complete candle at bucket start `ts`, with no check of order: the
    /// caller answers for it.
    pub fn push_candle_unchecked(&mut self, candle: Candle<T>, ts: u64)
        requires
            old(self).wf(),
        ensures
            final(self).wf(),
            final(self).spec_timeframe() == old(self).spec_timeframe(),
            final(self)@ == old(self)@.push((ts, candle)),
    {
        self.opens.push(candle.open);
        self.highs.push(candle.high);
        self.lows.push(candle.low);
        self.closes.push(candle.close);
        self.volumes.push(candle.volume);
        self.timestamps.push(ts);
        assert(self@ =~= old(self)@.push((ts, candle)));
    }

    /// True range of each candle of the trailing window of at most `max_history`
    /// candles (all of them when `None`): the first candle of the series has
    /// `high - low`, every later one also reaches to the previous close.
    pub fn true_range(&self, max_history: Option<usize>) -> (r: Column<T>)
        requires
            self.wf(),
        ensures
            r@ == window_true_range(
                highs_of(self@),
                lows_of(self@),
                closes_of(self@),
                max_history,
            ),
    {
        proof {
            self.lemma_columns();
        }
        true_range_columns(&self.highs, &self.lows, &self.closes, max_history)
    }
}

} // verus!

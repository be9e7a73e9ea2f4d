use mizuhiki_ta::{Candle, CandleSeries, Error, Fixed};

fn fx(x: f64) -> Fixed {
    Fixed::from_raw((x * 100_000_000.0).round() as i64)
}

#[test]
fn ticks_in_one_bucket_make_one_candle() {
    let mut candles = CandleSeries::new(60);
    let ticks = [(10.0, 1.0, 120), (12.0, 2.0, 130), (9.0, 0.5, 150), (11.0, 3.0, 179)];
    for &(p, v, ts) in ticks.iter() {
        candles.push(fx(p), fx(v), ts).unwrap();
    }
    assert_eq!(candles.len(), 1);
    assert_eq!(candles.timestamps(), &[120]);
    let c = candles.get_owned(0).unwrap();
    assert_eq!(c.open, fx(10.0));
    assert_eq!(c.high, fx(12.0));
    assert_eq!(c.low, fx(9.0));
    assert_eq!(c.close, fx(11.0));
    assert_eq!(c.volume, fx(6.5));

    let tick_values: Vec<(Fixed, Fixed, u64)> =
        ticks.iter().map(|&(p, v, ts)| (fx(p), fx(v), ts)).collect();
    let batch = CandleSeries::from_ticks(60, &tick_values);
    assert_eq!(batch.get_owned(0), Some(c));
    assert_eq!(batch.len(), 1);
}

#[test]
fn later_buckets_open_new_candles() {
    let mut candles = CandleSeries::new(60);
    candles.push(fx(10.0), fx(1.0), 5).unwrap();
    candles.push(fx(11.0), fx(1.0), 61).unwrap();
    candles.push(fx(12.0), fx(1.0), 250).unwrap();
    assert_eq!(candles.timestamps(), &[0, 60, 240]);
    assert_eq!(candles.closes().as_slice(), &[fx(10.0), fx(11.0), fx(12.0)]);
    assert_eq!(candles.opens().as_slice(), &[fx(10.0), fx(11.0), fx(12.0)]);
    assert_eq!(candles.volumes().len(), 3);
    assert_eq!(candles.timeframe(), 60);
}

#[test]
fn strict_push_refuses_an_earlier_bucket_and_changes_nothing() {
    let mut candles = CandleSeries::new(60);
    candles.push(fx(10.0), fx(1.0), 125).unwrap();
    candles.push(fx(11.0), fx(2.0), 130).unwrap();
    let before = candles.get_owned(0).unwrap();
    assert_eq!(candles.push(fx(50.0), fx(9.0), 59), Err(Error::InvalidTimestamp(0)));
    assert_eq!(candles.len(), 1);
    assert_eq!(candles.get_owned(0), Some(before));
    assert_eq!(candles.timestamps(), &[120]);
}

#[test]
fn lenient_push_drops_an_earlier_bucket() {
    let mut candles = CandleSeries::new(60);
    candles.push_unchecked(fx(10.0), fx(1.0), 125);
    candles.push_unchecked(fx(50.0), fx(9.0), 10);
    assert_eq!(candles.len(), 1);
    assert_eq!(candles.get_owned(0).unwrap().high, fx(10.0));
    candles.push_unchecked(fx(8.0), fx(1.0), 170);
    let c = candles.get_owned(0).unwrap();
    assert_eq!((c.low, c.close, c.volume), (fx(8.0), fx(8.0), fx(2.0)));
    candles.push_unchecked(fx(9.0), fx(1.0), 180);
    assert_eq!(candles.len(), 2);
}

#[test]
fn backfilled_candles_are_taken_as_given() {
    let mut candles = CandleSeries::new(60);
    let c = Candle { open: fx(1.0), high: fx(3.0), low: fx(0.5), close: fx(2.0), volume: fx(7.0) };
    candles.push_candle_unchecked(c, 600);
    candles.push_candle_unchecked(c, 0);
    assert_eq!(candles.timestamps(), &[600, 0]);
    assert!(candles.get(2).is_none());
    let r = candles.get(1).unwrap();
    assert_eq!((*r.open, *r.high, *r.low, *r.close, *r.volume), (c.open, c.high, c.low, c.close, c.volume));
    assert!(candles.get_owned(5).is_none());
    assert!(!candles.is_empty());
}

#[test]
fn true_range_reaches_to_the_previous_close() {
    let mut candles = CandleSeries::new(60);
    let bars = [(10.0, 8.0, 9.0), (12.0, 11.0, 11.5), (11.0, 7.0, 8.0), (9.0, 8.5, 8.7)];
    for (i, &(h, l, c)) in bars.iter().enumerate() {
        candles.push_candle_unchecked(
            Candle { open: fx(c), high: fx(h), low: fx(l), close: fx(c), volume: fx(0.0) },
            i as u64 * 60,
        );
    }
    let tr = candles.true_range(None);
    assert_eq!(tr.as_slice(), &[fx(2.0), fx(3.0), fx(4.5), fx(1.0)]);
    let window = candles.true_range(Some(2));
    assert_eq!(window.as_slice(), &[fx(4.5), fx(1.0)]);

    let prev = candles.get_owned(1).unwrap();
    let cur = candles.get_owned(2).unwrap();
    assert_eq!(cur.true_range(&prev), fx(4.5));
    let prev_ref = candles.get(1).unwrap();
    let cur_ref = candles.get(2).unwrap();
    assert_eq!(cur_ref.true_range(&prev_ref), fx(4.5));
    // A gap up: the previous close lies below the low.
    let gap = Candle { open: fx(20.0), high: fx(21.0), low: fx(20.0), close: fx(20.5), volume: fx(0.0) };
    assert_eq!(gap.true_range(&prev), fx(9.5));
    assert!(CandleSeries::<Fixed>::new(60).true_range(None).is_empty());
}

#[test]
fn candles_convert_to_and_from_references() {
    let c = Candle { open: fx(1.0), high: fx(3.0), low: fx(0.5), close: fx(2.0), volume: fx(7.0) };
    let r = mizuhiki_ta::CandleRef::from(&c);
    assert_eq!(*r.high, fx(3.0));
    let back = Candle::from(r);
    assert_eq!(back, c);
}

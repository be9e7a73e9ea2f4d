use mizuhiki_ta::{
    natr, natr_latest, natr_series, rsi, rsi_latest, rsi_series, Candle, CandleSeries, Config,
    Error, Fixed, Series,
};

fn fx(x: f64) -> Fixed {
    Fixed::from_raw((x * 100_000_000.0).round() as i64)
}

fn to_f64(f: Fixed) -> f64 {
    f.raw() as f64 / 100_000_000.0
}

fn rsi_prices() -> Vec<f64> {
    vec![
        44.34, 44.09, 44.15, 43.61, 44.33, 44.83, 45.10, 45.42, 45.84, 46.08, 45.89, 46.03,
        45.61, 46.28, 46.28, 46.00, 46.03, 46.41, 46.22, 45.64, 46.21, 46.25, 45.71, 46.45,
        45.78, 45.35, 44.03, 44.18, 44.22, 44.57, 43.42, 42.66, 43.13,
    ]
}

fn get_test_data() -> CandleSeries<Fixed> {
    let highs = vec![
        48.70, 48.72, 48.90, 48.87, 48.82, 49.05, 49.20, 49.35, 49.92, 50.19, 50.12, 49.66,
        49.88, 50.19, 50.36, 50.57, 50.65, 50.90, 51.12, 51.22, 51.30, 51.18, 50.92, 50.74,
        50.56, 50.67, 50.73, 50.81, 50.94, 51.12, 51.25, 51.36, 51.18, 50.92, 50.65, 50.54,
        50.33, 50.10, 49.91,
    ];

    let lows = vec![
        48.12, 48.14, 48.39, 48.37, 48.24, 48.64, 48.94, 48.86, 49.50, 49.87, 49.20, 48.90,
        49.43, 49.73, 49.26, 49.31, 49.50, 49.72, 50.43, 50.55, 50.68, 50.44, 50.20, 49.93,
        49.84, 49.90, 50.05, 50.18, 50.29, 50.33, 50.48, 50.57, 50.21, 49.89, 49.71, 49.66,
        49.55, 49.38, 49.10,
    ];

    let closes = vec![
        48.16, 48.61, 48.75, 48.63, 48.74, 49.03, 49.07, 49.32, 49.91, 50.13, 49.53, 49.50,
        49.75, 50.03, 49.61, 49.80, 50.20, 50.73, 50.94, 51.08, 50.97, 50.55, 50.42, 50.14,
        50.23, 50.41, 50.53, 50.60, 50.81, 50.95, 51.01, 51.07, 50.65, 50.16, 49.85, 49.77,
        49.66, 49.49, 49.21,
    ];

    let timestamps: Vec<i64> = (0..highs.len() as i64).map(|i| i * 60).collect();
    let mut candles = CandleSeries::new(60);

    for i in 0..highs.len() {
        candles.push_candle_unchecked(
            Candle {
                open: fx(0.0),
                high: fx(highs[i]),
                low: fx(lows[i]),
                close: fx(closes[i]),
                volume: fx(0.0),
            },
            timestamps[i] as u64,
        );
    }
    candles
}

#[test]
fn test_natr_series() {
    let candles = get_test_data();

    let expected_natr = vec![
        1.1932, 1.1795, 1.1714, 1.1703, 1.1400, 1.0955, 1.0831, 1.0797, 1.0438, 1.1151, 1.1457,
        1.1232, 1.1028, 1.1910, 1.2825, 1.3450, 1.4020, 1.3933, 1.3839, 1.3747, 1.3917, 1.3976,
        1.4204, 1.4190, 1.4220, 1.4134, 1.3996, 1.3856, 1.3939, 1.4006, 1.4095, 1.4565, 1.5124,
        1.5477, 1.5658, 1.5694, 1.5662, 1.5802,
    ];

    let config = Config::<Fixed>::new_wilder(14, 100).unwrap();
    let natr = natr_series(&candles, &config).unwrap();

    assert_eq!(natr.len(), expected_natr.len() + 1);

    for (i, &expected) in expected_natr.iter().enumerate() {
        let natr_value = to_f64(*natr.get(i + 1).unwrap());
        assert!((natr_value - expected).abs() < 0.01, "Mismatch at index {i}");
    }
}

#[test]
fn test_rsi_series() {
    let prices = rsi_prices();

    let expected_rsi = vec![
        71.80, 65.19, 65.55, 69.88, 65.45, 54.18, 61.24, 61.69, 52.84, 61.08, 52.19, 47.42,
        36.42, 38.17, 38.66, 42.89, 34.47, 30.25, 35.51,
    ];

    let mut candles = CandleSeries::new(60);

    for (i, &price) in prices.iter().enumerate() {
        candles.push(fx(price), fx(0.0), (i as u64) * 60).unwrap();
    }

    let config = Config::<Fixed>::new_wilder(14, 100).unwrap();

    let rsi_values = rsi_series(&candles, &config).unwrap();

    assert_eq!(rsi_values.len(), expected_rsi.len() + 14);

    for (i, &expected) in expected_rsi.iter().enumerate() {
        let rsi_value = to_f64(*rsi_values.get(i + 14).unwrap());
        assert!((rsi_value - expected).abs() < 0.01, "RSI value mismatch at index {i}");
    }
}

#[test]
fn rsi_of_a_price_series_matches_the_candle_version() {
    let prices: Vec<Fixed> = rsi_prices().into_iter().map(fx).collect();
    let series = Series::from_vec("close".to_string(), prices.clone(), None);
    let config = Config::<Fixed>::new_wilder(14, 100).unwrap();
    let result = rsi(&series, &config).unwrap();
    assert_eq!(result.rsi.len(), prices.len());
    assert_eq!(result.rsi.index(), series.index());
    assert_eq!(result.avg_gain.len(), prices.len());
    assert_eq!(result.avg_loss.len(), prices.len());
    assert!((to_f64(*result.rsi.get(14).unwrap()) - 71.80).abs() < 0.01);
    assert!((to_f64(*result.rsi.get(32).unwrap()) - 35.51).abs() < 0.01);
    let mut candles = CandleSeries::new(1);
    for (i, p) in prices.iter().enumerate() {
        candles.push(*p, fx(0.0), i as u64).unwrap();
    }
    let from_candles = rsi_series(&candles, &config).unwrap();
    assert_eq!(result.rsi.values(), from_candles.as_slice());
    assert_eq!(rsi_latest(&candles, &config), Ok(*from_candles.last().unwrap()));
}

#[test]
fn rsi_stays_within_bounds_and_is_fifty_when_flat() {
    let config = Config::<Fixed>::new_wilder(3, 10).unwrap();
    let flat = Series::from_vec("flat".to_string(), vec![fx(5.0); 6], None);
    let result = rsi(&flat, &config).unwrap();
    for v in result.rsi.values() {
        assert_eq!(*v, fx(50.0));
    }
    let rising = Series::from_vec(
        "rising".to_string(),
        vec![fx(1.0), fx(2.0), fx(3.0), fx(4.0), fx(5.0)],
        None,
    );
    let up = rsi(&rising, &config).unwrap();
    assert_eq!(*up.rsi.get(0).unwrap(), fx(50.0));
    for v in &up.rsi.values()[1..] {
        assert_eq!(*v, fx(100.0));
    }
    let falling = Series::from_vec(
        "falling".to_string(),
        vec![fx(9.0), fx(7.0), fx(4.0), fx(3.5), fx(1.0)],
        None,
    );
    let down = rsi(&falling, &config).unwrap();
    for v in &down.rsi.values()[1..] {
        assert_eq!(*v, fx(0.0));
    }
    let mixed = Series::from_vec(
        "mixed".to_string(),
        vec![fx(3.0), fx(1.0), fx(8.0), fx(2.0), fx(2.5), fx(0.5)],
        None,
    );
    for v in rsi(&mixed, &config).unwrap().rsi.values() {
        assert!(v.raw() >= 0 && v.raw() <= fx(100.0).raw());
    }
}

#[test]
fn rsi_exact_values_on_a_small_series() {
    // Changes 0, +2, -1; alpha 1/2.
    let config = Config::new(fx(0.5), 2, 2).unwrap();
    let prices = Series::from_vec("p".to_string(), vec![fx(10.0), fx(12.0), fx(11.0)], None);
    let result = rsi(&prices, &config).unwrap();
    // Gains 0, 2, 0 -> averages 0, 1, 0.5; losses 0, 0, 1 -> averages 0, 0, 0.5.
    assert_eq!(result.avg_gain.values(), &[fx(0.0), fx(1.0), fx(0.5)]);
    assert_eq!(result.avg_loss.values(), &[fx(0.0), fx(0.0), fx(0.5)]);
    assert_eq!(result.rsi.values(), &[fx(50.0), fx(100.0), fx(50.0)]);
}

#[test]
fn indicators_need_period_plus_one_points() {
    let config = Config::<Fixed>::new_wilder(14, 100).unwrap();
    let mut candles = CandleSeries::new(60);
    assert_eq!(rsi_series(&candles, &config).err(), Some(Error::NotEnoughData));
    assert_eq!(natr_series(&candles, &config).err(), Some(Error::NotEnoughData));
    assert_eq!(rsi_latest(&candles, &config), Err(Error::NotEnoughData));
    assert_eq!(natr_latest(&candles, &config), Err(Error::NotEnoughData));
    for i in 0..14u64 {
        candles.push(fx(10.0 + i as f64), fx(1.0), i * 60).unwrap();
    }
    assert_eq!(rsi_series(&candles, &config).err(), Some(Error::NotEnoughData));
    assert_eq!(natr_series(&candles, &config).err(), Some(Error::NotEnoughData));
    candles.push(fx(30.0), fx(1.0), 14 * 60).unwrap();
    assert_eq!(rsi_series(&candles, &config).unwrap().len(), 15);
    assert_eq!(natr_series(&candles, &config).unwrap().len(), 15);

    let empty = Series::from_vec("empty".to_string(), Vec::<Fixed>::new(), None);
    assert_eq!(rsi(&empty, &config).err(), Some(Error::NotEnoughData));
    assert_eq!(natr(&empty, &empty, &empty, &config).err(), Some(Error::NotEnoughData));
}

#[test]
fn natr_is_zero_where_the_close_is_zero() {
    let config = Config::new(fx(0.5), 1, 10).unwrap();
    let high = Series::from_vec("h".to_string(), vec![fx(4.0), fx(6.0), fx(5.0)], None);
    let low = Series::from_vec("l".to_string(), vec![fx(2.0), fx(3.0), fx(1.0)], None);
    let close = Series::from_vec("c".to_string(), vec![fx(3.0), fx(0.0), fx(4.0)], None);
    let result = natr(&high, &low, &close, &config).unwrap();
    // True ranges: 2; max(3, |6-3|, |3-3|) = 3; max(4, |5-0|, |1-0|) = 5.
    assert_eq!(result.true_range.values(), &[fx(2.0), fx(3.0), fx(5.0)]);
    // Averages with alpha 1/2: 2, 2.5, 3.75.
    assert_eq!(result.atr.values(), &[fx(2.0), fx(2.5), fx(3.75)]);
    assert_eq!(*result.natr.get(1).unwrap(), fx(0.0));
    assert_eq!(*result.natr.get(2).unwrap(), fx(93.75));
    assert_eq!(result.natr.get(0).unwrap().raw(), 6_666_666_600);
    assert_eq!(result.natr.index(), close.index());
}

#[test]
fn natr_over_a_window_uses_the_closes_of_the_same_bars() {
    let mut candles = CandleSeries::new(10);
    let bars = [(4.0, 2.0, 3.0), (6.0, 3.0, 5.0), (5.0, 1.0, 4.0), (7.0, 4.0, 2.0)];
    for (i, &(h, l, c)) in bars.iter().enumerate() {
        candles.push_candle_unchecked(
            Candle { open: fx(c), high: fx(h), low: fx(l), close: fx(c), volume: fx(1.0) },
            i as u64 * 10,
        );
    }
    let config = Config::new(fx(0.5), 1, 2).unwrap();
    let values = natr_series(&candles, &config).unwrap();
    // Window of the last two bars: true ranges 4 and 3, averages 4 and 3.5.
    assert_eq!(values.as_slice(), &[fx(100.0), fx(175.0)]);
    assert_eq!(natr_latest(&candles, &config), Ok(fx(175.0)));
}

#[test]
fn latest_values_need_a_nonempty_window() {
    let config = Config::new(fx(0.5), 0, 0).unwrap();
    let mut candles = CandleSeries::new(10);
    candles.push(fx(1.0), fx(1.0), 0).unwrap();
    assert_eq!(rsi_latest(&candles, &config), Err(Error::NotEnoughData));
    assert_eq!(natr_latest(&candles, &config), Err(Error::NotEnoughData));
    assert!(rsi_series(&candles, &config).unwrap().is_empty());
}

#[test]
fn config_constructors_check_their_inputs() {
    let ema = Config::<Fixed>::new_ema(14, 50).unwrap();
    assert_eq!(ema.alpha.raw(), 13_333_333);
    let wilder = Config::<Fixed>::new_wilder(14, 50).unwrap();
    assert_eq!(wilder.alpha.raw(), 7_142_857);
    assert_eq!((wilder.period, wilder.max_history), (14, 50));
    assert!(Config::<Fixed>::new_wilder(14, 13).is_none());
    assert!(Config::<Fixed>::new_wilder(1, 10).is_none());
    assert!(Config::<Fixed>::new_wilder(0, 10).is_none());
    assert!(Config::new(fx(1.0), 2, 10).is_none());
    assert!(Config::new(fx(0.0), 2, 10).is_none());
    assert!(Config::new(fx(0.25), 2, 2).is_some());
    assert!(Config::<i64>::new_wilder(14, 50).is_none());
}

#[test]
fn default_config_uses_fourteen_periods() {
    let config = Config::<Fixed>::default();
    assert_eq!((config.period, config.max_history), (14, 140));
    assert_eq!(config.alpha.raw(), 13_333_333);
}

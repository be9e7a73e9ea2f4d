use mizuhiki_ta::{Fixed, Numeric, Series};

fn fx(x: f64) -> Fixed {
    Fixed::from_raw((x * 100_000_000.0).round() as i64)
}

#[test]
fn from_vec_labels_by_position() {
    let series = Series::from_vec("my_data".to_string(), vec![fx(10.0), fx(20.0), fx(30.0)], None);
    assert_eq!(series.len(), 3);
    assert_eq!(series.index(), &[0, 1, 2]);
    assert_eq!(series.get(1), Some(&fx(20.0)));
    assert_eq!(series.name(), "my_data");
    assert_eq!(series.capacity(), None);
}

#[test]
fn push_extend_and_rename() {
    let mut series: Series<Fixed, u64> = Series::new("prices".to_string());
    assert!(series.is_empty());
    series.push(fx(1.0), 100);
    series.extend(vec![(fx(2.0), 200), (fx(3.0), 300)]);
    assert_eq!(series.values(), &[fx(1.0), fx(2.0), fx(3.0)]);
    assert_eq!(series.index(), &[100, 200, 300]);
    series.set_name("renamed".to_string());
    assert_eq!(series.name(), "renamed");
    assert_eq!(series.column().len(), 3);
}

#[test]
fn derived_series_keep_the_labels() {
    let series = Series::from_data(
        "p".to_string(),
        vec![fx(4.0), fx(6.0), fx(5.0)],
        vec![10u64, 20, 30],
        Some(8),
    );
    let d = series.diff();
    assert_eq!(d.values(), &[fx(0.0), fx(2.0), fx(-1.0)]);
    assert_eq!(d.index(), &[10, 20, 30]);
    assert_eq!(d.capacity(), Some(8));
    let e = series.ewm_mean(fx(0.5));
    assert_eq!(e.values(), &[fx(4.0), fx(5.0), fx(5.0)]);
    assert_eq!(e.index(), series.index());
    let m = series.map(|x: &Fixed| x.raw() / 100_000_000);
    assert_eq!(m.values(), &[4, 6, 5]);
    assert_eq!(m.index(), series.index());
    let mut a = series.clone();
    a.apply_mut(|x: Fixed| x.add(Fixed::from_int(1)));
    assert_eq!(a.values(), &[fx(5.0), fx(7.0), fx(6.0)]);
}

#[test]
fn filter_keeps_labels_in_lockstep() {
    let series = Series::from_data(
        "p".to_string(),
        vec![fx(4.0), fx(-6.0), fx(5.0), fx(-1.0)],
        vec![1u64, 2, 3, 4],
        None,
    );
    let f = series.filter(|x: &Fixed| x.raw() >= 0);
    assert_eq!(f.values(), &[fx(4.0), fx(5.0)]);
    assert_eq!(f.index(), &[1, 3]);
    assert_eq!(f.name(), "p");
}

#[test]
fn with_values_relabels_a_column() {
    let series = Series::from_vec("p".to_string(), vec![fx(1.0), fx(2.0)], None);
    let other = series.with_values(series.diff().column().clone());
    assert_eq!(other.values(), &[fx(0.0), fx(1.0)]);
    assert_eq!(other.index(), &[0, 1]);
}

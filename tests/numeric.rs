use mizuhiki_ta::{Fixed, Numeric};

fn fx(x: f64) -> Fixed {
    Fixed::from_raw((x * 100_000_000.0).round() as i64)
}

#[test]
fn fixed_point_arithmetic() {
    assert_eq!(fx(1.5).add(fx(2.25)), fx(3.75));
    assert_eq!(fx(1.5).sub(fx(2.25)), fx(-0.75));
    assert_eq!(fx(1.5).mul(fx(-2.0)), fx(-3.0));
    assert_eq!(fx(1.0).div(fx(3.0)).raw(), 33_333_333);
    assert_eq!(fx(-1.0).div(fx(3.0)).raw(), -33_333_333);
    assert_eq!(fx(7.0).div(Fixed::zero()), Fixed::zero());
    assert_eq!(fx(-2.5).abs(), fx(2.5));
    assert!(fx(1.0).lt(fx(1.5)));
    assert!(!fx(1.5).lt(fx(1.5)));
    assert!(Fixed::zero().is_zero());
    assert_eq!(Fixed::two(), fx(2.0));
    assert_eq!(Fixed::fifty(), fx(50.0));
    assert_eq!(Fixed::hundred(), fx(100.0));
    assert_eq!(Fixed::from_count(14), fx(14.0));
    assert_eq!(Fixed::from_int(-3), fx(-3.0));
}

#[test]
fn fixed_point_saturates() {
    let big = Fixed::from_raw(i64::MAX);
    assert_eq!(big.add(fx(1.0)).raw(), i64::MAX);
    assert_eq!(Fixed::from_raw(i64::MIN).sub(fx(1.0)).raw(), i64::MIN);
    assert_eq!(big.mul(fx(2.0)).raw(), i64::MAX);
    assert_eq!(Fixed::from_raw(i64::MIN).abs().raw(), i64::MAX);
    assert_eq!(Fixed::from_int(i64::MAX).raw(), i64::MAX);
}

#[test]
fn integer_arithmetic() {
    assert_eq!(7i64.div(2), 3);
    assert_eq!((-7i64).div(2), -3);
    assert_eq!(7i64.div(0), 0);
    assert_eq!(i64::MIN.div(-1), i64::MAX);
    assert_eq!(i64::MAX.add(1), i64::MAX);
    assert_eq!((-4i64).abs(), 4);
    assert_eq!(<i64 as Numeric>::hundred(), 100);
    assert_eq!(Numeric::max(3i64, 5), 5);
    assert_eq!(Numeric::max(fx(-1.0), fx(-2.0)), fx(-1.0));
    assert!(fx(0.5).is_positive() && !Fixed::zero().is_positive());
}

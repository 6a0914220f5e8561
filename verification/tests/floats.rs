use dami::engine::dataframe::DataFrame;
use dami::engine::series::floats::{is_at_most, is_below, MinMaxError, Real};
use dami::engine::series::{Float32, Float64, Series};

fn wide(x: f64) -> Float64 {
    Float64::from_bits(x.to_bits())
}

fn unwide(x: Float64) -> f64 {
    f64::from_bits(x.to_bits())
}

fn narrow(x: f32) -> Float32 {
    Float32::from_bits(x.to_bits())
}

fn column(values: &[f64]) -> Series<Float64> {
    Series::from(values.iter().map(|v| wide(*v)).collect::<Vec<Float64>>())
}

fn values(series: &Series<Float64>) -> Vec<f64> {
    series.to_vec().into_iter().map(unwide).collect()
}

fn samples() -> Vec<f64> {
    vec![
        0.0,
        -0.0,
        1.0,
        -1.0,
        1.5,
        -1.5,
        2.0,
        1e-320,
        -1e-320,
        f64::MIN_POSITIVE,
        f64::MAX,
        f64::MIN,
        f64::EPSILON,
        f64::INFINITY,
        f64::NEG_INFINITY,
        f64::NAN,
        -f64::NAN,
        f64::from_bits(0x7ff0_0000_0000_0001),
        f64::from_bits(0xfff8_0000_0000_0001),
        3.25e100,
        -3.25e100,
    ]
}

fn narrow_samples() -> Vec<f32> {
    vec![
        0.0,
        -0.0,
        1.0,
        -1.0,
        0.5,
        -2.5,
        1e-45,
        -1e-45,
        f32::MIN_POSITIVE,
        f32::MAX,
        f32::MIN,
        f32::INFINITY,
        f32::NEG_INFINITY,
        f32::NAN,
        -f32::NAN,
        f32::from_bits(0x7f80_0001),
    ]
}

#[test]
fn what_is_not_a_number_is_told_from_the_pattern() {
    for x in samples() {
        assert_eq!(wide(x).is_nan(), x.is_nan(), "{:?}", x);
    }
    for x in narrow_samples() {
        assert_eq!(narrow(x).is_nan(), x.is_nan(), "{:?}", x);
    }
    assert!(unwide(Float64::not_a_number()).is_nan());
    assert!(f32::from_bits(Float32::not_a_number().to_bits()).is_nan());
}

#[test]
fn the_order_of_numbers_is_told_from_the_pattern() {
    for a in samples() {
        for b in samples() {
            assert_eq!(is_below(&wide(a), &wide(b)), a < b, "{:?} < {:?}", a, b);
            assert_eq!(is_at_most(&wide(a), &wide(b)), a <= b, "{:?} <= {:?}", a, b);
        }
    }
    for a in narrow_samples() {
        for b in narrow_samples() {
            assert_eq!(is_below(&narrow(a), &narrow(b)), a < b, "{:?} < {:?}", a, b);
            assert_eq!(is_at_most(&narrow(a), &narrow(b)), a <= b, "{:?} <= {:?}", a, b);
        }
    }
}

#[test]
fn zero_is_told_from_the_pattern() {
    for x in samples() {
        assert_eq!(column(&[x]).bool(), x != 0.0, "{:?}", x);
        assert_eq!(column(&[1.0, x]).all(), x != 0.0, "{:?}", x);
        assert_eq!(column(&[0.0, x]).any(), x != 0.0, "{:?}", x);
    }
    assert!(column(&[]).all());
    assert!(!column(&[]).any());
}

#[test]
fn values_that_are_not_a_number_are_counted_and_dropped() {
    let series = column(&[1.0, 0.0, f64::NAN, 3.0, 7.0, f64::NAN]);
    assert_eq!(series.count(), 2);
    assert_eq!(values(&series.drop_na()), vec![1.0, 0.0, 3.0, 7.0]);
    assert_eq!(series.drop_na().get_index(), vec!["0", "1", "2", "3"]);
    assert_eq!(series.isnull().to_vec(), vec![false, false, true, false, false, true]);
    assert_eq!(series.notna().to_vec(), vec![true, true, false, true, true, false]);
    assert_eq!(values(&series.fillna(wide(9.0))), vec![1.0, 0.0, 9.0, 3.0, 7.0, 9.0]);
    let mut filled = column(&[f64::NAN, 2.0]);
    filled.set_name("f");
    filled.fillna_inplace(wide(-1.0));
    assert_eq!(values(&filled), vec![-1.0, 2.0]);
    assert_eq!(filled.get_name(), "f");
}

#[test]
fn the_first_number_is_found_by_its_label() {
    let mut series = column(&[f64::NAN, f64::NAN, 4.0, f64::NAN, 5.0]);
    series.reindex(vec!["a".into(), "b".into(), "c".into(), "d".into(), "e".into()], false);
    assert_eq!(series.first_valid_index(), Some("c".to_string()));
    assert_eq!(column(&[f64::NAN]).first_valid_index(), None);
    assert_eq!(column(&[]).first_valid_index(), None);
}

#[test]
fn numbers_are_held_between_bounds() {
    let series = column(&[1.0, 2.0, 3.0, 4.0, 5.0, f64::NAN]);
    let clipped = values(&series.clip(wide(0.0), wide(3.0)));
    assert_eq!(&clipped[..5], &[1.0, 2.0, 3.0, 3.0, 3.0]);
    assert!(clipped[5].is_nan());
    assert_eq!(
        series.between(wide(2.0), wide(4.0), true).to_vec(),
        vec![false, true, true, true, false, false]
    );
    assert_eq!(
        series.between(wide(2.0), wide(4.0), false).to_vec(),
        vec![false, false, true, false, false, false]
    );
    assert_eq!(column(&[1.0]).between(wide(f64::NAN), wide(4.0), true).to_vec(), vec![false]);
}

#[test]
fn running_extremes_pass_over_what_is_not_a_number() {
    let series = column(&[0.0, 1.0, f64::NAN, 3.0, 4.0, 2.0, 4.0]);
    assert_eq!(values(&series.cum_max()), vec![0.0, 1.0, 3.0, 4.0, 4.0, 4.0]);
    assert_eq!(values(&series.cum_min()), vec![0.0, 0.0, 0.0, 0.0, 0.0, 0.0]);
    let falling = column(&[f64::NAN, 5.0, -1.0, 7.0, f64::NEG_INFINITY]);
    assert_eq!(values(&falling.cum_min()), vec![5.0, -1.0, -1.0, f64::NEG_INFINITY]);
    assert_eq!(values(&falling.cum_max()), vec![5.0, 5.0, 7.0, 7.0]);
    assert_eq!(values(&column(&[]).cum_max()), Vec::<f64>::new());
}

#[test]
fn running_sums_and_products_are_made_by_the_given_arithmetic() {
    let series = column(&[0.0, 1.0, 3.0, 4.0]);
    assert_eq!(values(&series.cum_sum(|a, b| wide(unwide(a) + unwide(b)))), vec![0.0, 1.0, 4.0, 8.0]);
    let factors = column(&[2.0, f64::NAN, 3.0, 4.0]);
    let times = |a: Float64, b: Float64| wide(unwide(a) * unwide(b));
    assert_eq!(values(&factors.cum_prod(true, times)), vec![2.0, 6.0, 24.0]);
    let all = values(&factors.cum_prod(false, times));
    assert_eq!(all[0], 2.0);
    assert!(all[1].is_nan() && all[2].is_nan() && all[3].is_nan());
}

#[test]
fn values_are_compared_some_positions_apart() {
    let series = column(&[1.0, 1.0, 2.0, 3.0, 5.0, 8.0]);
    let minus = |a: Float64, b: Float64| wide(unwide(a) - unwide(b));
    let forward = values(&series.diff(1, minus));
    assert!(forward[0].is_nan());
    assert_eq!(&forward[1..], &[0.0, 1.0, 1.0, 2.0, 3.0]);
    let backward = values(&series.diff(-1, minus));
    assert_eq!(&backward[..5], &[0.0, -1.0, -1.0, -2.0, -3.0]);
    assert!(backward[5].is_nan());
    let far = values(&series.diff(7, minus));
    assert!(far.iter().all(|v| v.is_nan()));
    let doubled = column(&[1.0, 2.0, 4.0, 8.0]);
    let change = values(&doubled.pct_change(1, |a, b| wide(unwide(a) / unwide(b))));
    assert!(change[0].is_nan());
    assert_eq!(&change[1..], &[2.0, 2.0, 2.0]);
    assert_eq!(values(&series.diff(0, minus)), vec![0.0; 6]);
}

#[test]
fn rounding_is_done_by_the_given_function() {
    let series = column(&[1.323, 2.345, 6.789, 4.432, 9.99]);
    assert_eq!(values(&series.round(|f| wide(unwide(f).round()))), vec![1.0, 2.0, 7.0, 4.0, 10.0]);
}

#[test]
fn least_and_greatest_values_are_found() {
    let series = column(&[0.0, 4.0, 9.0, 8.0, -56.0, 9.0, -56.0]);
    assert_eq!(unwide(series.max().unwrap()), 9.0);
    assert_eq!(unwide(series.min().unwrap()), -56.0);
    assert_eq!(series.argmax(), Ok(2));
    assert_eq!(series.argmin(), Ok(4));
    assert_eq!(column(&[]).min().unwrap_err(), MinMaxError::EmptyInput);
    assert_eq!(column(&[]).argmax(), Err(MinMaxError::EmptyInput));
    assert_eq!(column(&[1.0, f64::NAN]).max().unwrap_err(), MinMaxError::UndefinedOrder);
    assert_eq!(column(&[f64::NAN, 1.0]).argmin(), Err(MinMaxError::UndefinedOrder));
    assert_eq!(column(&[f64::NAN]).argmin(), Err(MinMaxError::UndefinedOrder));
    let ends = column(&[f64::INFINITY, f64::MAX, f64::NEG_INFINITY, f64::MIN]);
    assert_eq!(ends.argmax(), Ok(0));
    assert_eq!(ends.argmin(), Ok(2));
    assert_eq!(column(&[0.0, -0.0]).argmin(), Ok(0));
    assert_eq!(column(&[-0.0, 0.0]).argmax(), Ok(0));
}

#[test]
fn least_and_greatest_numbers_pass_over_what_is_not_a_number() {
    let series = column(&[f64::NAN, 3.0, 5.0, 2.0, f64::NAN, 0.5, 6.0, 0.5]);
    assert_eq!(series.argmin_skipnan(), Ok(5));
    assert_eq!(unwide(series.max_skipnan()), 6.0);
    assert_eq!(column(&[f64::NAN, f64::NAN]).argmin_skipnan(), Err(MinMaxError::EmptyInput));
    assert_eq!(column(&[]).argmin_skipnan(), Err(MinMaxError::EmptyInput));
    assert!(unwide(column(&[f64::NAN]).max_skipnan()).is_nan());
    assert!(unwide(column(&[]).max_skipnan()).is_nan());
}

#[test]
fn every_column_of_a_table_gives_its_least_and_greatest_value() {
    let mut frame = DataFrame::new();
    let mut first = column(&[1.0, -2.0, 3.0]);
    first.set_name("a");
    let mut second = column(&[0.25, 0.5, 0.125]);
    second.set_name("b");
    frame.add_series(first, true).unwrap();
    frame.add_series(Series::from(vec![7i32, 8, 9]), true).unwrap();
    frame.add_series(second, true).unwrap();
    assert_eq!(values(&frame.min().unwrap()), vec![-2.0, 0.125]);
    assert_eq!(values(&frame.max().unwrap()), vec![3.0, 0.5]);
    assert_eq!(frame.argmin().unwrap().to_vec(), vec![1, 2]);
    assert_eq!(frame.min().unwrap().get_index(), vec!["0", "1"]);
    let mut third = column(&[1.0, f64::NAN, 3.0]);
    third.set_name("c");
    frame.add_series(third, true).unwrap();
    assert!(frame.min().is_none());
    assert!(frame.max().is_none());
    assert!(frame.argmin().is_none());
    assert_eq!(DataFrame::new().min().unwrap().len(), 0);
}

use dami::engine::common::{date_range, day, day_range, with_slashes, RangeError};
use dami::engine::index::date_time::{parse_date, DateTimeIndex, Notation};
use dami::engine::series::strings::{describe_texts, least_of};
use dami::engine::series::Series;

fn strings(values: &[&str]) -> Vec<String> {
    values.iter().map(|v| v.to_string()).collect()
}

#[test]
fn a_column_of_strings_is_summed_up() {
    let series = Series::from(strings(&["b", "a", "b", "c", "b", "a"]));
    let summary = series.describe();
    assert_eq!(summary.get_index(), vec!["count", "unique", "top", "freq"]);
    assert_eq!(summary.to_vec(), vec!["6", "3", "b", "3"]);
}

#[test]
fn the_top_of_different_strings_is_the_first_in_their_order() {
    let values = strings(&["pear", "apple", "zebra", "Apple", "apples"]);
    let summary = describe_texts(&values);
    assert_eq!(summary.to_vec(), vec!["5", "5", "Apple", "1"]);
    let mut sorted = values.clone();
    sorted.sort();
    assert_eq!(least_of(&values), sorted[0]);
    let odd = strings(&["é", "z", "zz", "\u{10000}", "~"]);
    let mut sorted = odd.clone();
    sorted.sort();
    assert_eq!(least_of(&odd), sorted[0]);
}

#[test]
fn borrowed_strings_are_summed_up_too() {
    let series: Series<&'static str> = Series::from(vec!["x", "y", "x"]);
    assert_eq!(series.describe().to_vec(), vec!["3", "2", "x", "2"]);
    assert_eq!(series.lower().to_vec(), vec!["x", "y", "x"]);
}

#[test]
fn strings_are_put_in_small_letters() {
    let mut series = Series::from(strings(&["Hello", "WORLD", "ÄÖ", "ok", ""]));
    series.set_name("words");
    let lower = series.lower();
    assert_eq!(lower.to_vec(), vec!["hello", "world", "äö", "ok", ""]);
    assert_eq!(lower.get_name(), "words");
    assert_eq!(lower.get_index(), series.get_index());
}

#[test]
fn dates_are_read_in_their_notations() {
    let index = DateTimeIndex::from_rfc3339(&["1970-01-02T00:00:00Z", "2001-09-09T01:46:40+00:00"]).unwrap();
    assert_eq!(index.get(0), Some(86400));
    assert_eq!(index.get(1), Some(1_000_000_000));
    assert!(DateTimeIndex::from_rfc3339(&["1970-01-02T00:00:00Z", "yesterday"]).is_none());
    let index = DateTimeIndex::from_rfc2822(&["Fri, 02 Jan 1970 01:00:00 +0100"]).unwrap();
    assert_eq!(index.get(0), Some(86400));
    assert!(DateTimeIndex::from_rfc2822(&["1970-01-02T00:00:00Z"]).is_none());
    let index = DateTimeIndex::from_str(&["1970 01 03 00:00:00 +0000"], "%Y %m %d %H:%M:%S %z").unwrap();
    assert_eq!(index.get(0), Some(172800));
    assert!(DateTimeIndex::from_str(&["1970 01 03"], "%Y %m %d %H:%M:%S %z").is_none());
    assert_eq!(parse_date(Notation::Naive, "%d/%m/%Y %H:%M:%S", "02/01/1970 00:00:01"), Some(86401));
    assert_eq!(parse_date(Notation::Naive, "%d/%m/%Y %H:%M:%S", "02/13/1970 00:00:01"), None);
    assert_eq!(DateTimeIndex::from_rfc3339(&[]).unwrap().len(), 0);
}

#[test]
fn a_date_is_put_at_a_position() {
    let mut index = DateTimeIndex::with_capacity(2);
    assert!(index.insert_str_at(1, "03/01/1970 00:00:00", "%d/%m/%Y %H:%M:%S"));
    assert_eq!(index.get(0), Some(0));
    assert_eq!(index.get(1), Some(172800));
    assert!(!index.insert_str_at(0, "no date", "%d/%m/%Y %H:%M:%S"));
    assert_eq!(index.get(0), Some(0));
}

#[test]
fn points_in_time_are_written_in_a_notation() {
    let index = DateTimeIndex::from_i64(&[0, 86400 * 365 + 3661]);
    assert_eq!(
        index.strftime("%Y-%m-%d %H:%M:%S").unwrap(),
        vec!["1970-01-01 00:00:00", "1971-01-01 01:01:01"]
    );
    assert_eq!(index.strftime("%d/%m/%y").unwrap(), vec!["01/01/70", "01/01/71"]);
    assert!(DateTimeIndex::from_i64(&[i64::MAX]).strftime("%Y").is_none());
    assert!(index.strftime("%Q").is_none());
}

#[test]
fn a_range_of_days_by_their_number() {
    let index = date_range("01-01-1970", None, Some(3)).unwrap();
    assert_eq!(index.len(), 3);
    assert_eq!((index.get(0), index.get(1), index.get(2)), (Some(0), Some(86400), Some(172800)));
    let index = date_range(" 31.12.1999 ", Some("ignored"), Some(1)).unwrap();
    assert_eq!(index.get(0), Some(946598400));
    assert_eq!(date_range("01/01/1970", None, Some(0)).unwrap().len(), 0);
    assert_eq!(date_range("01/01/1970", None, Some(-4)).unwrap().len(), 0);
}

#[test]
fn a_range_of_days_up_to_a_last_day() {
    let index = date_range("27/02/2000", Some("01.03.2000"), None).unwrap();
    assert_eq!(index.strftime("%d/%m").unwrap(), vec!["27/02", "28/02", "29/02", "01/03"]);
    assert_eq!(date_range("02/01/1970", Some("01/01/1970"), None).unwrap().len(), 0);
    assert_eq!(date_range("02/01/1970", Some("02/01/1970"), None).unwrap().len(), 1);
}

#[test]
fn what_writes_no_date_gives_no_range() {
    assert!(matches!(date_range("1970-01-01", None, Some(3)), Err(RangeError::Start)));
    assert!(matches!(date_range("30/02/2001", None, Some(3)), Err(RangeError::Start)));
    assert!(matches!(date_range("01/01/1899", None, Some(3)), Err(RangeError::Start)));
    assert!(matches!(date_range("01/01/1970", Some("soon"), None), Err(RangeError::End)));
    assert!(matches!(date_range("01/01/1970", None, None), Err(RangeError::Unbounded)));
    assert!(matches!(date_range("x", None, None), Err(RangeError::Start)));
    assert_eq!(day("29/02/2001"), None);
    assert_eq!(day("29/02/2004"), Some(1078012800));
    assert_eq!(with_slashes("1.2-3/4"), "1/2/3/4");
}

#[test]
fn a_range_that_ends_beyond_all_points_in_time_is_refused() {
    assert!(matches!(day_range(i64::MAX - 86399, None, Some(1)), Err(RangeError::TooLong)));
    let index = day_range(i64::MAX - 86400, None, Some(1)).unwrap();
    assert_eq!(index.get(0), Some(i64::MAX - 86400));
    assert!(matches!(day_range(0, None, None), Err(RangeError::Unbounded)));
    let index = day_range(10, Some(10 + 86400 * 2 + 5), None).unwrap();
    assert_eq!(index.len(), 3);
    assert_eq!(index.get(2), Some(10 + 86400 * 2));
}

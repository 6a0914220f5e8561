use chrono::{DateTime, Datelike};
use dami::engine::index::date_time::{is_leap, is_marked, month_length, DateTimeIndex, Mark};
use dami::io::json::JsonReader;
use dami::io::utils::{is_compressed, source, Packing, Source};
use dami::engine::series::Float64;

const MOMENTS: [i64; 12] = [
    0,
    86399,
    86400,
    951782400,
    951868800,
    1583020800,
    1609459199,
    1609459200,
    -1,
    -86400 * 365,
    1711843200,
    4102444800,
];

#[test]
fn dates_agree_with_the_calendar() {
    let index = DateTimeIndex::from_i64(&MOMENTS);
    assert_eq!(index.len(), MOMENTS.len());
    assert!(!index.is_empty());
    let years = index.year().unwrap();
    let months = index.month().unwrap();
    let days = index.day_of_month().unwrap();
    let weeks = index.week().unwrap();
    let ordinals = index.day().unwrap();
    for (i, seconds) in MOMENTS.iter().enumerate() {
        let t = DateTime::from_timestamp(*seconds, 0).unwrap();
        assert_eq!(years[i], t.year());
        assert_eq!(months[i], t.month());
        assert_eq!(days[i], t.day());
        assert_eq!(weeks[i], t.iso_week().week());
        assert_eq!(ordinals[i], t.ordinal());
    }
    assert_eq!((years[3], months[3], days[3]), (2000, 2, 29));
    assert_eq!(index.get(2), Some(86400));
    assert_eq!(index.get(99), None);
}

#[test]
fn marks_of_dates() {
    let index = DateTimeIndex::from_i64(&MOMENTS);
    let next_day: Vec<DateTime<chrono::Utc>> =
        MOMENTS.iter().map(|s| DateTime::from_timestamp(s + 86400, 0).unwrap()).collect();
    let month_end = index.is_month_end().unwrap();
    let quarter_end = index.is_quarter_end().unwrap();
    for (i, next) in next_day.iter().enumerate() {
        assert_eq!(month_end[i], next.day() == 1, "{}", MOMENTS[i]);
        assert_eq!(quarter_end[i], next.day() == 1 && [1, 4, 7, 10].contains(&next.month()));
    }
    assert_eq!(
        index.is_month_start().unwrap(),
        vec![true, true, false, false, true, true, false, true, false, true, false, true]
    );
    assert_eq!(
        index.is_year_start().unwrap(),
        vec![true, true, false, false, false, false, false, true, false, true, false, true]
    );
    assert_eq!(index.is_year_end().unwrap()[6], true);
    assert_eq!(index.is_year_end().unwrap()[8], true);
    assert_eq!(index.is_quarter_start().unwrap()[7], true);
    assert_eq!(index.is_quarter_start().unwrap()[5], false);
    assert_eq!(index.is_leap_year().unwrap()[3], true);
    assert_eq!(index.is_leap_year().unwrap()[11], false);
    assert_eq!(index.marks(Mark::LeapYear), index.is_leap_year());
    assert!(is_leap(2024) && is_leap(2000) && !is_leap(1900) && !is_leap(2023) && is_leap(-4));
    assert_eq!(month_length(2023, 2), 28);
    assert_eq!(month_length(2024, 2), 29);
    assert_eq!(month_length(2024, 4), 30);
    assert_eq!(month_length(2024, 12), 31);
    assert!(is_marked(Mark::QuarterEnd, 2024, 6, 30));
    assert!(!is_marked(Mark::QuarterEnd, 2024, 6, 29));
    assert!(!is_marked(Mark::MonthEnd, 2023, 2, 29 - 1 + 1));
}

#[test]
fn moments_without_a_date() {
    let index = DateTimeIndex::from_i64(&[0, i64::MAX]);
    assert!(index.year().is_none());
    assert!(index.week().is_none());
    assert!(index.day().is_none());
    assert!(index.is_leap_year().is_none());
    assert!(index.dates().is_none());
    let empty = DateTimeIndex::from_i64(&[]);
    assert!(empty.is_empty());
    assert_eq!(empty.year(), Some(Vec::new()));
}

#[test]
fn ranges_of_days() {
    let zeros = DateTimeIndex::with_capacity(3);
    assert_eq!(zeros.len(), 3);
    assert_eq!(zeros.get(2), Some(0));
    let mut days = DateTimeIndex::days_from(1609459200, 3);
    assert_eq!(days.day_of_month().unwrap(), vec![1, 2, 3]);
    assert_eq!(days.get(1), Some(1609459200 + 86400));
    days.insert(0, 0);
    assert_eq!(days.year().unwrap(), vec![1970, 2021, 2021]);
    assert_eq!(DateTimeIndex::days_from(5, 0).len(), 0);
}

#[test]
fn where_text_comes_from() {
    assert_eq!(is_compressed("https://example.org/data/a.csv"), Some(false));
    assert_eq!(is_compressed("https://example.org/data/a.json?x=1"), Some(false));
    assert_eq!(is_compressed("https://example.org/page.html#top"), Some(false));
    assert_eq!(is_compressed("https://example.org/data/a.csv.zip"), Some(true));
    assert_eq!(is_compressed("https://example.org/"), Some(true));
    assert_eq!(is_compressed("not a url"), None);
    assert_eq!(source("https://example.org/a.csv"), Source::Remote);
    assert_eq!(source("https://example.org/a.zip"), Source::RemotePacked);
    assert_eq!(source("/tmp/a.zip"), Source::Local(Packing::Zip));
    assert_eq!(source("a.xz"), Source::Local(Packing::Xz));
    assert_eq!(source("a.txt"), Source::Local(Packing::Plain));
}

fn widen(i: i64) -> Float64 {
    Float64::from_bits((i as f64).to_bits())
}

#[test]
fn json_text_is_read_line_by_line() {
    let text = "{\"a\": 1, \"b\": \"x\", \"c\": true, \"d\": 1.5}\nnot json\n[1, 2]\n{\"a\": 2, \"b\": \"y\", \"c\": false, \"d\": 2.5}\n";
    let mut reader = JsonReader::new();
    reader.parse_string_json(text, true);
    let df = reader.to_dataframe(widen).unwrap();
    assert_eq!(df.get_order(), vec!["a", "b", "c", "d"]);
    assert_eq!(df.get::<i64>("a").unwrap().to_vec(), vec![1, 2]);
    assert_eq!(df.get::<String>("b").unwrap().to_vec(), vec!["x".to_string(), "y".to_string()]);
    assert_eq!(df.get::<bool>("c").unwrap().to_vec(), vec![true, false]);
    let d: Vec<f64> = df
        .get::<Float64>("d")
        .unwrap()
        .to_vec()
        .into_iter()
        .map(|v| f64::from_bits(v.to_bits()))
        .collect();
    assert_eq!(d, vec![1.5, 2.5]);
}

#[test]
fn json_text_is_read_as_one_object() {
    let mut reader = JsonReader::new();
    reader.parse_string_json("{\"p\": 3, \"q\": 4}", false);
    let df = reader.to_dataframe(widen).unwrap();
    assert_eq!(df.get_order(), vec!["p"]);
    assert_eq!(df.get::<i64>("p").unwrap().to_vec(), vec![3, 4]);
    let mut nothing = JsonReader::new();
    nothing.parse_string_json("[1]", false);
    assert!(nothing.to_dataframe(widen).is_err());
    let mut odd = JsonReader::new();
    odd.parse_string_json("{\"n\": null, \"big\": 18446744073709551615}", true);
    assert!(odd.to_dataframe(widen).is_err());
}

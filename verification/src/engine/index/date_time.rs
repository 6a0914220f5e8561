//! Points in time as the labels of rows.
use vstd::prelude::*;
use chrono::Datelike;
use std::fmt::Write;

verus! {

/// The year, the month and the day of the month of the date, in universal
/// time, that lies `seconds` seconds after the beginning of 1970; `None`
/// where `chrono` cannot represent that date.
pub uninterp spec fn civil_date(seconds: int) -> Option<(int, int, int)>;

/// The number of the week of the year, as ISO 8601 counts weeks, of the
/// date that lies `seconds` seconds after the beginning of 1970.
pub uninterp spec fn iso_week(seconds: int) -> Option<int>;

/// The number of the day in its year of the date that lies `seconds`
/// seconds after the beginning of 1970.
pub uninterp spec fn year_day(seconds: int) -> Option<int>;

/// The year of the date that lies `seconds` seconds after the beginning of 1970.
pub open spec fn year_at(seconds: int) -> int {
    match civil_date(seconds) {
        Some((y, m, d)) => y,
        None => 0,
    }
}

/// The month of the date that lies `seconds` seconds after the beginning of 1970.
pub open spec fn month_at(seconds: int) -> int {
    match civil_date(seconds) {
        Some((y, m, d)) => m,
        None => 0,
    }
}

/// The day of the month of the date that lies `seconds` seconds after the beginning of 1970.
pub open spec fn day_at(seconds: int) -> int {
    match civil_date(seconds) {
        Some((y, m, d)) => d,
        None => 0,
    }
}

/// `chrono::DateTime::from_timestamp` on `seconds` and no nanoseconds, and,
/// where that gives a date, its `year`, `month` and `day`. The month lies
/// between 1 and 12, the day between 1 and 31.
#[verifier::external_body]
pub(crate) fn date_of(seconds: i64) -> (r: Option<(i32, u32, u32)>)
    ensures
        match civil_date(seconds as int) {
            Some((y, m, d)) => r == Some((y as i32, m as u32, d as u32)) && i32::MIN <= y
                <= i32::MAX && 1 <= m <= 12 && 1 <= d <= 31,
            None => r is None,
        },
{
    chrono::DateTime::from_timestamp(seconds, 0).map(|t| (t.year(), t.month(), t.day()))
}

/// `chrono::DateTime::from_timestamp` on `seconds` and no nanoseconds, and,
/// where that gives a date, the `week` of its `iso_week`, which lies
/// between 1 and 53. There is a week exactly where there is a date.
#[verifier::external_body]
pub(crate) fn week_of(seconds: i64) -> (r: Option<u32>)
    ensures
        r is Some <==> civil_date(seconds as int) is Some,
        match iso_week(seconds as int) {
            Some(w) => r == Some(w as u32) && 1 <= w <= 53,
            None => r is None,
        },
{
    chrono::DateTime::from_timestamp(seconds, 0).map(|t| t.iso_week().week())
}

/// `chrono::DateTime::from_timestamp` on `seconds` and no nanoseconds, and,
/// where that gives a date, its `ordinal`, which lies between 1 and 366.
/// There is a day of the year exactly where there is a date.
#[verifier::external_body]
pub(crate) fn ordinal_of(seconds: i64) -> (r: Option<u32>)
    ensures
        r is Some <==> civil_date(seconds as int) is Some,
        match year_day(seconds as int) {
            Some(o) => r == Some(o as u32) && 1 <= o <= 366,
            None => r is None,
        },
{
    chrono::DateTime::from_timestamp(seconds, 0).map(|t| t.ordinal())
}

/// Whether `year` is a leap year: a multiple of 4 that is no multiple of
/// 100, or a multiple of 400.
pub open spec fn leap(year: int) -> bool {
    year % 4 == 0 && (year % 100 != 0 || year % 400 == 0)
}

/// The number of days of the month `month` of the year `year`.
pub open spec fn days_in_month(year: int, month: int) -> int {
    if month == 2 {
        if leap(year) {
            29
        } else {
            28
        }
    } else if month == 4 || month == 6 || month == 9 || month == 11 {
        30
    } else {
        31
    }
}

/// What is asked of a date.
#[derive(Clone, Copy, Debug, PartialEq, Eq, Structural)]
pub enum Mark {
    /// Whether it is the first day of its month.
    MonthStart,
    /// Whether it is the last day of its month.
    MonthEnd,
    /// Whether it is the first day of a quarter.
    QuarterStart,
    /// Whether it is the last day of a quarter.
    QuarterEnd,
    /// Whether it is the first day of its year.
    YearStart,
    /// Whether it is the last day of its year.
    YearEnd,
    /// Whether it lies in a leap year.
    LeapYear,
}

/// Whether the date of the year `y`, the month `m` and the day `d` is what `mark` asks.
pub open spec fn marked(mark: Mark, y: int, m: int, d: int) -> bool {
    match mark {
        Mark::MonthStart => d == 1,
        Mark::MonthEnd => d == days_in_month(y, m),
        Mark::QuarterStart => d == 1 && (m == 1 || m == 4 || m == 7 || m == 10),
        Mark::QuarterEnd => d == days_in_month(y, m) && (m == 3 || m == 6 || m == 9 || m == 12),
        Mark::YearStart => d == 1 && m == 1,
        Mark::YearEnd => d == 31 && m == 12,
        Mark::LeapYear => leap(y),
    }
}

/// Whether `year` is a leap year.
pub fn is_leap(year: i32) -> (b: bool)
    ensures
        b == leap(year as int),
{
    year % 4 == 0 && (year % 100 != 0 || year % 400 == 0)
}

/// The number of days of the month `month` of the year `year`.
pub fn month_length(year: i32, month: u32) -> (n: u32)
    ensures
        n == days_in_month(year as int, month as int),
{
    if month == 2 {
        if is_leap(year) {
            29
        } else {
            28
        }
    } else if month == 4 || month == 6 || month == 9 || month == 11 {
        30
    } else {
        31
    }
}

/// Whether the date of the year `y`, the month `m` and the day `d` is what `mark` asks.
pub fn is_marked(mark: Mark, y: i32, m: u32, d: u32) -> (b: bool)
    ensures
        b == marked(mark, y as int, m as int, d as int),
{
    match mark {
        Mark::MonthStart => d == 1,
        Mark::MonthEnd => d == month_length(y, m),
        Mark::QuarterStart => d == 1 && (m == 1 || m == 4 || m == 7 || m == 10),
        Mark::QuarterEnd => d == month_length(y, m) && (m == 3 || m == 6 || m == 9 || m == 12),
        Mark::YearStart => d == 1 && m == 1,
        Mark::YearEnd => d == 31 && m == 12,
        Mark::LeapYear => is_leap(y),
    }
}

/// A sequence of points in time, each held as the seconds since the
/// beginning of 1970.
pub struct DateTimeIndex {
    pub(crate) index: Vec<i64>,
}

impl View for DateTimeIndex {
    type V = Seq<i64>;

    open(crate) spec fn view(&self) -> Seq<i64> {
        self.index@
    }
}

/// Whether every one of `seconds` has a date.
pub open spec fn all_dated(seconds: Seq<i64>) -> bool {
    forall|i: int| 0 <= i < seconds.len() ==> civil_date(#[trigger] seconds[i] as int) is Some
}

/// The number of seconds of a day.
pub const DAY: i64 = 86400;

impl DateTimeIndex {
    /// Whether the index holds no point in time.
    pub fn is_empty(&self) -> (b: bool)
        ensures
            b == (self@.len() == 0),
    {
        self.index.len() == 0
    }

    /// The number of points in time.
    pub fn len(&self) -> (n: usize)
        ensures
            n == self@.len(),
    {
        self.index.len()
    }

    /// An index of `capacity` points in time, all at the beginning of 1970.
    pub fn with_capacity(capacity: usize) -> (r: DateTimeIndex)
        ensures
            r@ == Seq::new(capacity as nat, |i: int| 0i64),
    {
        let mut index: Vec<i64> = Vec::new();
        let mut i: usize = 0;
        while i < capacity
            invariant
                i <= capacity,
                index@.len() == i,
                forall|k: int| 0 <= k < i ==> #[trigger] index@[k] == 0,
            decreases capacity - i,
        {
            index.push(0);
            i += 1;
        }
        assert(index@ =~= Seq::new(capacity as nat, |i: int| 0i64));
        DateTimeIndex { index }
    }

    /// The index of the given seconds since the beginning of 1970.
    pub fn from_i64(values: &[i64]) -> (r: DateTimeIndex)
        ensures
            r@ == values@,
    {
        let mut index: Vec<i64> = Vec::new();
        let n = values.len();
        let mut i: usize = 0;
        while i < n
            invariant
                i <= n,
                n == values@.len(),
                index@ == values@.take(i as int),
            decreases n - i,
        {
            index.push(values[i]);
            i += 1;
        }
        assert(index@ =~= values@);
        DateTimeIndex { index }
    }

    /// The days from `start` on, one for each of `periods`.
    pub fn days_from(start: i64, periods: usize) -> (r: DateTimeIndex)
        requires
            start + periods * DAY <= i64::MAX,
        ensures
            r@.len() == periods,
            forall|i: int| 0 <= i < periods ==> #[trigger] r@[i] == start + i * DAY,
    {
        let mut index: Vec<i64> = Vec::new();
        let mut next = start;
        let mut i: usize = 0;
        while i < periods
            invariant
                i <= periods,
                start + periods * DAY <= i64::MAX,
                index@.len() == i,
                next == start + i * DAY,
                forall|k: int| 0 <= k < i ==> #[trigger] index@[k] == start + k * DAY,
            decreases periods - i,
        {
            index.push(next);
            i += 1;
            assert(start + i * DAY <= start + periods * DAY) by (nonlinear_arith)
                requires
                    i <= periods,
            ;
            next = next + DAY;
        }
        DateTimeIndex { index }
    }

    /// The point in time at position `idx`, if there is one.
    pub fn get(&self, idx: usize) -> (r: Option<i64>)
        ensures
            idx < self@.len() ==> r == Some(self@[idx as int]),
            idx >= self@.len() ==> r is None,
    {
        if idx < self.index.len() {
            Some(self.index[idx])
        } else {
            None
        }
    }

    /// Puts the point in time `item` at position `idx`.
    pub fn insert(&mut self, idx: usize, item: i64)
        requires
            idx < old(self)@.len(),
        ensures
            final(self)@ == old(self)@.update(idx as int, item),
    {
        self.index.set(idx, item);
    }

    /// The year, the month and the day of every point in time; `None`
    /// where one of them has no date.
    pub fn dates(&self) -> (r: Option<Vec<(i32, u32, u32)>>)
        ensures
            r is Some <==> all_dated(self@),
            r matches Some(v) ==> v@.len() == self@.len() && forall|i: int|
                0 <= i < self@.len() ==> civil_date(self@[i] as int) == Some(
                    ((#[trigger] v@[i]).0 as int, v@[i].1 as int, v@[i].2 as int),
                ) && 1 <= v@[i].1 <= 12 && 1 <= v@[i].2 <= 31,
    {
        let mut out: Vec<(i32, u32, u32)> = Vec::new();
        let n = self.index.len();
        let mut i: usize = 0;
        while i < n
            invariant
                i <= n,
                n == self.index@.len(),
                out@.len() == i,
                forall|k: int| 0 <= k < i ==> civil_date(#[trigger] self@[k] as int) is Some,
                forall|k: int|
                    0 <= k < i ==> civil_date(self@[k] as int) == Some(
                        ((#[trigger] out@[k]).0 as int, out@[k].1 as int, out@[k].2 as int),
                    ) && 1 <= out@[k].1 <= 12 && 1 <= out@[k].2 <= 31,
            decreases n - i,
        {
            match date_of(self.index[i]) {
                Some(date) => out.push(date),
                None => {
                    assert(civil_date(self@[i as int] as int) is None);
                    return None;
                },
            }
            i += 1;
        }
        Some(out)
    }

    /// The years; `None` where a point in time has no date.
    pub fn year(&self) -> (r: Option<Vec<i32>>)
        ensures
            r is Some <==> all_dated(self@),
            r matches Some(v) ==> v@.len() == self@.len() && forall|i: int|
                0 <= i < self@.len() ==> (#[trigger] v@[i]) as int == year_at(self@[i] as int),
    {
        match self.dates() {
            None => None,
            Some(dates) => {
                let mut out: Vec<i32> = Vec::new();
                let n = dates.len();
                let mut i: usize = 0;
                while i < n
                    invariant
                        i <= n,
                        n == dates@.len(),
                        out@.len() == i,
                        forall|k: int| 0 <= k < i ==> #[trigger] out@[k] == dates@[k].0,
                    decreases n - i,
                {
                    out.push(dates[i].0);
                    i += 1;
                }
                Some(out)
            },
        }
    }

    /// The months, from 1 to 12; `None` where a point in time has no date.
    pub fn month(&self) -> (r: Option<Vec<u32>>)
        ensures
            r is Some <==> all_dated(self@),
            r matches Some(v) ==> v@.len() == self@.len() && forall|i: int|
                0 <= i < self@.len() ==> (#[trigger] v@[i]) as int == month_at(self@[i] as int),
    {
        match self.dates() {
            None => None,
            Some(dates) => {
                let mut out: Vec<u32> = Vec::new();
                let n = dates.len();
                let mut i: usize = 0;
                while i < n
                    invariant
                        i <= n,
                        n == dates@.len(),
                        out@.len() == i,
                        forall|k: int| 0 <= k < i ==> #[trigger] out@[k] == dates@[k].1,
                    decreases n - i,
                {
                    out.push(dates[i].1);
                    i += 1;
                }
                Some(out)
            },
        }
    }

    /// The days of the month, from 1 to 31; `None` where a point in time has no date.
    pub fn day_of_month(&self) -> (r: Option<Vec<u32>>)
        ensures
            r is Some <==> all_dated(self@),
            r matches Some(v) ==> v@.len() == self@.len() && forall|i: int|
                0 <= i < self@.len() ==> (#[trigger] v@[i]) as int == day_at(self@[i] as int),
    {
        match self.dates() {
            None => None,
            Some(dates) => {
                let mut out: Vec<u32> = Vec::new();
                let n = dates.len();
                let mut i: usize = 0;
                while i < n
                    invariant
                        i <= n,
                        n == dates@.len(),
                        out@.len() == i,
                        forall|k: int| 0 <= k < i ==> #[trigger] out@[k] == dates@[k].2,
                    decreases n - i,
                {
                    out.push(dates[i].2);
                    i += 1;
                }
                Some(out)
            },
        }
    }

    /// The weeks of the year, as ISO 8601 counts them; `None` where a point
    /// in time has no date.
    pub fn week(&self) -> (r: Option<Vec<u32>>)
        ensures
            r is Some <==> all_dated(self@),
            r matches Some(v) ==> v@.len() == self@.len() && forall|i: int|
                0 <= i < self@.len() ==> iso_week(self@[i] as int) == Some((#[trigger] v@[i]) as int),
    {
        let mut out: Vec<u32> = Vec::new();
        let n = self.index.len();
        let mut i: usize = 0;
        while i < n
            invariant
                i <= n,
                n == self.index@.len(),
                out@.len() == i,
                forall|k: int| 0 <= k < i ==> civil_date(#[trigger] self@[k] as int) is Some,
                forall|k: int|
                    0 <= k < i ==> iso_week(self@[k] as int) == Some((#[trigger] out@[k]) as int),
            decreases n - i,
        {
            match week_of(self.index[i]) {
                Some(w) => out.push(w),
                None => {
                    assert(civil_date(self@[i as int] as int) is None);
                    return None;
                },
            }
            i += 1;
        }
        Some(out)
    }

    /// The days of the year, from 1 on; `None` where a point in time has no date.
    pub fn day(&self) -> (r: Option<Vec<u32>>)
        ensures
            r is Some <==> all_dated(self@),
            r matches Some(v) ==> v@.len() == self@.len() && forall|i: int|
                0 <= i < self@.len() ==> year_day(self@[i] as int) == Some((#[trigger] v@[i]) as int),
    {
        let mut out: Vec<u32> = Vec::new();
        let n = self.index.len();
        let mut i: usize = 0;
        while i < n
            invariant
                i <= n,
                n == self.index@.len(),
                out@.len() == i,
                forall|k: int| 0 <= k < i ==> civil_date(#[trigger] self@[k] as int) is Some,
                forall|k: int|
                    0 <= k < i ==> year_day(self@[k] as int) == Some((#[trigger] out@[k]) as int),
            decreases n - i,
        {
            match ordinal_of(self.index[i]) {
                Some(o) => out.push(o),
                None => {
                    assert(civil_date(self@[i as int] as int) is None);
                    return None;
                },
            }
            i += 1;
        }
        Some(out)
    }

    /// For every point in time, whether its date is what `mark` asks;
    /// `None` where a point in time has no date.
    pub fn marks(&self, mark: Mark) -> (r: Option<Vec<bool>>)
        ensures
            r is Some <==> all_dated(self@),
            r matches Some(v) ==> v@.len() == self@.len() && forall|i: int|
                0 <= i < self@.len() ==> #[trigger] v@[i] == marked(
                    mark,
                    year_at(self@[i] as int),
                    month_at(self@[i] as int),
                    day_at(self@[i] as int),
                ),
    {
        match self.dates() {
            None => None,
            Some(dates) => {
                let mut out: Vec<bool> = Vec::new();
                let n = dates.len();
                let mut i: usize = 0;
                while i < n
                    invariant
                        i <= n,
                        n == dates@.len(),
                        out@.len() == i,
                        forall|k: int|
                            0 <= k < i ==> #[trigger] out@[k] == marked(
                                mark,
                                dates@[k].0 as int,
                                dates@[k].1 as int,
                                dates@[k].2 as int,
                            ),
                    decreases n - i,
                {
                    let (y, m, d) = dates[i];
                    out.push(is_marked(mark, y, m, d));
                    i += 1;
                }
                Some(out)
            },
        }
    }

    /// Whether each date is the first of its month.
    pub fn is_month_start(&self) -> (r: Option<Vec<bool>>)
        ensures
            r is Some <==> all_dated(self@),
            r matches Some(v) ==> v@.len() == self@.len() && forall|i: int|
                0 <= i < self@.len() ==> #[trigger] v@[i] == (day_at(self@[i] as int) == 1),
    {
        self.marks(Mark::MonthStart)
    }

    /// Whether each date is the last of its month.
    pub fn is_month_end(&self) -> (r: Option<Vec<bool>>)
        ensures
            r is Some <==> all_dated(self@),
            r matches Some(v) ==> v@.len() == self@.len() && forall|i: int|
                0 <= i < self@.len() ==> #[trigger] v@[i] == marked(
                    Mark::MonthEnd,
                    year_at(self@[i] as int),
                    month_at(self@[i] as int),
                    day_at(self@[i] as int),
                ),
    {
        self.marks(Mark::MonthEnd)
    }

    /// Whether each date is the first of a quarter.
    pub fn is_quarter_start(&self) -> (r: Option<Vec<bool>>)
        ensures
            r is Some <==> all_dated(self@),
            r matches Some(v) ==> v@.len() == self@.len() && forall|i: int|
                0 <= i < self@.len() ==> #[trigger] v@[i] == marked(
                    Mark::QuarterStart,
                    year_at(self@[i] as int),
                    month_at(self@[i] as int),
                    day_at(self@[i] as int),
                ),
    {
        self.marks(Mark::QuarterStart)
    }

    /// Whether each date is the last of a quarter.
    pub fn is_quarter_end(&self) -> (r: Option<Vec<bool>>)
        ensures
            r is Some <==> all_dated(self@),
            r matches Some(v) ==> v@.len() == self@.len() && forall|i: int|
                0 <= i < self@.len() ==> #[trigger] v@[i] == marked(
                    Mark::QuarterEnd,
                    year_at(self@[i] as int),
                    month_at(self@[i] as int),
                    day_at(self@[i] as int),
                ),
    {
        self.marks(Mark::QuarterEnd)
    }

    /// Whether each date is the first of its year.
    pub fn is_year_start(&self) -> (r: Option<Vec<bool>>)
        ensures
            r is Some <==> all_dated(self@),
            r matches Some(v) ==> v@.len() == self@.len() && forall|i: int|
                0 <= i < self@.len() ==> #[trigger] v@[i] == marked(
                    Mark::YearStart,
                    year_at(self@[i] as int),
                    month_at(self@[i] as int),
                    day_at(self@[i] as int),
                ),
    {
        self.marks(Mark::YearStart)
    }

    /// Whether each date is the last of its year.
    pub fn is_year_end(&self) -> (r: Option<Vec<bool>>)
        ensures
            r is Some <==> all_dated(self@),
            r matches Some(v) ==> v@.len() == self@.len() && forall|i: int|
                0 <= i < self@.len() ==> #[trigger] v@[i] == marked(
                    Mark::YearEnd,
                    year_at(self@[i] as int),
                    month_at(self@[i] as int),
                    day_at(self@[i] as int),
                ),
    {
        self.marks(Mark::YearEnd)
    }

    /// Whether each date lies in a leap year.
    pub fn is_leap_year(&self) -> (r: Option<Vec<bool>>)
        ensures
            r is Some <==> all_dated(self@),
            r matches Some(v) ==> v@.len() == self@.len() && forall|i: int|
                0 <= i < self@.len() ==> #[trigger] v@[i] == leap(year_at(self@[i] as int)),
    {
        self.marks(Mark::LeapYear)
    }
}

/// The seconds between the beginning of 1970 and the point in time that
/// `text` writes in the notation of RFC 3339; `None` where it writes none.
pub uninterp spec fn rfc3339_seconds(text: Seq<char>) -> Option<i64>;

/// The seconds between the beginning of 1970 and the point in time that
/// `text` writes in the notation of RFC 2822; `None` where it writes none.
pub uninterp spec fn rfc2822_seconds(text: Seq<char>) -> Option<i64>;

/// The seconds between the beginning of 1970 and the point in time that
/// `text` writes, with its offset from universal time, in the notation
/// `fmt`; `None` where it writes none.
pub uninterp spec fn zoned_seconds(text: Seq<char>, fmt: Seq<char>) -> Option<i64>;

/// The seconds between the beginning of 1970 and the point in time, taken
/// as universal time, that `text` writes in the notation `fmt`; `None`
/// where it writes none.
pub uninterp spec fn naive_seconds(text: Seq<char>, fmt: Seq<char>) -> Option<i64>;

/// The date and time, in universal time, that lie `seconds` seconds after
/// the beginning of 1970, written in the notation `fmt`; `None` where
/// `chrono` cannot represent the date or does not know the notation.
pub uninterp spec fn date_text(seconds: int, fmt: Seq<char>) -> Option<Seq<char>>;

/// `chrono::DateTime::parse_from_rfc3339` on `text` and, where that gives
/// a point in time, its `timestamp`. Both depend on the text alone.
#[verifier::external_body]
pub(crate) fn parse_rfc3339(text: &str) -> (r: Option<i64>)
    ensures
        r == rfc3339_seconds(text@),
{
    chrono::DateTime::parse_from_rfc3339(text).ok().map(|t| t.timestamp())
}

/// `chrono::DateTime::parse_from_rfc2822` on `text` and, where that gives
/// a point in time, its `timestamp`. Both depend on the text alone.
#[verifier::external_body]
pub(crate) fn parse_rfc2822(text: &str) -> (r: Option<i64>)
    ensures
        r == rfc2822_seconds(text@),
{
    chrono::DateTime::parse_from_rfc2822(text).ok().map(|t| t.timestamp())
}

/// `chrono::DateTime::parse_from_str` on `text` and `fmt` and, where that
/// gives a point in time, its `timestamp`. Both depend on the two texts alone.
#[verifier::external_body]
pub(crate) fn parse_zoned(text: &str, fmt: &str) -> (r: Option<i64>)
    ensures
        r == zoned_seconds(text@, fmt@),
{
    chrono::DateTime::parse_from_str(text, fmt).ok().map(|t| t.timestamp())
}

/// `chrono::NaiveDateTime::parse_from_str` on `text` and `fmt` and, where
/// that gives a date and time, the `timestamp` of its `and_utc`. Both
/// depend on the two texts alone.
#[verifier::external_body]
pub(crate) fn parse_naive(text: &str, fmt: &str) -> (r: Option<i64>)
    ensures
        r == naive_seconds(text@, fmt@),
{
    chrono::NaiveDateTime::parse_from_str(text, fmt).ok().map(|t| t.and_utc().timestamp())
}

/// `chrono::DateTime::from_timestamp` on `seconds` and no nanoseconds, and,
/// where that gives a date, the `format` of its `naive_utc` with `fmt`,
/// written out. Where the notation is not known, writing fails, and there
/// is no text. The text depends on the seconds and the notation alone.
#[verifier::external_body]
pub(crate) fn format_date(seconds: i64, fmt: &str) -> (r: Option<String>)
    ensures
        match date_text(seconds as int, fmt@) {
            Some(t) => r matches Some(s) && s@ == t,
            None => r is None,
        },
{
    let at = chrono::DateTime::from_timestamp(seconds, 0)?;
    let mut out = String::new();
    match write!(out, "{}", at.naive_utc().format(fmt)) {
        Ok(()) => Some(out),
        Err(_) => None,
    }
}

/// The notations in which a text can write a point in time.
#[derive(Clone, Copy, Debug, PartialEq, Eq, Structural)]
pub enum Notation {
    /// That of RFC 3339.
    Rfc3339,
    /// That of RFC 2822.
    Rfc2822,
    /// A given notation that tells the offset from universal time.
    Zoned,
    /// A given notation that tells no offset.
    Naive,
}

/// The seconds between the beginning of 1970 and the point in time that
/// `text` writes in a notation; `fmt` is the given notation, where there is one.
pub open spec fn seconds_in(notation: Notation, fmt: Seq<char>, text: Seq<char>) -> Option<i64> {
    match notation {
        Notation::Rfc3339 => rfc3339_seconds(text),
        Notation::Rfc2822 => rfc2822_seconds(text),
        Notation::Zoned => zoned_seconds(text, fmt),
        Notation::Naive => naive_seconds(text, fmt),
    }
}

/// Whether every one of `dates` writes a point in time.
pub open spec fn all_written(notation: Notation, fmt: Seq<char>, dates: Seq<&str>) -> bool {
    forall|i: int| 0 <= i < dates.len() ==> seconds_in(notation, fmt, (#[trigger] dates[i])@) is Some
}

/// `index` holds the points in time that `dates` write, in their order.
pub open spec fn holds_dates(notation: Notation, fmt: Seq<char>, dates: Seq<&str>, index: Seq<i64>) -> bool {
    &&& index.len() == dates.len()
    &&& forall|i: int|
        0 <= i < dates.len() ==> seconds_in(notation, fmt, dates[i]@) == Some(#[trigger] index[i])
}

/// The point in time that `text` writes.
pub fn parse_date(notation: Notation, fmt: &str, text: &str) -> (r: Option<i64>)
    ensures
        r == seconds_in(notation, fmt@, text@),
{
    match notation {
        Notation::Rfc3339 => parse_rfc3339(text),
        Notation::Rfc2822 => parse_rfc2822(text),
        Notation::Zoned => parse_zoned(text, fmt),
        Notation::Naive => parse_naive(text, fmt),
    }
}

impl DateTimeIndex {
    /// The index of the points in time that `dates` write; `None` where
    /// one of them writes none.
    pub fn parse(notation: Notation, fmt: &str, dates: &[&str]) -> (r: Option<DateTimeIndex>)
        ensures
            r is Some <==> all_written(notation, fmt@, dates@),
            r matches Some(idx) ==> holds_dates(notation, fmt@, dates@, idx@),
    {
        let mut index: Vec<i64> = Vec::new();
        let n = dates.len();
        let mut i: usize = 0;
        while i < n
            invariant
                i <= n,
                n == dates@.len(),
                index@.len() == i,
                forall|k: int|
                    0 <= k < i ==> seconds_in(notation, fmt@, dates@[k]@) == Some(#[trigger] index@[k]),
                forall|k: int|
                    0 <= k < i ==> seconds_in(notation, fmt@, (#[trigger] dates@[k])@) is Some,
            decreases n - i,
        {
            match parse_date(notation, fmt, dates[i]) {
                Some(seconds) => index.push(seconds),
                None => {
                    assert(seconds_in(notation, fmt@, dates@[i as int]@) is None);
                    return None;
                },
            }
            i += 1;
        }
        Some(DateTimeIndex { index })
    }

    /// The index of the given dates in the notation of RFC 3339; `None`
    /// where one of them is not written so.
    pub fn from_rfc3339(dates: &[&str]) -> (r: Option<DateTimeIndex>)
        ensures
            r is Some <==> forall|i: int|
                0 <= i < dates@.len() ==> rfc3339_seconds((#[trigger] dates@[i])@) is Some,
            r matches Some(idx) ==> idx@.len() == dates@.len() && forall|i: int|
                0 <= i < dates@.len() ==> rfc3339_seconds(dates@[i]@) == Some(#[trigger] idx@[i]),
    {
        let r = DateTimeIndex::parse(Notation::Rfc3339, "", dates);
        proof {
            if forall|i: int|
                0 <= i < dates@.len() ==> rfc3339_seconds((#[trigger] dates@[i])@) is Some {
                assert(all_written(Notation::Rfc3339, ""@, dates@));
            }
        }
        r
    }

    /// The index of the given dates in the notation of RFC 2822; `None`
    /// where one of them is not written so.
    pub fn from_rfc2822(dates: &[&str]) -> (r: Option<DateTimeIndex>)
        ensures
            r is Some <==> forall|i: int|
                0 <= i < dates@.len() ==> rfc2822_seconds((#[trigger] dates@[i])@) is Some,
            r matches Some(idx) ==> idx@.len() == dates@.len() && forall|i: int|
                0 <= i < dates@.len() ==> rfc2822_seconds(dates@[i]@) == Some(#[trigger] idx@[i]),
    {
        let r = DateTimeIndex::parse(Notation::Rfc2822, "", dates);
        proof {
            if forall|i: int|
                0 <= i < dates@.len() ==> rfc2822_seconds((#[trigger] dates@[i])@) is Some {
                assert(all_written(Notation::Rfc2822, ""@, dates@));
            }
        }
        r
    }

    /// The index of the given dates in the notation `fmt`, which tells the
    /// offset from universal time; `None` where one of them is not written so.
    pub fn from_str(dates: &[&str], fmt: &str) -> (r: Option<DateTimeIndex>)
        ensures
            r is Some <==> forall|i: int|
                0 <= i < dates@.len() ==> zoned_seconds((#[trigger] dates@[i])@, fmt@) is Some,
            r matches Some(idx) ==> idx@.len() == dates@.len() && forall|i: int|
                0 <= i < dates@.len() ==> zoned_seconds(dates@[i]@, fmt@) == Some(#[trigger] idx@[i]),
    {
        let r = DateTimeIndex::parse(Notation::Zoned, fmt, dates);
        proof {
            if forall|i: int|
                0 <= i < dates@.len() ==> zoned_seconds((#[trigger] dates@[i])@, fmt@) is Some {
                assert(all_written(Notation::Zoned, fmt@, dates@));
            }
        }
        r
    }

    /// Puts the date and time that `text` writes in the notation `fmt`,
    /// which tells no offset, at position `idx`. Says whether the text
    /// writes a date and time; where it writes none, the index stays as it was.
    pub fn insert_str_at(&mut self, idx: usize, text: &str, fmt: &str) -> (done: bool)
        requires
            idx < old(self)@.len(),
        ensures
            match naive_seconds(text@, fmt@) {
                Some(seconds) => done && final(self)@ == old(self)@.update(idx as int, seconds),
                None => !done && final(self)@ == old(self)@,
            },
    {
        match parse_naive(text, fmt) {
            Some(seconds) => {
                self.insert(idx, seconds);
                true
            },
            None => false,
        }
    }

    /// The points in time, each written in the notation `date_format`;
    /// `None` where one of them cannot be written so.
    pub fn strftime(&self, date_format: &str) -> (r: Option<Vec<String>>)
        ensures
            r is Some <==> forall|i: int|
                0 <= i < self@.len() ==> date_text(#[trigger] self@[i] as int, date_format@) is Some,
            r matches Some(v) ==> v@.len() == self@.len() && forall|i: int|
                0 <= i < self@.len() ==> date_text(self@[i] as int, date_format@) == Some(
                    (#[trigger] v@[i])@,
                ),
    {
        let mut out: Vec<String> = Vec::new();
        let n = self.index.len();
        let mut i: usize = 0;
        while i < n
            invariant
                i <= n,
                n == self.index@.len(),
                out@.len() == i,
                forall|k: int|
                    0 <= k < i ==> date_text(#[trigger] self@[k] as int, date_format@) is Some,
                forall|k: int|
                    0 <= k < i ==> date_text(self@[k] as int, date_format@) == Some(
                        (#[trigger] out@[k])@,
                    ),
            decreases n - i,
        {
            match format_date(self.index[i], date_format) {
                Some(text) => out.push(text),
                None => {
                    assert(date_text(self@[i as int] as int, date_format@) is None);
                    return None;
                },
            }
            i += 1;
        }
        Some(out)
    }
}

} // verus!

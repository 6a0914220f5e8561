//! Helpers that do not belong to one type.
use vstd::prelude::*;
use vstd::string::StringExecFns;
use crate::engine::index::date_time::{naive_seconds, parse_naive, DateTimeIndex, DAY};
use crate::engine::series::generic::{keys, regex_accepts, regex_is_match, regex_valid};
use crate::engine::series::traits::Keyed;
use crate::text::scan::{trim, trimmed};
use crate::text::{chars_of, string_from_chars};

verus! {

/// How often `key` occurs among the first `n` of `keys`.
pub open spec fn occurrences<K>(keys: Seq<K>, key: K, n: nat) -> nat
    decreases n,
{
    if n == 0 {
        0
    } else if keys[n - 1] == key {
        occurrences(keys, key, (n - 1) as nat) + 1
    } else {
        occurrences(keys, key, (n - 1) as nat)
    }
}

/// How often `key` occurs among `keys`.
pub open spec fn frequency<K>(keys: Seq<K>, key: K) -> nat {
    occurrences(keys, key, keys.len())
}

/// A key occurs among the first `n` keys at most `n` times.
pub proof fn lemma_occurrences_bound<K>(keys: Seq<K>, key: K, n: nat)
    ensures
        occurrences(keys, key, n) <= n,
    decreases n,
{
    if n > 0 {
        lemma_occurrences_bound(keys, key, (n - 1) as nat);
    }
}

/// How often the value at position `i` occurs in `arr`.
fn count_of<T: Keyed>(arr: &[T], i: usize) -> (count: usize)
    requires
        i < arr@.len(),
    ensures
        count == frequency(keys(arr@), keys(arr@)[i as int]),
{
    let mut count: usize = 0;
    let n = arr.len();
    let mut j: usize = 0;
    while j < n
        invariant
            j <= n,
            n == arr@.len(),
            i < n,
            count == occurrences(keys(arr@), keys(arr@)[i as int], j as nat),
            count <= j,
        decreases n - j,
    {
        if arr[j].same(&arr[i]) {
            count += 1;
        }
        j += 1;
    }
    count
}

/// The most frequent value of `arr` and the number of times that it occurs;
/// one of them, where several values occur equally often. For an empty
/// slice, 0 and the default value of `T`.
pub fn most_frequent<T: Keyed + Default>(arr: &[T]) -> (r: (i32, T))
    requires
        arr@.len() <= i32::MAX,
    ensures
        arr@.len() == 0 ==> r.0 == 0 && call_ensures(T::default, (), r.1),
        arr@.len() > 0 ==> keys(arr@).contains(r.1@) && r.0 == frequency(keys(arr@), r.1@),
        forall|i: int| 0 <= i < arr@.len() ==> frequency(keys(arr@), #[trigger] keys(arr@)[i]) <= r.0,
{
    let n = arr.len();
    if n == 0 {
        return (0, T::default());
    }
    let mut best: usize = 0;
    let mut max_count: usize = count_of(arr, 0);
    proof {
        lemma_occurrences_bound(keys(arr@), keys(arr@)[0], n as nat);
    }
    let mut i: usize = 1;
    while i < n
        invariant
            1 <= i <= n,
            n == arr@.len(),
            n <= i32::MAX,
            best < n,
            max_count <= n,
            max_count == frequency(keys(arr@), keys(arr@)[best as int]),
            forall|k: int|
                0 <= k < i ==> frequency(keys(arr@), #[trigger] keys(arr@)[k]) <= max_count,
        decreases n - i,
    {
        let count = count_of(arr, i);
        proof {
            lemma_occurrences_bound(keys(arr@), keys(arr@)[i as int], n as nat);
        }
        if max_count < count {
            max_count = count;
            best = i;
        }
        i += 1;
    }
    let elm = arr[best].dup();
    assert(elm@ == keys(arr@)[best as int]);
    (max_count as i32, elm)
}

/// Why there is no range of dates.
#[derive(Clone, Copy, Debug, PartialEq, Eq, Structural)]
pub enum RangeError {
    /// The first date is not written as a day, a month and a year.
    Start,
    /// The last date is not written as a day, a month and a year.
    End,
    /// Neither a last date nor a number of days is given.
    Unbounded,
    /// The range ends beyond the points in time that can be held, or has
    /// more days than can be counted.
    TooLong,
}

/// The regular expression of the dates between 1900 and 9999 that are
/// written as two digits for the day, two for the month and four for the
/// year, with `/` between them.
pub open spec fn date_pattern() -> Seq<char> {
    r"(^(((0[1-9]|1[0-9]|2[0-8])[/](0[1-9]|1[012]))|((29|30|31)[/](0[13578]|1[02]))|((29|30)[/](0[4,6,9]|11)))[/](19|[2-9][0-9])\d\d$)|(^29[/]02[/](19|[2-9][0-9])(00|04|08|12|16|20|24|28|32|36|40|44|48|52|56|60|64|68|72|76|80|84|88|92|96)$)"@
}

/// The notation of a date that is followed by the time of its midnight.
pub open spec fn midnight_notation() -> Seq<char> {
    "%d/%m/%Y %H:%M:%S"@
}

/// `s` with `/` in place of every `.` and `-`.
pub open spec fn slashed(s: Seq<char>) -> Seq<char> {
    s.map_values(
        |c: char|
            if c == '.' || c == '-' {
                '/'
            } else {
                c
            },
    )
}

/// The seconds between the beginning of 1970 and the midnight, in
/// universal time, with which the day starts that `text` writes: as a day,
/// a month and a year with `/`, `.` or `-` between them, and white space
/// around them. `None` where `text` writes no such date.
pub open spec fn day_of(text: Seq<char>) -> Option<i64> {
    let date = trimmed(slashed(text));
    if regex_valid(date_pattern()) && regex_accepts(date_pattern(), date) {
        naive_seconds(date + " 00:00:00"@, midnight_notation())
    } else {
        None
    }
}

/// The number of days of a range that starts at `first`: those of
/// `periods`, none where that is negative; without `periods`, the days
/// up to the one that starts at `last`, none where that lies before `first`.
pub open spec fn day_span(first: i64, last: Option<i64>, periods: Option<i32>) -> Option<int> {
    match periods {
        Some(per) => Some(
            if per < 0 {
                0
            } else {
                per as int
            },
        ),
        None => match last {
            Some(to) => Some(
                if to < first {
                    0
                } else {
                    (to - first) / (DAY as int) + 1
                },
            ),
            None => None,
        },
    }
}

/// Whether `index` holds `count` points in time, a day apart, from `first` on.
pub open spec fn is_range(index: Seq<i64>, first: int, count: int) -> bool {
    index.len() == count && forall|i: int| 0 <= i < count ==> #[trigger] index[i] == first + i * DAY
}

/// What the range of the days from `first` on is: see [`day_span`] for the
/// number of days. There is none where that number is not told, nor where
/// the day after the last one lies beyond the points in time that can be
/// held, nor where the days are more than can be counted.
pub open spec fn is_day_range(
    outcome: Result<DateTimeIndex, RangeError>,
    first: i64,
    last: Option<i64>,
    periods: Option<i32>,
) -> bool {
    match day_span(first, last, periods) {
        None => outcome matches Err(e) && e == RangeError::Unbounded,
        Some(count) => if first + count * DAY > i64::MAX || count > usize::MAX {
            outcome matches Err(e) && e == RangeError::TooLong
        } else {
            outcome matches Ok(index) && is_range(index@, first as int, count)
        },
    }
}

/// The range of the days from the one that starts at `first` on: `periods`
/// of them, or those up to the day that starts at `last`.
pub fn day_range(first: i64, last: Option<i64>, periods: Option<i32>) -> (r: Result<
    DateTimeIndex,
    RangeError,
>)
    ensures
        is_day_range(r, first, last, periods),
{
    let count: i128 = match periods {
        Some(per) => if per < 0 {
            0
        } else {
            per as i128
        },
        None => match last {
            Some(to) => if to < first {
                0
            } else {
                (to as i128 - first as i128) / (DAY as i128) + 1
            },
            None => {
                return Err(RangeError::Unbounded);
            },
        },
    };
    assert(0 <= count <= u64::MAX);
    assert(Some(count as int) == day_span(first, last, periods));
    if first as i128 + count * (DAY as i128) > i64::MAX as i128 || count > usize::MAX as i128 {
        return Err(RangeError::TooLong);
    }
    Ok(DateTimeIndex::days_from(first, count as usize))
}

/// `s` with `/` in place of every `.` and `-`.
pub fn with_slashes(s: &str) -> (r: String)
    ensures
        r@ == slashed(s@),
{
    let text = chars_of(s);
    let mut out: Vec<char> = Vec::new();
    let n = text.len();
    let mut i: usize = 0;
    while i < n
        invariant
            i <= n,
            n == text@.len(),
            text@ == s@,
            out@ == slashed(s@).take(i as int),
        decreases n - i,
    {
        let c = text[i];
        let ghost before = out@;
        if c == '.' || c == '-' {
            out.push('/');
        } else {
            out.push(c);
        }
        assert(out@ =~= slashed(s@).take(i + 1));
        i += 1;
    }
    assert(out@ =~= slashed(s@));
    string_from_chars(&out)
}

/// The midnight with which the day starts that `text` writes.
pub fn day(text: &str) -> (r: Option<i64>)
    ensures
        r == day_of(text@),
{
    let slashes = with_slashes(text);
    let mut date = trim(slashes.as_str());
    match regex_is_match(
        r"(^(((0[1-9]|1[0-9]|2[0-8])[/](0[1-9]|1[012]))|((29|30|31)[/](0[13578]|1[02]))|((29|30)[/](0[4,6,9]|11)))[/](19|[2-9][0-9])\d\d$)|(^29[/]02[/](19|[2-9][0-9])(00|04|08|12|16|20|24|28|32|36|40|44|48|52|56|60|64|68|72|76|80|84|88|92|96)$)",
        date.as_str(),
    ) {
        Some(true) => {
            date.append(" 00:00:00");
            parse_naive(date.as_str(), "%d/%m/%Y %H:%M:%S")
        },
        _ => None,
    }
}

/// The text of a point in time, if there is one.
pub open spec fn written(text: Option<&str>) -> Option<Seq<char>> {
    match text {
        Some(t) => Some(t@),
        None => None,
    }
}

/// What the range of the days from the one that `start` writes on is,
/// with `periods` days or up to the day that `end` writes: see [`day_of`]
/// for how dates are written, and [`is_day_range`] for the range. There is
/// none where `start` writes no date, nor where `end` is needed and writes none.
pub open spec fn is_date_range(
    outcome: Result<DateTimeIndex, RangeError>,
    start: Seq<char>,
    end: Option<Seq<char>>,
    periods: Option<i32>,
) -> bool {
    match day_of(start) {
        None => outcome matches Err(e) && e == RangeError::Start,
        Some(first) => match (periods, end) {
            (None, Some(stop)) => match day_of(stop) {
                None => outcome matches Err(e) && e == RangeError::End,
                Some(last) => is_day_range(outcome, first, Some(last), None),
            },
            _ => is_day_range(outcome, first, None, periods),
        },
    }
}

/// The days from the one that `start` writes on: `periods` of them, or,
/// without `periods`, those up to the day that `end` writes. Every point
/// in time of the range is the midnight with which a day starts, in
/// universal time.
pub fn date_range(start: &str, end: Option<&str>, periods: Option<i32>) -> (r: Result<
    DateTimeIndex,
    RangeError,
>)
    ensures
        is_date_range(r, start@, written(end), periods),
{
    let first = match day(start) {
        Some(first) => first,
        None => {
            return Err(RangeError::Start);
        },
    };
    match (periods, end) {
        (None, Some(stop)) => match day(stop) {
            Some(last) => day_range(first, Some(last), None),
            None => Err(RangeError::End),
        },
        _ => day_range(first, None, periods),
    }
}

} // verus!

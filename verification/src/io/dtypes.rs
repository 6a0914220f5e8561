//! Telling whether text is a number or a truth value, and turning it into one.
use vstd::prelude::*;
use vstd::string::StringExecFns;
use crate::text::{chars_of, is_digit};

verus! {

/// The number that the digit `c` stands for.
pub open spec fn digit_value(c: char) -> int {
    c as int - '0' as int
}

/// The number that the digits `s` write in decimal.
pub open spec fn digits_value(s: Seq<char>) -> int
    decreases s.len(),
{
    if s.len() == 0 {
        0
    } else {
        digits_value(s.drop_last()) * 10 + digit_value(s.last())
    }
}

/// Whether `s` consists of digits only.
pub open spec fn all_digits(s: Seq<char>) -> bool {
    forall|i: int| 0 <= i < s.len() ==> is_digit(#[trigger] s[i])
}

/// Whether `s` begins with a sign.
pub open spec fn has_sign(s: Seq<char>) -> bool {
    s.len() > 0 && (s[0] == '-' || s[0] == '+')
}

/// `s` without the sign that it may begin with.
pub open spec fn unsigned_part(s: Seq<char>) -> Seq<char> {
    if has_sign(s) {
        s.skip(1)
    } else {
        s
    }
}

/// The integer that `s` writes, if it lies between `least` and `greatest`:
/// an optional sign followed by one digit or more, and nothing else.
pub open spec fn parsed_int(s: Seq<char>, least: int, greatest: int) -> Option<int> {
    let body = unsigned_part(s);
    if body.len() == 0 || !all_digits(body) {
        None
    } else {
        let value = if s[0] == '-' {
            -digits_value(body)
        } else {
            digits_value(body)
        };
        if least <= value <= greatest {
            Some(value)
        } else {
            None
        }
    }
}

/// The truth value that `s` writes: `true` or `false`, and nothing else.
pub open spec fn parsed_bool(s: Seq<char>) -> Option<bool> {
    if s == "true"@ {
        Some(true)
    } else if s == "false"@ {
        Some(false)
    } else {
        None
    }
}

/// The number of digits that `s` holds in a row from position `from` on.
pub open spec fn digits_run(s: Seq<char>, from: int) -> nat
    decreases s.len() - from,
{
    if 0 <= from < s.len() && is_digit(s[from]) {
        1 + digits_run(s, from + 1)
    } else {
        0
    }
}

/// Whether `c` is the letter `lower`, in either case; `lower` is a small letter.
pub open spec fn is_letter(c: char, lower: char) -> bool {
    c == lower || c as int == lower as int - 32
}

/// Whether `s` is the word `word` of small letters, in any mix of cases.
pub open spec fn is_word(s: Seq<char>, word: Seq<char>) -> bool {
    &&& s.len() == word.len()
    &&& forall|i: int| 0 <= i < s.len() ==> is_letter(#[trigger] s[i], word[i])
}

/// Whether `s` ends at position `k` or holds nothing but an exponent from
/// there on: the letter `e`, an optional sign, and one digit or more.
pub open spec fn ends_or_exponent(s: Seq<char>, k: int) -> bool {
    ||| k == s.len()
    ||| {
        &&& 0 <= k < s.len()
        &&& is_letter(s[k], 'e')
        &&& {
            let m = if k + 1 < s.len() && (s[k + 1] == '-' || s[k + 1] == '+') {
                k + 2
            } else {
                k + 1
            };
            digits_run(s, m) > 0 && m + digits_run(s, m) == s.len()
        }
    }
}

/// Whether `s` writes a decimal number without a sign: digits with at most
/// one point among, before or behind them, and at least one digit; then,
/// if anything, an exponent.
pub open spec fn is_decimal_number(s: Seq<char>) -> bool {
    let whole = digits_run(s, 0) as int;
    if whole < s.len() && s[whole] == '.' {
        let fraction = digits_run(s, whole + 1) as int;
        (whole > 0 || fraction > 0) && ends_or_exponent(s, whole + 1 + fraction)
    } else {
        whole > 0 && ends_or_exponent(s, whole)
    }
}

/// Whether `s` writes a floating point number: an optional sign, and then
/// `inf`, `infinity` or `nan` in any mix of cases, or a decimal number.
pub open spec fn is_float_text(s: Seq<char>) -> bool {
    let body = unsigned_part(s);
    ||| is_word(body, "inf"@)
    ||| is_word(body, "infinity"@)
    ||| is_word(body, "nan"@)
    ||| is_decimal_number(body)
}

/// The digits of a number that is followed by one more digit.
proof fn lemma_digits_push(s: Seq<char>, c: char)
    ensures
        digits_value(s.push(c)) == digits_value(s) * 10 + digit_value(c),
{
    assert(s.push(c).drop_last() =~= s);
}

/// Whether `c` is one of the ten digits.
pub fn digit(c: char) -> (b: bool)
    ensures
        b == is_digit(c),
{
    '0' <= c && c <= '9'
}

/// The integer that `text` writes, if it lies between `least` and
/// `greatest`, which lie within the range of `i64`.
pub fn parse_integer(text: &str, least: i64, greatest: i64) -> (r: Option<i64>)
    requires
        least <= 0 <= greatest,
    ensures
        match parsed_int(text@, least as int, greatest as int) {
            Some(v) => r == Some(v as i64),
            None => r is None,
        },
{
    let s = chars_of(text);
    let n = s.len();
    let signed = n > 0 && (s[0] == '-' || s[0] == '+');
    let negative = n > 0 && s[0] == '-';
    let start: usize = if signed {
        1
    } else {
        0
    };
    if start == n {
        return None;
    }
    let ghost body = unsigned_part(s@);
    proof {
        assert(body =~= s@.subrange(start as int, n as int));
    }
    // The digits are added up until the number leaves the range of `i64`
    // in both directions; from then on it can only grow.
    let limit: i128 = 9223372036854775808;
    let mut value: i128 = 0;
    let mut beyond = false;
    let mut i: usize = start;
    proof {
        assert(s@.subrange(start as int, start as int) =~= Seq::<char>::empty());
    }
    while i < n
        invariant
            start <= i <= n,
            n == s@.len(),
            s@ == text@,
            body == unsigned_part(s@),
            body == s@.subrange(start as int, n as int),
            limit == 9223372036854775808,
            forall|k: int| start <= k < i ==> is_digit(#[trigger] s@[k]),
            !beyond ==> value == digits_value(s@.subrange(start as int, i as int)) && 0 <= value
                <= limit,
            beyond ==> digits_value(s@.subrange(start as int, i as int)) > limit,
        decreases n - i,
    {
        if !digit(s[i]) {
            proof {
                assert(!is_digit(body[i - start]));
            }
            return None;
        }
        let d: i128 = (s[i] as u32 - '0' as u32) as i128;
        proof {
            let before = s@.subrange(start as int, i as int);
            assert(s@.subrange(start as int, i + 1) =~= before.push(s@[i as int]));
            lemma_digits_push(before, s@[i as int]);
            assert(d == digit_value(s@[i as int]));
        }
        if !beyond {
            value = value * 10 + d;
            if value > limit {
                beyond = true;
            }
        }
        i += 1;
    }
    proof {
        assert(s@.subrange(start as int, n as int) =~= body);
        assert(all_digits(body)) by {
            assert forall|k: int| 0 <= k < body.len() implies is_digit(#[trigger] body[k]) by {
                assert(body[k] == s@[start + k]);
            }
        }
    }
    if beyond {
        return None;
    }
    let result: i128 = if negative {
        -value
    } else {
        value
    };
    if (least as i128) <= result && result <= (greatest as i128) {
        Some(result as i64)
    } else {
        None
    }
}

/// The truth value that `text` writes.
pub fn parse_bool(text: &str) -> (r: Option<bool>)
    ensures
        r == parsed_bool(text@),
{
    let given = String::from_str(text);
    if given == String::from_str("true") {
        Some(true)
    } else if given == String::from_str("false") {
        Some(false)
    } else {
        None
    }
}

/// The number of digits that `s` holds in a row from position `from` on.
fn count_digits(s: &Vec<char>, from: usize) -> (count: usize)
    requires
        from <= s@.len(),
    ensures
        count == digits_run(s@, from as int),
        from + count <= s@.len(),
{
    let n = s.len();
    let mut i: usize = from;
    while i < n && digit(s[i])
        invariant
            from <= i <= n,
            n == s@.len(),
            digits_run(s@, from as int) == (i - from) + digits_run(s@, i as int),
        decreases n - i,
    {
        i += 1;
    }
    i - from
}

/// Whether `c` is the letter `lower`, in either case.
fn letter(c: char, lower: char) -> (b: bool)
    requires
        'a' <= lower <= 'z',
    ensures
        b == is_letter(c, lower),
{
    c == lower || (c as u32) + 32 == (lower as u32)
}

/// Whether the characters of `s` from `from` on are the word `word`, in any mix of cases.
fn word_at(s: &Vec<char>, from: usize, word: &str) -> (b: bool)
    requires
        from <= s@.len(),
        forall|i: int| 0 <= i < word@.len() ==> 'a' <= #[trigger] word@[i] <= 'z',
    ensures
        b == is_word(s@.subrange(from as int, s@.len() as int), word@),
{
    let w = chars_of(word);
    let n = s.len();
    if n - from != w.len() {
        return false;
    }
    let ghost rest = s@.subrange(from as int, n as int);
    let m = w.len();
    let mut i: usize = 0;
    while i < m
        invariant
            i <= m,
            m == w@.len(),
            w@ == word@,
            n == s@.len(),
            from + m == n,
            rest == s@.subrange(from as int, n as int),
            forall|k: int| 0 <= k < word@.len() ==> 'a' <= #[trigger] word@[k] <= 'z',
            forall|k: int| 0 <= k < i ==> is_letter(#[trigger] rest[k], word@[k]),
        decreases m - i,
    {
        if !letter(s[from + i], w[i]) {
            assert(!is_letter(rest[i as int], word@[i as int]));
            return false;
        }
        i += 1;
    }
    true
}

/// Whether `s` ends at position `k` or holds nothing but an exponent from there on.
fn exponent_at(s: &Vec<char>, k: usize) -> (b: bool)
    requires
        k <= s@.len(),
    ensures
        b == ends_or_exponent(s@, k as int),
{
    let n = s.len();
    if k == n {
        return true;
    }
    if !letter(s[k], 'e') {
        return false;
    }
    let m: usize = if k + 1 < n && (s[k + 1] == '-' || s[k + 1] == '+') {
        k + 2
    } else {
        k + 1
    };
    let run = count_digits(s, m);
    run > 0 && m + run == n
}

/// Whether the characters of `s` from `from` on write a decimal number without a sign.
fn decimal_number_at(s: &Vec<char>) -> (b: bool)
    ensures
        b == is_decimal_number(s@),
{
    let n = s.len();
    let whole = count_digits(s, 0);
    if whole < n && s[whole] == '.' {
        let fraction = count_digits(s, whole + 1);
        (whole > 0 || fraction > 0) && exponent_at(s, whole + 1 + fraction)
    } else {
        whole > 0 && exponent_at(s, whole)
    }
}

/// Whether `text` writes a floating point number.
pub fn float_text(text: &str) -> (b: bool)
    ensures
        b == is_float_text(text@),
{
    let s = chars_of(text);
    let n = s.len();
    let start: usize = if n > 0 && (s[0] == '-' || s[0] == '+') {
        1
    } else {
        0
    };
    let mut body: Vec<char> = Vec::new();
    let mut i: usize = start;
    while i < n
        invariant
            start <= i <= n,
            n == s@.len(),
            body@ == s@.subrange(start as int, i as int),
        decreases n - i,
    {
        body.push(s[i]);
        proof {
            assert(s@.subrange(start as int, i + 1) =~= s@.subrange(start as int, i as int).push(
                s@[i as int],
            ));
        }
        i += 1;
    }
    proof {
        assert(body@ =~= unsigned_part(s@));
        assert(body@.subrange(0, body@.len() as int) =~= body@);
        reveal_strlit("inf");
        reveal_strlit("infinity");
        reveal_strlit("nan");
    }
    word_at(&body, 0, "inf") || word_at(&body, 0, "infinity") || word_at(&body, 0, "nan")
        || decimal_number_at(&body)
}

/// The range of `i32`, as `i64`.
pub const LEAST_I32: i64 = -2147483648;

/// The range of `i32`, as `i64`.
pub const GREATEST_I32: i64 = 2147483647;

/// The `i32` that `s` writes, if it writes one.
pub open spec fn parsed_i32(s: Seq<char>) -> Option<int> {
    parsed_int(s, i32::MIN as int, i32::MAX as int)
}

/// The `i64` that `s` writes, if it writes one.
pub open spec fn parsed_i64(s: Seq<char>) -> Option<int> {
    parsed_int(s, i64::MIN as int, i64::MAX as int)
}

/// The `i32` that `text` writes, if it writes one.
pub fn parse_i32(text: &str) -> (r: Option<i32>)
    ensures
        match parsed_i32(text@) {
            Some(v) => r == Some(v as i32),
            None => r is None,
        },
{
    match parse_integer(text, LEAST_I32, GREATEST_I32) {
        Some(v) => Some(v as i32),
        None => None,
    }
}

/// The `i64` that `text` writes, if it writes one.
pub fn parse_i64(text: &str) -> (r: Option<i64>)
    ensures
        match parsed_i64(text@) {
            Some(v) => r == Some(v as i64),
            None => r is None,
        },
{
    parse_integer(text, i64::MIN, i64::MAX)
}

/// Whether every one of `val` writes an `i32`.
pub fn is_int(val: &[String]) -> (b: bool)
    ensures
        b == forall|i: int| 0 <= i < val@.len() ==> parsed_i32((#[trigger] val@[i])@) is Some,
{
    let n = val.len();
    let mut i: usize = 0;
    while i < n
        invariant
            i <= n,
            n == val@.len(),
            forall|k: int| 0 <= k < i ==> parsed_i32((#[trigger] val@[k])@) is Some,
        decreases n - i,
    {
        if parse_i32(val[i].as_str()).is_none() {
            return false;
        }
        i += 1;
    }
    true
}

/// Whether every one of `val` writes a floating point number.
pub fn is_float(val: &[String]) -> (b: bool)
    ensures
        b == forall|i: int| 0 <= i < val@.len() ==> is_float_text((#[trigger] val@[i])@),
{
    let n = val.len();
    let mut i: usize = 0;
    while i < n
        invariant
            i <= n,
            n == val@.len(),
            forall|k: int| 0 <= k < i ==> is_float_text((#[trigger] val@[k])@),
        decreases n - i,
    {
        if !float_text(val[i].as_str()) {
            return false;
        }
        i += 1;
    }
    true
}

/// Whether every one of `val` writes a truth value.
pub fn is_bool(val: &[String]) -> (b: bool)
    ensures
        b == forall|i: int| 0 <= i < val@.len() ==> parsed_bool((#[trigger] val@[i])@) is Some,
{
    let n = val.len();
    let mut i: usize = 0;
    while i < n
        invariant
            i <= n,
            n == val@.len(),
            forall|k: int| 0 <= k < i ==> parsed_bool((#[trigger] val@[k])@) is Some,
        decreases n - i,
    {
        if parse_bool(val[i].as_str()).is_none() {
            return false;
        }
        i += 1;
    }
    true
}

/// The `i32` that `s` writes, and 0 where it writes none.
pub open spec fn int_or_zero(s: Seq<char>) -> int {
    match parsed_i32(s) {
        Some(v) => v,
        None => 0,
    }
}

/// The `i64` that `s` writes, and 0 where it writes none.
pub open spec fn big_int_or_zero(s: Seq<char>) -> int {
    match parsed_i64(s) {
        Some(v) => v,
        None => 0,
    }
}

/// The truth value that `s` writes, and `false` where it writes none.
pub open spec fn bool_or_false(s: Seq<char>) -> bool {
    match parsed_bool(s) {
        Some(v) => v,
        None => false,
    }
}

/// The `i32` that each of `val` writes, and 0 for those that write none.
pub fn str_to_int(val: &[String]) -> (out: Vec<i32>)
    ensures
        out@.len() == val@.len(),
        forall|i: int| 0 <= i < val@.len() ==> #[trigger] out@[i] == int_or_zero(val@[i]@),
{
    let mut out: Vec<i32> = Vec::new();
    let n = val.len();
    let mut i: usize = 0;
    while i < n
        invariant
            i <= n,
            n == val@.len(),
            out@.len() == i,
            forall|k: int| 0 <= k < i ==> #[trigger] out@[k] == int_or_zero(val@[k]@),
        decreases n - i,
    {
        let v = match parse_i32(val[i].as_str()) {
            Some(v) => v,
            None => 0,
        };
        out.push(v);
        i += 1;
    }
    out
}

/// The `i64` that each of `val` writes, and 0 for those that write none.
pub fn str_to_big_int(val: &[String]) -> (out: Vec<i64>)
    ensures
        out@.len() == val@.len(),
        forall|i: int| 0 <= i < val@.len() ==> #[trigger] out@[i] == big_int_or_zero(val@[i]@),
{
    let mut out: Vec<i64> = Vec::new();
    let n = val.len();
    let mut i: usize = 0;
    while i < n
        invariant
            i <= n,
            n == val@.len(),
            out@.len() == i,
            forall|k: int| 0 <= k < i ==> #[trigger] out@[k] == big_int_or_zero(val@[k]@),
        decreases n - i,
    {
        let v = match parse_i64(val[i].as_str()) {
            Some(v) => v,
            None => 0,
        };
        out.push(v);
        i += 1;
    }
    out
}

/// The truth value that each of `val` writes, and `false` for those that write none.
pub fn str_to_bool(val: &[String]) -> (out: Vec<bool>)
    ensures
        out@.len() == val@.len(),
        forall|i: int| 0 <= i < val@.len() ==> #[trigger] out@[i] == bool_or_false(val@[i]@),
{
    let mut out: Vec<bool> = Vec::new();
    let n = val.len();
    let mut i: usize = 0;
    while i < n
        invariant
            i <= n,
            n == val@.len(),
            out@.len() == i,
            forall|k: int| 0 <= k < i ==> #[trigger] out@[k] == bool_or_false(val@[k]@),
        decreases n - i,
    {
        let v = match parse_bool(val[i].as_str()) {
            Some(v) => v,
            None => false,
        };
        out.push(v);
        i += 1;
    }
    out
}

} // verus!

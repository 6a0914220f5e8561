//! Searching, splitting and trimming text.
use vstd::prelude::*;
use crate::text::{chars_of, string_from_chars, texts};

verus! {

/// Whether `c` is white space as Unicode defines it: one of the
/// characters with the property `White_Space`.
pub open spec fn white_space(c: char) -> bool {
    let code = c as u32;
    ||| 0x09 <= code <= 0x0d
    ||| code == 0x20
    ||| code == 0x85
    ||| code == 0xa0
    ||| code == 0x1680
    ||| 0x2000 <= code <= 0x200a
    ||| code == 0x2028
    ||| code == 0x2029
    ||| code == 0x202f
    ||| code == 0x205f
    ||| code == 0x3000
}

/// Whether `c` is white space as Unicode defines it.
pub fn is_white_space(c: char) -> (b: bool)
    ensures
        b == white_space(c),
{
    let code = c as u32;
    (0x09 <= code && code <= 0x0d) || code == 0x20 || code == 0x85 || code == 0xa0 || code == 0x1680 || (
    0x2000 <= code && code <= 0x200a) || code == 0x2028 || code == 0x2029 || code == 0x202f || code
        == 0x205f || code == 0x3000
}

/// Whether `s` holds `pat` from position `i` on.
pub open spec fn occurs_at(s: Seq<char>, pat: Seq<char>, i: int) -> bool {
    &&& 0 <= i
    &&& i + pat.len() <= s.len()
    &&& s.subrange(i, i + pat.len()) == pat
}

/// Whether `s` begins with `prefix`.
pub open spec fn begins_with(s: Seq<char>, prefix: Seq<char>) -> bool {
    occurs_at(s, prefix, 0)
}

/// Whether `pat` occurs in `s`.
pub open spec fn holds(s: Seq<char>, pat: Seq<char>) -> bool {
    exists|i: int| occurs_at(s, pat, i)
}

/// `s` without the white space at its beginning.
pub open spec fn trim_start(s: Seq<char>) -> Seq<char>
    decreases s.len(),
{
    if s.len() > 0 && white_space(s[0]) {
        trim_start(s.skip(1))
    } else {
        s
    }
}

/// `s` without the white space at its end.
pub open spec fn trim_end(s: Seq<char>) -> Seq<char>
    decreases s.len(),
{
    if s.len() > 0 && white_space(s.last()) {
        trim_end(s.drop_last())
    } else {
        s
    }
}

/// `s` without the white space at its beginning and at its end.
pub open spec fn trimmed(s: Seq<char>) -> Seq<char> {
    trim_end(trim_start(s))
}

/// `line` without a carriage return at its end.
pub open spec fn without_return(line: Seq<char>) -> Seq<char> {
    if line.len() > 0 && line.last() == '\r' {
        line.drop_last()
    } else {
        line
    }
}

/// The position of the first `c` in `s` from `from` on; the length of `s`
/// where there is none.
pub open spec fn next_char(s: Seq<char>, c: char, from: int) -> int
    decreases s.len() - from,
{
    if from >= s.len() {
        s.len() as int
    } else if s[from] == c {
        from
    } else {
        next_char(s, c, from + 1)
    }
}

/// The lines of `s` from position `from` on: what stands between line
/// feeds, each without a carriage return before the line feed. A line feed
/// at the very end does not begin another line.
pub open spec fn lines_from(s: Seq<char>, from: int) -> Seq<Seq<char>>
    decreases s.len() - from,
{
    if from >= s.len() || from < 0 {
        Seq::empty()
    } else {
        let end = next_char(s, '\n', from);
        if end >= s.len() || end < from {
            seq![s.subrange(from, s.len() as int)]
        } else {
            seq![without_return(s.subrange(from, end))] + lines_from(s, end + 1)
        }
    }
}

/// The lines of `s`.
pub open spec fn lines_of(s: Seq<char>) -> Seq<Seq<char>> {
    lines_from(s, 0)
}

/// The position from which on `s` first holds `pat`, looking from `from`
/// on; the length of `s` where it does not.
pub open spec fn next_match(s: Seq<char>, pat: Seq<char>, from: int) -> int
    decreases s.len() - from,
{
    if from >= s.len() || from < 0 {
        s.len() as int
    } else if occurs_at(s, pat, from) {
        from
    } else {
        next_match(s, pat, from + 1)
    }
}

/// The pieces of `s` from position `from` on between the occurrences of the
/// separator `pat`, which is not empty. Occurrences are found from left to
/// right and do not overlap.
pub open spec fn pieces_from(s: Seq<char>, pat: Seq<char>, from: int) -> Seq<Seq<char>>
    decreases s.len() - from,
{
    if from > s.len() || from < 0 || pat.len() == 0 {
        Seq::empty()
    } else {
        let at = next_match(s, pat, from);
        if at >= s.len() || at < from || at + pat.len() > s.len() {
            seq![s.subrange(from, s.len() as int)]
        } else {
            seq![s.subrange(from, at)] + pieces_from(s, pat, at + pat.len())
        }
    }
}

/// The pieces of `s` between the occurrences of the separator `pat`. An
/// empty separator stands between any two characters, before the first one
/// and behind the last one.
pub open spec fn pieces_of(s: Seq<char>, pat: Seq<char>) -> Seq<Seq<char>> {
    if pat.len() == 0 {
        seq![Seq::<char>::empty()] + Seq::new(s.len(), |i: int| seq![s[i]]) + seq![
            Seq::<char>::empty(),
        ]
    } else {
        pieces_from(s, pat, 0)
    }
}

/// The first position of a match lies between the start and the end.
pub proof fn lemma_next_match(s: Seq<char>, pat: Seq<char>, from: int)
    requires
        0 <= from <= s.len(),
    ensures
        from <= next_match(s, pat, from) <= s.len(),
        next_match(s, pat, from) < s.len() ==> occurs_at(s, pat, next_match(s, pat, from)),
        forall|j: int| from <= j < next_match(s, pat, from) ==> !occurs_at(s, pat, j),
    decreases s.len() - from,
{
    if from < s.len() && !occurs_at(s, pat, from) {
        lemma_next_match(s, pat, from + 1);
    }
}

/// Whether `s` holds `pat` from position `i` on.
pub fn matches_at(s: &Vec<char>, pat: &Vec<char>, i: usize) -> (b: bool)
    ensures
        b == occurs_at(s@, pat@, i as int),
{
    if pat.len() > s.len() || i > s.len() - pat.len() {
        return false;
    }
    let n = pat.len();
    let total = s.len();
    let mut k: usize = 0;
    while k < n
        invariant
            k <= n,
            n == pat@.len(),
            total == s@.len(),
            i + n <= total,
            forall|j: int| 0 <= j < k ==> s@[i + j] == pat@[j],
        decreases n - k,
    {
        if s[i + k] != pat[k] {
            proof {
                assert(s@.subrange(i as int, i + n)[k as int] == s@[i + k]);
            }
            return false;
        }
        k += 1;
    }
    assert(s@.subrange(i as int, i + n) =~= pat@);
    true
}

/// The position from which on `s` first holds `pat`, looking from `from`
/// on; the length of `s` where it does not.
pub fn find_from(s: &Vec<char>, pat: &Vec<char>, from: usize) -> (at: usize)
    requires
        from <= s@.len(),
    ensures
        at == next_match(s@, pat@, from as int),
        from <= at <= s@.len(),
{
    let n = s.len();
    let mut i: usize = from;
    while i < n
        invariant
            from <= i <= n,
            n == s@.len(),
            next_match(s@, pat@, from as int) == next_match(s@, pat@, i as int),
        decreases n - i,
    {
        if matches_at(s, pat, i) {
            return i;
        }
        i += 1;
    }
    i
}

/// Whether `s` begins with `prefix`.
pub fn starts_with(s: &str, prefix: &str) -> (b: bool)
    ensures
        b == begins_with(s@, prefix@),
{
    let text = chars_of(s);
    let pat = chars_of(prefix);
    matches_at(&text, &pat, 0)
}

/// Whether `pat` occurs in `s`.
pub fn contains(s: &str, pat: &str) -> (b: bool)
    ensures
        b == holds(s@, pat@),
{
    let text = chars_of(s);
    let wanted = chars_of(pat);
    if wanted.len() == 0 {
        assert(occurs_at(s@, pat@, 0)) by {
            assert(s@.subrange(0, 0) =~= pat@);
        }
        return true;
    }
    let at = find_from(&text, &wanted, 0);
    proof {
        lemma_next_match(text@, wanted@, 0);
        if at < text@.len() {
            assert(occurs_at(s@, pat@, at as int));
        } else {
            assert forall|i: int| !occurs_at(s@, pat@, i) by {
                if occurs_at(s@, pat@, i) {
                    assert(i < text@.len());
                }
            }
        }
    }
    at < text.len()
}

/// The characters of `s` from `from` up to `to`, as a string.
pub fn slice_of(s: &Vec<char>, from: usize, to: usize) -> (r: String)
    requires
        from <= to <= s@.len(),
    ensures
        r@ == s@.subrange(from as int, to as int),
{
    let mut out: Vec<char> = Vec::new();
    let mut i: usize = from;
    while i < to
        invariant
            from <= i <= to,
            to <= s@.len(),
            out@ == s@.subrange(from as int, i as int),
        decreases to - i,
    {
        out.push(s[i]);
        proof {
            assert(s@.subrange(from as int, i + 1) =~= s@.subrange(from as int, i as int).push(
                s@[i as int],
            ));
        }
        i += 1;
    }
    string_from_chars(&out)
}

/// `s` without the white space at its beginning and at its end.
pub fn trim(s: &str) -> (r: String)
    ensures
        r@ == trimmed(s@),
{
    let text = chars_of(s);
    let n = text.len();
    let mut start: usize = 0;
    proof {
        assert(text@.skip(0) =~= text@);
    }
    while start < n && is_white_space(text[start])
        invariant
            start <= n,
            n == text@.len(),
            trim_start(text@) == trim_start(text@.skip(start as int)),
        decreases n - start,
    {
        proof {
            assert(text@.skip(start as int)[0] == text@[start as int]);
            assert(text@.skip(start as int).skip(1) =~= text@.skip(start + 1));
        }
        start += 1;
    }
    proof {
        if start < n {
            assert(text@.skip(start as int)[0] == text@[start as int]);
        }
        assert(trim_start(text@) == text@.skip(start as int));
        assert(text@.skip(start as int) =~= text@.subrange(start as int, n as int));
    }
    let mut end: usize = n;
    while end > start && is_white_space(text[end - 1])
        invariant
            start <= end <= n,
            n == text@.len(),
            trim_end(text@.subrange(start as int, n as int)) == trim_end(
                text@.subrange(start as int, end as int),
            ),
        decreases end - start,
    {
        proof {
            assert(text@.subrange(start as int, end as int).last() == text@[end - 1]);
            assert(text@.subrange(start as int, end as int).drop_last() =~= text@.subrange(
                start as int,
                end - 1,
            ));
        }
        end -= 1;
    }
    proof {
        if end > start {
            assert(text@.subrange(start as int, end as int).last() == text@[end - 1]);
        }
    }
    slice_of(&text, start, end)
}

/// The lines of `s`.
pub fn lines(s: &str) -> (out: Vec<String>)
    ensures
        texts(out@) == lines_of(s@),
{
    let text = chars_of(s);
    let n = text.len();
    let mut out: Vec<String> = Vec::new();
    let mut from: usize = 0;
    proof {
        assert(texts(out@) =~= Seq::empty());
    }
    while from < n
        invariant
            from <= n,
            n == text@.len(),
            text@ == s@,
            lines_of(s@) == texts(out@) + lines_from(text@, from as int),
        decreases n - from,
    {
        let mut end: usize = from;
        while end < n && text[end] != '\n'
            invariant
                from <= end <= n,
                n == text@.len(),
                next_char(text@, '\n', from as int) == next_char(text@, '\n', end as int),
            decreases n - end,
        {
            end += 1;
        }
        let ghost before = texts(out@);
        if end >= n {
            out.push(slice_of(&text, from, n));
            proof {
                assert(texts(out@) =~= before.push(text@.subrange(from as int, n as int)));
                assert(lines_from(text@, n as int) =~= Seq::empty());
                assert(lines_of(s@) =~= texts(out@) + lines_from(text@, n as int));
            }
            from = n;
        } else {
            let stop = if end > from && text[end - 1] == '\r' {
                end - 1
            } else {
                end
            };
            out.push(slice_of(&text, from, stop));
            proof {
                let line = text@.subrange(from as int, end as int);
                if end > from {
                    assert(line.last() == text@[end - 1]);
                    assert(line.drop_last() =~= text@.subrange(from as int, end - 1));
                }
                assert(text@.subrange(from as int, stop as int) == without_return(line));
                assert(texts(out@) =~= before.push(without_return(line)));
                assert(lines_of(s@) =~= texts(out@) + lines_from(text@, end + 1));
            }
            from = end + 1;
        }
    }
    proof {
        assert(lines_from(text@, from as int) =~= Seq::empty());
        assert(lines_of(s@) =~= texts(out@));
    }
    out
}

/// The pieces of `s` between the occurrences of the separator `pat`.
pub fn split(s: &str, pat: &str) -> (out: Vec<String>)
    ensures
        texts(out@) == pieces_of(s@, pat@),
{
    let text = chars_of(s);
    let sep = chars_of(pat);
    let n = text.len();
    let mut out: Vec<String> = Vec::new();
    if sep.len() == 0 {
        out.push(String::new());
        let mut i: usize = 0;
        while i < n
            invariant
                i <= n,
                n == text@.len(),
                out@.len() == i + 1,
                out@[0]@ == Seq::<char>::empty(),
                forall|k: int| 0 <= k < i ==> (#[trigger] out@[k + 1])@ == seq![text@[k]],
            decreases n - i,
        {
            let piece = slice_of(&text, i, i + 1);
            proof {
                assert(text@.subrange(i as int, i + 1) =~= seq![text@[i as int]]);
            }
            out.push(piece);
            i += 1;
        }
        out.push(String::new());
        proof {
            let want = pieces_of(s@, pat@);
            assert(texts(out@).len() == want.len());
            assert forall|k: int| 0 <= k < want.len() implies texts(out@)[k] == want[k] by {
                if 0 < k && k < n + 1 {
                    assert(out@[(k - 1) + 1]@ == seq![text@[k - 1]]);
                }
            }
            assert(texts(out@) =~= want);
        }
        return out;
    }
    let mut from: usize = 0;
    let mut done = false;
    proof {
        assert(texts(out@) =~= Seq::empty());
    }
    while !done
        invariant
            from <= n,
            n == text@.len(),
            text@ == s@,
            sep@ == pat@,
            sep@.len() > 0,
            !done ==> pieces_of(s@, pat@) == texts(out@) + pieces_from(text@, sep@, from as int),
            done ==> pieces_of(s@, pat@) == texts(out@),
        decreases (if done { 0int } else { 1int }), n - from,
    {
        let at = find_from(&text, &sep, from);
        let ghost before = texts(out@);
        proof {
            lemma_next_match(text@, sep@, from as int);
        }
        if at >= n {
            out.push(slice_of(&text, from, n));
            proof {
                assert(texts(out@) =~= before.push(text@.subrange(from as int, n as int)));
                assert(pieces_of(s@, pat@) =~= texts(out@));
            }
            done = true;
        } else {
            out.push(slice_of(&text, from, at));
            proof {
                assert(texts(out@) =~= before.push(text@.subrange(from as int, at as int)));
                assert(pieces_of(s@, pat@) =~= texts(out@) + pieces_from(
                    text@,
                    sep@,
                    at + sep@.len(),
                ));
            }
            from = at + sep.len();
        }
    }
    out
}

} // verus!

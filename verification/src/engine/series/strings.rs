//! Operations on columns of strings.
use vstd::prelude::*;
use vstd::string::StringExecFns;
use crate::engine::common::{frequency, most_frequent};
use crate::engine::series::generic::{copy_labels, count_distinct, distinct_count, keys};
use crate::engine::series::{default_name, Series, SeriesView};
use crate::text::{decimal, lex_less, text_less, texts, usize_to_string};

verus! {

/// `text` in small letters, as Unicode tells them.
pub uninterp spec fn lowercase(text: Seq<char>) -> Seq<char>;

/// `str::to_lowercase` on `text`: the text with every character that has a
/// small form replaced by it. It depends on the text alone.
#[verifier::external_body]
pub(crate) fn to_lower(text: &str) -> (r: String)
    ensures
        r@ == lowercase(text@),
{
    text.to_lowercase()
}

/// What comes before what in the order of strings also comes before what
/// comes after that.
pub proof fn lemma_lex_transitive(a: Seq<char>, b: Seq<char>, c: Seq<char>)
    requires
        lex_less(a, b),
        lex_less(b, c),
    ensures
        lex_less(a, c),
    decreases a.len(),
{
    if a.len() > 0 && a[0] == b[0] && b[0] == c[0] {
        lemma_lex_transitive(a.skip(1), b.skip(1), c.skip(1));
    }
}

/// No string comes before itself in the order of strings.
pub proof fn lemma_lex_irreflexive(a: Seq<char>)
    ensures
        !lex_less(a, a),
    decreases a.len(),
{
    if a.len() > 0 {
        lemma_lex_irreflexive(a.skip(1));
    }
}

/// `least` is among `values`, and none of them comes before it in the
/// order of strings.
pub open spec fn is_least(values: Seq<Seq<char>>, least: Seq<char>) -> bool {
    values.contains(least) && forall|i: int|
        0 <= i < values.len() ==> !lex_less(#[trigger] values[i], least)
}

/// `top` is among `values`, and none of them occurs more often.
pub open spec fn is_most_frequent(values: Seq<Seq<char>>, top: Seq<char>) -> bool {
    values.contains(top) && forall|i: int|
        0 <= i < values.len() ==> frequency(values, #[trigger] values[i]) <= frequency(values, top)
}

/// The labels of the summary of a column of strings.
pub open spec fn summary_labels() -> Seq<Seq<char>> {
    seq!["count"@, "unique"@, "top"@, "freq"@]
}

/// `out` is the summary of the strings `values`: under `count` how many
/// they are, under `unique` how many different ones, under `top` the most
/// frequent one and under `freq` how often that occurs. Where no value
/// occurs twice, `top` is the first of them in the order of strings. All
/// four are written as text.
pub open spec fn described(values: Seq<Seq<char>>, out: SeriesView<String>) -> bool {
    &&& out.name == default_name()
    &&& out.index == summary_labels()
    &&& out.values.len() == 4
    &&& out.values[0]@ == decimal(values.len())
    &&& out.values[1]@ == decimal(distinct_count(values))
    &&& out.values[3]@ == decimal(frequency(values, out.values[2]@))
    &&& if distinct_count(values) == values.len() {
        is_least(values, out.values[2]@)
    } else {
        is_most_frequent(values, out.values[2]@)
    }
}

/// The first of `values` in the order of strings.
pub fn least_of(values: &Vec<String>) -> (r: String)
    requires
        values@.len() > 0,
    ensures
        is_least(texts(values@), r@),
{
    let n = values.len();
    let ghost all = texts(values@);
    let mut best: usize = 0;
    let mut i: usize = 1;
    proof {
        lemma_lex_irreflexive(all[0]);
    }
    while i < n
        invariant
            1 <= i <= n,
            n == values@.len(),
            all == texts(values@),
            best < i,
            forall|k: int| 0 <= k < i ==> !lex_less(#[trigger] all[k], all[best as int]),
        decreases n - i,
    {
        assert(all[i as int] == values@[i as int]@);
        assert(all[best as int] == values@[best as int]@);
        if text_less(values[i].as_str(), values[best].as_str()) {
            assert forall|k: int| 0 <= k < i + 1 implies !lex_less(#[trigger] all[k], all[i as int]) by {
                if k == i {
                    lemma_lex_irreflexive(all[i as int]);
                } else if lex_less(all[k], all[i as int]) {
                    lemma_lex_transitive(all[k], all[i as int], all[best as int]);
                }
            }
            best = i;
        }
        i += 1;
    }
    assert(all[best as int] == values@[best as int]@);
    values[best].clone()
}

/// The summary of the strings `values`: see [`described`].
pub fn describe_texts(values: &Vec<String>) -> (r: Series<String>)
    requires
        0 < values@.len() <= i32::MAX,
    ensures
        described(texts(values@), r@),
{
    let ghost all = texts(values@);
    let len = values.len();
    let different = count_distinct(values);
    assert(keys(values@) =~= all);
    let (top, freq) = if different == len {
        let least = least_of(values);
        proof {
            lemma_distinct_once(all, least@);
        }
        (least, 1usize)
    } else {
        let (freq, top) = most_frequent(values.as_slice());
        assert(freq >= 0) by {
            crate::engine::common::lemma_occurrences_bound(all, top@, all.len());
        }
        (top, freq as usize)
    };
    let mut out: Vec<String> = Vec::new();
    out.push(usize_to_string(len));
    out.push(usize_to_string(different));
    out.push(top);
    out.push(usize_to_string(freq));
    let mut labels: Vec<String> = Vec::new();
    labels.push(String::from_str("count"));
    labels.push(String::from_str("unique"));
    labels.push(String::from_str("top"));
    labels.push(String::from_str("freq"));
    assert(texts(labels@) =~= summary_labels());
    let mut series = Series::from_vec(out);
    series.reindex(labels, false);
    series
}

/// Among strings that are all different, each occurs once.
pub proof fn lemma_distinct_once(values: Seq<Seq<char>>, value: Seq<char>)
    requires
        distinct_count(values) == values.len(),
        values.contains(value),
    ensures
        frequency(values, value) == 1,
{
    values.lemma_no_dup_set_cardinality();
    lemma_once(values, value, values.len());
    assert(values.take(values.len() as int) =~= values);
}

/// Among the first `n` of strings that are all different, one occurs once
/// or not at all.
proof fn lemma_once(values: Seq<Seq<char>>, value: Seq<char>, n: nat)
    requires
        values.no_duplicates(),
        n <= values.len(),
    ensures
        crate::engine::common::occurrences(values, value, n) == if values.take(n as int).contains(
            value,
        ) {
            1nat
        } else {
            0nat
        },
    decreases n,
{
    if n > 0 {
        lemma_once(values, value, (n - 1) as nat);
        let before = values.take(n - 1);
        let now = values.take(n as int);
        assert(now =~= before.push(values[n - 1]));
        if before.contains(value) {
            let k = choose|k: int| 0 <= k < before.len() && before[k] == value;
            assert(values[k] == value);
            assert(now[k] == value);
        }
        if values[n - 1] == value {
            assert(now[n - 1] == value);
        }
        if now.contains(value) && values[n - 1] != value {
            let k = choose|k: int| 0 <= k < now.len() && now[k] == value;
            assert(before[k] == value);
        }
    } else {
        assert(values.take(0).len() == 0);
    }
}

impl Series<String> {
    /// The summary of the column: see [`described`].
    pub fn describe(&self) -> (r: Series<String>)
        requires
            0 < self@.values.len() <= i32::MAX,
        ensures
            described(texts(self@.values), r@),
    {
        describe_texts(&self.array)
    }

    /// The column with every string in small letters. Name and labels stay.
    pub fn lower(&self) -> (r: Series<String>)
        ensures
            r@.values.len() == self@.values.len(),
            forall|i: int|
                0 <= i < self@.values.len() ==> (#[trigger] r@.values[i])@ == lowercase(
                    self@.values[i]@,
                ),
            r@.name == self@.name,
            r@.index == self@.index,
    {
        proof {
            use_type_invariant(self);
        }
        let mut out: Vec<String> = Vec::new();
        let n = self.array.len();
        let mut i: usize = 0;
        while i < n
            invariant
                i <= n,
                n == self.array@.len(),
                out@.len() == i,
                forall|k: int|
                    0 <= k < i ==> (#[trigger] out@[k])@ == lowercase(self.array@[k]@),
            decreases n - i,
        {
            out.push(to_lower(self.array[i].as_str()));
            i += 1;
        }
        Series { array: out, name: self.name.clone(), index: copy_labels(&self.index) }
    }
}

impl Series<&'static str> {
    /// The strings of the column, each as a string of its own.
    pub fn owned(&self) -> (out: Vec<String>)
        ensures
            texts(out@) == keys(self@.values),
    {
        let mut out: Vec<String> = Vec::new();
        let n = self.array.len();
        let mut i: usize = 0;
        while i < n
            invariant
                i <= n,
                n == self.array@.len(),
                out@.len() == i,
                forall|k: int| 0 <= k < i ==> (#[trigger] out@[k])@ == self.array@[k]@,
            decreases n - i,
        {
            out.push(String::from_str(self.array[i]));
            i += 1;
        }
        assert(texts(out@) =~= keys(self@.values));
        out
    }

    /// The summary of the column: see [`described`].
    pub fn describe(&self) -> (r: Series<String>)
        requires
            0 < self@.values.len() <= i32::MAX,
        ensures
            described(keys(self@.values), r@),
    {
        let values = self.owned();
        describe_texts(&values)
    }

    /// The column with every string in small letters. Name and labels stay.
    pub fn lower(&self) -> (r: Series<String>)
        ensures
            r@.values.len() == self@.values.len(),
            forall|i: int|
                0 <= i < self@.values.len() ==> (#[trigger] r@.values[i])@ == lowercase(
                    self@.values[i]@,
                ),
            r@.name == self@.name,
            r@.index == self@.index,
    {
        proof {
            use_type_invariant(self);
        }
        let mut out: Vec<String> = Vec::new();
        let n = self.array.len();
        let mut i: usize = 0;
        while i < n
            invariant
                i <= n,
                n == self.array@.len(),
                out@.len() == i,
                forall|k: int|
                    0 <= k < i ==> (#[trigger] out@[k])@ == lowercase(self.array@[k]@),
            decreases n - i,
        {
            out.push(to_lower(self.array[i]));
            i += 1;
        }
        Series { array: out, name: self.name.clone(), index: copy_labels(&self.index) }
    }
}

} // verus!

//! Operations that every column has, whatever its element type.
use vstd::prelude::*;
use vstd::string::StringExecFns;
use crate::engine::series::errors::{Error, SeriesErrors};
use crate::engine::series::traits::Keyed;
use crate::engine::series::{create_index, numbered_labels, Scalar, Series, SeriesView};
use crate::enums::DataTypes;
use crate::text::texts;

verus! {

/// `i` is the first position of `label` in `labels`.
pub open spec fn is_first(labels: Seq<Seq<char>>, label: Seq<char>, i: int) -> bool {
    &&& 0 <= i < labels.len()
    &&& labels[i] == label
    &&& forall|j: int| 0 <= j < i ==> labels[j] != label
}

/// The first position of `label` in `labels`. Meaningful where `labels` contains `label`.
pub open spec fn first_position(labels: Seq<Seq<char>>, label: Seq<char>) -> int {
    choose|i: int| is_first(labels, label, i)
}

/// A label has one first position only.
pub proof fn lemma_first_position(labels: Seq<Seq<char>>, label: Seq<char>, i: int)
    requires
        is_first(labels, label, i),
    ensures
        first_position(labels, label) == i,
        labels.contains(label),
{
    let k = first_position(labels, label);
    assert(is_first(labels, label, k));
    if k < i {
        assert(labels[k] != label);
    }
    if i < k {
        assert(labels[i] != label);
    }
}

/// The first position, from `from` on, at which `labels` holds `label`.
proof fn lemma_scan(labels: Seq<Seq<char>>, label: Seq<char>, from: int) -> (i: int)
    requires
        0 <= from <= labels.len(),
        forall|j: int| 0 <= j < from ==> labels[j] != label,
        labels.contains(label),
    ensures
        is_first(labels, label, i),
    decreases labels.len() - from,
{
    if from == labels.len() {
        let k = choose|k: int| 0 <= k < labels.len() && labels[k] == label;
        assert(labels[k] != label);
        0
    } else if labels[from] == label {
        from
    } else {
        lemma_scan(labels, label, from + 1)
    }
}

/// A label that occurs has a first position.
pub proof fn lemma_first_exists(labels: Seq<Seq<char>>, label: Seq<char>)
    requires
        labels.contains(label),
    ensures
        is_first(labels, label, first_position(labels, label)),
{
    let i = lemma_scan(labels, label, 0);
    lemma_first_position(labels, label, i);
}

/// `func` may be called on every value of `input`.
pub open spec fn accepts_all<T, M, F: Fn(T) -> M>(func: F, input: Seq<T>) -> bool {
    forall|i: int| 0 <= i < input.len() ==> call_requires(func, (#[trigger] input[i],))
}

/// `out` holds, position by position, what `func` returned for the values of `input`.
pub open spec fn mapped<T, M, F: Fn(T) -> M>(func: F, input: Seq<T>, out: Seq<M>) -> bool {
    &&& out.len() == input.len()
    &&& forall|i: int| 0 <= i < input.len() ==> call_ensures(func, (input[i],), #[trigger] out[i])
}

/// `after` is `value` where `cond` answered `true` for `before`, and `before`
/// where it answered `false`.
pub open spec fn replaced_if<T, F: Fn(T) -> bool>(cond: F, value: T, before: T, after: T) -> bool {
    ||| call_ensures(cond, (before,), true) && after == value
    ||| call_ensures(cond, (before,), false) && after == before
}

/// `out` is `input` with `value` in place of every value for which `cond` answered `true`.
pub open spec fn masked<T, F: Fn(T) -> bool>(cond: F, value: T, input: Seq<T>, out: Seq<T>) -> bool {
    &&& out.len() == input.len()
    &&& forall|i: int|
        0 <= i < input.len() ==> replaced_if(cond, value, input[i], #[trigger] out[i])
}

/// `func` may be called on every pair of values at one position of `left` and `right`.
pub open spec fn accepts_pairs<T, F: Fn(T, T) -> T>(func: F, left: Seq<T>, right: Seq<T>) -> bool {
    forall|i: int|
        0 <= i < left.len() && i < right.len() ==> call_requires(
            func,
            (#[trigger] left[i], right[i]),
        )
}

/// `out` holds, position by position, what `func` returned for the pair of
/// values of `left` and `right` at that position.
pub open spec fn zipped<T, F: Fn(T, T) -> T>(func: F, left: Seq<T>, right: Seq<T>, out: Seq<T>) -> bool {
    &&& out.len() == left.len()
    &&& forall|i: int|
        0 <= i < left.len() && i < right.len() ==> call_ensures(
            func,
            (left[i], right[i]),
            #[trigger] out[i],
        )
}

/// `outcome` is what the attempt to combine `left` and `right` by `func`
/// gives: for columns of one length the column of what `func` returned,
/// with the name and the labels of `left`; for others the error that
/// holds the two lengths.
pub open spec fn combination<T, F: Fn(T, T) -> T>(
    func: F,
    left: SeriesView<T>,
    right: SeriesView<T>,
    outcome: Result<SeriesView<T>, SeriesErrors>,
) -> bool {
    if left.values.len() == right.values.len() {
        outcome matches Ok(s) && zipped(func, left.values, right.values, s.values) && s
            == left.with_values(s.values)
    } else {
        outcome matches Err(e) && e == SeriesErrors::MatrixUnaligned(
            left.values.len() as usize,
            right.values.len() as usize,
        )
    }
}

/// The view of what the attempt to combine two columns gave.
pub open spec fn combined_view<T>(r: Result<Series<T>, SeriesErrors>) -> Result<SeriesView<T>, SeriesErrors> {
    match r {
        Ok(s) => Ok(s@),
        Err(e) => Err(e),
    }
}

/// The labels of `labels` that are not among `dropped`, marked position by position.
pub open spec fn not_dropped(labels: Seq<Seq<char>>, dropped: Seq<Seq<char>>) -> Seq<bool> {
    Seq::new(labels.len(), |i: int| !dropped.contains(labels[i]))
}

/// The views of a list of borrowed strings.
pub open spec fn str_texts(v: Seq<&str>) -> Seq<Seq<char>> {
    v.map_values(|s: &str| s@)
}

impl<T> SeriesView<T> {
    /// The column that is left of the first `n` positions when only the
    /// positions marked in `keep` stay. A label that stays brings the value of
    /// its first occurrence with it.
    pub open spec fn retained_upto(self, keep: Seq<bool>, n: nat) -> Self
        decreases n,
    {
        if n == 0 {
            SeriesView { values: Seq::empty(), index: Seq::empty(), ..self }
        } else {
            let before = self.retained_upto(keep, (n - 1) as nat);
            let label = self.index[n - 1];
            if keep[n - 1] {
                SeriesView {
                    values: before.values.push(self.values[first_position(self.index, label)]),
                    index: before.index.push(label),
                    ..self
                }
            } else {
                before
            }
        }
    }

    /// The column that is left when only the positions marked in `keep` stay.
    pub open spec fn retained(self, keep: Seq<bool>) -> Self {
        self.retained_upto(keep, self.index.len())
    }

    /// The column without the positions whose label is among `dropped`.
    pub open spec fn without_labels(self, dropped: Seq<Seq<char>>) -> Self {
        self.retained(not_dropped(self.index, dropped))
    }

    /// This column followed by `other`: values after values, labels after labels.
    pub open spec fn followed_by(self, other: Self) -> Self {
        SeriesView {
            values: self.values + other.values,
            index: self.index + other.index,
            ..self
        }
    }

    /// What is left of a column keeps one label per value.
    pub proof fn lemma_retained_aligned(self, keep: Seq<bool>, n: nat)
        ensures
            self.retained_upto(keep, n).aligned(),
            self.retained_upto(keep, n).values.len() <= n,
            self.retained_upto(keep, n).name == self.name,
        decreases n,
    {
        if n > 0 {
            self.lemma_retained_aligned(keep, (n - 1) as nat);
        }
    }
}

/// The number of different labels among `labels`.
pub open spec fn distinct_count(labels: Seq<Seq<char>>) -> nat {
    labels.to_set().len()
}

/// `out` has the name of `left` and its labels at the positions that `left`
/// and `right` both have, and holds at each of them what `func` returned for
/// the two values.
pub open spec fn paired<T, F: Fn(T, T) -> T>(
    func: F,
    left: SeriesView<T>,
    right: SeriesView<T>,
    out: SeriesView<T>,
) -> bool {
    let n = if left.values.len() <= right.values.len() {
        left.values.len()
    } else {
        right.values.len()
    };
    &&& out.name == left.name
    &&& out.index == left.index.take(n as int)
    &&& out.values.len() == n
    &&& forall|i: int|
        0 <= i < n ==> call_ensures(func, (left.values[i], right.values[i]), #[trigger] out.values[i])
}

/// `out` holds the running results of `func` over `input`: the first value
/// as it is, and then, at every position, what `func` returned for the
/// result before it and the value at that position.
pub open spec fn scanned<T, F: Fn(T, T) -> T>(func: F, input: Seq<T>, out: Seq<T>) -> bool {
    &&& out.len() == input.len()
    &&& input.len() > 0 ==> out[0] == input[0]
    &&& forall|i: int|
        1 <= i < input.len() ==> call_ensures(func, (out[i - 1], input[i]), #[trigger] out[i])
}

/// `func` may be called on any two values.
pub open spec fn accepts_any_pair<T, F: Fn(T, T) -> T>(func: F) -> bool {
    forall|a: T, b: T| #[trigger] call_requires(func, (a, b))
}

/// Whether `pattern` is a regular expression that the crate `regex` accepts.
pub uninterp spec fn regex_valid(pattern: Seq<char>) -> bool;

/// Whether the regular expression `pattern` matches somewhere in `text`.
pub uninterp spec fn regex_accepts(pattern: Seq<char>, text: Seq<char>) -> bool;

/// `regex::Regex::new` on `pattern` and, where that gives a regular
/// expression, `Regex::is_match` on `text`: whether the expression matches
/// somewhere in the text. Both depend on the pattern and the text alone.
#[verifier::external_body]
pub(crate) fn regex_is_match(pattern: &str, text: &str) -> (r: Option<bool>)
    ensures
        r is Some <==> regex_valid(pattern@),
        r matches Some(b) ==> b == regex_accepts(pattern@, text@),
{
    match regex::Regex::new(pattern) {
        Ok(re) => Some(re.is_match(text)),
        Err(_) => None,
    }
}

/// For each of `labels`, whether the regular expression `pattern` matches in it.
pub open spec fn regex_marks(pattern: Seq<char>, labels: Seq<Seq<char>>) -> Seq<bool> {
    Seq::new(labels.len(), |i: int| regex_accepts(pattern, labels[i]))
}

/// A copy of a list of labels.
pub fn copy_labels(labels: &Vec<String>) -> (out: Vec<String>)
    ensures
        out@ == labels@,
{
    let mut out: Vec<String> = Vec::new();
    let n = labels.len();
    let mut i: usize = 0;
    while i < n
        invariant
            i <= n,
            n == labels@.len(),
            out@ == labels@.take(i as int),
        decreases n - i,
    {
        out.push(labels[i].clone());
        i += 1;
    }
    out
}

/// A copy of a list of values.
pub fn copy_values<T: Scalar>(values: &Vec<T>) -> (out: Vec<T>)
    ensures
        out@ == values@,
{
    let mut out: Vec<T> = Vec::new();
    let n = values.len();
    let mut i: usize = 0;
    while i < n
        invariant
            i <= n,
            n == values@.len(),
            out@ == values@.take(i as int),
        decreases n - i,
    {
        out.push(values[i].dup());
        i += 1;
    }
    out
}

/// What `func` returns for each of `input`'s values, in order.
pub fn map_values<T: Scalar, M, F: Fn(T) -> M>(input: &Vec<T>, func: &F) -> (out: Vec<M>)
    requires
        accepts_all(*func, input@),
    ensures
        mapped(*func, input@, out@),
{
    let mut out: Vec<M> = Vec::new();
    let n = input.len();
    let mut i: usize = 0;
    while i < n
        invariant
            i <= n,
            n == input@.len(),
            out@.len() == i,
            accepts_all(*func, input@),
            forall|k: int| 0 <= k < i ==> call_ensures(*func, (input@[k],), #[trigger] out@[k]),
        decreases n - i,
    {
        let x = input[i].dup();
        let y = func(x);
        out.push(y);
        i += 1;
    }
    out
}

/// `input` with `value` in place of every value for which `cond` answers `true`.
pub(crate) fn mask_values<T: Scalar, F: Fn(T) -> bool>(input: &Vec<T>, value: &T, cond: &F) -> (out:
    Vec<T>)
    requires
        accepts_all(*cond, input@),
    ensures
        masked(*cond, *value, input@, out@),
{
    let mut out: Vec<T> = Vec::new();
    let n = input.len();
    let mut i: usize = 0;
    while i < n
        invariant
            i <= n,
            n == input@.len(),
            out@.len() == i,
            accepts_all(*cond, input@),
            forall|k: int| 0 <= k < i ==> replaced_if(*cond, *value, input@[k], #[trigger] out@[k]),
        decreases n - i,
    {
        let x = input[i].dup();
        if cond(x) {
            out.push(value.dup());
        } else {
            out.push(input[i].dup());
        }
        i += 1;
    }
    out
}

/// What `func` returns for the values of `left` and `right` at each position.
pub(crate) fn zip_values<T: Scalar, F: Fn(T, T) -> T>(left: &Vec<T>, right: &Vec<T>, func: &F) -> (out:
    Vec<T>)
    requires
        left@.len() == right@.len(),
        accepts_pairs(*func, left@, right@),
    ensures
        zipped(*func, left@, right@, out@),
{
    let mut out: Vec<T> = Vec::new();
    let n = left.len();
    let mut i: usize = 0;
    while i < n
        invariant
            i <= n,
            n == left@.len(),
            n == right@.len(),
            out@.len() == i,
            accepts_pairs(*func, left@, right@),
            forall|k: int|
                0 <= k < i ==> call_ensures(*func, (left@[k], right@[k]), #[trigger] out@[k]),
        decreases n - i,
    {
        let x = left[i].dup();
        let y = right[i].dup();
        out.push(func(x, y));
        i += 1;
    }
    out
}

/// The first position of `label` among `labels`.
pub fn position_of(labels: &Vec<String>, label: &str) -> (r: Option<usize>)
    ensures
        r is Some <==> texts(labels@).contains(label@),
        r matches Some(i) ==> is_first(texts(labels@), label@, i as int) && i as int
            == first_position(texts(labels@), label@),
{
    let wanted = String::from_str(label);
    let n = labels.len();
    let mut i: usize = 0;
    while i < n
        invariant
            i <= n,
            n == labels@.len(),
            wanted@ == label@,
            forall|j: int| 0 <= j < i ==> texts(labels@)[j] != label@,
        decreases n - i,
    {
        if labels[i] == wanted {
            proof {
                assert(texts(labels@)[i as int] == label@);
                lemma_first_position(texts(labels@), label@, i as int);
            }
            return Some(i);
        }
        i += 1;
    }
    proof {
        if texts(labels@).contains(label@) {
            let k = choose|k: int| 0 <= k < texts(labels@).len() && texts(labels@)[k] == label@;
            assert(texts(labels@)[k] != label@);
        }
    }
    None
}

/// Whether `label` is among `labels`.
pub fn contains_label(labels: &[&str], label: &str) -> (b: bool)
    ensures
        b == exists|j: int| 0 <= j < labels@.len() && (#[trigger] labels@[j])@ == label@,
{
    let wanted = String::from_str(label);
    let n = labels.len();
    let mut i: usize = 0;
    while i < n
        invariant
            i <= n,
            n == labels@.len(),
            wanted@ == label@,
            forall|j: int| 0 <= j < i ==> (#[trigger] labels@[j])@ != label@,
        decreases n - i,
    {
        let candidate = String::from_str(labels[i]);
        if candidate == wanted {
            return true;
        }
        i += 1;
    }
    false
}

/// The number of different labels among `labels`.
pub fn count_distinct(labels: &Vec<String>) -> (n: usize)
    ensures
        n == distinct_count(texts(labels@)),
{
    let mut seen: Vec<String> = Vec::new();
    let len = labels.len();
    let mut i: usize = 0;
    while i < len
        invariant
            i <= len,
            len == labels@.len(),
            seen@.len() <= i,
            texts(seen@).no_duplicates(),
            texts(seen@).to_set() == texts(labels@).take(i as int).to_set(),
        decreases len - i,
    {
        let found = position_of(&seen, labels[i].as_str());
        proof {
            let done = texts(labels@).take(i as int);
            let next = texts(labels@).take(i + 1);
            let label = texts(labels@)[i as int];
            assert(next =~= done.push(label));
            done.lemma_push_to_set_commute(label);
            assert(next.to_set() == done.to_set().insert(label));
        }
        if found.is_none() {
            let ghost before = texts(seen@);
            seen.push(labels[i].clone());
            proof {
                let label = texts(labels@)[i as int];
                assert(texts(seen@) =~= before.push(label));
                before.lemma_push_to_set_commute(label);
                assert(!before.contains(label));
                assert(texts(seen@).no_duplicates()) by {
                    assert forall|a: int, b: int|
                        0 <= a < texts(seen@).len() && 0 <= b < texts(seen@).len() && a != b implies texts(
                        seen@,
                    )[a] != texts(seen@)[b] by {
                        if a < before.len() && b < before.len() {
                            assert(before[a] != before[b]);
                        } else if a < before.len() {
                            assert(before.contains(before[a]));
                        } else {
                            assert(before.contains(before[b]));
                        }
                    }
                }
            }
        } else {
            proof {
                let label = texts(labels@)[i as int];
                assert(texts(seen@).contains(label));
                assert(texts(seen@).to_set().contains(label));
                assert(texts(seen@).to_set().insert(label) =~= texts(seen@).to_set());
            }
        }
        i += 1;
    }
    proof {
        assert(texts(labels@).take(len as int) =~= texts(labels@));
        texts(seen@).unique_seq_to_set();
    }
    seen.len()
}

/// Checks that two lists of labels hold the same number of different labels.
pub fn validate_names(me: Vec<String>, other: Vec<String>) -> (r: Result<(), Error>)
    ensures
        r is Ok <==> distinct_count(texts(me@)) == distinct_count(texts(other@)),
        r matches Err(e) ==> e is LabelError,
{
    if count_distinct(&me) != count_distinct(&other) {
        return Err(Error::LabelError);
    }
    Ok(())
}

impl<T: Scalar> Series<T> {
    /// The number of values.
    pub fn len(&self) -> (n: usize)
        ensures
            n == self@.values.len(),
            n == self@.index.len(),
    {
        proof {
            use_type_invariant(self);
        }
        self.array.len()
    }

    /// Whether the column holds no value.
    pub fn is_empty(&self) -> (b: bool)
        ensures
            b == (self@.values.len() == 0),
    {
        self.array.len() == 0
    }

    /// The value at position `idx`, if there is one.
    pub fn get(&self, idx: usize) -> (r: Option<&T>)
        ensures
            idx < self@.values.len() ==> r == Some(&self@.values[idx as int]),
            idx >= self@.values.len() ==> r is None,
    {
        if idx < self.array.len() {
            Some(&self.array[idx])
        } else {
            None
        }
    }

    /// Puts `value` at position `idx`.
    pub fn set(&mut self, idx: usize, value: T)
        requires
            idx < old(self)@.values.len(),
        ensures
            final(self)@ == old(self)@.with_values(old(self)@.values.update(idx as int, value)),
    {
        proof {
            use_type_invariant(&*self);
        }
        let mut array = copy_values(&self.array);
        array.set(idx, value);
        self.array = array;
    }

    /// Puts `value` under the label `index`; under its first occurrence,
    /// where the label occurs more than once.
    pub fn set_at(&mut self, index: &str, value: T)
        requires
            old(self)@.index.contains(index@),
        ensures
            final(self)@ == old(self)@.with_values(
                old(self)@.values.update(first_position(old(self)@.index, index@), value),
            ),
    {
        proof {
            use_type_invariant(&*self);
        }
        let found = position_of(&self.index, index);
        let idx = found.unwrap();
        self.set(idx, value);
    }

    /// The first value, if there is one.
    pub fn item(&self) -> (r: Option<&T>)
        ensures
            self@.values.len() > 0 ==> r == Some(&self@.values[0]),
            self@.values.len() == 0 ==> r is None,
    {
        self.get(0)
    }

    /// The name of the column.
    pub fn get_name(&self) -> (name: String)
        ensures
            name@ == self@.name,
    {
        self.name.clone()
    }

    /// The labels of the column.
    pub fn get_index(&self) -> (index: Vec<String>)
        ensures
            texts(index@) == self@.index,
            index@.len() == self@.values.len(),
    {
        proof {
            use_type_invariant(self);
        }
        copy_labels(&self.index)
    }

    /// The tag of the column: the tag of its element type.
    pub fn get_dtype(&self) -> (d: DataTypes)
        ensures
            d == T::tag(),
    {
        T::kind()
    }

    /// The values of the column, in order.
    pub fn to_vec(&self) -> (v: Vec<T>)
        ensures
            v@ == self@.values,
    {
        copy_values(&self.array)
    }

    /// A copy of the column.
    pub fn duplicate(&self) -> (s: Self)
        ensures
            s@ == self@,
    {
        proof {
            use_type_invariant(self);
        }
        Series {
            array: copy_values(&self.array),
            name: self.name.clone(),
            index: copy_labels(&self.index),
        }
    }

    /// Gives the column another name.
    pub fn set_name(&mut self, name: &str)
        ensures
            final(self)@ == old(self)@.renamed(name@),
    {
        proof {
            use_type_invariant(&*self);
        }
        self.name = String::from_str(name);
    }

    /// Replaces the labels of the column.
    pub fn set_index(&mut self, index: Vec<String>)
        requires
            index@.len() == old(self)@.values.len(),
        ensures
            final(self)@ == old(self)@.relabelled(texts(index@)),
    {
        proof {
            use_type_invariant(&*self);
        }
        self.index = index;
    }

    /// Replaces the labels by the numbers 0, 1, ..., each behind `prefix`.
    pub fn add_prefix(&mut self, prefix: &str)
        ensures
            final(self)@ == old(self)@.relabelled(
                numbered_labels(old(self)@.values.len(), prefix@, Seq::empty()),
            ),
    {
        proof {
            use_type_invariant(&*self);
            assert(""@ =~= Seq::<char>::empty()) by {
                reveal_strlit("");
            }
        }
        self.index = create_index(self.array.len(), prefix, "");
    }

    /// Replaces the labels by the numbers 0, 1, ..., each before `suffix`.
    pub fn add_suffix(&mut self, suffix: &str)
        ensures
            final(self)@ == old(self)@.relabelled(
                numbered_labels(old(self)@.values.len(), Seq::empty(), suffix@),
            ),
    {
        proof {
            use_type_invariant(&*self);
            assert(""@ =~= Seq::<char>::empty()) by {
                reveal_strlit("");
            }
        }
        self.index = create_index(self.array.len(), "", suffix);
    }

    /// The value under the label `index`; under its first occurrence, where
    /// the label occurs more than once.
    pub fn at(&self, index: &str) -> (r: T)
        requires
            self@.index.contains(index@),
        ensures
            r == self@.values[first_position(self@.index, index@)],
            is_first(self@.index, index@, first_position(self@.index, index@)),
    {
        proof {
            use_type_invariant(self);
        }
        let pos = position_of(&self.index, index);
        match pos {
            Some(i) => self.array[i].dup(),
            None => {
                proof {
                    assert(false);
                }
                self.array[0].dup()
            },
        }
    }

    /// A column with the same name and labels, and with what `func` returns
    /// for each value in place of the value.
    pub fn apply<F: Fn(T) -> T>(&self, func: F) -> (r: Series<T>)
        requires
            accepts_all(func, self@.values),
        ensures
            mapped(func, self@.values, r@.values),
            r@ == self@.with_values(r@.values),
    {
        proof {
            use_type_invariant(self);
        }
        let array = map_values(&self.array, &func);
        Series {
            array,
            name: self.name.clone(),
            index: copy_labels(&self.index),
        }
    }

    /// As [`Series::apply`], for a borrowed function.
    pub(crate) fn apply_ref<F: Fn(T) -> T>(&self, func: &F) -> (r: Series<T>)
        requires
            accepts_all(*func, self@.values),
        ensures
            mapped(*func, self@.values, r@.values),
            r@ == self@.with_values(r@.values),
    {
        proof {
            use_type_invariant(self);
        }
        let array = map_values(&self.array, func);
        Series { array, name: self.name.clone(), index: copy_labels(&self.index) }
    }

    /// As [`Series::mask`], for a borrowed value and a borrowed function.
    pub(crate) fn mask_ref<F: Fn(T) -> bool>(&self, value: &T, cond: &F) -> (r: Series<T>)
        requires
            accepts_all(*cond, self@.values),
        ensures
            masked(*cond, *value, self@.values, r@.values),
            r@ == self@.with_values(r@.values),
    {
        proof {
            use_type_invariant(self);
        }
        let array = mask_values(&self.array, value, cond);
        Series { array, name: self.name.clone(), index: copy_labels(&self.index) }
    }

    /// As [`Series::combine`], for a borrowed function.
    pub(crate) fn combine_ref<F: Fn(T, T) -> T>(&self, other: &Series<T>, func: &F) -> (r: Series<T>)
        requires
            self@.values.len() == other@.values.len(),
            accepts_pairs(*func, self@.values, other@.values),
        ensures
            zipped(*func, self@.values, other@.values, r@.values),
            r@ == self@.with_values(r@.values),
    {
        proof {
            use_type_invariant(self);
            use_type_invariant(other);
        }
        let array = zip_values(&self.array, &other.array, func);
        Series { array, name: self.name.clone(), index: copy_labels(&self.index) }
    }

    /// What `func` returns for the values of this column and of `other` at
    /// the positions that both have. Name and labels are those of this column.
    pub fn zip_with<F: Fn(T, T) -> T>(&self, other: &Series<T>, func: &F) -> (r: Series<T>)
        requires
            accepts_pairs(*func, self@.values, other@.values),
        ensures
            paired(*func, self@, other@, r@),
    {
        proof {
            use_type_invariant(self);
            use_type_invariant(other);
        }
        let n = if self.array.len() <= other.array.len() {
            self.array.len()
        } else {
            other.array.len()
        };
        let mut out: Vec<T> = Vec::new();
        let mut labels: Vec<String> = Vec::new();
        let mut i: usize = 0;
        while i < n
            invariant
                i <= n,
                n <= self.array@.len(),
                n <= other.array@.len(),
                self.index@.len() == self.array@.len(),
                accepts_pairs(*func, self@.values, other@.values),
                out@.len() == i,
                labels@ == self.index@.take(i as int),
                forall|k: int|
                    0 <= k < i ==> call_ensures(
                        *func,
                        (self@.values[k], other@.values[k]),
                        #[trigger] out@[k],
                    ),
            decreases n - i,
        {
            assert(call_requires(*func, (self@.values[i as int], other@.values[i as int])));
            let x = self.array[i].dup();
            let y = other.array[i].dup();
            out.push(func(x, y));
            labels.push(self.index[i].clone());
            proof {
                assert(self.index@.take(i + 1) =~= self.index@.take(i as int).push(
                    self.index@[i as int],
                ));
            }
            i += 1;
        }
        proof {
            assert(texts(labels@) =~= texts(self.index@).take(n as int));
        }
        Series { array: out, name: self.name.clone(), index: labels }
    }

    /// The running results of `func` over the values: the first value as it
    /// is, and then what `func` returns for the result so far and the next
    /// value. Name and labels stay.
    pub fn scan<F: Fn(T, T) -> T>(&self, func: &F) -> (r: Series<T>)
        requires
            accepts_any_pair(*func),
        ensures
            scanned(*func, self@.values, r@.values),
            r@ == self@.with_values(r@.values),
    {
        proof {
            use_type_invariant(self);
        }
        let mut out: Vec<T> = Vec::new();
        let n = self.array.len();
        if n > 0 {
            out.push(self.array[0].dup());
            let mut i: usize = 1;
            while i < n
                invariant
                    1 <= i <= n,
                    n == self.array@.len(),
                    accepts_any_pair(*func),
                    out@.len() == i,
                    out@[0] == self.array@[0],
                    forall|k: int|
                        1 <= k < i ==> call_ensures(
                            *func,
                            (out@[k - 1], self.array@[k]),
                            #[trigger] out@[k],
                        ),
                decreases n - i,
            {
                let so_far = out[i - 1].dup();
                let next = self.array[i].dup();
                assert(call_requires(*func, (so_far, next)));
                let made = func(so_far, next);
                out.push(made);
                i += 1;
            }
        }
        Series { array: out, name: self.name.clone(), index: copy_labels(&self.index) }
    }

    /// Puts what `func` returns for each value in place of the value.
    pub fn apply_inplace<F: Fn(T) -> T>(&mut self, func: F)
        requires
            accepts_all(func, old(self)@.values),
        ensures
            mapped(func, old(self)@.values, final(self)@.values),
            final(self)@ == old(self)@.with_values(final(self)@.values),
    {
        proof {
            use_type_invariant(&*self);
        }
        let array = map_values(&self.array, &func);
        self.array = array;
    }

    /// A column with the same name and labels, of the values that `func`
    /// returns for this column's values.
    pub fn transform<M: Scalar, F: Fn(T) -> M>(&self, func: F) -> (r: Series<M>)
        requires
            accepts_all(func, self@.values),
        ensures
            mapped(func, self@.values, r@.values),
            r@.name == self@.name,
            r@.index == self@.index,
    {
        proof {
            use_type_invariant(self);
        }
        let array = map_values(&self.array, &func);
        Series {
            array,
            name: self.name.clone(),
            index: copy_labels(&self.index),
        }
    }
    /// The labels of the column as they are stored.
    pub closed spec fn label_strings(&self) -> Seq<String> {
        self.index@
    }

    /// The stored labels are the labels of the view.
    pub proof fn lemma_label_strings(&self)
        ensures
            texts(self.label_strings()) == self@.index,
    {
    }

    /// What is left of the column when only the positions marked in `keep` stay.
    pub fn retain(&self, keep: &Vec<bool>) -> (r: Series<T>)
        requires
            keep@.len() == self@.values.len(),
        ensures
            r@ == self@.retained(keep@),
    {
        proof {
            use_type_invariant(self);
        }
        let mut values: Vec<T> = Vec::new();
        let mut names: Vec<String> = Vec::new();
        let n = self.index.len();
        let mut i: usize = 0;
        while i < n
            invariant
                i <= n,
                n == self.index@.len(),
                n == self.array@.len(),
                keep@.len() == n,
                values@ == self@.retained_upto(keep@, i as nat).values,
                texts(names@) == self@.retained_upto(keep@, i as nat).index,
            decreases n - i,
        {
            if keep[i] {
                let ghost before = texts(names@);
                let found = position_of(&self.index, self.index[i].as_str());
                proof {
                    assert(texts(self.index@)[i as int] == self.index@[i as int]@);
                    assert(texts(self.index@).contains(self.index@[i as int]@));
                }
                let first = found.unwrap();
                values.push(self.array[first].dup());
                names.push(self.index[i].clone());
                proof {
                    assert(texts(names@) =~= before.push(self.index@[i as int]@));
                }
            }
            i += 1;
        }
        proof {
            self@.lemma_retained_aligned(keep@, n as nat);
        }
        Series { array: values, name: self.name.clone(), index: names }
    }

    /// The positions of the column whose label is not among `labels`, marked one by one.
    fn marks_without(&self, labels: &[&str]) -> (keep: Vec<bool>)
        ensures
            keep@ == not_dropped(self@.index, str_texts(labels@)),
    {
        let mut keep: Vec<bool> = Vec::new();
        let n = self.index.len();
        let mut i: usize = 0;
        while i < n
            invariant
                i <= n,
                n == self.index@.len(),
                keep@.len() == i,
                forall|k: int|
                    0 <= k < i ==> #[trigger] keep@[k] == !str_texts(labels@).contains(
                        self@.index[k],
                    ),
            decreases n - i,
        {
            let dropped = contains_label(labels, self.index[i].as_str());
            proof {
                let wanted = self@.index[i as int];
                assert(wanted == self.index@[i as int]@);
                if dropped {
                    let j = choose|j: int| 0 <= j < labels@.len() && (#[trigger] labels@[j])@ == wanted;
                    assert(str_texts(labels@)[j] == wanted);
                } else {
                    if str_texts(labels@).contains(wanted) {
                        let j = choose|j: int|
                            0 <= j < str_texts(labels@).len() && str_texts(labels@)[j] == wanted;
                        assert(labels@[j]@ == wanted);
                    }
                }
            }
            keep.push(!dropped);
            i += 1;
        }
        assert(keep@ =~= not_dropped(self@.index, str_texts(labels@)));
        keep
    }

    /// The column without the positions whose label is among `labels`.
    pub fn drop(&self, labels: &[&str]) -> (r: Series<T>)
        ensures
            r@ == self@.without_labels(str_texts(labels@)),
    {
        proof {
            use_type_invariant(self);
        }
        let keep = self.marks_without(labels);
        self.retain(&keep)
    }

    /// Removes the positions whose label is among `labels`.
    pub fn drop_inplace(&mut self, labels: &[&str])
        ensures
            final(self)@ == old(self)@.without_labels(str_texts(labels@)),
    {
        proof {
            use_type_invariant(&*self);
        }
        let keep = self.marks_without(labels);
        let rest = self.retain(&keep);
        *self = rest;
    }

    /// The positions for whose label `func` answered `true`, as a column.
    pub fn filter_by_func<F: Fn(&String) -> bool>(&self, func: F) -> (r: Series<T>)
        requires
            forall|i: int|
                0 <= i < self.label_strings().len() ==> call_requires(
                    func,
                    (&#[trigger] self.label_strings()[i],),
                ),
        ensures
            exists|keep: Seq<bool>|
                {
                    &&& keep.len() == self@.index.len()
                    &&& forall|i: int|
                        0 <= i < keep.len() ==> call_ensures(
                            func,
                            (&self.label_strings()[i],),
                            #[trigger] keep[i],
                        )
                    &&& r@ == self@.retained(keep)
                },
    {
        proof {
            use_type_invariant(self);
        }
        let mut keep: Vec<bool> = Vec::new();
        let n = self.index.len();
        let mut i: usize = 0;
        while i < n
            invariant
                i <= n,
                n == self.index@.len(),
                keep@.len() == i,
                forall|k: int|
                    0 <= k < self.label_strings().len() ==> call_requires(
                        func,
                        (&#[trigger] self.label_strings()[k],),
                    ),
                forall|k: int|
                    0 <= k < i ==> call_ensures(func, (&self.index@[k],), #[trigger] keep@[k]),
            decreases n - i,
        {
            assert(self.label_strings()[i as int] == self.index@[i as int]);
            let b = func(&self.index[i]);
            keep.push(b);
            i += 1;
        }
        self.retain(&keep)
    }

    /// The positions in whose label the regular expression `regex` matches,
    /// as a column; `None` where `regex` is not a regular expression.
    pub fn filter_by_regex(&self, regex: &str) -> (r: Option<Series<T>>)
        ensures
            r is Some <==> regex_valid(regex@),
            r matches Some(s) ==> s@ == self@.retained(regex_marks(regex@, self@.index)),
    {
        proof {
            use_type_invariant(self);
        }
        if regex_is_match(regex, "").is_none() {
            return None;
        }
        let mut keep: Vec<bool> = Vec::new();
        let n = self.index.len();
        let mut i: usize = 0;
        while i < n
            invariant
                i <= n,
                n == self.index@.len(),
                regex_valid(regex@),
                keep@.len() == i,
                forall|k: int|
                    0 <= k < i ==> #[trigger] keep@[k] == regex_accepts(regex@, self@.index[k]),
            decreases n - i,
        {
            let found = regex_is_match(regex, self.index[i].as_str());
            assert(self@.index[i as int] == self.index@[i as int]@);
            keep.push(found.unwrap());
            i += 1;
        }
        assert(keep@ =~= regex_marks(regex@, self@.index));
        Some(self.retain(&keep))
    }

    /// Replaces the labels. With `verify_integrity`, the new labels must hold
    /// as many different labels as the old ones.
    pub fn reindex(&mut self, new_index: Vec<String>, verify_integrity: bool)
        requires
            new_index@.len() == old(self)@.values.len(),
            verify_integrity ==> distinct_count(old(self)@.index) == distinct_count(
                texts(new_index@),
            ),
        ensures
            final(self)@ == old(self)@.relabelled(texts(new_index@)),
    {
        proof {
            use_type_invariant(&*self);
        }
        self.index = new_index;
    }

    /// Puts the values and labels of `other` behind those of this column.
    /// With `verify_integrity`, both columns must hold as many different labels.
    pub fn append(&mut self, other: Self, ignore_index: bool, verify_integrity: bool)
        requires
            old(self)@.values.len() + other@.values.len() <= usize::MAX,
            verify_integrity ==> distinct_count(old(self)@.index) == distinct_count(
                other@.index,
            ),
        ensures
            final(self)@ == old(self)@.followed_by(other@),
    {
        proof {
            use_type_invariant(&*self);
            use_type_invariant(&other);
        }
        let mut values = copy_values(&self.array);
        let mut names = copy_labels(&self.index);
        let Series { array, name: _, index } = other;
        let mut array = array;
        let mut index = index;
        let ghost first_values = values@;
        let ghost first_names = names@;
        values.append(&mut array);
        names.append(&mut index);
        proof {
            assert(texts(names@) =~= texts(first_names) + other@.index);
        }
        *self = Series { array: values, name: self.name.clone(), index: names };
    }

    /// A column with the same name and labels, with `value` in place of every
    /// value for which `cond` answers `true`.
    pub fn mask<F: Fn(T) -> bool>(&self, value: T, cond: F) -> (r: Series<T>)
        requires
            accepts_all(cond, self@.values),
        ensures
            masked(cond, value, self@.values, r@.values),
            r@ == self@.with_values(r@.values),
    {
        proof {
            use_type_invariant(self);
        }
        let array = mask_values(&self.array, &value, &cond);
        Series {
            array,
            name: self.name.clone(),
            index: copy_labels(&self.index),
        }
    }

    /// Puts `value` in place of every value for which `cond` answers `true`.
    pub fn mask_inplace<F: Fn(T) -> bool>(&mut self, value: T, cond: F)
        requires
            accepts_all(cond, old(self)@.values),
        ensures
            masked(cond, value, old(self)@.values, final(self)@.values),
            final(self)@ == old(self)@.with_values(final(self)@.values),
    {
        proof {
            use_type_invariant(&*self);
        }
        let array = mask_values(&self.array, &value, &cond);
        self.array = array;
    }

    /// A column with the name and labels of this one, of what `func` returns
    /// for the values of this column and of `other` at the same position.
    pub fn combine<F: Fn(T, T) -> T>(&self, other: &Series<T>, func: F) -> (r: Series<T>)
        requires
            self@.values.len() == other@.values.len(),
            accepts_pairs(func, self@.values, other@.values),
        ensures
            zipped(func, self@.values, other@.values, r@.values),
            r@ == self@.with_values(r@.values),
    {
        proof {
            use_type_invariant(self);
            use_type_invariant(other);
        }
        let array = zip_values(&self.array, &other.array, &func);
        Series {
            array,
            name: self.name.clone(),
            index: copy_labels(&self.index),
        }
    }

    /// As [`Series::combine`], for columns of any length: columns of
    /// different lengths are not combined, and their lengths are reported.
    pub fn try_combine<F: Fn(T, T) -> T>(&self, other: &Series<T>, func: F) -> (r: Result<
        Series<T>,
        SeriesErrors,
    >)
        requires
            self@.values.len() == other@.values.len() ==> accepts_pairs(
                func,
                self@.values,
                other@.values,
            ),
        ensures
            r is Ok <==> self@.values.len() == other@.values.len(),
            r matches Ok(s) ==> zipped(func, self@.values, other@.values, s@.values) && s@
                == self@.with_values(s@.values),
            r matches Err(e) ==> e == SeriesErrors::MatrixUnaligned(
                self@.values.len() as usize,
                other@.values.len() as usize,
            ),
            combination(func, self@, other@, combined_view(r)),
    {
        if self.array.len() != other.array.len() {
            return Err(SeriesErrors::MatrixUnaligned(self.array.len(), other.array.len()));
        }
        Ok(self.combine_ref(other, &func))
    }

    /// A column with the same name and labels, of the values converted to `P`.
    pub fn as_type<P: Scalar + From<T>>(&self) -> (r: Series<P>)
        requires
            forall|i: int|
                0 <= i < self@.values.len() ==> call_requires(
                    P::from,
                    (#[trigger] self@.values[i],),
                ),
        ensures
            r@.values.len() == self@.values.len(),
            forall|i: int|
                0 <= i < self@.values.len() ==> call_ensures(
                    P::from,
                    (self@.values[i],),
                    #[trigger] r@.values[i],
                ),
            r@.name == self@.name,
            r@.index == self@.index,
    {
        proof {
            use_type_invariant(self);
        }
        let mut out: Vec<P> = Vec::new();
        let n = self.array.len();
        let mut i: usize = 0;
        while i < n
            invariant
                i <= n,
                n == self.array@.len(),
                out@.len() == i,
                forall|k: int|
                    0 <= k < self@.values.len() ==> call_requires(
                        P::from,
                        (#[trigger] self@.values[k],),
                    ),
                forall|k: int|
                    0 <= k < i ==> call_ensures(P::from, (self@.values[k],), #[trigger] out@[k]),
            decreases n - i,
        {
            assert(self@.values[i as int] == self.array@[i as int]);
            let x = self.array[i].dup();
            out.push(P::from(x));
            i += 1;
        }
        Series {
            array: out,
            name: self.name.clone(),
            index: copy_labels(&self.index),
        }
    }
}


/// The views of the values of a column.
pub open spec fn keys<T: View>(values: Seq<T>) -> Seq<T::V> {
    values.map_values(|x: T| x@)
}

/// Whether the key at position `i` occurs at an earlier position too.
pub open spec fn seen_before<K>(keys: Seq<K>, i: int) -> bool {
    exists|j: int| 0 <= j < i && #[trigger] keys[j] == keys[i]
}

/// Of the first `n` values, those whose key does not occur earlier, in order.
pub open spec fn first_occurrences<T: View>(values: Seq<T>, n: nat) -> Seq<T>
    decreases n,
{
    if n == 0 {
        Seq::empty()
    } else {
        let before = first_occurrences(values, (n - 1) as nat);
        if seen_before(keys(values), n - 1) {
            before
        } else {
            before.push(values[n - 1])
        }
    }
}

/// Whether the value at position `i` of `values` also stands at an earlier position.
pub(crate) fn occurs_earlier<T: Keyed>(values: &Vec<T>, i: usize) -> (b: bool)
    requires
        i < values@.len(),
    ensures
        b == seen_before(keys(values@), i as int),
{
    let mut j: usize = 0;
    while j < i
        invariant
            j <= i,
            i < values@.len(),
            forall|k: int| 0 <= k < j ==> #[trigger] keys(values@)[k] != keys(values@)[i as int],
        decreases i - j,
    {
        if values[j].same(&values[i]) {
            assert(keys(values@)[j as int] == keys(values@)[i as int]);
            return true;
        }
        j += 1;
    }
    false
}

impl<T: Keyed> Series<T> {
    /// Whether the two columns, which have one length, hold the same values
    /// in the same order.
    pub fn equals(&self, other: &Self) -> (b: bool)
        requires
            self@.values.len() == other@.values.len(),
        ensures
            b == (keys(self@.values) == keys(other@.values)),
    {
        let n = self.array.len();
        let mut i: usize = 0;
        while i < n
            invariant
                i <= n,
                n == self.array@.len(),
                n == other.array@.len(),
                forall|k: int| 0 <= k < i ==> #[trigger] keys(self.array@)[k] == keys(other.array@)[k],
            decreases n - i,
        {
            if !self.array[i].same(&other.array[i]) {
                assert(keys(self.array@)[i as int] != keys(other.array@)[i as int]);
                return false;
            }
            i += 1;
        }
        assert(keys(self.array@) =~= keys(other.array@));
        true
    }

    /// For every value, whether the same value stands at an earlier position.
    /// Name and labels stay.
    pub fn duplicated(&self) -> (r: Series<bool>)
        ensures
            r@.values.len() == self@.values.len(),
            forall|i: int|
                0 <= i < self@.values.len() ==> #[trigger] r@.values[i] == seen_before(
                    keys(self@.values),
                    i,
                ),
            r@.name == self@.name,
            r@.index == self@.index,
    {
        proof {
            use_type_invariant(self);
        }
        let mut out: Vec<bool> = Vec::new();
        let n = self.array.len();
        let mut i: usize = 0;
        while i < n
            invariant
                i <= n,
                n == self.array@.len(),
                out@.len() == i,
                forall|k: int|
                    0 <= k < i ==> #[trigger] out@[k] == seen_before(keys(self.array@), k),
            decreases n - i,
        {
            out.push(occurs_earlier(&self.array, i));
            i += 1;
        }
        Series {
            array: out,
            name: self.name.clone(),
            index: copy_labels(&self.index),
        }
    }

    /// The different values of the column, each once, in the order of their
    /// first occurrence.
    pub fn unique(&self) -> (r: Vec<T>)
        ensures
            r@ == first_occurrences(self@.values, self@.values.len()),
    {
        let mut out: Vec<T> = Vec::new();
        let n = self.array.len();
        let mut i: usize = 0;
        while i < n
            invariant
                i <= n,
                n == self.array@.len(),
                out@ == first_occurrences(self.array@, i as nat),
            decreases n - i,
        {
            if !occurs_earlier(&self.array, i) {
                out.push(self.array[i].dup());
            }
            i += 1;
        }
        out
    }
}

} // verus!

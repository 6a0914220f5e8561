//! Questions to every numeric column of a store that have one answer for each column.
use vstd::prelude::*;
use crate::engine::block_manager::stats::{lemma_numeric, numeric_upto};
use crate::engine::block_manager::{BlockManager, FrameView};
use crate::engine::series::floats::{gaps_upto, Real};
use crate::engine::series::traits::Integer;
use crate::engine::series::{Column, ColumnView, Series, SeriesView};
use crate::text::texts;

verus! {

/// The question that is put to a column.
#[derive(Clone, Copy, Debug, PartialEq, Eq, Structural)]
pub enum Question {
    /// Whether every value counts as true.
    All,
    /// Whether some value counts as true.
    Any,
}

/// The answer to `question` where the values count as `answers` say.
pub open spec fn answer(question: Question, answers: Seq<bool>) -> bool {
    match question {
        Question::All => forall|i: int| 0 <= i < answers.len() ==> #[trigger] answers[i],
        Question::Any => exists|i: int| 0 <= i < answers.len() && #[trigger] answers[i],
    }
}

/// For every integer, whether it is not 0.
pub open spec fn nonzero<T: Integer>(values: Seq<T>) -> Seq<bool> {
    Seq::new(values.len(), |i: int| values[i].value() != 0)
}

/// For every floating point value, whether it differs from zero.
pub open spec fn differing<T: Real>(values: Seq<T>) -> Seq<bool> {
    Seq::new(values.len(), |i: int| crate::engine::series::floats::nonzero(values[i]))
}

/// The answer of the numeric column `col` to `question`: a value counts as
/// true where it differs from zero.
pub open spec fn column_answer(question: Question, col: ColumnView) -> bool {
    match col {
        ColumnView::I64(s) => answer(question, nonzero(s.values)),
        ColumnView::I32(s) => answer(question, nonzero(s.values)),
        ColumnView::F64(s) => answer(question, differing(s.values)),
        ColumnView::F32(s) => answer(question, differing(s.values)),
        _ => false,
    }
}

/// `out` holds the answer of every numeric column of `frame` to
/// `question`, in their order, each under the name of its column.
pub open spec fn frame_answered(question: Question, frame: FrameView, out: SeriesView<bool>) -> bool {
    let parts = numeric_upto(frame.columns, frame.columns.len());
    &&& out.values.len() == parts.len()
    &&& out.index.len() == parts.len()
    &&& out.name == crate::engine::series::default_name()
    &&& forall|j: int|
        0 <= j < parts.len() ==> #[trigger] out.values[j] == column_answer(
            question,
            frame.columns[parts[j]],
        ) && out.index[j] == frame.columns[parts[j]].name()
}

/// The answer to `question` where the values count as `answers` say.
pub fn decide(question: Question, answers: &Vec<bool>) -> (b: bool)
    ensures
        b == answer(question, answers@),
{
    let n = answers.len();
    let mut i: usize = 0;
    match question {
        Question::All => {
            while i < n
                invariant
                    i <= n,
                    n == answers@.len(),
                    question == Question::All,
                    forall|k: int| 0 <= k < i ==> #[trigger] answers@[k],
                decreases n - i,
            {
                if !answers[i] {
                    assert(!answers@[i as int]);
                    return false;
                }
                i += 1;
            }
            true
        },
        Question::Any => {
            while i < n
                invariant
                    i <= n,
                    n == answers@.len(),
                    question == Question::Any,
                    forall|k: int| 0 <= k < i ==> !#[trigger] answers@[k],
                decreases n - i,
            {
                if answers[i] {
                    assert(answers@[i as int]);
                    return true;
                }
                i += 1;
            }
            false
        },
    }
}

/// For every integer, whether it is not 0.
fn nonzero_of<T: Integer>(values: &Vec<T>) -> (out: Vec<bool>)
    ensures
        out@ == nonzero(values@),
{
    let mut out: Vec<bool> = Vec::new();
    let n = values.len();
    let mut i: usize = 0;
    while i < n
        invariant
            i <= n,
            n == values@.len(),
            out@.len() == i,
            forall|k: int| 0 <= k < i ==> #[trigger] out@[k] == (values@[k].value() != 0),
        decreases n - i,
    {
        out.push(!values[i].is_zero());
        i += 1;
    }
    assert(out@ =~= nonzero(values@));
    out
}

/// For every floating point value, whether it differs from zero.
fn differing_of<T: Real>(values: &Vec<T>) -> (out: Vec<bool>)
    ensures
        out@ == differing(values@),
{
    let mut out: Vec<bool> = Vec::new();
    let n = values.len();
    let mut i: usize = 0;
    while i < n
        invariant
            i <= n,
            n == values@.len(),
            out@.len() == i,
            forall|k: int|
                0 <= k < i ==> #[trigger] out@[k] == crate::engine::series::floats::nonzero(values@[k]),
        decreases n - i,
    {
        out.push(values[i].is_nan() || values[i].place() != 0);
        i += 1;
    }
    assert(out@ =~= differing(values@));
    out
}

impl BlockManager {
    /// The answer of one column to `question`, if it is numeric.
    fn ask_column(column: &Column, question: Question) -> (r: Option<bool>)
        ensures
            r is Some <==> column@.tag().is_numeric(),
            r matches Some(b) ==> b == column_answer(question, column@),
    {
        match column {
            Column::I64(s) => Some(decide(question, &nonzero_of(&s.array))),
            Column::I32(s) => Some(decide(question, &nonzero_of(&s.array))),
            Column::F64(s) => Some(decide(question, &differing_of(&s.array))),
            Column::F32(s) => Some(decide(question, &differing_of(&s.array))),
            _ => None,
        }
    }

    /// The answer of every numeric column to `question`, each under the
    /// name of its column. A value counts as true where it differs from zero.
    pub fn ask(&self, question: Question) -> (r: Series<bool>)
        ensures
            frame_answered(question, self@, r@),
    {
        let mut values: Vec<bool> = Vec::new();
        let mut labels: Vec<String> = Vec::new();
        let n = self.columns.len();
        let mut i: usize = 0;
        while i < n
            invariant
                i <= n,
                n == self.columns@.len(),
                values@.len() == numeric_upto(self@.columns, i as nat).len(),
                labels@.len() == values@.len(),
                forall|j: int|
                    0 <= j < values@.len() ==> #[trigger] values@[j] == column_answer(
                        question,
                        self@.columns[numeric_upto(self@.columns, i as nat)[j]],
                    ),
                forall|j: int|
                    0 <= j < labels@.len() ==> (#[trigger] labels@[j])@ == self@.columns[numeric_upto(
                        self@.columns,
                        i as nat,
                    )[j]].name(),
            decreases n - i,
        {
            proof {
                lemma_numeric(self@.columns, i as nat);
                lemma_numeric(self@.columns, (i + 1) as nat);
            }
            let column = &self.columns[i];
            assert(column@ == self@.columns[i as int]);
            match Self::ask_column(column, question) {
                Some(b) => {
                    values.push(b);
                    labels.push(column.name());
                },
                None => {},
            }
            i += 1;
        }
        let mut r = Series::from_vec(values);
        r.set_index(labels);
        proof {
            let parts = numeric_upto(self@.columns, n as nat);
            assert forall|j: int| 0 <= j < parts.len() implies r@.index[j] == self@.columns[parts[j]].name() by {
                assert(texts(labels@)[j] == labels@[j]@);
            }
        }
        r
    }
}

/// The positions among the first `n` of `columns` of the columns of
/// floating point values.
pub open spec fn floats_upto(columns: Seq<ColumnView>, n: nat) -> Seq<int>
    decreases n,
{
    if n == 0 {
        Seq::empty()
    } else {
        let before = floats_upto(columns, (n - 1) as nat);
        match columns[n - 1] {
            ColumnView::F64(_) => before.push(n - 1),
            ColumnView::F32(_) => before.push(n - 1),
            _ => before,
        }
    }
}

/// The positions that [`floats_upto`] gives lie below `n`.
pub proof fn lemma_floats(columns: Seq<ColumnView>, n: nat)
    requires
        n <= columns.len(),
    ensures
        forall|j: int|
            0 <= j < floats_upto(columns, n).len() ==> 0 <= #[trigger] floats_upto(columns, n)[j] < n,
    decreases n,
{
    if n > 0 {
        lemma_floats(columns, (n - 1) as nat);
        let before = floats_upto(columns, (n - 1) as nat);
        let all = floats_upto(columns, n);
        assert forall|j: int| 0 <= j < all.len() implies 0 <= #[trigger] all[j] < n by {
            if j < before.len() {
                assert(all[j] == before[j]);
            }
        }
    }
}

/// The number of the values of the column `col` of floating point values
/// that are not a number.
pub open spec fn column_gaps(col: ColumnView) -> nat {
    match col {
        ColumnView::F64(s) => gaps_upto(s.values, s.values.len()),
        ColumnView::F32(s) => gaps_upto(s.values, s.values.len()),
        _ => 0,
    }
}

/// `out` holds, for every column of floating point values of `frame`, in
/// their order and under the name of the column, the number of its values
/// that are not a number.
pub open spec fn frame_tallied(frame: FrameView, out: SeriesView<usize>) -> bool {
    let parts = floats_upto(frame.columns, frame.columns.len());
    &&& out.values.len() == parts.len()
    &&& out.index.len() == parts.len()
    &&& out.name == crate::engine::series::default_name()
    &&& forall|j: int|
        0 <= j < parts.len() ==> (#[trigger] out.values[j]) as nat == column_gaps(
            frame.columns[parts[j]],
        ) && out.index[j] == frame.columns[parts[j]].name()
}

impl BlockManager {
    /// For every column of floating point values, under its name, the
    /// number of its values that are not a number.
    pub fn tally_floats(&self) -> (r: Series<usize>)
        ensures
            frame_tallied(self@, r@),
    {
        let mut values: Vec<usize> = Vec::new();
        let mut labels: Vec<String> = Vec::new();
        let n = self.columns.len();
        let mut i: usize = 0;
        while i < n
            invariant
                i <= n,
                n == self.columns@.len(),
                values@.len() == floats_upto(self@.columns, i as nat).len(),
                labels@.len() == values@.len(),
                forall|j: int|
                    0 <= j < values@.len() ==> (#[trigger] values@[j]) as nat == column_gaps(
                        self@.columns[floats_upto(self@.columns, i as nat)[j]],
                    ),
                forall|j: int|
                    0 <= j < labels@.len() ==> (#[trigger] labels@[j])@ == self@.columns[floats_upto(
                        self@.columns,
                        i as nat,
                    )[j]].name(),
            decreases n - i,
        {
            proof {
                lemma_floats(self@.columns, i as nat);
                lemma_floats(self@.columns, (i + 1) as nat);
            }
            let column = &self.columns[i];
            assert(column@ == self@.columns[i as int]);
            match column {
                Column::F64(s) => {
                    let count = s.count();
                    assert(count as nat == column_gaps(column@));
                    values.push(count);
                    labels.push(column.name());
                },
                Column::F32(s) => {
                    let count = s.count();
                    assert(count as nat == column_gaps(column@));
                    values.push(count);
                    labels.push(column.name());
                },
                _ => {},
            }
            i += 1;
        }
        let mut r = Series::from_vec(values);
        r.set_index(labels);
        proof {
            let parts = floats_upto(self@.columns, n as nat);
            assert forall|j: int| 0 <= j < parts.len() implies r@.index[j] == self@.columns[parts[j]].name() by {
                assert(texts(labels@)[j] == labels@[j]@);
            }
        }
        r
    }
}

} // verus!

//! Tables made of plain values.
use vstd::prelude::*;
use crate::engine::block_manager::bulk::{embedded, reversed};
use crate::engine::block_manager::{names_of, FrameView};
use crate::engine::dataframe::DataFrame;
use crate::engine::series::{ColumnView, Scalar, Series, SeriesView};
use crate::enums::{DataFrameErrors, DataFrameErrorsView};
use crate::text::{decimal, lemma_decimal_injective};

use crate::engine::series::strings::{lemma_lex_irreflexive, lemma_lex_transitive};
use crate::text::{lex_less, text_less};

verus! {

/// The values at position `k` of every one of `rows`.
pub open spec fn column_values<T>(rows: Seq<Vec<T>>, k: int) -> Seq<T> {
    Seq::new(rows.len(), |j: int| rows[j]@[k])
}

/// Column `k` of the table that is made of `rows`: the values at position
/// `k` of every row, labelled `0`, `1`, ..., under the name `k`.
pub open spec fn numbered_column<T>(rows: Seq<Vec<T>>, k: int) -> SeriesView<T> {
    SeriesView::from_values(column_values(rows, k)).renamed(decimal(k as nat))
}

/// The first `n` columns of the table that is made of `rows`.
pub open spec fn numbered_columns<T>(rows: Seq<Vec<T>>, n: nat) -> Seq<SeriesView<T>> {
    Seq::new(n, |k: int| numbered_column(rows, k))
}

/// The column that an entry of a name and values stands for.
pub open spec fn entry_column<T>(entry: (String, Vec<T>)) -> SeriesView<T> {
    SeriesView::from_values(entry.1@).renamed(entry.0@)
}

impl FrameView {
    /// The table after it has taken in the columns of the first `n` of
    /// `entries`, each under its name where that is free; or the error of
    /// the first column that was refused.
    pub open spec fn filled<T: Scalar>(self, entries: Seq<(String, Vec<T>)>, n: nat) -> Result<
        Self,
        DataFrameErrorsView,
    >
        decreases n,
    {
        if n == 0 {
            Ok(self)
        } else {
            match self.filled(entries, (n - 1) as nat) {
                Ok(before) => before.insert(entry_column(entries[n - 1]), true),
                Err(e) => Err(e),
            }
        }
    }
}

/// A table whose columns are named `0`, `1`, ... up to its number of columns
/// takes in one more column, whose name is not to be preserved, as the next number.
proof fn lemma_next_number<T: Scalar>(rows: Seq<Vec<T>>, i: nat)
    requires
        rows.len() > 0,
        forall|j: int| 0 <= j < rows.len() ==> (#[trigger] rows[j])@.len() == rows[0]@.len(),
        i < rows[0]@.len(),
    ensures
        FrameView::of_columns(embedded(numbered_columns(rows, i))).insert(
            SeriesView::from_values(column_values(rows, i as int)),
            false,
        ) == Ok::<FrameView, DataFrameErrorsView>(
            FrameView::of_columns(embedded(numbered_columns(rows, i + 1))),
        ),
{
    let before = FrameView::of_columns(embedded(numbered_columns(rows, i)));
    let series = SeriesView::from_values(column_values(rows, i as int));
    let all = numbered_columns(rows, i + 1);
    let shown = numbered_columns(rows, i);
    if T::tag().is_supported() {
        assert forall|k: int| 0 <= k <= i implies (#[trigger] T::embed(all[k])) is Some && (T::embed(
            all[k],
        )->0).name() == decimal(k as nat) && (T::embed(all[k])->0).len() == rows.len() by {
            T::lemma_stored(all[k], T::embed(all[k])->0);
        }
        let cols = embedded(shown);
        assert(cols.len() == i);
        assert forall|k: int| 0 <= k < i implies #[trigger] cols[k] == T::embed(all[k])->0 by {
            assert(shown[k] == all[k]);
        }
        assert forall|k: int| 0 <= k < i implies #[trigger] before.names()[k] == decimal(k as nat) by {
            assert(before.names()[k] == cols[k].name());
        }
        let name = decimal(i);
        assert(!before.has(name)) by {
            if before.has(name) {
                let j = choose|j: int| 0 <= j < before.names().len() && before.names()[j] == name;
                lemma_decimal_injective(j as nat, i);
            }
        }
        if i == 0 {
            assert(names_of(Seq::<ColumnView>::empty()) =~= Seq::empty());
        }
        assert(before.admitted_name(series.name, series.values.len(), false) == Ok::<
            Seq<char>,
            DataFrameErrorsView,
        >(name));
        let col = T::embed(all[i as int])->0;
        assert(series.renamed(name) == all[i as int]);
        assert(before.with_column(col) == FrameView::of_columns(cols.push(col))) by {
            if cols.len() == 0 {
                assert(cols.push(col) =~= seq![col]);
            } else {
                assert(cols.push(col)[0] == cols[0]);
            }
        }
        assert(embedded(all) =~= cols.push(col));
    } else {
        assert(embedded(all) =~= Seq::<ColumnView>::empty());
        assert(embedded(shown) =~= Seq::<ColumnView>::empty());
        assert(names_of(Seq::<ColumnView>::empty()) =~= Seq::empty());
        T::lemma_stored(series.renamed(decimal(0)), arbitrary());
    }
}

impl DataFrame {
    /// The table of the given rows: column `k` holds the values at position
    /// `k` of every row and is named `k`.
    pub fn from_rows<T: Scalar>(array: Vec<Vec<T>>) -> (r: DataFrame)
        requires
            array@.len() > 0,
            forall|j: int| 0 <= j < array@.len() ==> (#[trigger] array@[j])@.len() == array@[0]@.len(),
        ensures
            r@ == FrameView::of_columns(embedded(numbered_columns(array@, array@[0]@.len()))),
    {
        let mut frame = DataFrame::new();
        let rows = array.len();
        let cols = array[0].len();
        let mut i: usize = 0;
        proof {
            assert(embedded(numbered_columns(array@, 0)) =~= Seq::<ColumnView>::empty());
        }
        while i < cols
            invariant
                i <= cols,
                rows == array@.len(),
                rows > 0,
                cols == array@[0]@.len(),
                forall|j: int| 0 <= j < array@.len() ==> (#[trigger] array@[j])@.len() == array@[0]@.len(),
                frame@ == FrameView::of_columns(embedded(numbered_columns(array@, i as nat))),
            decreases cols - i,
        {
            let mut arr: Vec<T> = Vec::new();
            let mut j: usize = 0;
            while j < rows
                invariant
                    j <= rows,
                    rows == array@.len(),
                    i < cols,
                    cols == array@[0]@.len(),
                    forall|j: int|
                        0 <= j < array@.len() ==> (#[trigger] array@[j])@.len() == array@[0]@.len(),
                    arr@.len() == j,
                    forall|k: int| 0 <= k < j ==> #[trigger] arr@[k] == array@[k]@[i as int],
                decreases rows - j,
            {
                let row = &array[j];
                arr.push(row[i].dup());
                j += 1;
            }
            proof {
                assert(arr@ =~= column_values(array@, i as int));
                lemma_next_number::<T>(array@, i as nat);
            }
            let added = frame.add_series(Series::from_vec(arr), false);
            assert(added is Ok);
            i += 1;
        }
        frame
    }

    /// The table of the columns that the given entries of a name and values
    /// stand for, taken in one after the other. The first column that is
    /// refused ends the attempt with its error.
    pub fn try_from_entries<T: Scalar>(value: Vec<(String, Vec<T>)>) -> (r: Result<
        DataFrame,
        DataFrameErrors,
    >)
        ensures
            match FrameView::empty().filled(value@, value@.len()) {
                Ok(after) => r matches Ok(df) && df@ == after,
                Err(e) => r matches Err(x) && x@ == e,
            },
    {
        let mut frame = DataFrame::new();
        let ghost all = value@;
        let total = value.len();
        let mut rest = reversed(value);
        let mut done: usize = 0;
        while rest.len() > 0
            invariant
                done + rest@.len() == total,
                total == all.len(),
                all == value@,
                forall|k: int| 0 <= k < rest@.len() ==> #[trigger] rest@[k] == all[total - 1 - k],
                FrameView::empty().filled(all, done as nat) == Ok::<FrameView, DataFrameErrorsView>(
                    frame@,
                ),
            decreases rest@.len(),
        {
            let (name, values) = rest.pop().unwrap();
            let mut series = Series::from_vec(values);
            series.set_name(name.as_str());
            assert(series@ == entry_column(all[done as int]));
            match frame.add_series(series, true) {
                Ok(()) => {},
                Err(e) => {
                    proof {
                        assert(FrameView::empty().filled(all, (done + 1) as nat) == Err::<
                            FrameView,
                            DataFrameErrorsView,
                        >(e@));
                        lemma_filled_error(FrameView::empty(), all, (done + 1) as nat, total as nat);
                    }
                    return Err(e);
                },
            }
            done += 1;
        }
        Ok(frame)
    }
}

/// Once a column was refused, the attempt to fill a table has failed with that error.
pub proof fn lemma_filled_error<T: Scalar>(
    start: FrameView,
    entries: Seq<(String, Vec<T>)>,
    n: nat,
    m: nat,
)
    requires
        n <= m,
        start.filled(entries, n) is Err,
    ensures
        start.filled(entries, m) == start.filled(entries, n),
    decreases m - n,
{
    if n < m {
        lemma_filled_error(start, entries, n, (m - 1) as nat);
    }
}

/// Whether the entries stand in the order of their names: none has a name
/// that comes before the name of an earlier one.
pub open spec fn by_name<T>(entries: Seq<(String, Vec<T>)>) -> bool {
    forall|i: int, j: int|
        0 <= i < j < entries.len() ==> !lex_less((#[trigger] entries[j]).0@, (#[trigger] entries[i]).0@)
}

/// `ordered` holds the entries `entries`, each as often as they do, in the
/// order of their names.
pub open spec fn in_name_order<T>(entries: Seq<(String, Vec<T>)>, ordered: Seq<(String, Vec<T>)>) -> bool {
    ordered.to_multiset() == entries.to_multiset() && by_name(ordered)
}

/// The position of an entry before whose name the name of no entry comes.
fn least_entry<T>(entries: &Vec<(String, Vec<T>)>) -> (at: usize)
    requires
        entries@.len() > 0,
    ensures
        at < entries@.len(),
        forall|k: int| 0 <= k < entries@.len() ==> !lex_less((#[trigger] entries@[k]).0@, entries@[at as int].0@),
{
    let n = entries.len();
    let mut best: usize = 0;
    let mut i: usize = 1;
    proof {
        lemma_lex_irreflexive(entries@[0].0@);
    }
    while i < n
        invariant
            1 <= i <= n,
            n == entries@.len(),
            best < i,
            forall|k: int| 0 <= k < i ==> !lex_less((#[trigger] entries@[k]).0@, entries@[best as int].0@),
        decreases n - i,
    {
        if text_less(entries[i].0.as_str(), entries[best].0.as_str()) {
            assert forall|k: int| 0 <= k < i + 1 implies !lex_less(
                (#[trigger] entries@[k]).0@,
                entries@[i as int].0@,
            ) by {
                if k == i {
                    lemma_lex_irreflexive(entries@[i as int].0@);
                } else if lex_less(entries@[k].0@, entries@[i as int].0@) {
                    lemma_lex_transitive(entries@[k].0@, entries@[i as int].0@, entries@[best as int].0@);
                }
            }
            best = i;
        }
        i += 1;
    }
    best
}

/// The entries in the order of their names.
pub fn sorted_by_name<T>(entries: Vec<(String, Vec<T>)>) -> (out: Vec<(String, Vec<T>)>)
    ensures
        in_name_order(entries@, out@),
{
    broadcast use {vstd::seq_lib::group_to_multiset_ensures, vstd::multiset::group_multiset_axioms};

    let ghost all = entries@;
    let mut rest = entries;
    let mut out: Vec<(String, Vec<T>)> = Vec::new();
    proof {
        assert(out@.to_multiset() =~= vstd::multiset::Multiset::empty());
        assert(out@.to_multiset().add(rest@.to_multiset()) =~= all.to_multiset());
    }
    while rest.len() > 0
        invariant
            out@.to_multiset().add(rest@.to_multiset()) == all.to_multiset(),
            by_name(out@),
            forall|a: int, b: int|
                0 <= a < out@.len() && 0 <= b < rest@.len() ==> !lex_less(
                    (#[trigger] rest@[b]).0@,
                    (#[trigger] out@[a]).0@,
                ),
        decreases rest@.len(),
    {
        let at = least_entry(&rest);
        let ghost before_rest = rest@;
        let ghost before_out = out@;
        let item = rest.remove(at);
        out.push(item);
        proof {
            assert(rest@ == before_rest.remove(at as int));
            assert(out@ == before_out.push(before_rest[at as int]));
            let moved = before_rest[at as int];
            vstd::seq_lib::to_multiset_contains(before_rest, moved);
            assert(before_rest.contains(moved));
            assert(before_rest.to_multiset().count(moved) > 0);
            vstd::seq_lib::to_multiset_remove(before_rest, at as int);
            vstd::seq_lib::to_multiset_build(before_out, moved);
            assert(rest@.to_multiset() == before_rest.to_multiset().remove(moved));
            assert(out@.to_multiset() =~= before_out.to_multiset().insert(moved));
            assert(out@.to_multiset().add(rest@.to_multiset()) =~= before_out.to_multiset().add(
                before_rest.to_multiset(),
            ));
            assert forall|i: int, j: int| 0 <= i < j < out@.len() implies !lex_less(
                (#[trigger] out@[j]).0@,
                (#[trigger] out@[i]).0@,
            ) by {
                if j == before_out.len() {
                    assert(out@[i] == before_out[i]);
                } else {
                    assert(out@[i] == before_out[i] && out@[j] == before_out[j]);
                }
            }
            assert forall|a: int, b: int| 0 <= a < out@.len() && 0 <= b < rest@.len() implies !lex_less(
                (#[trigger] rest@[b]).0@,
                (#[trigger] out@[a]).0@,
            ) by {
                let from = if b < at {
                    b
                } else {
                    b + 1
                };
                assert(rest@[b] == before_rest[from]);
                if a < before_out.len() {
                    assert(out@[a] == before_out[a]);
                }
            }
        }
    }
    proof {
        assert(rest@.to_multiset() =~= vstd::multiset::Multiset::empty());
        assert(out@.to_multiset() =~= all.to_multiset());
    }
    out
}

impl DataFrame {
    /// The table of the entries of a map from names to values: the columns
    /// that the entries stand for, taken in one after the other in the
    /// order of their names. The first column that is refused ends the
    /// attempt with its error.
    pub fn try_from_map<T: Scalar>(value: Vec<(String, Vec<T>)>) -> (r: Result<
        DataFrame,
        DataFrameErrors,
    >)
        ensures
            exists|ordered: Seq<(String, Vec<T>)>|
                #[trigger] in_name_order(value@, ordered) && match FrameView::empty().filled(
                    ordered,
                    ordered.len(),
                ) {
                    Ok(after) => r matches Ok(df) && df@ == after,
                    Err(e) => r matches Err(x) && x@ == e,
                },
    {
        let ordered = sorted_by_name(value);
        let ghost shown = ordered@;
        let r = DataFrame::try_from_entries(ordered);
        assert(in_name_order(value@, shown));
        r
    }
}

} // verus!

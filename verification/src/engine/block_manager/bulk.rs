//! Operations on all the columns of one element type at once.
use vstd::prelude::*;
use crate::engine::block_manager::manager::{
    column_returned_for,
    maps_column,
    masks_column,
    reduced,
    reducible,
    uniform,
    Block,
    BlockView,
};
use crate::engine::series::default_name;
use crate::text::{decimal, lemma_decimal_digits, lemma_decimal_injective};
use crate::enums::{missing_key, missing_key_text, DataFrameErrors};
use crate::engine::block_manager::{
    column_views, lemma_picked_distinct, names_of, picked, typed_upto, BlockManager, FrameView,
};
use crate::engine::dataframe::DataFrame;
use crate::engine::series::generic::{accepts_all, mapped};
use crate::engine::series::{Column, ColumnView, Scalar, Series, SeriesView};
use crate::enums::DataFrameErrorsView;

verus! {

/// `func` may be called on every value of `col`, if that is a column of `T`.
pub open spec fn column_accepts<T: Scalar, M, F: Fn(T) -> M>(func: F, col: ColumnView) -> bool {
    T::project(col) matches Some(s) ==> accepts_all(func, s.values)
}

/// `func` may be called on every value of every column of `T` in `frame`.
pub open spec fn frame_accepts<T: Scalar, M, F: Fn(T) -> M>(func: F, frame: FrameView) -> bool {
    forall|k: int|
        0 <= k < frame.columns.len() ==> column_accepts::<T, M, F>(func, #[trigger] frame.columns[k])
}

/// The group of the columns of `T` of a table.
pub open spec fn group<T: Scalar>(frame: FrameView) -> BlockView<T> {
    BlockView { data: frame.typed::<T>(), names: series_names(frame.typed::<T>()) }
}

/// `col` stores `before` with what `func` returned for each value in place of the value.
pub open spec fn stores_mapped<T: Scalar, F: Fn(T) -> T>(
    func: F,
    before: SeriesView<T>,
    col: ColumnView,
) -> bool {
    T::project(col) matches Some(after) && maps_column(func, before, after)
}

/// `col` stores `before` with `value` in place of every value for which `cond` answered `true`.
pub open spec fn stores_masked<T: Scalar, F: Fn(T) -> bool>(
    cond: F,
    value: T,
    before: SeriesView<T>,
    col: ColumnView,
) -> bool {
    T::project(col) matches Some(after) && masks_column(cond, value, before, after)
}

/// `after` holds the columns of `T` of `before`, in their order, each with
/// what `func` returned for its values in place of the values, and no other column.
pub open spec fn frame_mapped<T: Scalar, F: Fn(T) -> T>(
    func: F,
    before: FrameView,
    after: FrameView,
) -> bool {
    &&& after == FrameView::of_columns(after.columns)
    &&& after.columns.len() == before.typed::<T>().len()
    &&& forall|k: int|
        0 <= k < after.columns.len() ==> stores_mapped(
            func,
            before.typed::<T>()[k],
            #[trigger] after.columns[k],
        )
}

/// `after` is `before` with every column of `T` replaced by what `func`
/// made of it; the other columns, the row count and the row labels stay.
pub open spec fn frame_mapped_in_place<T: Scalar, F: Fn(T) -> T>(
    func: F,
    before: FrameView,
    after: FrameView,
) -> bool {
    &&& after.len == before.len
    &&& after.index == before.index
    &&& after.columns.len() == before.columns.len()
    &&& forall|k: int|
        0 <= k < before.columns.len() ==> match T::project(before.columns[k]) {
            Some(s) => stores_mapped(func, s, #[trigger] after.columns[k]),
            None => after.columns[k] == before.columns[k],
        }
}

/// `after` is `before` with `value` in place of every value of a column of
/// `T` for which `cond` answered `true`; all else stays.
pub open spec fn frame_masked<T: Scalar, F: Fn(T) -> bool>(
    cond: F,
    value: T,
    before: FrameView,
    after: FrameView,
) -> bool {
    &&& after.len == before.len
    &&& after.index == before.index
    &&& after.columns.len() == before.columns.len()
    &&& forall|k: int|
        0 <= k < before.columns.len() ==> match T::project(before.columns[k]) {
            Some(s) => stores_masked(cond, value, s, #[trigger] after.columns[k]),
            None => after.columns[k] == before.columns[k],
        }
}

/// The stored forms of the given columns of `T`; none where tables do not
/// store columns of `T`.
pub open spec fn embedded<T: Scalar>(data: Seq<SeriesView<T>>) -> Seq<ColumnView> {
    if T::tag().is_supported() {
        Seq::new(data.len(), |k: int| T::embed(data[k])->0)
    } else {
        Seq::empty()
    }
}

/// The names that the given columns carry.
pub open spec fn series_names<T>(data: Seq<SeriesView<T>>) -> Seq<Seq<char>> {
    data.map_values(|s: SeriesView<T>| s.name)
}

impl FrameView {
    /// The table after it has taken in the first `n` of the given columns
    /// one after the other, each under its own name where that is free; or
    /// `None` where one of them was refused.
    pub open spec fn extended<T: Scalar>(self, data: Seq<SeriesView<T>>, n: nat) -> Option<Self>
        decreases n,
    {
        if n == 0 {
            Some(self)
        } else {
            match self.extended(data, (n - 1) as nat) {
                Some(before) => match before.insert(data[n - 1], true) {
                    Ok(after) => Some(after),
                    Err(_) => None,
                },
                None => None,
            }
        }
    }
}

/// The names of the columns of `T` of a table are picked from the names of
/// the table, so no two of them are equal.
pub proof fn lemma_typed_names<T: Scalar>(columns: Seq<ColumnView>, n: nat) -> (picks: Seq<int>)
    requires
        n <= columns.len(),
    ensures
        picked(series_names(typed_upto::<T>(columns, n)), names_of(columns), picks),
        forall|k: int| 0 <= k < picks.len() ==> #[trigger] picks[k] < n,
        forall|k: int|
            0 <= k < picks.len() ==> T::project(columns[#[trigger] picks[k]]) == Some(
                typed_upto::<T>(columns, n)[k],
            ),
    decreases n,
{
    if n == 0 {
        Seq::empty()
    } else {
        let before = lemma_typed_names::<T>(columns, (n - 1) as nat);
        match T::project(columns[n - 1]) {
            Some(s) => {
                T::lemma_stored(s, columns[n - 1]);
                let picks = before.push(n - 1);
                assert(series_names(typed_upto::<T>(columns, n)) =~= series_names(
                    typed_upto::<T>(columns, (n - 1) as nat),
                ).push(s.name));
                picks
            },
            None => before,
        }
    }
}

/// A table without columns takes in columns of one length and of different
/// names one after the other, and then holds exactly these, in their order.
pub proof fn lemma_extend_empty<T: Scalar>(data: Seq<SeriesView<T>>, n: nat)
    requires
        n <= data.len(),
        series_names(data).no_duplicates(),
        forall|k: int| 0 <= k < data.len() ==> (#[trigger] data[k]).values.len() == data[0].values.len(),
    ensures
        FrameView::empty().extended(data, n) == Some(
            FrameView::of_columns(embedded(data.take(n as int))),
        ),
    decreases n,
{
    if n == 0 {
        assert(embedded(data.take(0)) =~= Seq::empty());
    } else {
        lemma_extend_empty(data, (n - 1) as nat);
        let before = FrameView::of_columns(embedded(data.take(n - 1)));
        let series = data[n - 1];
        assert(series.renamed(series.name) == series);
        if T::tag().is_supported() {
            assert forall|k: int| 0 <= k < n implies (#[trigger] T::embed(data[k])) is Some
                && (T::embed(data[k])->0).name() == data[k].name && (T::embed(data[k])->0).len()
                == data[k].values.len() by {
                T::lemma_stored(data[k], T::embed(data[k])->0);
            }
            let cols = embedded(data.take(n - 1));
            assert(cols.len() == n - 1);
            assert(!before.has(series.name)) by {
                if before.has(series.name) {
                    let j = choose|j: int|
                        0 <= j < before.names().len() && before.names()[j] == series.name;
                    assert(cols[j] == T::embed(data[j])->0);
                    assert(series_names(data)[j] == series_names(data)[n - 1]);
                }
            }
            if n - 1 > 0 {
                assert(cols[0] == T::embed(data[0])->0);
            }
            assert(embedded(data.take(n as int)) =~= cols.push(T::embed(series)->0));
            let col = T::embed(series)->0;
            assert(before.admitted_name(series.name, series.values.len(), true) == Ok::<
                Seq<char>,
                DataFrameErrorsView,
            >(series.name));
            assert(before.with_series(series) == before.with_column(col));
            assert(before.with_column(col) == FrameView::of_columns(cols.push(col))) by {
                if cols.len() == 0 {
                    assert(cols.push(col) =~= seq![col]);
                } else {
                    assert(cols.push(col)[0] == cols[0]);
                }
            }
            assert(before.insert(series, true) == Ok::<FrameView, DataFrameErrorsView>(
                FrameView::of_columns(embedded(data.take(n as int))),
            ));
        } else {
            T::lemma_stored(series, arbitrary());
            assert(embedded(data.take(n as int)) =~= Seq::<ColumnView>::empty());
            assert(embedded(data.take(n - 1)) =~= Seq::<ColumnView>::empty());
            assert(names_of(Seq::<ColumnView>::empty()) =~= Seq::empty());
        }
    }
}

/// What [`BlockManager::assign`] gives for the table `before`: a key error
/// where `before` does not hold `key` as a column of `T`; else what `before`
/// answers to the offer of that column, mapped by `func` and named `name`.
pub open spec fn assigned<T: Scalar, F: Fn(T) -> T>(
    func: F,
    before: FrameView,
    key: Seq<char>,
    name: Seq<char>,
    outcome: Result<FrameView, DataFrameErrorsView>,
) -> bool {
    match before.typed_column::<T>(key) {
        None => outcome == Err::<FrameView, DataFrameErrorsView>(
            DataFrameErrorsView::KeyError(missing_key_text(key)),
        ),
        Some(s) => exists|image: SeriesView<T>|
            #[trigger] maps_column(func, s, image) && outcome == before.insert(
                image.renamed(name),
                true,
            ),
    }
}

/// The name under which a table that started empty holds the column
/// number `k` of a run of columns that were all offered as `series`.
pub open spec fn numbered_name(k: nat) -> Seq<char> {
    if k == 0 {
        default_name()
    } else {
        decimal(k)
    }
}

/// The given columns, each under the name that [`numbered_name`] gives its position.
pub open spec fn renumbered<T>(data: Seq<SeriesView<T>>) -> Seq<SeriesView<T>> {
    Seq::new(data.len(), |k: int| data[k].renamed(numbered_name(k as nat)))
}

/// The names that [`numbered_name`] gives are all different.
pub proof fn lemma_numbered_names(a: nat, b: nat)
    requires
        numbered_name(a) == numbered_name(b),
    ensures
        a == b,
{
    reveal_strlit("series");
    lemma_decimal_digits(a);
    lemma_decimal_digits(b);
    if a == 0 && b != 0 {
        assert(default_name()[0] == 's');
        assert(crate::text::is_digit(decimal(b)[0]));
    } else if b == 0 && a != 0 {
        assert(default_name()[0] == 's');
        assert(crate::text::is_digit(decimal(a)[0]));
    } else if a != 0 {
        lemma_decimal_injective(a, b);
    }
}

/// A table without columns takes in columns of one length that are all
/// offered as `series`, and then holds them, in their order, under the names
/// that [`numbered_name`] gives their positions.
pub proof fn lemma_extend_numbered<T: Scalar>(data: Seq<SeriesView<T>>, n: nat)
    requires
        n <= data.len(),
        forall|k: int| 0 <= k < data.len() ==> (#[trigger] data[k]).name == default_name(),
        forall|k: int| 0 <= k < data.len() ==> (#[trigger] data[k]).values.len() == data[0].values.len(),
    ensures
        FrameView::empty().extended(data, n) == Some(
            FrameView::of_columns(embedded(renumbered(data.take(n as int)))),
        ),
    decreases n,
{
    if n == 0 {
        assert(embedded(renumbered(data.take(0))) =~= Seq::empty());
    } else {
        lemma_extend_numbered(data, (n - 1) as nat);
        let shown = renumbered(data.take(n - 1));
        let before = FrameView::of_columns(embedded(shown));
        let series = data[n - 1];
        let all = renumbered(data.take(n as int));
        if T::tag().is_supported() {
            assert forall|k: int| 0 <= k < n implies (#[trigger] T::embed(all[k])) is Some && (T::embed(
                all[k],
            )->0).name() == numbered_name(k as nat) && (T::embed(all[k])->0).len()
                == data[k].values.len() by {
                T::lemma_stored(all[k], T::embed(all[k])->0);
            }
            let cols = embedded(shown);
            assert(cols.len() == n - 1);
            assert forall|k: int| 0 <= k < n - 1 implies #[trigger] cols[k] == T::embed(all[k])->0 by {
                assert(shown[k] == all[k]);
            }
            assert forall|k: int| 0 <= k < n - 1 implies #[trigger] before.names()[k] == numbered_name(
                k as nat,
            ) by {
                assert(before.names()[k] == cols[k].name());
            }
            let name = numbered_name((n - 1) as nat);
            assert(!before.has(name)) by {
                if before.has(name) {
                    let j = choose|j: int| 0 <= j < before.names().len() && before.names()[j] == name;
                    lemma_numbered_names(j as nat, (n - 1) as nat);
                }
            }
            if n - 1 > 0 {
                assert(before.names()[0] == default_name());
                assert(before.has(default_name()));
                assert(before.columns.len() == n - 1);
            } else {
                assert(names_of(Seq::<ColumnView>::empty()) =~= Seq::empty());
            }
            assert(before.admitted_name(series.name, series.values.len(), true) == Ok::<
                Seq<char>,
                DataFrameErrorsView,
            >(name));
            let col = T::embed(all[n - 1])->0;
            assert(series.renamed(name) == all[n - 1]);
            assert(before.with_column(col) == FrameView::of_columns(cols.push(col))) by {
                if cols.len() == 0 {
                    assert(cols.push(col) =~= seq![col]);
                } else {
                    assert(cols.push(col)[0] == cols[0]);
                }
            }
            assert(embedded(all) =~= cols.push(col));
        } else {
            T::lemma_stored(series, arbitrary());
            assert(embedded(all) =~= Seq::<ColumnView>::empty());
            assert(embedded(shown) =~= Seq::<ColumnView>::empty());
            assert(names_of(Seq::<ColumnView>::empty()) =~= Seq::empty());
            T::lemma_stored(series.renamed(series.name), arbitrary());
        }
    }
}

/// `after` holds one column for each of `inputs`: of the values that `func`
/// returned for it, labelled `0`, `1`, ..., and named by its position as
/// [`numbered_name`] says.
pub open spec fn frame_transformed<T, P: Scalar, F: Fn(Vec<T>) -> Vec<P>>(
    func: F,
    inputs: Seq<Seq<T>>,
    after: FrameView,
) -> bool {
    exists|made: Seq<SeriesView<P>>|
        {
            &&& made.len() == inputs.len()
            &&& forall|k: int|
                0 <= k < made.len() ==> column_returned_for(func, inputs[k], #[trigger] made[k])
            &&& after == FrameView::of_columns(#[trigger] embedded(renumbered(made)))
        }
}

/// The items of `v` in the opposite order.
pub(crate) fn reversed<A>(v: Vec<A>) -> (r: Vec<A>)
    ensures
        r@.len() == v@.len(),
        forall|k: int| 0 <= k < r@.len() ==> #[trigger] r@[k] == v@[v@.len() - 1 - k],
{
    let mut v = v;
    let ghost all = v@;
    let mut r: Vec<A> = Vec::new();
    while v.len() > 0
        invariant
            r@.len() + v@.len() == all.len(),
            v@ == all.take(v@.len() as int),
            forall|k: int| 0 <= k < r@.len() ==> #[trigger] r@[k] == all[all.len() - 1 - k],
        decreases v@.len(),
    {
        let item = v.pop().unwrap();
        r.push(item);
    }
    r
}

/// A table that takes in `m` columns one after the other takes in the first `n` of them.
pub proof fn lemma_extended_prefix<T: Scalar>(
    start: FrameView,
    data: Seq<SeriesView<T>>,
    n: nat,
    m: nat,
)
    requires
        n <= m,
        start.extended(data, m) is Some,
    ensures
        start.extended(data, n) is Some,
    decreases m - n,
{
    if n < m {
        lemma_extended_prefix(start, data, n, (m - 1) as nat);
    }
}

impl BlockManager {
    /// A table of the columns of `T`, in their order, each with what `func`
    /// returns for its values in place of the values. Columns of other types
    /// are left out.
    pub fn apply_map<T: Scalar, F: Fn(T) -> T>(&self, func: F) -> (r: DataFrame)
        requires
            frame_accepts::<T, T, F>(func, self@),
        ensures
            frame_mapped::<T, F>(func, self@, r@),
    {
        proof {
            use_type_invariant(self);
        }
        let mut out: Vec<Column> = Vec::new();
        let ghost mut picks: Seq<int> = Seq::empty();
        let n = self.columns.len();
        let mut i: usize = 0;
        while i < n
            invariant
                i <= n,
                n == self.columns@.len(),
                self@.valid(),
                frame_accepts::<T, T, F>(func, self@),
                out@.len() == typed_upto::<T>(self@.columns, i as nat).len(),
                forall|k: int|
                    0 <= k < out@.len() ==> stores_mapped(
                        func,
                        typed_upto::<T>(self@.columns, i as nat)[k],
                        (#[trigger] out@[k])@,
                    ),
                forall|k: int| 0 <= k < out@.len() ==> (#[trigger] out@[k])@.len() == self@.len,
                picked(names_of(column_views(out@)), self@.names(), picks),
                forall|k: int| 0 <= k < picks.len() ==> #[trigger] picks[k] < i,
            decreases n - i,
        {
            let column = &self.columns[i];
            assert(column@ == self@.columns[i as int]);
            match T::pick(column) {
                Some(s) => {
                    proof {
                        T::lemma_stored(s@, column@);
                        assert(column_accepts::<T, T, F>(func, self@.columns[i as int]));
                    }
                    let made = s.apply_ref(&func);
                    let ghost made_view = made@;
                    let stored = T::wrap(made);
                    proof {
                        T::lemma_stored(made_view, column@);
                    }
                    let col = stored.unwrap();
                    proof {
                        T::lemma_stored(made_view, col@);
                        let ghost before = column_views(out@);
                        assert(column_views(out@.push(col)) =~= before.push(col@));
                        assert(names_of(before.push(col@)) =~= names_of(before).push(col@.name()));
                        assert(self@.names()[i as int] == column@.name());
                        picks = picks.push(i as int);
                    }
                    out.push(col);
                },
                None => {},
            }
            i += 1;
        }
        proof {
            lemma_picked_distinct(names_of(column_views(out@)), self@.names(), picks);
        }
        let r = BlockManager::from_columns(out);
        DataFrame::from_block(r)
    }

    /// Takes in the columns of `block` one after the other, each under its
    /// own name where that is free.
    pub fn extend_from_block<T: Scalar>(&mut self, block: Block<T>)
        requires
            old(self)@.extended(block@.data, block@.data.len()) is Some,
        ensures
            Some(final(self)@) == old(self)@.extended(block@.data, block@.data.len()),
    {
        let ghost start = self@;
        let ghost all = block@.data;
        let Block { data, names: _ } = block;
        let mut data = data;
        let count = data.len();
        let ghost total = data@.len();
        proof {
            assert(all.len() == total);
            assert(all.take(total as int) =~= all);
        }
        // The columns are taken from the back of a reversed list, so that
        // each can be moved instead of copied.
        let mut rest = reversed(data);
        let mut done: usize = 0;
        while rest.len() > 0
            invariant
                done + rest@.len() == total,
                total == all.len(),
                total == count,
                forall|k: int|
                    0 <= k < rest@.len() ==> (#[trigger] rest@[k])@ == all[total - 1 - k],
                start.extended(all, total) is Some,
                Some(self@) == start.extended(all, done as nat),
            decreases rest@.len(),
        {
            let series = rest.pop().unwrap();
            proof {
                assert(series@ == all[done as int]);
                lemma_extended_prefix(start, all, (done + 1) as nat, total);
            }
            let r = self.add_series(series, true);
            assert(r is Ok);
            done += 1;
        }
    }

    /// The store of the columns of `block`, under their own names.
    pub fn from_block<T: Scalar>(block: Block<T>) -> (r: Self)
        requires
            series_names(block@.data).no_duplicates(),
        ensures
            r@ == FrameView::of_columns(embedded(block@.data)),
    {
        proof {
            use_type_invariant(&block);
            lemma_extend_empty(block@.data, block@.data.len());
            assert(block@.data.take(block@.data.len() as int) =~= block@.data);
        }
        let mut r = BlockManager::new();
        r.extend_from_block(block);
        r
    }

    /// As [`BlockManager::apply_map`], with the columns handed out to
    /// `rayon`'s worker threads.
    pub fn par_apply_map<T: Scalar + Send + Sync, F: Fn(T) -> T + Send + Sync>(&self, func: F) -> (r:
        DataFrame)
        requires
            frame_accepts::<T, T, F>(func, self@),
        ensures
            frame_mapped::<T, F>(func, self@, r@),
    {
        proof {
            use_type_invariant(self);
        }
        let block = self.block::<T>();
        let ghost picks = lemma_typed_names::<T>(self@.columns, self@.columns.len());
        proof {
            assert forall|k: int| 0 <= k < block@.data.len() implies accepts_all(
                func,
                (#[trigger] block@.data[k]).values,
            ) by {
                assert(column_accepts::<T, T, F>(func, self@.columns[picks[k]]));
            }
        }
        let made = block.par_apply(func);
        proof {
            lemma_picked_distinct(series_names(self@.typed::<T>()), self@.names(), picks);
            assert(series_names(made@.data) =~= series_names(self@.typed::<T>()));
            if T::tag().is_supported() {
                assert forall|k: int| 0 <= k < made@.data.len() implies stores_mapped(
                    func,
                    self@.typed::<T>()[k],
                    #[trigger] embedded(made@.data)[k],
                ) by {
                    T::lemma_stored(made@.data[k], embedded(made@.data)[k]);
                }
            } else {
                if self@.typed::<T>().len() > 0 {
                    T::lemma_stored(self@.typed::<T>()[0], self@.columns[picks[0]]);
                }
            }
        }
        let r = BlockManager::from_block(made);
        DataFrame::from_block(r)
    }

    /// Puts what `func` returns for each value in place of the value, in
    /// every column of `T`. All else stays.
    pub fn apply_map_inplace<T: Scalar, F: Fn(T) -> T>(&mut self, func: F)
        requires
            frame_accepts::<T, T, F>(func, old(self)@),
        ensures
            frame_mapped_in_place::<T, F>(func, old(self)@, final(self)@),
    {
        proof {
            use_type_invariant(&*self);
        }
        let ghost before = self@;
        let mut taken = BlockManager::new();
        core::mem::swap(self, &mut taken);
        let BlockManager { columns, len, index } = taken;
        let mut columns = columns;
        let n = columns.len();
        let mut i: usize = 0;
        proof {
            assert forall|k: int| 0 <= k < n implies (#[trigger] columns@[k])@ == before.columns[k] by {}
        }
        while i < n
            invariant
                i <= n,
                n == columns@.len(),
                n == before.columns.len(),
                before.valid(),
                frame_accepts::<T, T, F>(func, before),
                names_of(column_views(columns@)) == before.names(),
                forall|k: int|
                    0 <= k < n ==> (#[trigger] columns@[k])@.len() == before.len && columns@[k]@.aligned(),
                forall|k: int| i <= k < n ==> (#[trigger] columns@[k])@ == before.columns[k],
                forall|k: int|
                    0 <= k < i ==> match T::project(before.columns[k]) {
                        Some(s) => stores_mapped(func, s, (#[trigger] columns@[k])@),
                        None => columns@[k]@ == before.columns[k],
                    },
            decreases n - i,
        {
            let ghost views = column_views(columns@);
            let made = match T::pick(&columns[i]) {
                Some(s) => {
                    proof {
                        assert(column_accepts::<T, T, F>(func, before.columns[i as int]));
                        T::lemma_stored(s@, columns@[i as int]@);
                    }
                    let made = s.apply_ref(&func);
                    let ghost made_view = made@;
                    let stored = T::wrap(made);
                    proof {
                        T::lemma_stored(made_view, columns@[i as int]@);
                        if stored is Some {
                            T::lemma_stored(made_view, stored->0@);
                        }
                    }
                    stored
                },
                None => None,
            };
            match made {
                Some(col) => {
                    columns.set(i, col);
                    proof {
                        assert(column_views(columns@) =~= views.update(i as int, col@));
                        assert(names_of(views.update(i as int, col@)) =~= names_of(views));
                    }
                },
                None => {},
            }
            i += 1;
        }
        *self = BlockManager { columns, len, index };
    }

    /// Puts `value` in place of every value of a column of `T` for which
    /// `cond` answers `true`. All else stays.
    pub fn mask<T: Scalar, F: Fn(T) -> bool>(&mut self, value: T, cond: F)
        requires
            frame_accepts::<T, bool, F>(cond, old(self)@),
        ensures
            frame_masked::<T, F>(cond, value, old(self)@, final(self)@),
    {
        proof {
            use_type_invariant(&*self);
        }
        let ghost before = self@;
        let mut taken = BlockManager::new();
        core::mem::swap(self, &mut taken);
        let BlockManager { columns, len, index } = taken;
        let mut columns = columns;
        let n = columns.len();
        let mut i: usize = 0;
        proof {
            assert forall|k: int| 0 <= k < n implies (#[trigger] columns@[k])@ == before.columns[k] by {}
        }
        while i < n
            invariant
                i <= n,
                n == columns@.len(),
                n == before.columns.len(),
                before.valid(),
                frame_accepts::<T, bool, F>(cond, before),
                names_of(column_views(columns@)) == before.names(),
                forall|k: int|
                    0 <= k < n ==> (#[trigger] columns@[k])@.len() == before.len && columns@[k]@.aligned(),
                forall|k: int| i <= k < n ==> (#[trigger] columns@[k])@ == before.columns[k],
                forall|k: int|
                    0 <= k < i ==> match T::project(before.columns[k]) {
                        Some(s) => stores_masked(cond, value, s, (#[trigger] columns@[k])@),
                        None => columns@[k]@ == before.columns[k],
                    },
            decreases n - i,
        {
            let ghost views = column_views(columns@);
            let made = match T::pick(&columns[i]) {
                Some(s) => {
                    proof {
                        assert(column_accepts::<T, bool, F>(cond, before.columns[i as int]));
                        T::lemma_stored(s@, columns@[i as int]@);
                    }
                    let made = s.mask_ref(&value, &cond);
                    let ghost made_view = made@;
                    let stored = T::wrap(made);
                    proof {
                        T::lemma_stored(made_view, columns@[i as int]@);
                        if stored is Some {
                            T::lemma_stored(made_view, stored->0@);
                        }
                    }
                    stored
                },
                None => None,
            };
            match made {
                Some(col) => {
                    columns.set(i, col);
                    proof {
                        assert(column_views(columns@) =~= views.update(i as int, col@));
                        assert(names_of(views.update(i as int, col@)) =~= names_of(views));
                    }
                },
                None => {},
            }
            i += 1;
        }
        *self = BlockManager { columns, len, index };
    }

    /// One value for every row (with `axis`) or for every column (without)
    /// of the group of the columns of `T`: what `func` returns for the values
    /// of that row or column. `None` where the store holds no column of `T`.
    pub fn apply<T: Scalar, F: Fn(Vec<T>) -> T>(&self, func: F, axis: bool) -> (r: Option<Series<T>>)
        requires
            reducible(func, group::<T>(self@).axis_inputs(axis)),
        ensures
            r is Some <==> self@.typed::<T>().len() > 0,
            r matches Some(s) ==> reduced(func, group::<T>(self@).axis_inputs(axis), s@.values)
                && s@ == SeriesView::from_values(s@.values),
    {
        let block = self.block::<T>();
        assert(block@ == group::<T>(self@)) by {
            assert(block@.names =~= series_names(self@.typed::<T>()));
        }
        if block.len() == 0 {
            None
        } else {
            Some(block.apply(func, axis))
        }
    }

    /// A copy of the store with one more column: the column `key`, with what
    /// `func` returns for its values in place of the values, taken in as `name`.
    ///
    /// Fails with a key error where the store does not hold `key` as a column
    /// of `T`, and as [`BlockManager::add_series`] does where the new column
    /// is refused.
    pub fn assign<T: Scalar, F: Fn(T) -> T>(&self, key: &str, name: &str, func: F) -> (r: Result<
        BlockManager,
        DataFrameErrors,
    >)
        requires
            self@.typed_column::<T>(key@) matches Some(s) ==> accepts_all(func, s.values),
        ensures
            assigned::<T, F>(
                func,
                self@,
                key@,
                name@,
                match r {
                    Ok(m) => Ok(m@),
                    Err(e) => Err(e@),
                },
            ),
    {
        match self.get_ref::<T>(key) {
            None => Err(missing_key(key)),
            Some(series) => {
                let mut made = series.apply_ref(&func);
                let ghost image = made@;
                made.set_name(name);
                let mut df = self.duplicate();
                match df.add_series(made, true) {
                    Ok(()) => {
                        proof {
                            assert(maps_column(func, series@, image));
                        }
                        Ok(df)
                    },
                    Err(e) => {
                        proof {
                            assert(maps_column(func, series@, image));
                        }
                        Err(e)
                    },
                }
            },
        }
    }

    /// As [`BlockManager::assign`], but the store itself takes in the new
    /// column. A failure leaves the store as it was.
    pub fn assign_inplace<T: Scalar, F: Fn(T) -> T>(&mut self, key: &str, name: &str, func: F) -> (r:
        Result<(), DataFrameErrors>)
        requires
            old(self)@.typed_column::<T>(key@) matches Some(s) ==> accepts_all(func, s.values),
        ensures
            assigned::<T, F>(
                func,
                old(self)@,
                key@,
                name@,
                match r {
                    Ok(_) => Ok(final(self)@),
                    Err(e) => Err(e@),
                },
            ),
            r is Err ==> *final(self) == *old(self),
    {
        let made = match self.get_ref::<T>(key) {
            None => None,
            Some(series) => {
                let mut made = series.apply_ref(&func);
                proof {
                    assert(maps_column(func, series@, made@));
                }
                made.set_name(name);
                Some(made)
            },
        };
        match made {
            None => Err(missing_key(key)),
            Some(made) => self.add_series(made, true),
        }
    }

    /// A table with one column for every row (with `axis`) or for every
    /// column (without) of the group of the columns of `T`: of the values
    /// that `func` returns for the values of that row or column. `None`
    /// where the store holds no column of `T`.
    pub fn transform<T: Scalar, P: Scalar, F: Fn(Vec<T>) -> Vec<P>>(&self, func: F, axis: bool) -> (r:
        Option<DataFrame>)
        requires
            reducible(func, group::<T>(self@).axis_inputs(axis)),
            uniform(func, group::<T>(self@).axis_inputs(axis)),
        ensures
            r is Some <==> self@.typed::<T>().len() > 0,
            r matches Some(df) ==> frame_transformed::<T, P, F>(
                func,
                group::<T>(self@).axis_inputs(axis),
                df@,
            ),
    {
        let block = self.block::<T>();
        assert(block@ == group::<T>(self@)) by {
            assert(block@.names =~= series_names(self@.typed::<T>()));
        }
        if block.len() == 0 {
            return None;
        }
        let made = block.transform::<P, F>(func, axis);
        let ghost data = made@.data;
        proof {
            use_type_invariant(&made);
            assert forall|k: int| 0 <= k < data.len() implies (#[trigger] data[k]).name
                == default_name() by {
                assert(column_returned_for(func, group::<T>(self@).axis_inputs(axis)[k], data[k]));
            }
            lemma_extend_numbered(data, data.len());
            assert(data.take(data.len() as int) =~= data);
        }
        let mut store = BlockManager::new();
        store.extend_from_block(made);
        Some(DataFrame::from_block(store))
    }
}

} // verus!

//! Running sums, products, minima and maxima of the numeric columns of a store.
use vstd::prelude::*;
use crate::engine::block_manager::{
    column_views, lemma_picked_distinct, names_of, picked, BlockManager, FrameView,
};
use crate::engine::dataframe::DataFrame;
use crate::engine::series::floats::{has_nan, running_extremes, some_nan, Real};
use crate::engine::series::generic::{accepts_any_pair, scanned};
use crate::engine::series::ints::{
    in_range, numbers, prefix_max, prefix_min, prefix_product, prefix_sum,
};
use crate::engine::series::traits::Integer;
use crate::engine::series::{Column, ColumnView, Float32, Float64, Series, SeriesView};

verus! {

/// What is accumulated along a column.
#[derive(Clone, Copy, Debug, PartialEq, Eq, Structural)]
pub enum Running {
    /// The sum of the values so far.
    Sum,
    /// The product of the values so far.
    Product,
    /// The least of the values so far.
    Min,
    /// The greatest of the values so far.
    Max,
}

/// What `kind` accumulates over the first `n` of the numbers `v`, for `n` of at least 1.
pub open spec fn running(kind: Running, v: Seq<int>, n: nat) -> int {
    match kind {
        Running::Sum => prefix_sum(v, n),
        Running::Product => prefix_product(v, n),
        Running::Min => prefix_min(v, n),
        Running::Max => prefix_max(v, n),
    }
}

/// Everything that `kind` accumulates along `values` lies within the range of `T`.
pub open spec fn accumulable<T: Integer>(kind: Running, values: Seq<T>) -> bool {
    forall|n: nat|
        1 <= n <= values.len() ==> in_range::<T>(#[trigger] running(kind, numbers(values), n))
}

/// `out` is `before` with, at every position, what `kind` accumulates over
/// the values up to that position. Name and labels stay.
pub open spec fn accumulated<T: Integer>(kind: Running, before: SeriesView<T>, out: SeriesView<T>) -> bool {
    &&& out == before.with_values(out.values)
    &&& out.values.len() == before.values.len()
    &&& forall|i: int|
        0 <= i < before.values.len() ==> (#[trigger] out.values[i]).value() == running(
            kind,
            numbers(before.values),
            (i + 1) as nat,
        )
}

/// `out` is `before` with the running results of `func` in place of the values.
pub open spec fn scans_column<T, F: Fn(T, T) -> T>(func: F, before: SeriesView<T>, out: SeriesView<T>) -> bool {
    &&& out == before.with_values(out.values)
    &&& scanned(func, before.values, out.values)
}

/// `out` is `before` with, at every position, the greatest (with `rising`)
/// or the smallest (without) of the values up to that position. Name and
/// labels stay.
pub open spec fn extremes_column<T: Real>(rising: bool, before: SeriesView<T>, out: SeriesView<T>) -> bool {
    &&& out == before.with_values(out.values)
    &&& running_extremes(before.values, out.values, rising)
}

/// What accumulation makes of the floating point column `before`: its
/// running minima or maxima, or, for sums and products, the running
/// results of `func`.
pub open spec fn floats_accumulated<T: Real, F: Fn(T, T) -> T>(
    kind: Running,
    func: F,
    before: SeriesView<T>,
    out: SeriesView<T>,
) -> bool {
    match kind {
        Running::Min => extremes_column(false, before, out),
        Running::Max => extremes_column(true, before, out),
        _ => scans_column(func, before, out),
    }
}

/// What accumulation makes of the numeric column `before`: for integers
/// what `kind` accumulates; for floating point values the running minima
/// or maxima, or the running results of `wide` or `narrow`, which add or
/// multiply.
pub open spec fn column_accumulated<A: Fn(Float64, Float64) -> Float64, B: Fn(Float32, Float32) -> Float32>(
    kind: Running,
    wide: A,
    narrow: B,
    before: ColumnView,
    out: ColumnView,
) -> bool {
    match (before, out) {
        (ColumnView::I64(a), ColumnView::I64(c)) => accumulated(kind, a, c),
        (ColumnView::I32(a), ColumnView::I32(c)) => accumulated(kind, a, c),
        (ColumnView::F64(a), ColumnView::F64(c)) => floats_accumulated(kind, wide, a, c),
        (ColumnView::F32(a), ColumnView::F32(c)) => floats_accumulated(kind, narrow, a, c),
        _ => false,
    }
}

/// What the running minima (without `rising`) or maxima (with) make of
/// the numeric column `before`.
pub open spec fn column_extremes(rising: bool, before: ColumnView, out: ColumnView) -> bool {
    match (before, out) {
        (ColumnView::I64(a), ColumnView::I64(c)) => accumulated(extreme(rising), a, c),
        (ColumnView::I32(a), ColumnView::I32(c)) => accumulated(extreme(rising), a, c),
        (ColumnView::F64(a), ColumnView::F64(c)) => extremes_column(rising, a, c),
        (ColumnView::F32(a), ColumnView::F32(c)) => extremes_column(rising, a, c),
        _ => false,
    }
}

/// The running maximum (with `rising`) or minimum (without).
pub open spec fn extreme(rising: bool) -> Running {
    if rising {
        Running::Max
    } else {
        Running::Min
    }
}

/// Whether every value of the floating point columns of `frame` is a number.
pub open spec fn without_nan(frame: FrameView) -> bool {
    forall|k: int|
        0 <= k < frame.columns.len() ==> match #[trigger] frame.columns[k] {
            ColumnView::F64(a) => !some_nan(a.values),
            ColumnView::F32(a) => !some_nan(a.values),
            _ => true,
        }
}

/// The columns of `frame` can be accumulated: the integers within their
/// ranges, and, for minima and maxima, floating point values that are all
/// numbers.
pub open spec fn frame_accumulable(kind: Running, frame: FrameView) -> bool {
    &&& forall|k: int|
        0 <= k < frame.columns.len() ==> match #[trigger] frame.columns[k] {
            ColumnView::I64(a) => accumulable(kind, a.values),
            ColumnView::I32(a) => accumulable(kind, a.values),
            _ => true,
        }
    &&& (kind == Running::Min || kind == Running::Max) ==> without_nan(frame)
}

/// The positions among the first `n` of `columns` of the numeric columns.
pub open spec fn numeric_upto(columns: Seq<ColumnView>, n: nat) -> Seq<int>
    decreases n,
{
    if n == 0 {
        Seq::empty()
    } else {
        let before = numeric_upto(columns, (n - 1) as nat);
        if columns[n - 1].tag().is_numeric() {
            before.push(n - 1)
        } else {
            before
        }
    }
}

/// The positions that [`numeric_upto`] gives rise and lie below `n`.
pub proof fn lemma_numeric(columns: Seq<ColumnView>, n: nat)
    requires
        n <= columns.len(),
    ensures
        forall|j: int|
            0 <= j < numeric_upto(columns, n).len() ==> 0 <= #[trigger] numeric_upto(columns, n)[j]
                < n,
        forall|a: int, b: int|
            0 <= a < b < numeric_upto(columns, n).len() ==> #[trigger] numeric_upto(columns, n)[a]
                < #[trigger] numeric_upto(columns, n)[b],
    decreases n,
{
    if n > 0 {
        lemma_numeric(columns, (n - 1) as nat);
        let before = numeric_upto(columns, (n - 1) as nat);
        let all = numeric_upto(columns, n);
        assert forall|j: int| 0 <= j < all.len() implies 0 <= #[trigger] all[j] < n by {
            if j < before.len() {
                assert(all[j] == before[j]);
            }
        }
        assert forall|a: int, b: int| 0 <= a < b < all.len() implies #[trigger] all[a] < #[trigger] all[b] by {
            assert(all[a] == before[a]);
            if b < before.len() {
                assert(all[b] == before[b]);
            }
        }
    }
}

/// `after` holds, for every numeric column of `before`, in their order, what
/// accumulation makes of it; and no other column.
pub open spec fn frame_accumulated<A: Fn(Float64, Float64) -> Float64, B: Fn(Float32, Float32) -> Float32>(
    kind: Running,
    wide: A,
    narrow: B,
    before: FrameView,
    after: FrameView,
) -> bool {
    let parts = numeric_upto(before.columns, before.columns.len());
    &&& after == FrameView::of_columns(after.columns)
    &&& after.columns.len() == parts.len()
    &&& forall|j: int|
        0 <= j < parts.len() ==> column_accumulated(
            kind,
            wide,
            narrow,
            before.columns[parts[j]],
            #[trigger] after.columns[j],
        )
}

/// The running minimum and maximum of values of `T` are values of `T`.
pub proof fn lemma_extreme_in_range<T: Integer>(kind: Running, values: Seq<T>, n: nat)
    requires
        kind == Running::Min || kind == Running::Max,
        1 <= n <= values.len(),
    ensures
        in_range::<T>(running(kind, numbers(values), n)),
    decreases n,
{
    T::lemma_value(values[n - 1], values[n - 1]);
    assert(numbers(values)[n - 1] == values[n - 1].value());
    if n > 1 {
        lemma_extreme_in_range(kind, values, (n - 1) as nat);
    } else {
        T::lemma_value(values[0], values[0]);
        assert(numbers(values)[0] == values[0].value());
    }
}

/// Running minima and maxima can be accumulated wherever the floating
/// point values are all numbers.
pub proof fn lemma_extremes_accumulable(kind: Running, frame: FrameView)
    requires
        kind == Running::Min || kind == Running::Max,
        without_nan(frame),
    ensures
        frame_accumulable(kind, frame),
{
    assert forall|k: int| 0 <= k < frame.columns.len() implies match #[trigger] frame.columns[k] {
        ColumnView::I64(a) => accumulable(kind, a.values),
        ColumnView::I32(a) => accumulable(kind, a.values),
        _ => true,
    } by {
        match frame.columns[k] {
            ColumnView::I64(a) => {
                assert forall|n: nat| 1 <= n <= a.values.len() implies in_range::<i64>(
                    #[trigger] running(kind, numbers(a.values), n),
                ) by {
                    lemma_extreme_in_range(kind, a.values, n);
                }
            },
            ColumnView::I32(a) => {
                assert forall|n: nat| 1 <= n <= a.values.len() implies in_range::<i32>(
                    #[trigger] running(kind, numbers(a.values), n),
                ) by {
                    lemma_extreme_in_range(kind, a.values, n);
                }
            },
            _ => {},
        }
    }
}

impl<T: Integer> Series<T> {
    /// What `kind` accumulates along the column. Name and labels stay.
    pub fn accumulate(&self, kind: Running) -> (r: Series<T>)
        requires
            accumulable(kind, self@.values),
        ensures
            accumulated(kind, self@, r@),
    {
        match kind {
            Running::Sum => {
                assert forall|n: nat| 1 <= n <= self@.values.len() implies in_range::<T>(
                    #[trigger] prefix_sum(numbers(self@.values), n),
                ) by {
                    assert(in_range::<T>(running(kind, numbers(self@.values), n)));
                }
                self.cum_sum()
            },
            Running::Product => {
                assert forall|n: nat| 1 <= n <= self@.values.len() implies in_range::<T>(
                    #[trigger] prefix_product(numbers(self@.values), n),
                ) by {
                    assert(in_range::<T>(running(kind, numbers(self@.values), n)));
                }
                self.cum_prod()
            },
            Running::Min => self.cum_min(),
            Running::Max => self.cum_max(),
        }
    }
}

impl BlockManager {
    /// What accumulation makes of one column, if it is numeric.
    fn accumulate_column<A: Fn(Float64, Float64) -> Float64, B: Fn(Float32, Float32) -> Float32>(
        column: &Column,
        kind: Running,
        wide: &A,
        narrow: &B,
    ) -> (r: Option<Column>)
        requires
            accepts_any_pair(*wide),
            accepts_any_pair(*narrow),
            match column@ {
                ColumnView::I64(a) => accumulable(kind, a.values),
                ColumnView::I32(a) => accumulable(kind, a.values),
                ColumnView::F64(a) => (kind == Running::Min || kind == Running::Max) ==> !some_nan(
                    a.values,
                ),
                ColumnView::F32(a) => (kind == Running::Min || kind == Running::Max) ==> !some_nan(
                    a.values,
                ),
                _ => true,
            },
        ensures
            r is Some <==> column@.tag().is_numeric(),
            r matches Some(c) ==> column_accumulated(kind, *wide, *narrow, column@, c@) && c@.name()
                == column@.name() && c@.len() == column@.len(),
    {
        match column {
            Column::I64(a) => Some(Column::I64(a.accumulate(kind))),
            Column::I32(a) => Some(Column::I32(a.accumulate(kind))),
            Column::F64(a) => Some(Column::F64(Self::accumulate_floats(a, kind, wide))),
            Column::F32(a) => Some(Column::F32(Self::accumulate_floats(a, kind, narrow))),
            _ => None,
        }
    }

    /// What accumulation makes of a column of floating point values.
    fn accumulate_floats<T: Real, F: Fn(T, T) -> T>(column: &Series<T>, kind: Running, func: &F) -> (r:
        Series<T>)
        requires
            accepts_any_pair(*func),
            (kind == Running::Min || kind == Running::Max) ==> !some_nan(column@.values),
        ensures
            floats_accumulated(kind, *func, column@, r@),
    {
        match kind {
            Running::Min => column.running_extreme(false),
            Running::Max => column.running_extreme(true),
            _ => column.scan(func),
        }
    }

    /// A table of what accumulation makes of every numeric column: what
    /// `kind` accumulates, where the sums and products of floating point
    /// values are the running results of `wide` and `narrow`, which the
    /// caller chooses to match `kind`. Names and labels stay; all other
    /// columns are left out.
    pub fn accumulate<A: Fn(Float64, Float64) -> Float64, B: Fn(Float32, Float32) -> Float32>(
        &self,
        kind: Running,
        wide: A,
        narrow: B,
    ) -> (r: DataFrame)
        requires
            accepts_any_pair(wide),
            accepts_any_pair(narrow),
            frame_accumulable(kind, self@),
        ensures
            frame_accumulated(kind, wide, narrow, self@, r@),
    {
        proof {
            use_type_invariant(self);
        }
        let mut out: Vec<Column> = Vec::new();
        let n = self.columns.len();
        let mut i: usize = 0;
        while i < n
            invariant
                i <= n,
                n == self.columns@.len(),
                self@.valid(),
                accepts_any_pair(wide),
                accepts_any_pair(narrow),
                frame_accumulable(kind, self@),
                out@.len() == numeric_upto(self@.columns, i as nat).len(),
                forall|j: int|
                    0 <= j < out@.len() ==> column_accumulated(
                        kind,
                        wide,
                        narrow,
                        self@.columns[numeric_upto(self@.columns, i as nat)[j]],
                        (#[trigger] out@[j])@,
                    ),
                forall|j: int| 0 <= j < out@.len() ==> (#[trigger] out@[j])@.len() == self@.len,
                picked(
                    names_of(column_views(out@)),
                    self@.names(),
                    numeric_upto(self@.columns, i as nat),
                ),
            decreases n - i,
        {
            proof {
                lemma_numeric(self@.columns, i as nat);
                lemma_numeric(self@.columns, (i + 1) as nat);
            }
            let column = &self.columns[i];
            assert(column@ == self@.columns[i as int]);
            match Self::accumulate_column(column, kind, &wide, &narrow) {
                Some(col) => {
                    proof {
                        let before = column_views(out@);
                        assert(column_views(out@.push(col)) =~= before.push(col@));
                        assert(names_of(before.push(col@)) =~= names_of(before).push(col@.name()));
                        assert(self@.names()[i as int] == column@.name());
                    }
                    out.push(col);
                },
                None => {},
            }
            i += 1;
        }
        proof {
            lemma_picked_distinct(
                names_of(column_views(out@)),
                self@.names(),
                numeric_upto(self@.columns, n as nat),
            );
        }
        let r = BlockManager::from_columns(out);
        DataFrame::from_block(r)
    }
}

/// `after` holds, for every numeric column of `before`, in their order,
/// its running minima (without `rising`) or maxima (with); and no other
/// column.
pub open spec fn frame_extremes(rising: bool, before: FrameView, after: FrameView) -> bool {
    let parts = numeric_upto(before.columns, before.columns.len());
    &&& after == FrameView::of_columns(after.columns)
    &&& after.columns.len() == parts.len()
    &&& forall|j: int|
        0 <= j < parts.len() ==> column_extremes(
            rising,
            before.columns[parts[j]],
            #[trigger] after.columns[j],
        )
}

impl BlockManager {
    /// A table of the running minima (without `rising`) or maxima (with)
    /// of every numeric column, whose floating point values are all
    /// numbers. Names and labels stay; all other columns are left out.
    pub fn extremes(&self, rising: bool) -> (r: DataFrame)
        requires
            without_nan(self@),
        ensures
            frame_extremes(rising, self@, r@),
    {
        let kind = if rising {
            Running::Max
        } else {
            Running::Min
        };
        proof {
            lemma_extremes_accumulable(kind, self@);
        }
        let wide = |a: Float64, b: Float64| -> Float64 { a };
        let narrow = |a: Float32, b: Float32| -> Float32 { a };
        let r = self.accumulate(kind, wide, narrow);
        proof {
            let parts = numeric_upto(self@.columns, self@.columns.len());
            assert forall|j: int| 0 <= j < parts.len() implies column_extremes(
                rising,
                self@.columns[parts[j]],
                #[trigger] r@.columns[j],
            ) by {
                assert(column_accumulated(kind, wide, narrow, self@.columns[parts[j]], r@.columns[j]));
            }
        }
        r
    }
}

impl BlockManager {
    /// Whether every value of the floating point columns is a number.
    pub fn has_no_nan(&self) -> (b: bool)
        ensures
            b == without_nan(self@),
    {
        let n = self.columns.len();
        let mut i: usize = 0;
        while i < n
            invariant
                i <= n,
                n == self.columns@.len(),
                forall|k: int|
                    0 <= k < i ==> match #[trigger] self@.columns[k] {
                        ColumnView::F64(a) => !some_nan(a.values),
                        ColumnView::F32(a) => !some_nan(a.values),
                        _ => true,
                    },
            decreases n - i,
        {
            let column = &self.columns[i];
            assert(column@ == self@.columns[i as int]);
            let found = match column {
                Column::F64(a) => has_nan(&a.array),
                Column::F32(a) => has_nan(&a.array),
                _ => false,
            };
            if found {
                return false;
            }
            i += 1;
        }
        true
    }
}

} // verus!

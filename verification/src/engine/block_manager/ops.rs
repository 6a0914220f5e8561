//! Operations of two tables: combination, column by column, and arithmetic.
use vstd::prelude::*;
use crate::engine::block_manager::{
    column_views, lemma_picked_distinct, names_of, picked, BlockManager, FrameView,
};
use crate::engine::dataframe::DataFrame;
use crate::engine::series::generic::{accepts_any_pair, accepts_pairs, paired, zipped};
use crate::engine::series::ops::{computable_pairs, computed_column, Operation};
use crate::engine::series::traits::Integer;
use crate::engine::series::{Column, ColumnView, Float32, Float64, Scalar};
use crate::enums::DataTypes;

verus! {

/// Whether `col` takes part in an operation with the table `other`: its tag
/// is one that the operation works on, and `other` holds a column of the
/// same name and the same tag.
pub open spec fn takes_part(col: ColumnView, other: FrameView, keep: spec_fn(DataTypes) -> bool) -> bool {
    keep(col.tag()) && other.has(col.name()) && other.tag_of(col.name()) == col.tag()
}

/// The positions among the first `n` of `columns` of the columns that take
/// part in an operation with `other`, in rising order.
pub open spec fn parts_upto(
    columns: Seq<ColumnView>,
    other: FrameView,
    keep: spec_fn(DataTypes) -> bool,
    n: nat,
) -> Seq<int>
    decreases n,
{
    if n == 0 {
        Seq::empty()
    } else {
        let before = parts_upto(columns, other, keep, (n - 1) as nat);
        if takes_part(columns[n - 1], other, keep) {
            before.push(n - 1)
        } else {
            before
        }
    }
}

/// The positions that [`parts_upto`] gives rise, and each is the position of
/// a column that takes part.
pub proof fn lemma_parts(
    columns: Seq<ColumnView>,
    other: FrameView,
    keep: spec_fn(DataTypes) -> bool,
    n: nat,
)
    requires
        n <= columns.len(),
    ensures
        forall|j: int|
            0 <= j < parts_upto(columns, other, keep, n).len() ==> 0 <= #[trigger] parts_upto(
                columns,
                other,
                keep,
                n,
            )[j] < n && takes_part(columns[parts_upto(columns, other, keep, n)[j]], other, keep),
        forall|a: int, b: int|
            0 <= a < b < parts_upto(columns, other, keep, n).len() ==> #[trigger] parts_upto(
                columns,
                other,
                keep,
                n,
            )[a] < #[trigger] parts_upto(columns, other, keep, n)[b],
        forall|k: int|
            0 <= k < n && takes_part(#[trigger] columns[k], other, keep) ==> parts_upto(
                columns,
                other,
                keep,
                n,
            ).contains(k),
    decreases n,
{
    if n > 0 {
        lemma_parts(columns, other, keep, (n - 1) as nat);
        let before = parts_upto(columns, other, keep, (n - 1) as nat);
        let all = parts_upto(columns, other, keep, n);
        assert forall|k: int| 0 <= k < n && takes_part(#[trigger] columns[k], other, keep) implies all.contains(
            k,
        ) by {
            if k == n - 1 {
                assert(all[all.len() - 1] == k);
            } else {
                assert(before.contains(k));
                let j = choose|j: int| 0 <= j < before.len() && before[j] == k;
                assert(all[j] == k);
            }
        }
    }
}

/// The tags of the columns of `T`.
pub open spec fn of_type<T: Scalar>() -> spec_fn(DataTypes) -> bool {
    |t: DataTypes| t == T::tag()
}

/// The tags of the columns that arithmetic works on.
pub open spec fn numeric() -> spec_fn(DataTypes) -> bool {
    |t: DataTypes| t.is_numeric()
}

/// `out` stores the column of `T` in `left` with what `func` returned for
/// its values and those of the column of `T` in `right`, position by position.
pub open spec fn stores_combined<T: Scalar, F: Fn(T, T) -> T>(
    func: F,
    left: ColumnView,
    right: ColumnView,
    out: ColumnView,
) -> bool {
    &&& T::project(left) matches Some(a)
    &&& T::project(right) matches Some(b)
    &&& T::project(out) matches Some(c)
    &&& zipped(func, a.values, b.values, c.values)
    &&& c == a.with_values(c.values)
}

/// Where `left` and `right` are both columns of `T`, they have one length,
/// and `func` may be called on their values, position by position.
pub open spec fn pair_accepts<T: Scalar, F: Fn(T, T) -> T>(
    func: F,
    left: ColumnView,
    right: ColumnView,
) -> bool {
    match (T::project(left), T::project(right)) {
        (Some(a), Some(b)) => a.values.len() == b.values.len() && accepts_pairs(
            func,
            a.values,
            b.values,
        ),
        _ => true,
    }
}

/// `func` may be used to combine `before` with `other`.
pub open spec fn frame_pairs_accept<T: Scalar, F: Fn(T, T) -> T>(
    func: F,
    before: FrameView,
    other: FrameView,
) -> bool {
    forall|k: int|
        0 <= k < before.columns.len() && takes_part(
            #[trigger] before.columns[k],
            other,
            of_type::<T>(),
        ) ==> pair_accepts(func, before.columns[k], other.column(before.columns[k].name()))
}

/// `after` holds, for every column of `T` of `before` whose name `other`
/// holds as a column of `T` too, the combination of the two by `func`, in the
/// order of `before`; and no other column.
pub open spec fn frame_combined<T: Scalar, F: Fn(T, T) -> T>(
    func: F,
    before: FrameView,
    other: FrameView,
    after: FrameView,
) -> bool {
    let parts = parts_upto(before.columns, other, of_type::<T>(), before.columns.len());
    &&& after == FrameView::of_columns(after.columns)
    &&& after.columns.len() == parts.len()
    &&& forall|j: int|
        0 <= j < parts.len() ==> stores_combined(
            func,
            before.columns[parts[j]],
            other.column(before.columns[parts[j]].name()),
            #[trigger] after.columns[j],
        )
}

/// What arithmetic makes of the columns `left` and `right` of one numeric
/// tag: for integers the result of `op`, for floating point values what
/// `wide` or `narrow` returned.
pub open spec fn column_computed<A: Fn(Float64, Float64) -> Float64, B: Fn(Float32, Float32) -> Float32>(
    op: Operation,
    wide: A,
    narrow: B,
    left: ColumnView,
    right: ColumnView,
    out: ColumnView,
) -> bool {
    match (left, right, out) {
        (ColumnView::I64(a), ColumnView::I64(b), ColumnView::I64(c)) => computed_column(op, a, b, c),
        (ColumnView::I32(a), ColumnView::I32(b), ColumnView::I32(c)) => computed_column(op, a, b, c),
        (ColumnView::F64(a), ColumnView::F64(b), ColumnView::F64(c)) => paired(wide, a, b, c),
        (ColumnView::F32(a), ColumnView::F32(b), ColumnView::F32(c)) => paired(narrow, a, b, c),
        _ => false,
    }
}

/// Arithmetic can be done on the columns `left` and `right`, where they are
/// of one numeric tag: for integers `op` stays within range and divides by
/// nothing that is 0, for floating point values `wide` or `narrow` may be called.
pub open spec fn column_computable<A: Fn(Float64, Float64) -> Float64, B: Fn(Float32, Float32) -> Float32>(
    op: Operation,
    wide: A,
    narrow: B,
    left: ColumnView,
    right: ColumnView,
) -> bool {
    match (left, right) {
        (ColumnView::I64(a), ColumnView::I64(b)) => computable_pairs(op, a.values, b.values),
        (ColumnView::I32(a), ColumnView::I32(b)) => computable_pairs(op, a.values, b.values),
        (ColumnView::F64(a), ColumnView::F64(b)) => accepts_pairs(wide, a.values, b.values),
        (ColumnView::F32(a), ColumnView::F32(b)) => accepts_pairs(narrow, a.values, b.values),
        _ => true,
    }
}

/// Arithmetic can be done on `before` and `other`.
pub open spec fn frame_computable<A: Fn(Float64, Float64) -> Float64, B: Fn(Float32, Float32) -> Float32>(
    op: Operation,
    wide: A,
    narrow: B,
    before: FrameView,
    other: FrameView,
) -> bool {
    forall|k: int|
        0 <= k < before.columns.len() && takes_part(#[trigger] before.columns[k], other, numeric())
            ==> column_computable(
            op,
            wide,
            narrow,
            before.columns[k],
            other.column(before.columns[k].name()),
        )
}

/// `after` holds, for every numeric column of `before` whose name `other`
/// holds under the same tag, what arithmetic makes of the two, in the order
/// of `before`; and no other column.
pub open spec fn frame_computed<A: Fn(Float64, Float64) -> Float64, B: Fn(Float32, Float32) -> Float32>(
    op: Operation,
    wide: A,
    narrow: B,
    before: FrameView,
    other: FrameView,
    after: FrameView,
) -> bool {
    let parts = parts_upto(before.columns, other, numeric(), before.columns.len());
    &&& after == FrameView::of_columns(after.columns)
    &&& after.columns.len() == parts.len()
    &&& forall|j: int|
        0 <= j < parts.len() ==> column_computed(
            op,
            wide,
            narrow,
            before.columns[parts[j]],
            other.column(before.columns[parts[j]].name()),
            #[trigger] after.columns[j],
        )
}

/// The names of the columns of a table that arithmetic with `other` has
/// made are exactly the names that both tables hold under one numeric tag.
pub proof fn lemma_arithmetic_names<A: Fn(Float64, Float64) -> Float64, B: Fn(Float32, Float32) -> Float32>(
    op: Operation,
    wide: A,
    narrow: B,
    before: FrameView,
    other: FrameView,
    after: FrameView,
    name: Seq<char>,
)
    requires
        before.valid(),
        frame_computed(op, wide, narrow, before, other, after),
    ensures
        after.has(name) <==> before.has(name) && before.tag_of(name).is_numeric() && other.has(name)
            && other.tag_of(name) == before.tag_of(name),
{
    let n = before.columns.len();
    let parts = parts_upto(before.columns, other, numeric(), n);
    lemma_parts(before.columns, other, numeric(), n);
    assert forall|j: int| 0 <= j < parts.len() implies (#[trigger] after.columns[j]).name()
        == before.columns[parts[j]].name() by {
        let left = before.columns[parts[j]];
        let right = other.column(left.name());
        assert(column_computed(op, wide, narrow, left, right, after.columns[j]));
    }
    if after.has(name) {
        let j = choose|j: int| 0 <= j < after.names().len() && after.names()[j] == name;
        assert(after.columns[j].name() == name);
        let k = parts[j];
        assert(before.names()[k] == name);
        assert forall|m: int| 0 <= m < k implies before.names()[m] != name by {
            assert(before.names()[m] != before.names()[k]);
        }
        crate::engine::series::generic::lemma_first_position(before.names(), name, k);
        assert(takes_part(before.columns[k], other, numeric()));
    }
    if before.has(name) && before.tag_of(name).is_numeric() && other.has(name) && other.tag_of(name)
        == before.tag_of(name) {
        crate::engine::series::generic::lemma_first_exists(before.names(), name);
        let k = crate::engine::series::generic::first_position(before.names(), name);
        assert(before.names()[k] == name);
        assert(takes_part(before.columns[k], other, numeric()));
        assert(parts.contains(k));
        let j = choose|j: int| 0 <= j < parts.len() && parts[j] == k;
        assert(after.names()[j] == after.columns[j].name());
    }
}

/// The column that arithmetic has made under a name is what arithmetic
/// makes of the columns that the two tables hold under that name.
pub proof fn lemma_arithmetic_cells<A: Fn(Float64, Float64) -> Float64, B: Fn(Float32, Float32) -> Float32>(
    op: Operation,
    wide: A,
    narrow: B,
    before: FrameView,
    other: FrameView,
    after: FrameView,
    name: Seq<char>,
)
    requires
        before.valid(),
        frame_computed(op, wide, narrow, before, other, after),
        after.has(name),
    ensures
        column_computed(op, wide, narrow, before.column(name), other.column(name), after.column(name)),
{
    let n = before.columns.len();
    let parts = parts_upto(before.columns, other, numeric(), n);
    lemma_parts(before.columns, other, numeric(), n);
    crate::engine::series::generic::lemma_first_exists(after.names(), name);
    let j = crate::engine::series::generic::first_position(after.names(), name);
    assert(after.names()[j] == after.columns[j].name());
    let k = parts[j];
    let left = before.columns[k];
    assert(column_computed(op, wide, narrow, left, other.column(left.name()), after.columns[j]));
    assert(before.names()[k] == name);
    assert forall|m: int| 0 <= m < k implies before.names()[m] != name by {
        assert(before.names()[m] != before.names()[k]);
    }
    crate::engine::series::generic::lemma_first_position(before.names(), name, k);
}

/// The sum of two tables holds, under every name that it holds for a
/// column of 32-bit integers, the sums of the values that the two tables
/// hold under that name, at the rows that both have.
pub proof fn lemma_sum_cells<A: Fn(Float64, Float64) -> Float64, B: Fn(Float32, Float32) -> Float32>(
    wide: A,
    narrow: B,
    before: FrameView,
    other: FrameView,
    after: FrameView,
    name: Seq<char>,
)
    requires
        before.valid(),
        frame_computed(Operation::Add, wide, narrow, before, other, after),
        after.has(name),
        before.column(name) is I32,
    ensures
        other.column(name) is I32,
        after.column(name) is I32,
        after.column(name)->I32_0.values.len() == crate::engine::series::ops::shorter(
            before.column(name)->I32_0.values.len(),
            other.column(name)->I32_0.values.len(),
        ),
        forall|i: int|
            0 <= i < after.column(name)->I32_0.values.len() ==> #[trigger] after.column(
                name,
            )->I32_0.values[i] == before.column(name)->I32_0.values[i] + other.column(
                name,
            )->I32_0.values[i],
{
    lemma_arithmetic_cells(Operation::Add, wide, narrow, before, other, after, name);
    lemma_arithmetic_names(Operation::Add, wide, narrow, before, other, after, name);
    let a = before.column(name)->I32_0;
    let b = other.column(name)->I32_0;
    let c = after.column(name)->I32_0;
    assert(crate::engine::series::ops::computed_column(Operation::Add, a, b, c));
    assert forall|i: int| 0 <= i < c.values.len() implies #[trigger] c.values[i] == a.values[i]
        + b.values[i] by {
        assert(c.values[i].value() == crate::engine::series::ops::computed(
            Operation::Add,
            a.values[i].value(),
            b.values[i].value(),
        ));
    }
}

/// A column of a valid table that is found by its name has as many values as
/// the table has rows.
pub proof fn lemma_column_found(frame: FrameView, name: Seq<char>)
    requires
        frame.valid(),
        frame.has(name),
    ensures
        frame.column(name).len() == frame.len,
        frame.column(name).name() == name,
        frame.column(name).aligned(),
{
    crate::engine::series::generic::lemma_first_exists(frame.names(), name);
    let k = crate::engine::series::generic::first_position(frame.names(), name);
    assert(frame.names()[k] == frame.columns[k].name());
}

impl BlockManager {
    /// A table of the combinations by `func` of every column of `T` with the
    /// column of `T` that `other` holds under the same name. Each keeps the
    /// name and the labels of the column of this store. Columns of other
    /// types, and columns without such a partner, are left out.
    pub fn combine<T: Scalar, F: Fn(T, T) -> T>(&self, other: &DataFrame, func: F) -> (r: DataFrame)
        requires
            frame_pairs_accept::<T, F>(func, self@, other@),
        ensures
            frame_combined::<T, F>(func, self@, other@, r@),
    {
        proof {
            use_type_invariant(self);
            use_type_invariant(&other.block);
        }
        let ghost keep = of_type::<T>();
        let mut out: Vec<Column> = Vec::new();
        let n = self.columns.len();
        let mut i: usize = 0;
        while i < n
            invariant
                i <= n,
                n == self.columns@.len(),
                self@.valid(),
                other@.valid(),
                keep == of_type::<T>(),
                frame_pairs_accept::<T, F>(func, self@, other@),
                out@.len() == parts_upto(self@.columns, other@, keep, i as nat).len(),
                forall|j: int|
                    0 <= j < out@.len() ==> stores_combined(
                        func,
                        self@.columns[parts_upto(self@.columns, other@, keep, i as nat)[j]],
                        other@.column(
                            self@.columns[parts_upto(
                                self@.columns,
                                other@,
                                keep,
                                i as nat,
                            )[j]].name(),
                        ),
                        (#[trigger] out@[j])@,
                    ),
                forall|j: int| 0 <= j < out@.len() ==> (#[trigger] out@[j])@.len() == self@.len,
                picked(
                    names_of(column_views(out@)),
                    self@.names(),
                    parts_upto(self@.columns, other@, keep, i as nat),
                ),
            decreases n - i,
        {
            let ghost parts = parts_upto(self@.columns, other@, keep, i as nat);
            proof {
                lemma_parts(self@.columns, other@, keep, i as nat);
                lemma_parts(self@.columns, other@, keep, (i + 1) as nat);
            }
            let column = &self.columns[i];
            assert(column@ == self@.columns[i as int]);
            let made = match T::pick(column) {
                Some(me) => {
                    proof {
                        T::lemma_stored(me@, column@);
                    }
                    let name = me.get_name();
                    match other.block.get_ref::<T>(name.as_str()) {
                        Some(partner) => {
                            proof {
                                assert(takes_part(self@.columns[i as int], other@, keep));
                                assert(pair_accepts(
                                    func,
                                    self@.columns[i as int],
                                    other@.column(self@.columns[i as int].name()),
                                ));
                            }
                            let combined = me.combine_ref(partner, &func);
                            let ghost view = combined@;
                            let stored = T::wrap(combined);
                            proof {
                                T::lemma_stored(view, column@);
                                if stored is Some {
                                    T::lemma_stored(view, stored->0@);
                                }
                            }
                            stored
                        },
                        None => {
                            assert(!takes_part(self@.columns[i as int], other@, keep));
                            None
                        },
                    }
                },
                None => {
                    assert(!takes_part(self@.columns[i as int], other@, keep));
                    None
                },
            };
            match made {
                Some(col) => {
                    proof {
                        let before = column_views(out@);
                        assert(column_views(out@.push(col)) =~= before.push(col@));
                        assert(names_of(before.push(col@)) =~= names_of(before).push(col@.name()));
                        assert(self@.names()[i as int] == column@.name());
                    }
                    out.push(col);
                },
                None => {},
            }
            i += 1;
        }
        proof {
            lemma_picked_distinct(
                names_of(column_views(out@)),
                self@.names(),
                parts_upto(self@.columns, other@, keep, n as nat),
            );
        }
        let r = BlockManager::from_columns(out);
        DataFrame::from_block(r)
    }

    /// What arithmetic makes of one column and its partner of the same tag,
    /// for the tags that arithmetic works on.
    fn compute_column<A: Fn(Float64, Float64) -> Float64, B: Fn(Float32, Float32) -> Float32>(
        column: &Column,
        rhs: &BlockManager,
        op: Operation,
        wide: &A,
        narrow: &B,
    ) -> (r: Option<Column>)
        requires
            rhs@.valid(),
            takes_part(column@, rhs@, numeric()) ==> column_computable(
                op,
                *wide,
                *narrow,
                column@,
                rhs@.column(column@.name()),
            ),
        ensures
            r is Some <==> takes_part(column@, rhs@, numeric()),
            r matches Some(c) ==> column_computed(
                op,
                *wide,
                *narrow,
                column@,
                rhs@.column(column@.name()),
                c@,
            ) && c@.name() == column@.name() && c@.len() == crate::engine::series::ops::shorter(
                column@.len(),
                rhs@.len,
            ),
    {
        let name = column.name();
        proof {
            if rhs@.has(column@.name()) {
                lemma_column_found(rhs@, column@.name());
            }
        }
        match column {
            Column::I64(a) => match rhs.get_ref::<i64>(name.as_str()) {
                Some(b) => Some(Column::I64(a.arith(b, op))),
                None => None,
            },
            Column::I32(a) => match rhs.get_ref::<i32>(name.as_str()) {
                Some(b) => Some(Column::I32(a.arith(b, op))),
                None => None,
            },
            Column::F64(a) => match rhs.get_ref::<Float64>(name.as_str()) {
                Some(b) => Some(Column::F64(a.zip_with(b, wide))),
                None => None,
            },
            Column::F32(a) => match rhs.get_ref::<Float32>(name.as_str()) {
                Some(b) => Some(Column::F32(a.zip_with(b, narrow))),
                None => None,
            },
            _ => None,
        }
    }

    /// A store of what arithmetic makes of every numeric column and the
    /// column that `rhs` holds under the same name and the same tag, value by
    /// value, at the rows that both tables have. Integers are computed by
    /// `op`; for floating point values `wide` and `narrow` are called, which
    /// the caller chooses to match `op`. Each result keeps the name and the
    /// labels of the column of this store; all other columns are left out.
    pub fn arithmetic<A: Fn(Float64, Float64) -> Float64, B: Fn(Float32, Float32) -> Float32>(
        &self,
        rhs: &BlockManager,
        op: Operation,
        wide: A,
        narrow: B,
    ) -> (r: BlockManager)
        requires
            frame_computable(op, wide, narrow, self@, rhs@),
        ensures
            frame_computed(op, wide, narrow, self@, rhs@, r@),
    {
        proof {
            use_type_invariant(self);
            use_type_invariant(rhs);
        }
        let ghost keep = numeric();
        let mut out: Vec<Column> = Vec::new();
        let n = self.columns.len();
        let mut i: usize = 0;
        while i < n
            invariant
                i <= n,
                n == self.columns@.len(),
                self@.valid(),
                rhs@.valid(),
                keep == numeric(),
                frame_computable(op, wide, narrow, self@, rhs@),
                out@.len() == parts_upto(self@.columns, rhs@, keep, i as nat).len(),
                forall|j: int|
                    0 <= j < out@.len() ==> column_computed(
                        op,
                        wide,
                        narrow,
                        self@.columns[parts_upto(self@.columns, rhs@, keep, i as nat)[j]],
                        rhs@.column(
                            self@.columns[parts_upto(self@.columns, rhs@, keep, i as nat)[j]].name(),
                        ),
                        (#[trigger] out@[j])@,
                    ),
                forall|j: int|
                    0 <= j < out@.len() ==> (#[trigger] out@[j])@.len()
                        == crate::engine::series::ops::shorter(self@.len, rhs@.len),
                picked(
                    names_of(column_views(out@)),
                    self@.names(),
                    parts_upto(self@.columns, rhs@, keep, i as nat),
                ),
            decreases n - i,
        {
            proof {
                lemma_parts(self@.columns, rhs@, keep, i as nat);
                lemma_parts(self@.columns, rhs@, keep, (i + 1) as nat);
            }
            let column = &self.columns[i];
            assert(column@ == self@.columns[i as int]);
            match Self::compute_column(column, rhs, op, &wide, &narrow) {
                Some(col) => {
                    proof {
                        let before = column_views(out@);
                        assert(column_views(out@.push(col)) =~= before.push(col@));
                        assert(names_of(before.push(col@)) =~= names_of(before).push(col@.name()));
                        assert(self@.names()[i as int] == column@.name());
                    }
                    out.push(col);
                },
                None => {},
            }
            i += 1;
        }
        proof {
            lemma_picked_distinct(
                names_of(column_views(out@)),
                self@.names(),
                parts_upto(self@.columns, rhs@, keep, n as nat),
            );
        }
        BlockManager::from_columns(out)
    }
}

/// Arithmetic stays within range on the columns `left` and `right`, where
/// they are columns of integers of one tag: `op` leaves the range of the
/// type nowhere and divides by nothing that is 0.
pub open spec fn column_fits(op: Operation, left: ColumnView, right: ColumnView) -> bool {
    match (left, right) {
        (ColumnView::I64(a), ColumnView::I64(b)) => computable_pairs(op, a.values, b.values),
        (ColumnView::I32(a), ColumnView::I32(b)) => computable_pairs(op, a.values, b.values),
        _ => true,
    }
}

/// Arithmetic stays within range on every column of integers of `before`
/// and its partner in `other`.
pub open spec fn frame_fits(op: Operation, before: FrameView, other: FrameView) -> bool {
    forall|k: int|
        0 <= k < before.columns.len() && takes_part(#[trigger] before.columns[k], other, numeric())
            ==> column_fits(op, before.columns[k], other.column(before.columns[k].name()))
}

/// With functions that may be called on any two floating point values,
/// arithmetic can be done on two tables exactly where it stays within range
/// on their columns of integers.
pub proof fn lemma_fits<A: Fn(Float64, Float64) -> Float64, B: Fn(Float32, Float32) -> Float32>(
    op: Operation,
    wide: A,
    narrow: B,
    before: FrameView,
    other: FrameView,
)
    requires
        accepts_any_pair(wide),
        accepts_any_pair(narrow),
    ensures
        frame_fits(op, before, other) <==> frame_computable(op, wide, narrow, before, other),
{
    if frame_fits(op, before, other) {
        assert forall|k: int|
            0 <= k < before.columns.len() && takes_part(
                #[trigger] before.columns[k],
                other,
                numeric(),
            ) implies column_computable(
            op,
            wide,
            narrow,
            before.columns[k],
            other.column(before.columns[k].name()),
        ) by {
            assert(column_fits(op, before.columns[k], other.column(before.columns[k].name())));
        }
    }
    if frame_computable(op, wide, narrow, before, other) {
        assert forall|k: int|
            0 <= k < before.columns.len() && takes_part(
                #[trigger] before.columns[k],
                other,
                numeric(),
            ) implies column_fits(op, before.columns[k], other.column(before.columns[k].name())) by {
            assert(column_computable(
                op,
                wide,
                narrow,
                before.columns[k],
                other.column(before.columns[k].name()),
            ));
        }
    }
}

impl BlockManager {
    /// Whether arithmetic stays within range on one column and its partner.
    fn column_can(column: &Column, rhs: &BlockManager, op: Operation) -> (b: bool)
        requires
            rhs@.valid(),
        ensures
            b == (takes_part(column@, rhs@, numeric()) ==> column_fits(
                op,
                column@,
                rhs@.column(column@.name()),
            )),
    {
        let name = column.name();
        match column {
            Column::I64(a) => match rhs.get_ref::<i64>(name.as_str()) {
                Some(b) => a.can_arith(b, op),
                None => true,
            },
            Column::I32(a) => match rhs.get_ref::<i32>(name.as_str()) {
                Some(b) => a.can_arith(b, op),
                None => true,
            },
            _ => true,
        }
    }

    /// Whether arithmetic stays within range on every column of integers
    /// and its partner in `rhs`: see [`frame_fits`].
    pub fn can_compute(&self, rhs: &BlockManager, op: Operation) -> (b: bool)
        ensures
            b == frame_fits(op, self@, rhs@),
    {
        proof {
            use_type_invariant(rhs);
        }
        let n = self.columns.len();
        let mut i: usize = 0;
        while i < n
            invariant
                i <= n,
                n == self.columns@.len(),
                rhs@.valid(),
                forall|k: int|
                    0 <= k < i && takes_part(#[trigger] self@.columns[k], rhs@, numeric())
                        ==> column_fits(op, self@.columns[k], rhs@.column(self@.columns[k].name())),
            decreases n - i,
        {
            let column = &self.columns[i];
            assert(column@ == self@.columns[i as int]);
            if !Self::column_can(column, rhs, op) {
                assert(takes_part(self@.columns[i as int], rhs@, numeric()));
                return false;
            }
            i += 1;
        }
        true
    }

    /// What arithmetic makes of the two stores, as [`BlockManager::arithmetic`]
    /// tells; `None` where a result leaves the range of its type or a
    /// divisor is 0.
    pub fn checked_arithmetic<A: Fn(Float64, Float64) -> Float64, B: Fn(Float32, Float32) -> Float32>(
        &self,
        rhs: &BlockManager,
        op: Operation,
        wide: A,
        narrow: B,
    ) -> (r: Option<BlockManager>)
        requires
            accepts_any_pair(wide),
            accepts_any_pair(narrow),
        ensures
            r is Some <==> frame_fits(op, self@, rhs@),
            r matches Some(made) ==> frame_computed(op, wide, narrow, self@, rhs@, made@),
    {
        proof {
            lemma_fits(op, wide, narrow, self@, rhs@);
        }
        if self.can_compute(rhs, op) {
            Some(self.arithmetic(rhs, op, wide, narrow))
        } else {
            None
        }
    }
}

} // verus!

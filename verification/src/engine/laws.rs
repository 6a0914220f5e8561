//! What holds of columns and tables whatever is done with them.
use vstd::prelude::*;
use crate::engine::block_manager::{lemma_names_push, names_of, FrameView};
use crate::engine::series::errors::SeriesErrors;
use crate::engine::series::generic::combination;
use crate::engine::series::{ColumnView, Float32, Float64, Scalar, SeriesView};
use crate::enums::{DataFrameErrorsView, DataTypes};
use crate::text::decimal;

verus! {

/// Every element type that the library provides has its own tag, and the
/// tags of the types that tables store differ from each other.
pub proof fn lemma_tags()
    ensures
        <Float64 as Scalar>::tag() == DataTypes::F64,
        <Float32 as Scalar>::tag() == DataTypes::F32,
        <i64 as Scalar>::tag() == DataTypes::I64,
        <i32 as Scalar>::tag() == DataTypes::I32,
        <String as Scalar>::tag() == DataTypes::STRING,
        <&'static str as Scalar>::tag() == DataTypes::STR,
        <bool as Scalar>::tag() == DataTypes::BOOL,
        <usize as Scalar>::tag() == DataTypes::OBJECT,
        <u64 as Scalar>::tag() == DataTypes::OBJECT,
        <i128 as Scalar>::tag() == DataTypes::OBJECT,
{
}

/// A stored column carries the tag of its element type, and none carries
/// [`DataTypes::OBJECT`].
pub proof fn lemma_stored_tag<T: Scalar>(col: ColumnView, series: SeriesView<T>)
    requires
        T::project(col) == Some(series),
    ensures
        col.tag() == T::tag(),
        col.tag().is_supported(),
{
    T::lemma_stored(series, col);
}

/// The column made of a sequence of values holds exactly these values, in
/// their order, and one label for each.
pub proof fn lemma_round_trip<T>(values: Seq<T>)
    ensures
        SeriesView::from_values(values).values == values,
        SeriesView::from_values(values).aligned(),
{
}

impl FrameView {
    /// What the table answers to the offer of the stored column `col`: see
    /// [`FrameView::admitted_name`] and [`FrameView::with_column`].
    pub open spec fn offer(self, col: ColumnView, preserve: bool) -> Result<Self, DataFrameErrorsView> {
        match self.admitted_name(col.name(), col.len(), preserve) {
            Ok(name) => Ok(self.with_column(col.renamed(name))),
            Err(e) => Err(e),
        }
    }

    /// The table after the first `n` of the given offers, each of a column
    /// and of whether its name is to be preserved. A column that is refused
    /// leaves the table as it was.
    pub open spec fn after_offers(self, offers: Seq<(ColumnView, bool)>, n: nat) -> Self
        decreases n,
    {
        if n == 0 {
            self
        } else {
            let before = self.after_offers(offers, (n - 1) as nat);
            match before.offer(offers[n - 1].0, offers[n - 1].1) {
                Ok(after) => after,
                Err(_) => before,
            }
        }
    }
}

/// Renaming a column changes nothing but its name.
pub proof fn lemma_renamed(col: ColumnView, name: Seq<char>)
    ensures
        col.renamed(name).name() == name,
        col.renamed(name).len() == col.len(),
        col.renamed(name).index() == col.index(),
        col.renamed(name).tag() == col.tag(),
        col.renamed(name).aligned() == col.aligned(),
{
}

/// A valid table that takes in a column stays valid and keeps its number
/// of rows, unless it held no column; a column of another length is refused.
pub proof fn lemma_offer(frame: FrameView, col: ColumnView, preserve: bool)
    requires
        frame.valid(),
        col.aligned(),
    ensures
        frame.offer(col, preserve) matches Ok(after) ==> after.valid() && after.columns.len()
            == frame.columns.len() + 1 && (frame.columns.len() > 0 ==> after.len == frame.len
            && after.index == frame.index) && after.columns.last().len() == after.len,
        frame.columns.len() > 0 && col.len() != frame.len ==> frame.offer(col, preserve) is Err,
{
    match frame.admitted_name(col.name(), col.len(), preserve) {
        Ok(name) => {
            let named = col.renamed(name);
            lemma_renamed(col, name);
            let after = frame.with_column(named);
            if frame.columns.len() == 0 {
                assert(names_of(seq![named]) =~= seq![name]);
            } else {
                lemma_names_push(frame.columns, named);
                assert(!frame.names().contains(name));
            }
        },
        Err(_) => {},
    }
}

/// What the table takes in under the type `T` is what it takes in as a
/// stored column, and a column that tables do not store leaves it unchanged.
pub proof fn lemma_insert<T: Scalar>(frame: FrameView, series: SeriesView<T>, preserve: bool)
    requires
        frame.valid(),
        series.aligned(),
    ensures
        frame.insert(series, preserve) matches Ok(after) ==> after.valid() && (frame.columns.len()
            > 0 ==> after.len == frame.len && after.index == frame.index),
        frame.columns.len() > 0 && series.values.len() != frame.len ==> frame.insert(
            series,
            preserve,
        ) is Err,
        !T::tag().is_supported() ==> (frame.insert(series, preserve) matches Ok(after) ==> after
            == frame),
{
    match frame.admitted_name(series.name, series.values.len(), preserve) {
        Ok(name) => {
            let named = series.renamed(name);
            match T::embed(named) {
                Some(col) => {
                    T::lemma_stored(named, col);
                    if frame.columns.len() == 0 {
                        assert(names_of(seq![col]) =~= seq![name]);
                    } else {
                        lemma_names_push(frame.columns, col);
                        assert(!frame.names().contains(name));
                    }
                },
                None => {
                    T::lemma_stored(named, arbitrary());
                },
            }
        },
        Err(_) => {},
    }
}

/// Whatever columns a table without columns is offered, one after the
/// other, it stays valid, and all the columns that it holds have the length
/// of the first column that it took in.
pub proof fn lemma_length_invariant(offers: Seq<(ColumnView, bool)>, n: nat)
    requires
        n <= offers.len(),
        forall|k: int| 0 <= k < offers.len() ==> (#[trigger] offers[k]).0.aligned(),
    ensures
        FrameView::empty().after_offers(offers, n).valid(),
        forall|i: int|
            0 <= i < FrameView::empty().after_offers(offers, n).columns.len()
                ==> (#[trigger] FrameView::empty().after_offers(offers, n).columns[i]).len()
                == FrameView::empty().after_offers(offers, n).columns[0].len(),
    decreases n,
{
    if n == 0 {
        assert(names_of(Seq::<ColumnView>::empty()) =~= Seq::empty());
    } else {
        lemma_length_invariant(offers, (n - 1) as nat);
        let before = FrameView::empty().after_offers(offers, (n - 1) as nat);
        lemma_offer(before, offers[n - 1].0, offers[n - 1].1);
    }
}

/// A column whose name is taken is named by the number of columns that the
/// table holds, and refused where that name is taken too.
pub proof fn lemma_collision(frame: FrameView, name: Seq<char>, len: nat)
    requires
        frame.has(name),
        len == frame.len,
    ensures
        frame.admitted_name(name, len, true) == if frame.has(decimal(frame.columns.len())) {
            Err::<Seq<char>, DataFrameErrorsView>(
                DataFrameErrorsView::ColumnNameErrors(decimal(frame.columns.len())),
            )
        } else {
            Ok(decimal(frame.columns.len()))
        },
{
}

/// No table holds a column with the tag [`DataTypes::OBJECT`]: a copy of a
/// table, which holds the same columns, holds none either.
pub proof fn lemma_no_unsupported(frame: FrameView, i: int)
    requires
        0 <= i < frame.columns.len(),
    ensures
        frame.columns[i].tag().is_supported(),
{
}

/// Two columns of different lengths are never combined: the attempt gives
/// no column, neither one cut to the shorter length nor one filled to the
/// longer, but the error that holds both lengths.
pub proof fn lemma_unequal_not_combined<T, F: Fn(T, T) -> T>(
    func: F,
    left: SeriesView<T>,
    right: SeriesView<T>,
    outcome: Result<SeriesView<T>, SeriesErrors>,
)
    requires
        combination(func, left, right, outcome),
        left.values.len() != right.values.len(),
    ensures
        outcome matches Err(e) && e == SeriesErrors::MatrixUnaligned(
            left.values.len() as usize,
            right.values.len() as usize,
        ),
{
}

/// A column that the combination of two columns gives has the length of
/// both of them.
pub proof fn lemma_combined_length<T, F: Fn(T, T) -> T>(
    func: F,
    left: SeriesView<T>,
    right: SeriesView<T>,
    outcome: Result<SeriesView<T>, SeriesErrors>,
)
    requires
        combination(func, left, right, outcome),
        outcome is Ok,
    ensures
        outcome->Ok_0.values.len() == left.values.len(),
        outcome->Ok_0.values.len() == right.values.len(),
{
}

} // verus!

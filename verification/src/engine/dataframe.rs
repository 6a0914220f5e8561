//! The table: named columns of one length, of types that may differ.
use vstd::prelude::*;
use crate::engine::block_manager::bulk::{
    assigned, frame_accepts, frame_mapped, frame_mapped_in_place, frame_masked, frame_transformed,
    group,
};
use crate::engine::block_manager::format::Grid;
use crate::engine::block_manager::manager::{reduced, reducible, uniform};
use crate::engine::block_manager::ops::{frame_combined, frame_pairs_accept};
use crate::engine::block_manager::{BlockManager, FrameView};
use crate::engine::series::generic::{accepts_all, first_position};
use crate::engine::series::{Scalar, Series, SeriesView};
use crate::enums::{DataFrameErrors, DataTypes};

pub mod construct;
pub mod generics;
pub mod ints;
pub mod ops;
pub mod stats;

verus! {

/// A table of named columns of one length. It is a thin owner of its store.
pub struct DataFrame {
    pub(crate) block: BlockManager,
}

impl View for DataFrame {
    type V = FrameView;

    open(crate) spec fn view(&self) -> FrameView {
        self.block@
    }
}

impl Clone for DataFrame {
    /// A copy of the table: every column with its name, its labels and its values.
    fn clone(&self) -> (r: Self)
        ensures
            r@ == self@,
    {
        DataFrame { block: self.block.duplicate() }
    }
}

impl Clone for BlockManager {
    /// A copy of the store: every column with its name, its labels and its values.
    fn clone(&self) -> (r: Self)
        ensures
            r@ == self@,
    {
        self.duplicate()
    }
}

impl Default for DataFrame {
    /// The table without columns.
    fn default() -> (r: Self)
        ensures
            r@ == FrameView::empty(),
    {
        DataFrame::new()
    }
}

impl Default for BlockManager {
    /// The store without columns.
    fn default() -> (r: Self)
        ensures
            r@ == FrameView::empty(),
    {
        BlockManager::new()
    }
}

impl DataFrame {
    /// The table without columns.
    pub fn new() -> (r: DataFrame)
        ensures
            r@ == FrameView::empty(),
    {
        DataFrame { block: BlockManager::new() }
    }

    /// The table that owns the given store.
    pub fn from_block(mgr: BlockManager) -> (r: DataFrame)
        ensures
            r@ == mgr@,
    {
        DataFrame { block: mgr }
    }

    /// The number of rows; 0 for a table without columns.
    pub fn len(&self) -> (n: usize)
        ensures
            n == self@.row_count(),
    {
        self.block.rows()
    }

    /// The number of columns.
    pub fn width(&self) -> (n: usize)
        ensures
            n == self@.columns.len(),
            self@.valid(),
    {
        self.block.width()
    }

    /// Takes in a column; see [`BlockManager::add_series`].
    ///
    /// With `preserve_names` the column keeps its name where that is free;
    /// else, and where the name is taken, it is named by the number of
    /// columns that the table holds. A column of another length than the
    /// table's, or one whose new name is taken too, is refused and leaves the
    /// table as it was.
    pub fn add_series<T: Scalar>(&mut self, other: Series<T>, preserve_names: bool) -> (r: Result<
        (),
        DataFrameErrors,
    >)
        ensures
            match old(self)@.insert(other@, preserve_names) {
                Ok(after) => r is Ok && final(self)@ == after,
                Err(e) => r matches Err(x) && x@ == e && final(self)@ == old(self)@,
            },
    {
        self.block.add_series(other, preserve_names)
    }

    /// One value for every row (with `axis`) or for every column (without)
    /// of the columns of `T`: what `func` returns for the values of that row
    /// or column. `None` where the table holds no column of `T`.
    pub fn apply<T: Scalar, F: Fn(Vec<T>) -> T>(&self, axis: bool, func: F) -> (r: Option<Series<T>>)
        requires
            reducible(func, group::<T>(self@).axis_inputs(axis)),
        ensures
            r is Some <==> self@.typed::<T>().len() > 0,
            r matches Some(s) ==> reduced(func, group::<T>(self@).axis_inputs(axis), s@.values)
                && s@ == SeriesView::from_values(s@.values),
    {
        self.block.apply(func, axis)
    }

    /// A table of the columns of `T`, each with what `func` returns for its
    /// values in place of the values. Columns of other types are left out.
    pub fn apply_map<T: Scalar, F: Fn(T) -> T>(&self, func: F) -> (r: DataFrame)
        requires
            frame_accepts::<T, T, F>(func, self@),
        ensures
            frame_mapped::<T, F>(func, self@, r@),
    {
        self.block.apply_map::<T, F>(func)
    }

    /// As [`DataFrame::apply_map`], with the columns handed out to worker threads.
    pub fn par_apply_map<T: Scalar + Send + Sync, F: Fn(T) -> T + Send + Sync>(&self, func: F) -> (r:
        DataFrame)
        requires
            frame_accepts::<T, T, F>(func, self@),
        ensures
            frame_mapped::<T, F>(func, self@, r@),
    {
        self.block.par_apply_map::<T, F>(func)
    }

    /// Puts what `func` returns for each value in place of the value, in
    /// every column of `T`. All else stays.
    pub fn apply_map_inplace<T: Scalar, F: Fn(T) -> T>(&mut self, func: F)
        requires
            frame_accepts::<T, T, F>(func, old(self)@),
        ensures
            frame_mapped_in_place::<T, F>(func, old(self)@, final(self)@),
    {
        self.block.apply_map_inplace::<T, F>(func)
    }

    /// A copy of the table with one more column: the column `key`, with what
    /// `func` returns for its values in place of the values, taken in as
    /// `name`. Fails with a key error where the table does not hold `key` as
    /// a column of `T`.
    pub fn assign<T: Scalar, F: Fn(T) -> T>(&self, key: &str, name: &str, func: F) -> (r: Result<
        DataFrame,
        DataFrameErrors,
    >)
        requires
            self@.typed_column::<T>(key@) matches Some(s) ==> accepts_all(func, s.values),
        ensures
            assigned::<T, F>(
                func,
                self@,
                key@,
                name@,
                match r {
                    Ok(m) => Ok(m@),
                    Err(e) => Err(e@),
                },
            ),
    {
        match self.block.assign::<T, F>(key, name, func) {
            Ok(block) => Ok(DataFrame::from_block(block)),
            Err(err) => Err(err),
        }
    }

    /// As [`DataFrame::assign`], but the table itself takes in the new
    /// column. A failure leaves the table as it was.
    pub fn assign_inplace<T: Scalar, F: Fn(T) -> T>(&mut self, key: &str, name: &str, func: F) -> (r:
        Result<(), DataFrameErrors>)
        requires
            old(self)@.typed_column::<T>(key@) matches Some(s) ==> accepts_all(func, s.values),
        ensures
            assigned::<T, F>(
                func,
                old(self)@,
                key@,
                name@,
                match r {
                    Ok(_) => Ok(final(self)@),
                    Err(e) => Err(e@),
                },
            ),
            r is Err ==> final(self)@ == old(self)@,
    {
        self.block.assign_inplace::<T, F>(key, name, func)
    }

    /// The value in the column `loc.0` at the row labelled `loc.1`, if the
    /// table holds that column as a column of `T`.
    pub fn at<T: Scalar>(&self, loc: (&str, &str)) -> (r: Option<T>)
        requires
            self@.typed_column::<T>(loc.0@) matches Some(s) ==> s.index.contains(loc.1@),
        ensures
            match self@.typed_column::<T>(loc.0@) {
                Some(s) => r == Some(s.values[first_position(s.index, loc.1@)]),
                None => r is None,
            },
    {
        self.block.at::<T>(loc)
    }

    /// A table of the combinations by `func` of every column of `T` with the
    /// column of `T` that `other` holds under the same name.
    pub fn combine<T: Scalar, F: Fn(T, T) -> T>(&self, other: &DataFrame, func: F) -> (r: DataFrame)
        requires
            frame_pairs_accept::<T, F>(func, self@, other@),
        ensures
            frame_combined::<T, F>(func, self@, other@, r@),
    {
        self.block.combine::<T, F>(other, func)
    }

    /// The name and the tag of every column, in presentation order.
    pub fn dtypes(&self) -> (r: Vec<(String, DataTypes)>)
        ensures
            r@.len() == self@.columns.len(),
            forall|i: int|
                0 <= i < r@.len() ==> (#[trigger] r@[i]).0@ == self@.columns[i].name() && r@[i].1
                    == self@.columns[i].tag(),
    {
        self.block.dtypes()
    }

    /// A copy of the column named `col`, if the table holds it as a column
    /// of `T`: there is a column of that name, and its tag is the tag of `T`.
    pub fn get<T: Scalar>(&self, col: &str) -> (r: Option<Series<T>>)
        ensures
            match self@.typed_column::<T>(col@) {
                Some(s) => r matches Some(found) && found@ == s,
                None => r is None,
            },
            r is Some <==> self@.has(col@) && self@.tag_of(col@) == T::tag(),
    {
        self.block.get::<T>(col)
    }

    /// The first `n` rows as they are shown, below the titles.
    pub fn head(&self, n: usize) -> (table: Grid)
        requires
            n <= self@.row_count(),
        ensures
            table@.titles == self@.titles(),
            table@.rows == self@.rows(0, n as int),
    {
        self.block.head(n)
    }

    /// The first `n` rows as they are shown, below the titles; nothing where
    /// the table has fewer than `n` rows.
    pub fn try_head(&self, n: usize) -> (r: Option<Grid>)
        ensures
            r is Some <==> n <= self@.row_count(),
            r matches Some(table) ==> table@.titles == self@.titles() && table@.rows == self@.rows(
                0,
                n as int,
            ),
    {
        self.block.try_head(n)
    }

    /// The last `n` rows as they are shown, below the titles; nothing where
    /// the table has fewer than `n` rows.
    pub fn try_tail(&self, n: usize) -> (r: Option<Grid>)
        ensures
            r is Some <==> n <= self@.row_count(),
            r matches Some(table) ==> table@.titles == self@.titles() && table@.rows == self@.rows(
                self@.row_count() - n,
                self@.row_count() as int,
            ),
    {
        self.block.try_tail(n)
    }

    /// The grid that [`DataFrame::head`] gives, for display in a notebook.
    pub fn head_ecvxr(&self, n: usize) -> (table: Grid)
        requires
            n <= self@.row_count(),
        ensures
            table@.titles == self@.titles(),
            table@.rows == self@.rows(0, n as int),
    {
        self.block.head_evcxr(n)
    }

    /// Puts `value` in place of every value of a column of `T` for which
    /// `cond` answers `true`. All else stays.
    pub fn mask<T: Scalar, F: Fn(T) -> bool>(&mut self, value: T, cond: F)
        requires
            frame_accepts::<T, bool, F>(cond, old(self)@),
        ensures
            frame_masked::<T, F>(cond, value, old(self)@, final(self)@),
    {
        self.block.mask::<T, F>(value, cond)
    }

    /// The last `n` rows as they are shown, below the titles.
    pub fn tail(&self, n: usize) -> (table: Grid)
        requires
            n <= self@.row_count(),
        ensures
            table@.titles == self@.titles(),
            table@.rows == self@.rows(self@.row_count() - n, self@.row_count() as int),
    {
        self.block.tail(n)
    }

    /// The grid that [`DataFrame::tail`] gives, for display in a notebook.
    pub fn tail_evcxr(&self, n: usize) -> (table: Grid)
        requires
            n <= self@.row_count(),
        ensures
            table@.titles == self@.titles(),
            table@.rows == self@.rows(self@.row_count() - n, self@.row_count() as int),
    {
        self.block.tail_evcxr(n)
    }

    /// The table as it is shown: whole, or, where it has more than ten
    /// rows, its first and last five rows around a row of dots. With
    /// `debug`, an empty line and the tags of the columns follow.
    pub fn real_formatter(&self, debug: bool) -> (table: Grid)
        ensures
            table@ == self@.rendered(debug),
    {
        self.block.real_formatter(debug)
    }

    /// The line that tells the size of the table, for a table of fifty rows or more.
    pub fn footer(&self, debug: bool) -> (r: Option<String>)
        ensures
            r is Some <==> self@.row_count() >= crate::engine::block_manager::format::SUMMARY_FROM,
            r matches Some(s) ==> s@ == self@.summary(debug),
    {
        self.block.footer(debug)
    }

    /// The column named `key`, if the table holds it as a column of `T`.
    pub fn get_series<T: Scalar>(&self, key: &str) -> (r: Option<&Series<T>>)
        ensures
            match self@.typed_column::<T>(key@) {
                Some(s) => r matches Some(found) && found@ == s,
                None => r is None,
            },
            r is Some <==> self@.has(key@) && self@.tag_of(key@) == T::tag(),
    {
        self.block.get_ref(key)
    }

    /// A table with one column for every row (with `axis`) or for every
    /// column (without) of the columns of `T`: of the values that `func`
    /// returns for the values of that row or column. `None` where the table
    /// holds no column of `T`.
    pub fn transform<T: Scalar, P: Scalar, F: Fn(Vec<T>) -> Vec<P>>(&self, axis: bool, func: F) -> (r:
        Option<DataFrame>)
        requires
            reducible(func, group::<T>(self@).axis_inputs(axis)),
            uniform(func, group::<T>(self@).axis_inputs(axis)),
        ensures
            r is Some <==> self@.typed::<T>().len() > 0,
            r matches Some(df) ==> frame_transformed::<T, P, F>(
                func,
                group::<T>(self@).axis_inputs(axis),
                df@,
            ),
    {
        self.block.transform::<T, P, F>(func, axis)
    }
}

} // verus!

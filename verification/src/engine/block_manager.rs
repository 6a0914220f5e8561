//! The store of a table: its columns, its row count and its row labels.
use vstd::prelude::*;
use vstd::string::StringExecFns;
use crate::engine::block_manager::manager::{series_views, Block};
use crate::engine::series::generic::{first_position, is_first, lemma_first_position};
use crate::engine::series::{Column, ColumnView, Scalar, Series, SeriesView};
use crate::enums::{DataFrameErrors, DataFrameErrorsView, DataTypes};
use crate::text::{decimal, texts, usize_to_string};

pub mod bulk;
pub mod column;
pub mod format;
pub mod manager;
pub mod ops;
pub mod shape;
pub mod stats;
pub mod truth;

verus! {

/// What a table stands for: its columns in the order in which they are
/// shown, the number of rows, and the labels of the rows.
pub struct FrameView {
    /// The columns, in presentation order.
    pub columns: Seq<ColumnView>,
    /// The number of rows. Meaningful while the table holds a column.
    pub len: nat,
    /// The labels of the rows. Meaningful while the table holds a column.
    pub index: Seq<Seq<char>>,
}

/// The names of a sequence of columns.
pub open spec fn names_of(columns: Seq<ColumnView>) -> Seq<Seq<char>> {
    columns.map_values(|c: ColumnView| c.name())
}

/// The name under which a table of `rows` rows, whose columns are named
/// `names`, takes in a column of `len` values that is offered as `name`, or
/// the reason for which it refuses the column.
///
/// A table that holds columns refuses one of another length. A column
/// whose name is taken, or whose name is not to be preserved, is named by
/// the number of columns that the table holds; if that name is taken too,
/// the column is refused.
pub open spec fn admitted(names: Seq<Seq<char>>, rows: nat, name: Seq<char>, len: nat, preserve: bool) -> Result<
    Seq<char>,
    DataFrameErrorsView,
> {
    if names.len() > 0 && len != rows {
        Err(DataFrameErrorsView::DifferentLength(len, rows))
    } else if names.contains(name) || !preserve {
        let number = decimal(names.len());
        if names.contains(number) {
            Err(DataFrameErrorsView::ColumnNameErrors(number))
        } else {
            Ok(number)
        }
    } else {
        Ok(name)
    }
}

impl FrameView {
    /// The table without columns.
    pub open spec fn empty() -> Self {
        FrameView { columns: Seq::empty(), len: 0, index: Seq::empty() }
    }

    /// The table that holds the given columns: its rows are counted and
    /// labelled as the first of them is.
    pub open spec fn of_columns(columns: Seq<ColumnView>) -> Self {
        if columns.len() == 0 {
            Self::empty()
        } else {
            FrameView { columns, len: columns[0].len(), index: columns[0].index() }
        }
    }

    /// The names of the columns, in presentation order.
    pub open spec fn names(self) -> Seq<Seq<char>> {
        names_of(self.columns)
    }

    /// What holds of every table: no two columns share a name, every column
    /// has as many values as the table has rows and a label for each, and the
    /// table has a label for every row.
    pub open spec fn valid(self) -> bool {
        &&& self.names().no_duplicates()
        &&& forall|i: int|
            0 <= i < self.columns.len() ==> (#[trigger] self.columns[i]).len() == self.len
                && self.columns[i].aligned()
        &&& self.columns.len() > 0 ==> self.index.len() == self.len
    }

    /// Whether a column is named `name`.
    pub open spec fn has(self, name: Seq<char>) -> bool {
        self.names().contains(name)
    }

    /// The column named `name`. Meaningful where there is one.
    pub open spec fn column(self, name: Seq<char>) -> ColumnView {
        self.columns[first_position(self.names(), name)]
    }

    /// The tag of the column named `name`. Meaningful where there is one.
    pub open spec fn tag_of(self, name: Seq<char>) -> DataTypes {
        self.column(name).tag()
    }

    /// The column named `name`, if the table holds it as a column of `T`.
    pub open spec fn typed_column<T: Scalar>(self, name: Seq<char>) -> Option<SeriesView<T>> {
        if self.has(name) {
            T::project(self.column(name))
        } else {
            None
        }
    }

    /// The name under which the table takes in a column of `len` values that
    /// is offered as `name`, or the reason for which it refuses the column:
    /// see [`admitted`].
    pub open spec fn admitted_name(self, name: Seq<char>, len: nat, preserve: bool) -> Result<
        Seq<char>,
        DataFrameErrorsView,
    > {
        admitted(self.names(), self.len, name, len, preserve)
    }

    /// The table with `col` as its last column. The first column of a table
    /// sets the number of rows and their labels.
    pub open spec fn with_column(self, col: ColumnView) -> Self {
        if self.columns.len() == 0 {
            FrameView { columns: seq![col], len: col.len(), index: col.index() }
        } else {
            FrameView { columns: self.columns.push(col), ..self }
        }
    }

    /// The table after it has taken in `series`: with the column behind the
    /// others, or unchanged where tables do not store columns of `T`.
    pub open spec fn with_series<T: Scalar>(self, series: SeriesView<T>) -> Self {
        match T::embed(series) {
            Some(col) => self.with_column(col),
            None => self,
        }
    }

    /// The table after the attempt to take in `series`: see
    /// [`FrameView::admitted_name`] and [`FrameView::with_series`].
    pub open spec fn insert<T: Scalar>(self, series: SeriesView<T>, preserve: bool) -> Result<
        Self,
        DataFrameErrorsView,
    > {
        match self.admitted_name(series.name, series.values.len(), preserve) {
            Ok(name) => Ok(self.with_series(series.renamed(name))),
            Err(e) => Err(e),
        }
    }
}

/// Of the first `n` of `columns`, those of element type `T`, in order.
pub open spec fn typed_upto<T: Scalar>(columns: Seq<ColumnView>, n: nat) -> Seq<SeriesView<T>>
    decreases n,
{
    if n == 0 {
        Seq::empty()
    } else {
        let before = typed_upto::<T>(columns, (n - 1) as nat);
        match T::project(columns[n - 1]) {
            Some(s) => before.push(s),
            None => before,
        }
    }
}

/// `picks` names, in rising order, the positions in `source` from which the
/// columns of `out` have their names.
pub open spec fn picked(out: Seq<Seq<char>>, source: Seq<Seq<char>>, picks: Seq<int>) -> bool {
    &&& picks.len() == out.len()
    &&& forall|k: int|
        0 <= k < picks.len() ==> 0 <= #[trigger] picks[k] < source.len() && out[k]
            == source[picks[k]]
    &&& forall|a: int, b: int| 0 <= a < b < picks.len() ==> #[trigger] picks[a] < #[trigger] picks[b]
}

/// Names picked from different positions of a list without duplicates are different.
pub proof fn lemma_picked_distinct(out: Seq<Seq<char>>, source: Seq<Seq<char>>, picks: Seq<int>)
    requires
        picked(out, source, picks),
        source.no_duplicates(),
    ensures
        out.no_duplicates(),
{
    assert forall|a: int, b: int| 0 <= a < out.len() && 0 <= b < out.len() && a != b implies out[a]
        != out[b] by {
        if a < b {
            assert(picks[a] < picks[b]);
        } else {
            assert(picks[b] < picks[a]);
        }
        assert(source[picks[a]] != source[picks[b]]);
    }
}

impl FrameView {
    /// The columns of element type `T`, in presentation order.
    pub open spec fn typed<T: Scalar>(self) -> Seq<SeriesView<T>> {
        typed_upto::<T>(self.columns, self.columns.len())
    }
}

/// The store of a table. It owns the columns, knows each by its name and its
/// tag, and keeps them all of one length.
pub struct BlockManager {
    pub(crate) columns: Vec<Column>,
    pub(crate) len: usize,
    pub(crate) index: Vec<String>,
}

/// The views of a sequence of stored columns.
pub open spec fn column_views(columns: Seq<Column>) -> Seq<ColumnView> {
    columns.map_values(|c: Column| c@)
}

impl View for BlockManager {
    type V = FrameView;

    open(crate) spec fn view(&self) -> FrameView {
        FrameView {
            columns: column_views(self.columns@),
            len: self.len as nat,
            index: texts(self.index@),
        }
    }
}

impl BlockManager {
    /// A store is always a valid table.
    #[verifier::type_invariant]
    pub open(crate) spec fn wf(&self) -> bool {
        self@.valid()
    }

    /// The store without columns.
    pub fn new() -> (r: Self)
        ensures
            r@ == FrameView::empty(),
    {
        let r = BlockManager { columns: Vec::new(), len: 0, index: Vec::new() };
        assert(r@.columns =~= Seq::empty());
        assert(r@.index =~= Seq::empty());
        assert(names_of(r@.columns) =~= Seq::empty());
        r
    }

    /// The position of the column named `name`.
    pub(crate) fn find(&self, name: &str) -> (r: Option<usize>)
        ensures
            r is Some <==> self@.has(name@),
            r matches Some(i) ==> is_first(self@.names(), name@, i as int) && i as int
                == first_position(self@.names(), name@) && i < self@.columns.len(),
    {
        let wanted = String::from_str(name);
        let n = self.columns.len();
        let mut i: usize = 0;
        while i < n
            invariant
                i <= n,
                n == self.columns@.len(),
                wanted@ == name@,
                forall|j: int| 0 <= j < i ==> self@.names()[j] != name@,
            decreases n - i,
        {
            let current = self.columns[i].name();
            if current == wanted {
                proof {
                    assert(self@.names()[i as int] == name@);
                    lemma_first_position(self@.names(), name@, i as int);
                }
                return Some(i);
            }
            i += 1;
        }
        proof {
            if self@.has(name@) {
                let k = choose|k: int| 0 <= k < self@.names().len() && self@.names()[k] == name@;
                assert(self@.names()[k] != name@);
            }
        }
        None
    }

    /// The number of rows; 0 for a store without columns.
    pub fn rows(&self) -> (n: usize)
        ensures
            self@.columns.len() > 0 ==> n == self@.len,
            self@.columns.len() == 0 ==> n == 0,
    {
        if self.columns.len() == 0 {
            0
        } else {
            self.len
        }
    }

    /// The number of columns.
    pub fn width(&self) -> (n: usize)
        ensures
            n == self@.columns.len(),
            self@.valid(),
    {
        proof {
            use_type_invariant(self);
        }
        self.columns.len()
    }

    /// The store of the given columns; its rows are counted and labelled as
    /// the first column is.
    pub(crate) fn from_columns(columns: Vec<Column>) -> (r: Self)
        requires
            names_of(column_views(columns@)).no_duplicates(),
            forall|i: int|
                0 <= i < columns@.len() ==> (#[trigger] columns@[i])@.len() == columns@[0]@.len(),
        ensures
            r@ == FrameView::of_columns(column_views(columns@)),
    {
        if columns.len() == 0 {
            let r = BlockManager::new();
            assert(column_views(columns@) =~= Seq::empty());
            r
        } else {
            let len = columns[0].len();
            let index = columns[0].index();
            let n = columns.len();
            let mut i: usize = 0;
            while i < n
                invariant
                    i <= n,
                    n == columns@.len(),
                    forall|k: int| 0 <= k < i ==> (#[trigger] columns@[k])@.aligned(),
                decreases n - i,
            {
                let _ = columns[i].len();
                i += 1;
            }
            assert(column_views(columns@)[0] == columns@[0]@);
            BlockManager { columns, len, index }
        }
    }

    /// A copy of the store: every column with its name, its labels and its values.
    pub fn duplicate(&self) -> (r: Self)
        ensures
            r@ == self@,
    {
        proof {
            use_type_invariant(self);
        }
        let mut columns: Vec<Column> = Vec::new();
        let n = self.columns.len();
        let mut i: usize = 0;
        while i < n
            invariant
                i <= n,
                n == self.columns@.len(),
                column_views(columns@) == column_views(self.columns@).take(i as int),
            decreases n - i,
        {
            let ghost before = column_views(columns@);
            columns.push(self.columns[i].duplicate());
            proof {
                assert(column_views(columns@) =~= before.push(self.columns@[i as int]@));
                assert(column_views(self.columns@).take(i + 1) =~= column_views(
                    self.columns@,
                ).take(i as int).push(self.columns@[i as int]@));
            }
            i += 1;
        }
        proof {
            assert(column_views(self.columns@).take(n as int) =~= column_views(self.columns@));
        }
        BlockManager {
            columns,
            len: self.len,
            index: crate::engine::series::generic::copy_labels(&self.index),
        }
    }

    /// The column named `col`, if the store holds it as a column of `T`.
    pub(crate) fn get_ref<T: Scalar>(&self, col: &str) -> (r: Option<&Series<T>>)
        ensures
            match self@.typed_column::<T>(col@) {
                Some(s) => r matches Some(found) && found@ == s,
                None => r is None,
            },
            r is Some <==> self@.has(col@) && self@.tag_of(col@) == T::tag(),
    {
        match self.find(col) {
            None => None,
            Some(i) => {
                let column = &self.columns[i];
                assert(column@ == self@.column(col@));
                T::pick(column)
            },
        }
    }

    /// A copy of the column named `col`, if the store holds it as a column
    /// of `T`: there is a column of that name, and its tag is the tag of `T`.
    pub fn get<T: Scalar>(&self, col: &str) -> (r: Option<Series<T>>)
        ensures
            match self@.typed_column::<T>(col@) {
                Some(s) => r matches Some(found) && found@ == s,
                None => r is None,
            },
            r is Some <==> self@.has(col@) && self@.tag_of(col@) == T::tag(),
    {
        match self.get_ref::<T>(col) {
            None => None,
            Some(series) => Some(series.duplicate()),
        }
    }

    /// The name and the tag of every column, in presentation order.
    pub fn dtypes(&self) -> (r: Vec<(String, DataTypes)>)
        ensures
            r@.len() == self@.columns.len(),
            forall|i: int|
                0 <= i < r@.len() ==> (#[trigger] r@[i]).0@ == self@.columns[i].name() && r@[i].1
                    == self@.columns[i].tag(),
    {
        let mut out: Vec<(String, DataTypes)> = Vec::new();
        let n = self.columns.len();
        let mut i: usize = 0;
        while i < n
            invariant
                i <= n,
                n == self.columns@.len(),
                out@.len() == i,
                forall|k: int|
                    0 <= k < i ==> (#[trigger] out@[k]).0@ == self@.columns[k].name() && out@[k].1
                        == self@.columns[k].tag(),
            decreases n - i,
        {
            out.push((self.columns[i].name(), self.columns[i].tag()));
            i += 1;
        }
        out
    }

    /// The value in the column `loc.0` at the row labelled `loc.1`, if the
    /// store holds that column as a column of `T`.
    pub fn at<T: Scalar>(&self, loc: (&str, &str)) -> (r: Option<T>)
        requires
            self@.typed_column::<T>(loc.0@) matches Some(s) ==> s.index.contains(loc.1@),
        ensures
            match self@.typed_column::<T>(loc.0@) {
                Some(s) => r == Some(s.values[first_position(s.index, loc.1@)]),
                None => r is None,
            },
    {
        match self.get_ref::<T>(loc.0) {
            None => None,
            Some(series) => Some(series.at(loc.1)),
        }
    }

    /// The group of the columns of `T`, in presentation order, each known by its name.
    pub fn block<T: Scalar>(&self) -> (r: Block<T>)
        ensures
            r@.data == self@.typed::<T>(),
            r@.names == r@.own_names(),
    {
        proof {
            use_type_invariant(self);
        }
        let mut data: Vec<Series<T>> = Vec::new();
        let n = self.columns.len();
        let mut i: usize = 0;
        while i < n
            invariant
                i <= n,
                n == self.columns@.len(),
                self@.valid(),
                series_views(data@) == typed_upto::<T>(self@.columns, i as nat),
                forall|k: int| 0 <= k < data@.len() ==> (#[trigger] data@[k])@.values.len() == self@.len,
            decreases n - i,
        {
            let column = &self.columns[i];
            assert(column@ == self@.columns[i as int]);
            match T::pick(column) {
                Some(s) => {
                    let ghost before = series_views(data@);
                    proof {
                        T::lemma_stored(s@, column@);
                    }
                    data.push(s.duplicate());
                    assert(series_views(data@) =~= before.push(s@));
                },
                None => {},
            }
            i += 1;
        }
        Block::from_series(data)
    }

    /// Takes in a column.
    ///
    /// A store that holds columns refuses a column of another length. A
    /// column whose name is taken, or whose name is not to be preserved, is
    /// named by the number of columns in the store; if that name is taken
    /// too, the column is refused. A refused column leaves the store as it
    /// was. A column whose tag is [`DataTypes::OBJECT`] passes the same
    /// tests and is then dropped.
    pub fn add_series<T: Scalar>(&mut self, other: Series<T>, preserve_names: bool) -> (r: Result<
        (),
        DataFrameErrors,
    >)
        ensures
            match old(self)@.insert(other@, preserve_names) {
                Ok(after) => r is Ok && final(self)@ == after,
                Err(e) => r matches Err(x) && x@ == e && *final(self) == *old(self),
            },
    {
        proof {
            use_type_invariant(&*self);
            use_type_invariant(&other);
        }
        let mut other = other;
        let count = self.columns.len();
        if count > 0 && other.len() != self.len {
            return Err(DataFrameErrors::DifferentLength(other.len(), self.len));
        }
        let offered = other.get_name();
        let taken = self.find(offered.as_str());
        if taken.is_some() || !preserve_names {
            let number = usize_to_string(count);
            if self.find(number.as_str()).is_some() {
                return Err(DataFrameErrors::ColumnNameErrors(number));
            }
            other.set_name(number.as_str());
        }
        let ghost renamed = other@;
        match T::wrap(other) {
            None => Ok(()),
            Some(col) => {
                proof {
                    T::lemma_stored(renamed, col@);
                }
                self.get_appropriate_block(col);
                Ok(())
            },
        }
    }

    /// Puts a stored column, whatever its element type, behind the others.
    /// The first column of a store sets the number of rows and their labels.
    /// The name of the column must be free, and its length that of the
    /// columns that the store holds.
    pub fn get_appropriate_block(&mut self, col: Column)
        requires
            !old(self)@.has(col@.name()),
            old(self)@.columns.len() > 0 ==> col@.len() == old(self)@.len,
        ensures
            final(self)@ == old(self)@.with_column(col@),
    {
        proof {
            use_type_invariant(&*self);
        }
        let ghost before = self@;
        let len = col.len();
        if self.columns.len() == 0 {
            let index = col.index();
            let mut columns: Vec<Column> = Vec::new();
            columns.push(col);
            proof {
                assert(column_views(columns@) =~= seq![col@]);
                assert(names_of(seq![col@]) =~= seq![col@.name()]);
            }
            *self = BlockManager { columns, len, index };
        } else {
            let mut taken = BlockManager::new();
            core::mem::swap(self, &mut taken);
            let BlockManager { columns, len: rows, index } = taken;
            let mut columns = columns;
            columns.push(col);
            proof {
                assert(column_views(columns@) =~= before.columns.push(col@));
                lemma_names_push(before.columns, col@);
            }
            *self = BlockManager { columns, len: rows, index };
        }
    }
}

/// The names of a sequence of columns with one more column behind it.
pub proof fn lemma_names_push(columns: Seq<ColumnView>, col: ColumnView)
    ensures
        names_of(columns.push(col)) == names_of(columns).push(col.name()),
        names_of(columns).no_duplicates() && !names_of(columns).contains(col.name()) ==> names_of(
            columns.push(col),
        ).no_duplicates(),
{
    assert(names_of(columns.push(col)) =~= names_of(columns).push(col.name()));
    if names_of(columns).no_duplicates() && !names_of(columns).contains(col.name()) {
        let all = names_of(columns).push(col.name());
        assert forall|a: int, b: int| 0 <= a < all.len() && 0 <= b < all.len() && a != b implies all[a]
            != all[b] by {
            if a < columns.len() && b < columns.len() {
                assert(names_of(columns)[a] != names_of(columns)[b]);
            } else if a < columns.len() {
                assert(names_of(columns).contains(names_of(columns)[a]));
            } else {
                assert(names_of(columns).contains(names_of(columns)[b]));
            }
        }
    }
}

} // verus!

//! A group of columns of one element type and one length.
use vstd::prelude::*;
use rayon::iter::{IntoParallelRefIterator, ParallelIterator};
use crate::engine::series::generic::{
    accepts_all, copy_labels, first_position, is_first, mapped, masked, position_of,
};
use crate::engine::series::{Scalar, Series, SeriesView};
use crate::text::texts;

verus! {

/// What a [`Block`] stands for: its columns, and the name by which it knows each.
pub struct BlockView<T> {
    /// The columns, in the order in which they were put in.
    pub data: Seq<SeriesView<T>>,
    /// The names of the columns; `names[i]` is the block's name for `data[i]`.
    pub names: Seq<Seq<char>>,
}

impl<T> BlockView<T> {
    /// One name per column, and all columns of one length, each with a label per value.
    pub open spec fn valid(self) -> bool {
        &&& self.names.len() == self.data.len()
        &&& forall|i: int|
            0 <= i < self.data.len() ==> (#[trigger] self.data[i]).values.len()
                == self.data[0].values.len() && self.data[i].aligned()
    }

    /// The number of values in each column; 0 for a block without columns.
    pub open spec fn rows(self) -> nat {
        if self.data.len() == 0 {
            0
        } else {
            self.data[0].values.len()
        }
    }

    /// The values at position `i` of every column, in the order of the columns.
    pub open spec fn row(self, i: int) -> Seq<T> {
        Seq::new(self.data.len(), |j: int| self.data[j].values[i])
    }

    /// The names that the columns themselves carry.
    pub open spec fn own_names(self) -> Seq<Seq<char>> {
        self.data.map_values(|s: SeriesView<T>| s.name)
    }
}

/// A group of columns of one element type and one length.
pub struct Block<T> {
    pub(crate) data: Vec<Series<T>>,
    pub(crate) names: Vec<String>,
}

/// The views of a sequence of columns.
pub open spec fn series_views<T>(data: Seq<Series<T>>) -> Seq<SeriesView<T>> {
    data.map_values(|s: Series<T>| s@)
}

impl<T> View for Block<T> {
    type V = BlockView<T>;

    open(crate) spec fn view(&self) -> BlockView<T> {
        BlockView { data: series_views(self.data@), names: texts(self.names@) }
    }
}

impl<T> Block<T> {
    /// A block is always valid.
    #[verifier::type_invariant]
    pub open(crate) spec fn wf(&self) -> bool {
        self@.valid()
    }
}

/// `out` holds, position by position, what `func` returned for the items of `input`.
pub open spec fn mapped_refs<A, B, F: Fn(&A) -> B>(func: F, input: Seq<A>, out: Seq<B>) -> bool {
    &&& out.len() == input.len()
    &&& forall|i: int| 0 <= i < input.len() ==> call_ensures(func, (&input[i],), #[trigger] out[i])
}

/// `rayon`'s `par_iter().map(func).collect()` into a `Vec`: `func` is called
/// once on every item, possibly on several threads at once, and the results
/// stand in the order of the items.
#[verifier::external_body]
pub(crate) fn par_map<A: Sync, B: Send, F: Fn(&A) -> B + Sync + Send>(items: &Vec<A>, func: F) -> (out:
    Vec<B>)
    requires
        forall|i: int| 0 <= i < items@.len() ==> call_requires(func, (&#[trigger] items@[i],)),
    ensures
        mapped_refs(func, items@, out@),
{
    items.par_iter().map(func).collect()
}

/// `func` may be called on every value of every column of `input`.
pub open spec fn block_accepts<T, M, F: Fn(T) -> M>(func: F, input: BlockView<T>) -> bool {
    forall|k: int| 0 <= k < input.data.len() ==> accepts_all(func, (#[trigger] input.data[k]).values)
}

/// `after` is `before` with what `func` returned for each value in place of the value.
pub open spec fn maps_column<T, F: Fn(T) -> T>(func: F, before: SeriesView<T>, after: SeriesView<T>) -> bool {
    &&& mapped(func, before.values, after.values)
    &&& after == before.with_values(after.values)
}

impl<T> BlockView<T> {
    /// What a function is given that works on rows (with `axis`) or on
    /// columns (without): the rows of the block, or the values of each column.
    pub open spec fn axis_inputs(self, axis: bool) -> Seq<Seq<T>> {
        if axis {
            Seq::new(self.rows(), |i: int| self.row(i))
        } else {
            Seq::new(self.data.len(), |j: int| self.data[j].values)
        }
    }
}

/// `func` may be called on each of `inputs`.
pub open spec fn reducible<T, R, F: Fn(Vec<T>) -> R>(func: F, inputs: Seq<Seq<T>>) -> bool {
    forall|v: Vec<T>| inputs.contains(v@) ==> #[trigger] call_requires(func, (v,))
}

/// `out` is what `func` returned for a vector of the values `input`.
pub open spec fn returned_for<T, R, F: Fn(Vec<T>) -> R>(func: F, input: Seq<T>, out: R) -> bool {
    exists|v: Vec<T>| v@ == input && #[trigger] call_ensures(func, (v,), out)
}

/// `out` holds, position by position, what `func` returned for each of `inputs`.
pub open spec fn reduced<T, R, F: Fn(Vec<T>) -> R>(func: F, inputs: Seq<Seq<T>>, out: Seq<R>) -> bool {
    &&& out.len() == inputs.len()
    &&& forall|k: int| 0 <= k < inputs.len() ==> returned_for(func, inputs[k], #[trigger] out[k])
}

/// `out` is the column, named `series` and labelled `0`, `1`, ..., of the
/// values that `func` returned for a vector of the values `input`.
pub open spec fn column_returned_for<T, P, F: Fn(Vec<T>) -> Vec<P>>(
    func: F,
    input: Seq<T>,
    out: SeriesView<P>,
) -> bool {
    exists|y: Vec<P>| #[trigger] returned_for(func, input, y) && out == SeriesView::from_values(y@)
}

/// Whatever `func` returns for any of `inputs` has one and the same length.
pub open spec fn uniform<T, P, F: Fn(Vec<T>) -> Vec<P>>(func: F, inputs: Seq<Seq<T>>) -> bool {
    forall|v1: Vec<T>, y1: Vec<P>, v2: Vec<T>, y2: Vec<P>|
        inputs.contains(v1@) && inputs.contains(v2@) && #[trigger] call_ensures(func, (v1,), y1)
            && #[trigger] call_ensures(func, (v2,), y2) ==> y1@.len() == y2@.len()
}

/// `after` is `before` with every value converted to `P`.
pub open spec fn converts_column<T, P: From<T>>(before: SeriesView<T>, after: SeriesView<P>) -> bool {
    &&& after.name == before.name
    &&& after.index == before.index
    &&& after.values.len() == before.values.len()
    &&& forall|i: int|
        0 <= i < before.values.len() ==> call_ensures(
            P::from,
            (before.values[i],),
            #[trigger] after.values[i],
        )
}

/// [`accepts_all`] on the values of a column, for a borrowed function.
pub open spec fn accepts_column<T, F: Fn(T) -> T>(func: &F, column: SeriesView<T>) -> bool {
    accepts_all(*func, column.values)
}

/// [`maps_column`] for a borrowed function.
pub open spec fn maps_column_with<T, F: Fn(T) -> T>(
    func: &F,
    before: SeriesView<T>,
    after: SeriesView<T>,
) -> bool {
    maps_column(*func, before, after)
}

/// `after` is `before` with `value` in place of every value for which `cond` answered `true`.
pub open spec fn masks_column<T, F: Fn(T) -> bool>(
    cond: F,
    value: T,
    before: SeriesView<T>,
    after: SeriesView<T>,
) -> bool {
    &&& masked(cond, value, before.values, after.values)
    &&& after == before.with_values(after.values)
}

/// `out` holds the columns of `input`, each with what `func` returned for its
/// values in place of the values, and knows each by the name that it carries.
pub open spec fn block_mapped<T, F: Fn(T) -> T>(func: F, input: BlockView<T>, out: BlockView<T>) -> bool {
    &&& out.names == input.own_names()
    &&& out.data.len() == input.data.len()
    &&& forall|k: int|
        0 <= k < input.data.len() ==> maps_column(func, input.data[k], #[trigger] out.data[k])
}

impl<T: Scalar> Block<T> {
    /// The block without columns.
    pub fn new() -> (r: Self)
        ensures
            r@.data.len() == 0,
            r@.names.len() == 0,
    {
        Block { data: Vec::new(), names: Vec::new() }
    }

    /// The number of columns.
    pub fn len(&self) -> (n: usize)
        ensures
            n == self@.data.len(),
            n == self@.names.len(),
            self@.valid(),
    {
        proof {
            use_type_invariant(self);
        }
        self.data.len()
    }

    /// The number of values in each column; 0 for a block without columns.
    pub fn rows(&self) -> (n: usize)
        ensures
            n == self@.rows(),
    {
        if self.data.len() == 0 {
            0
        } else {
            self.data[0].len()
        }
    }

    /// The block of the given columns, each known by its own name.
    pub fn from_series(data: Vec<Series<T>>) -> (r: Self)
        requires
            forall|i: int|
                0 <= i < data@.len() ==> (#[trigger] data@[i])@.values.len()
                    == data@[0]@.values.len(),
        ensures
            r@.data == series_views(data@),
            r@.names == r@.own_names(),
    {
        let mut names: Vec<String> = Vec::new();
        let n = data.len();
        let mut i: usize = 0;
        while i < n
            invariant
                i <= n,
                n == data@.len(),
                names@.len() == i,
                forall|k: int| 0 <= k < i ==> (#[trigger] names@[k])@ == data@[k]@.name,
                forall|k: int| 0 <= k < i ==> (#[trigger] data@[k])@.aligned(),
            decreases n - i,
        {
            let item = &data[i];
            proof {
                use_type_invariant(item);
            }
            names.push(item.get_name());
            i += 1;
        }
        let r = Block { data, names };
        proof {
            assert(r@.names =~= r@.own_names());
        }
        r
    }

    /// Puts a column behind the others, under its own name.
    pub fn push(&mut self, other: Series<T>)
        requires
            old(self)@.data.len() > 0 ==> other@.values.len() == old(self)@.rows(),
        ensures
            final(self)@.data == old(self)@.data.push(other@),
            final(self)@.names == old(self)@.names.push(other@.name),
    {
        proof {
            use_type_invariant(&*self);
            use_type_invariant(&other);
        }
        let ghost before = self@;
        let mut taken = Block::new();
        core::mem::swap(self, &mut taken);
        let Block { data, names } = taken;
        let mut data = data;
        let mut names = names;
        names.push(other.get_name());
        data.push(other);
        proof {
            assert(series_views(data@) =~= before.data.push(other@));
            assert(texts(names@) =~= before.names.push(other@.name));
        }
        *self = Block { data, names };
    }

    /// Replaces the names by which the block knows its columns.
    pub fn push_names(&mut self, names: Vec<String>)
        requires
            names@.len() == old(self)@.data.len(),
        ensures
            final(self)@.data == old(self)@.data,
            final(self)@.names == texts(names@),
    {
        proof {
            use_type_invariant(&*self);
        }
        self.names = names;
    }

    /// The value at position `index2` of the column at position `index1`.
    pub fn get_value_at(&self, index1: usize, index2: usize) -> (r: T)
        requires
            index1 < self@.data.len(),
            index2 < self@.rows(),
        ensures
            r == self@.data[index1 as int].values[index2 as int],
    {
        proof {
            use_type_invariant(self);
        }
        let series = &self.data[index1];
        assert(series@ == self@.data[index1 as int]);
        series.array[index2].dup()
    }

    /// A copy of the column at position `idx`.
    pub fn get(&self, idx: usize) -> (r: Series<T>)
        requires
            idx < self@.data.len(),
        ensures
            r@ == self@.data[idx as int],
    {
        let series = &self.data[idx];
        assert(series@ == self@.data[idx as int]);
        series.duplicate()
    }

    /// The value under the label `idx2` in the column at position `idx`.
    pub fn get_str_value_at(&self, idx: usize, idx2: &str) -> (r: T)
        requires
            idx < self@.data.len(),
            self@.data[idx as int].index.contains(idx2@),
        ensures
            r == self@.data[idx as int].values[first_position(
                self@.data[idx as int].index,
                idx2@,
            )],
    {
        let series = &self.data[idx];
        assert(series@ == self@.data[idx as int]);
        series.at(idx2)
    }

    /// A copy of the column that the block knows as `name`; of the first
    /// one, where it knows several by that name.
    pub fn get_series_at_name(&self, name: &str) -> (r: Series<T>)
        requires
            self@.names.contains(name@),
        ensures
            r@ == self@.data[first_position(self@.names, name@)],
            is_first(self@.names, name@, first_position(self@.names, name@)),
    {
        proof {
            use_type_invariant(self);
        }
        let found = position_of(&self.names, name);
        let i = found.unwrap();
        let series = &self.data[i];
        assert(series@ == self@.data[i as int]);
        series.duplicate()
    }

    /// Removes the column that the block knows as `name`; the first one,
    /// where it knows several by that name.
    pub fn drop_cols(&mut self, name: &str)
        requires
            old(self)@.names.contains(name@),
        ensures
            final(self)@.data == old(self)@.data.remove(first_position(old(self)@.names, name@)),
            final(self)@.names == old(self)@.names.remove(
                first_position(old(self)@.names, name@),
            ),
    {
        proof {
            use_type_invariant(&*self);
        }
        let ghost before = self@;
        let found = position_of(&self.names, name);
        let idx = found.unwrap();
        let mut taken = Block::new();
        core::mem::swap(self, &mut taken);
        let Block { data, names } = taken;
        let mut data = data;
        let mut names = names;
        names.remove(idx);
        data.remove(idx);
        proof {
            assert(series_views(data@) =~= before.data.remove(idx as int));
            assert(texts(names@) =~= before.names.remove(idx as int));
        }
        *self = Block { data, names };
    }

    /// The columns with what `func` returns for each value in place of the
    /// value. Every column keeps its name and labels, and the new block knows
    /// each column by the name that the column carries.
    pub fn apply_map<F: Fn(T) -> T>(&self, func: F) -> (r: Block<T>)
        requires
            block_accepts(func, self@),
        ensures
            block_mapped(func, self@, r@),
    {
        proof {
            use_type_invariant(self);
        }
        let mut out: Vec<Series<T>> = Vec::new();
        let n = self.data.len();
        let mut i: usize = 0;
        while i < n
            invariant
                i <= n,
                n == self.data@.len(),
                out@.len() == i,
                self@.valid(),
                block_accepts(func, self@),
                forall|k: int|
                    0 <= k < i ==> maps_column(func, self@.data[k], (#[trigger] out@[k])@),
            decreases n - i,
        {
            let series = &self.data[i];
            assert(series@ == self@.data[i as int]);
            out.push(series.apply_ref(&func));
            i += 1;
        }
        let r = Block::from_series(out);
        proof {
            assert(r@.names =~= self@.own_names());
        }
        r
    }

    /// As [`Block::apply_map`], with the columns handed out to `rayon`'s worker threads.
    pub fn par_apply<F: Fn(T) -> T + Sync + Send>(&self, func: F) -> (r: Block<T>) where
        T: Send + Sync,

        requires
            block_accepts(func, self@),
        ensures
            block_mapped(func, self@, r@),
    {
        proof {
            use_type_invariant(self);
        }
        let borrowed = &func;
        let each = |s: &Series<T>| -> (o: Series<T>)
            requires
                accepts_column(borrowed, s@),
            ensures
                maps_column_with(borrowed, s@, o@),
            { s.apply_ref(borrowed) };
        assert forall|i: int| 0 <= i < self.data@.len() implies call_requires(
            each,
            (&#[trigger] self.data@[i],),
        ) by {
            assert(self.data@[i]@ == self@.data[i]);
        }
        let out = par_map(&self.data, each);
        proof {
            assert forall|k: int| 0 <= k < out@.len() implies maps_column(
                func,
                self@.data[k],
                (#[trigger] out@[k])@,
            ) by {
                assert(call_ensures(each, (&self.data@[k],), out@[k]));
                assert(self.data@[k]@ == self@.data[k]);
            }
        }
        let r = Block::from_series(out);
        proof {
            assert(r@.names =~= self@.own_names());
        }
        r
    }

    /// Puts what `func` returns for each value in place of the value, in
    /// every column, with the columns handed out to `rayon`'s worker threads.
    /// The block knows its columns by the same names as before.
    pub fn apply_inplace<F: Fn(T) -> T + Sync + Send>(&mut self, func: F) where T: Send + Sync
        requires
            block_accepts(func, old(self)@),
        ensures
            final(self)@.names == old(self)@.names,
            final(self)@.data.len() == old(self)@.data.len(),
            forall|k: int|
                0 <= k < old(self)@.data.len() ==> maps_column(
                    func,
                    old(self)@.data[k],
                    #[trigger] final(self)@.data[k],
                ),
    {
        proof {
            use_type_invariant(&*self);
        }
        let ghost before = self@;
        let borrowed = &func;
        let each = |s: &Series<T>| -> (o: Series<T>)
            requires
                accepts_column(borrowed, s@),
            ensures
                maps_column_with(borrowed, s@, o@),
            { s.apply_ref(borrowed) };
        assert forall|i: int| 0 <= i < self.data@.len() implies call_requires(
            each,
            (&#[trigger] self.data@[i],),
        ) by {
            assert(self.data@[i]@ == self@.data[i]);
        }
        let out = par_map(&self.data, each);
        proof {
            assert forall|k: int| 0 <= k < out@.len() implies maps_column(
                func,
                before.data[k],
                (#[trigger] out@[k])@,
            ) by {
                assert(call_ensures(each, (&self.data@[k],), out@[k]));
                assert(self.data@[k]@ == before.data[k]);
            }
            assert(out@.len() > 0 ==> maps_column(func, before.data[0], out@[0]@));
        }
        self.data = out;
    }

    /// Puts `value` in place of every value for which `func` answers `true`,
    /// in every column.
    pub fn mask<F: Fn(T) -> bool>(&mut self, value: T, func: F)
        requires
            forall|k: int|
                0 <= k < old(self)@.data.len() ==> accepts_all(
                    func,
                    (#[trigger] old(self)@.data[k]).values,
                ),
        ensures
            final(self)@.names == old(self)@.names,
            final(self)@.data.len() == old(self)@.data.len(),
            forall|k: int|
                0 <= k < old(self)@.data.len() ==> masks_column(
                    func,
                    value,
                    old(self)@.data[k],
                    #[trigger] final(self)@.data[k],
                ),
    {
        proof {
            use_type_invariant(&*self);
        }
        let ghost before = self@;
        let mut out: Vec<Series<T>> = Vec::new();
        let n = self.data.len();
        let mut i: usize = 0;
        while i < n
            invariant
                i <= n,
                n == self.data@.len(),
                out@.len() == i,
                self@ == before,
                before.valid(),
                forall|k: int|
                    0 <= k < before.data.len() ==> accepts_all(
                        func,
                        (#[trigger] before.data[k]).values,
                    ),
                forall|k: int|
                    0 <= k < i ==> masks_column(func, value, before.data[k], (#[trigger] out@[k])@),
            decreases n - i,
        {
            let series = &self.data[i];
            assert(series@ == before.data[i as int]);
            out.push(series.mask_ref(&value, &func));
            i += 1;
        }
        proof {
            assert(out@.len() > 0 ==> masks_column(func, value, before.data[0], out@[0]@));
        }
        self.data = out;
    }

    /// One value for every row (with `axis`) or for every column (without):
    /// what `func` returns for the values of that row or column. The result
    /// is named `series` and labelled `0`, `1`, ...
    pub fn apply<F: Fn(Vec<T>) -> T>(&self, func: F, axis: bool) -> (r: Series<T>)
        requires
            reducible(func, self@.axis_inputs(axis)),
        ensures
            reduced(func, self@.axis_inputs(axis), r@.values),
            r@ == SeriesView::from_values(r@.values),
    {
        proof {
            use_type_invariant(self);
        }
        let ghost inputs = self@.axis_inputs(axis);
        let mut results: Vec<T> = Vec::new();
        let count = if axis {
            self.rows()
        } else {
            self.data.len()
        };
        let mut i: usize = 0;
        while i < count
            invariant
                i <= count,
                count == inputs.len(),
                inputs == self@.axis_inputs(axis),
                self@.valid(),
                reducible(func, inputs),
                results@.len() == i,
                forall|k: int| 0 <= k < i ==> returned_for(func, inputs[k], #[trigger] results@[k]),
            decreases count - i,
        {
            let input = self.gather(i, axis);
            let ghost given = input;
            assert(inputs.contains(given@));
            let y = func(input);
            results.push(y);
            assert(given@ == inputs[i as int] && call_ensures(func, (given,), results@[i as int]));
            assert(returned_for(func, inputs[i as int], results@[i as int]));
            i += 1;
        }
        Series::from_vec(results)
    }

    /// Row `i` (with `axis`) or the values of column `i` (without).
    pub(crate) fn gather(&self, i: usize, axis: bool) -> (v: Vec<T>)
        requires
            i < self@.axis_inputs(axis).len(),
        ensures
            v@ == self@.axis_inputs(axis)[i as int],
    {
        proof {
            use_type_invariant(self);
        }
        if axis {
            let mut row: Vec<T> = Vec::new();
            let n = self.data.len();
            let mut j: usize = 0;
            while j < n
                invariant
                    j <= n,
                    n == self.data@.len(),
                    self@.valid(),
                    i < self@.rows(),
                    row@.len() == j,
                    forall|k: int| 0 <= k < j ==> #[trigger] row@[k] == self@.data[k].values[i as int],
                decreases n - j,
            {
                let series = &self.data[j];
                assert(series@ == self@.data[j as int]);
                row.push(series.array[i].dup());
                j += 1;
            }
            assert(row@ =~= self@.row(i as int));
            row
        } else {
            let series = &self.data[i];
            assert(series@ == self@.data[i as int]);
            series.to_vec()
        }
    }

    /// One column for every row (with `axis`) or for every column (without):
    /// of the values that `func` returns for that row or column. Every new
    /// column is named `series` and labelled `0`, `1`, ...
    pub fn transform<P: Scalar, F: Fn(Vec<T>) -> Vec<P>>(&self, func: F, axis: bool) -> (r: Block<P>)
        requires
            reducible(func, self@.axis_inputs(axis)),
            uniform(func, self@.axis_inputs(axis)),
        ensures
            r@.data.len() == self@.axis_inputs(axis).len(),
            forall|k: int|
                0 <= k < r@.data.len() ==> column_returned_for(
                    func,
                    self@.axis_inputs(axis)[k],
                    #[trigger] r@.data[k],
                ),
            r@.names == r@.own_names(),
    {
        proof {
            use_type_invariant(self);
        }
        let ghost inputs = self@.axis_inputs(axis);
        let mut results: Vec<Series<P>> = Vec::new();
        let ghost mut first_in: Vec<T> = arbitrary();
        let ghost mut first_out: Vec<P> = arbitrary();
        let count = if axis {
            self.rows()
        } else {
            self.data.len()
        };
        let mut i: usize = 0;
        while i < count
            invariant
                i <= count,
                count == inputs.len(),
                inputs == self@.axis_inputs(axis),
                self@.valid(),
                reducible(func, inputs),
                uniform(func, inputs),
                results@.len() == i,
                i > 0 ==> inputs.contains(first_in@) && call_ensures(func, (first_in,), first_out),
                forall|k: int|
                    0 <= k < i ==> (#[trigger] results@[k])@.values.len() == first_out@.len(),
                forall|k: int|
                    0 <= k < i ==> column_returned_for(func, inputs[k], (#[trigger] results@[k])@),
            decreases count - i,
        {
            let input = self.gather(i, axis);
            let ghost given = input;
            assert(inputs.contains(given@));
            let y = func(input);
            let ghost made = y;
            proof {
                if i == 0 {
                    first_in = given;
                    first_out = made;
                }
            }
            let series = Series::from_vec(y);
            results.push(series);
            assert(given@ == inputs[i as int] && call_ensures(func, (given,), made));
            assert(returned_for(func, inputs[i as int], made));
            assert(column_returned_for(func, inputs[i as int], results@[i as int]@));
            i += 1;
        }
        Block::from_series(results)
    }

    /// The columns converted to `P`, value by value. Names and labels stay.
    pub fn as_type<P: Scalar + From<T>>(&self) -> (r: Block<P>)
        requires
            forall|k: int, i: int|
                0 <= k < self@.data.len() && 0 <= i < self@.data[k].values.len()
                    ==> call_requires(P::from, (#[trigger] self@.data[k].values[i],)),
        ensures
            r@.names == self@.names,
            r@.data.len() == self@.data.len(),
            forall|k: int|
                0 <= k < self@.data.len() ==> converts_column(self@.data[k], #[trigger] r@.data[k]),
    {
        proof {
            use_type_invariant(self);
        }
        let mut out: Vec<Series<P>> = Vec::new();
        let n = self.data.len();
        let mut i: usize = 0;
        while i < n
            invariant
                i <= n,
                n == self.data@.len(),
                out@.len() == i,
                self@.valid(),
                forall|k: int, j: int|
                    0 <= k < self@.data.len() && 0 <= j < self@.data[k].values.len()
                        ==> call_requires(P::from, (#[trigger] self@.data[k].values[j],)),
                forall|k: int|
                    0 <= k < i ==> converts_column(self@.data[k], (#[trigger] out@[k])@),
            decreases n - i,
        {
            let series = &self.data[i];
            assert(series@ == self@.data[i as int]);
            out.push(series.as_type::<P>());
            i += 1;
        }
        let mut r = Block::from_series(out);
        r.push_names(copy_labels(&self.names));
        r
    }
}

} // verus!

//! Taking rows and columns out of a store.
use vstd::prelude::*;
use crate::engine::block_manager::{column_views, names_of, BlockManager, FrameView};
use crate::engine::series::generic::{copy_labels, first_position, str_texts};
use crate::engine::series::{Column, ColumnView, Scalar, Series};
use crate::enums::DataTypes;
use crate::text::texts;

verus! {

/// Dropping labels leaves a column its name and one label per value.
pub proof fn lemma_without_labels(col: ColumnView, dropped: Seq<Seq<char>>)
    ensures
        col.without_labels(dropped).name() == col.name(),
        col.without_labels(dropped).tag() == col.tag(),
        col.without_labels(dropped).aligned(),
{
    match col {
        ColumnView::F64(s) => {
            s.lemma_retained_aligned(
                crate::engine::series::generic::not_dropped(s.index, dropped),
                s.index.len(),
            );
        },
        ColumnView::F32(s) => {
            s.lemma_retained_aligned(
                crate::engine::series::generic::not_dropped(s.index, dropped),
                s.index.len(),
            );
        },
        ColumnView::I64(s) => {
            s.lemma_retained_aligned(
                crate::engine::series::generic::not_dropped(s.index, dropped),
                s.index.len(),
            );
        },
        ColumnView::I32(s) => {
            s.lemma_retained_aligned(
                crate::engine::series::generic::not_dropped(s.index, dropped),
                s.index.len(),
            );
        },
        ColumnView::Text(s) => {
            s.lemma_retained_aligned(
                crate::engine::series::generic::not_dropped(s.index, dropped),
                s.index.len(),
            );
        },
        ColumnView::Str(s) => {
            s.lemma_retained_aligned(
                crate::engine::series::generic::not_dropped(s.index, dropped),
                s.index.len(),
            );
        },
        ColumnView::Bool(s) => {
            s.lemma_retained_aligned(
                crate::engine::series::generic::not_dropped(s.index, dropped),
                s.index.len(),
            );
        },
    }
}

impl FrameView {
    /// The columns, each without the positions whose label is among `dropped`.
    pub open spec fn columns_without(self, dropped: Seq<Seq<char>>) -> Seq<ColumnView> {
        Seq::new(self.columns.len(), |k: int| self.columns[k].without_labels(dropped))
    }

    /// Whether dropping the labels `dropped` leaves all columns of one length.
    /// It does where all columns carry the same labels.
    pub open spec fn drops_evenly(self, dropped: Seq<Seq<char>>) -> bool {
        forall|k: int|
            0 <= k < self.columns.len() ==> (#[trigger] self.columns[k]).without_labels(
                dropped,
            ).len() == self.columns[0].without_labels(dropped).len()
    }

    /// The table without the rows whose label is among `dropped`: every
    /// column drops these labels, and the rows are counted and labelled anew
    /// as the first column is.
    pub open spec fn without_labels(self, dropped: Seq<Seq<char>>) -> Self {
        FrameView::of_columns(self.columns_without(dropped))
    }

    /// The table without the column named `name`, if it holds one.
    pub open spec fn without_column(self, name: Seq<char>) -> Self {
        if self.has(name) {
            FrameView { columns: self.columns.remove(first_position(self.names(), name)), ..self }
        } else {
            self
        }
    }
}

/// Removing a column leaves the others with their names, all different.
pub proof fn lemma_remove_valid(frame: FrameView, k: int)
    requires
        frame.valid(),
        0 <= k < frame.columns.len(),
    ensures
        (FrameView { columns: frame.columns.remove(k), ..frame }).valid(),
{
    let after = FrameView { columns: frame.columns.remove(k), ..frame };
    assert forall|a: int, b: int|
        0 <= a < after.names().len() && 0 <= b < after.names().len() && a != b implies after.names()[a]
        != after.names()[b] by {
        let x = if a < k {
            a
        } else {
            a + 1
        };
        let y = if b < k {
            b
        } else {
            b + 1
        };
        assert(after.names()[a] == frame.names()[x]);
        assert(after.names()[b] == frame.names()[y]);
    }
    assert forall|i: int| 0 <= i < after.columns.len() implies (#[trigger] after.columns[i]).len()
        == after.len && after.columns[i].aligned() by {
        let x = if i < k {
            i
        } else {
            i + 1
        };
        assert(after.columns[i] == frame.columns[x]);
    }
}

impl BlockManager {
    /// A copy of the column at position `pos` of the presentation order,
    /// which is a column of `T`.
    pub fn column_at<T: Scalar>(&self, pos: usize) -> (r: Series<T>)
        requires
            pos < self@.columns.len(),
            T::project(self@.columns[pos as int]) is Some,
        ensures
            Some(r@) == T::project(self@.columns[pos as int]),
    {
        let column = &self.columns[pos];
        assert(column@ == self@.columns[pos as int]);
        T::pick(column).unwrap().duplicate()
    }

    /// The labels of the rows.
    pub fn get_index(&self) -> (index: Vec<String>)
        ensures
            texts(index@) == self@.index,
    {
        copy_labels(&self.index)
    }

    /// The names of the columns, in presentation order.
    pub fn get_order(&self) -> (order: Vec<String>)
        ensures
            texts(order@) == self@.names(),
    {
        let mut order: Vec<String> = Vec::new();
        let n = self.columns.len();
        let mut i: usize = 0;
        while i < n
            invariant
                i <= n,
                n == self.columns@.len(),
                order@.len() == i,
                forall|k: int| 0 <= k < i ==> (#[trigger] order@[k])@ == self@.names()[k],
            decreases n - i,
        {
            order.push(self.columns[i].name());
            i += 1;
        }
        assert(texts(order@) =~= self@.names());
        order
    }

    /// The tag of the column named `key`, if there is one.
    pub fn get_dtype_at_key(&self, key: &str) -> (r: Option<DataTypes>)
        ensures
            r is Some <==> self@.has(key@),
            r matches Some(d) ==> d == self@.tag_of(key@),
    {
        match self.find(key) {
            None => None,
            Some(i) => {
                let column = &self.columns[i];
                assert(column@ == self@.column(key@));
                Some(column.tag())
            },
        }
    }

    /// A store of the same columns without the rows whose label is among
    /// `labels`. Names stay; the rows are counted and labelled anew as the
    /// first column is.
    pub fn without_labels(&self, labels: &[&str]) -> (r: BlockManager)
        requires
            self@.drops_evenly(str_texts(labels@)),
        ensures
            r@ == self@.without_labels(str_texts(labels@)),
    {
        proof {
            use_type_invariant(self);
        }
        let ghost dropped = str_texts(labels@);
        let mut out: Vec<Column> = Vec::new();
        let n = self.columns.len();
        let mut i: usize = 0;
        while i < n
            invariant
                i <= n,
                n == self.columns@.len(),
                dropped == str_texts(labels@),
                out@.len() == i,
                forall|k: int|
                    0 <= k < i ==> (#[trigger] out@[k])@ == self@.columns[k].without_labels(dropped),
            decreases n - i,
        {
            let column = &self.columns[i];
            assert(column@ == self@.columns[i as int]);
            out.push(column.without_labels(labels));
            i += 1;
        }
        proof {
            assert(column_views(out@) =~= self@.columns_without(dropped));
            assert forall|k: int| 0 <= k < n implies #[trigger] names_of(column_views(out@))[k]
                == self@.names()[k] by {
                lemma_without_labels(self@.columns[k], dropped);
            }
            assert(names_of(column_views(out@)) =~= self@.names());
            assert forall|k: int| 0 <= k < out@.len() implies (#[trigger] out@[k])@.len()
                == out@[0]@.len() by {
                assert(self@.columns[k].without_labels(dropped).len() == self@.columns[0].without_labels(
                    dropped,
                ).len());
            }
        }
        BlockManager::from_columns(out)
    }

    /// Removes the column named `value`, if the store holds one.
    pub fn remove(&mut self, value: &str)
        ensures
            final(self)@ == old(self)@.without_column(value@),
    {
        proof {
            use_type_invariant(&*self);
        }
        let ghost before = self@;
        match self.find(value) {
            None => {},
            Some(i) => {
                let mut taken = BlockManager::new();
                core::mem::swap(self, &mut taken);
                let BlockManager { columns, len, index } = taken;
                let mut columns = columns;
                columns.remove(i);
                proof {
                    assert(column_views(columns@) =~= before.columns.remove(i as int));
                    lemma_remove_valid(before, i as int);
                }
                *self = BlockManager { columns, len, index };
            },
        }
    }

    /// Removes the column named `name` and hands it out, if the store holds
    /// it as a column of `T`. Else the store stays as it is.
    pub fn pop<T: Scalar>(&mut self, name: &str) -> (r: Option<Series<T>>)
        ensures
            match old(self)@.typed_column::<T>(name@) {
                Some(s) => r matches Some(found) && found@ == s && final(self)@ == old(
                    self,
                )@.without_column(name@),
                None => r is None && *final(self) == *old(self),
            },
    {
        match self.get::<T>(name) {
            None => None,
            Some(series) => {
                self.remove(name);
                Some(series)
            },
        }
    }
}

} // verus!

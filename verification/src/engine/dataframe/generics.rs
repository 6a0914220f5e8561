//! Taking rows and columns out of a table, and asking a table about itself.
use vstd::prelude::*;
use crate::engine::dataframe::DataFrame;
use crate::engine::series::generic::str_texts;
use crate::engine::series::{Scalar, Series};
use crate::enums::DataTypes;
use crate::text::texts;

verus! {

impl DataFrame {
    /// A table of the same columns without the rows whose label is among
    /// `labels`. Names stay; the rows are counted and labelled anew as the
    /// first column is.
    pub fn drop(&self, labels: &[&str]) -> (r: DataFrame)
        requires
            self@.drops_evenly(str_texts(labels@)),
        ensures
            r@ == self@.without_labels(str_texts(labels@)),
    {
        DataFrame::from_block(self.block.without_labels(labels))
    }

    /// Removes the rows whose label is among `labels` from every column,
    /// and counts and labels the rows anew as the first column is.
    pub fn drop_inplace(&mut self, labels: &[&str])
        requires
            old(self)@.drops_evenly(str_texts(labels@)),
        ensures
            final(self)@ == old(self)@.without_labels(str_texts(labels@)),
    {
        self.block = self.block.without_labels(labels);
    }

    /// A copy of the column at position `pos` of the presentation order,
    /// which is a column of `T`.
    pub fn index<T: Scalar>(&self, pos: usize) -> (r: Series<T>)
        requires
            pos < self@.columns.len(),
            T::project(self@.columns[pos as int]) is Some,
        ensures
            Some(r@) == T::project(self@.columns[pos as int]),
    {
        self.block.column_at::<T>(pos)
    }

    /// The labels of the rows.
    pub fn get_index(&self) -> (index: Vec<String>)
        ensures
            texts(index@) == self@.index,
    {
        self.block.get_index()
    }

    /// The tag of the column named `key`, if there is one.
    pub fn get_dtype_at_key(&self, key: &str) -> (r: Option<DataTypes>)
        ensures
            r is Some <==> self@.has(key@),
            r matches Some(d) ==> d == self@.tag_of(key@),
    {
        self.block.get_dtype_at_key(key)
    }

    /// The names of the columns, in the order in which they were taken in.
    pub fn get_order(&self) -> (order: Vec<String>)
        ensures
            texts(order@) == self@.names(),
    {
        self.block.get_order()
    }

    /// Removes the column named `value`, if the table holds one.
    pub fn remove(&mut self, value: &str)
        ensures
            final(self)@ == old(self)@.without_column(value@),
    {
        self.block.remove(value)
    }

    /// Removes the column named `name` and hands it out, if the table holds
    /// it as a column of `T`. Else the table stays as it is.
    pub fn pop<T: Scalar>(&mut self, name: &str) -> (r: Option<Series<T>>)
        ensures
            match old(self)@.typed_column::<T>(name@) {
                Some(s) => r matches Some(found) && found@ == s && final(self)@ == old(
                    self,
                )@.without_column(name@),
                None => r is None && final(self)@ == old(self)@,
            },
    {
        self.block.pop::<T>(name)
    }
}

} // verus!

//! Walking along the values of a column.
use vstd::prelude::*;
use crate::engine::series::{Scalar, Series};

verus! {

/// The values of a column, handed out one after the other.
pub struct SeriesIter<T> {
    pub(crate) values: Vec<T>,
    pub(crate) index: usize,
}

/// What a [`SeriesIter`] stands for.
pub struct SeriesIterView<T> {
    /// The values of the column.
    pub values: Seq<T>,
    /// The number of values that were handed out.
    pub done: nat,
}

impl<T> View for SeriesIter<T> {
    type V = SeriesIterView<T>;

    open(crate) spec fn view(&self) -> SeriesIterView<T> {
        SeriesIterView { values: self.values@, done: self.index as nat }
    }
}

impl<T: Scalar> SeriesIter<T> {
    /// The next value of the column, if one is left.
    pub fn next(&mut self) -> (r: Option<T>)
        ensures
            final(self)@.values == old(self)@.values,
            old(self)@.done < old(self)@.values.len() ==> r == Some(
                old(self)@.values[old(self)@.done as int],
            ) && final(self)@.done == old(self)@.done + 1,
            old(self)@.done >= old(self)@.values.len() ==> r is None && final(self)@.done == old(
                self,
            )@.done,
    {
        if self.index < self.values.len() {
            let value = self.values[self.index].dup();
            self.index = self.index + 1;
            Some(value)
        } else {
            None
        }
    }
}

impl<T: Scalar> Series<T> {
    /// The values of the column, to be handed out one after the other from
    /// the first one on.
    pub fn into_iter(self) -> (r: SeriesIter<T>)
        ensures
            r@.values == self@.values,
            r@.done == 0,
    {
        SeriesIter { values: self.to_vec(), index: 0 }
    }
}

} // verus!

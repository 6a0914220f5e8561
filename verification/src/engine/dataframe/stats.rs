//! The least and the greatest values of the columns of floating point
//! values of a table.
use vstd::prelude::*;
use crate::engine::dataframe::DataFrame;
use crate::engine::series::floats::{all_ordered, block_extremes, block_positions};
use crate::engine::series::{Float64, Series, SeriesView};

verus! {

impl DataFrame {
    /// The smallest value of every column of double precision values, in
    /// the order of the columns and labelled `0`, `1`, ...; `None` where
    /// one of these columns holds no value, or a value that is not a number.
    pub fn min(&self) -> (r: Option<Series<Float64>>)
        ensures
            r is Some <==> all_ordered(self@.typed::<Float64>()),
            r matches Some(s) ==> block_extremes(self@.typed::<Float64>(), false, s@.values) && s@
                == SeriesView::from_values(s@.values),
    {
        self.block.block::<Float64>().min()
    }

    /// The greatest value of every column of double precision values, in
    /// the order of the columns and labelled `0`, `1`, ...; `None` where
    /// one of these columns holds no value, or a value that is not a number.
    pub fn max(&self) -> (r: Option<Series<Float64>>)
        ensures
            r is Some <==> all_ordered(self@.typed::<Float64>()),
            r matches Some(s) ==> block_extremes(self@.typed::<Float64>(), true, s@.values) && s@
                == SeriesView::from_values(s@.values),
    {
        self.block.block::<Float64>().max()
    }

    /// The first position of the smallest value of every column of double
    /// precision values, in the order of the columns and labelled `0`,
    /// `1`, ...; `None` where one of these columns holds no value, or a
    /// value that is not a number.
    pub fn argmin(&self) -> (r: Option<Series<usize>>)
        ensures
            r is Some <==> all_ordered(self@.typed::<Float64>()),
            r matches Some(s) ==> block_positions(self@.typed::<Float64>(), s@.values) && s@
                == SeriesView::from_values(s@.values),
    {
        self.block.block::<Float64>().argmin()
    }
}

} // verus!

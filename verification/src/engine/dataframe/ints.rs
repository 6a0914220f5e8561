//! Running sums, products, minima and maxima of the numeric columns of a table.
use vstd::prelude::*;
use crate::engine::block_manager::stats::{
    frame_accumulable, frame_accumulated, frame_extremes, without_nan, Running,
};
use crate::engine::dataframe::DataFrame;
use crate::engine::series::generic::accepts_any_pair;
use crate::engine::block_manager::truth::{frame_answered, frame_tallied, Question};
use crate::engine::series::{Float32, Float64, Series};

verus! {

impl DataFrame {
    /// For every numeric column, under its name, whether all its values
    /// differ from zero.
    pub fn all(&self) -> (r: Series<bool>)
        ensures
            frame_answered(Question::All, self@, r@),
    {
        self.block.ask(Question::All)
    }

    /// For every numeric column, under its name, whether some of its
    /// values differs from zero.
    pub fn any(&self) -> (r: Series<bool>)
        ensures
            frame_answered(Question::Any, self@, r@),
    {
        self.block.ask(Question::Any)
    }

    /// For every column of floating point values, under its name, the
    /// number of its values that are not a number.
    pub fn count(&self) -> (r: Series<usize>)
        ensures
            frame_tallied(self@, r@),
    {
        self.block.tally_floats()
    }

    /// A table of the running sums of every numeric column. For floating
    /// point values `wide` and `narrow` do the adding.
    pub fn cum_sum<A: Fn(Float64, Float64) -> Float64, B: Fn(Float32, Float32) -> Float32>(
        &self,
        wide: A,
        narrow: B,
    ) -> (r: DataFrame)
        requires
            accepts_any_pair(wide),
            accepts_any_pair(narrow),
            frame_accumulable(Running::Sum, self@),
        ensures
            frame_accumulated(Running::Sum, wide, narrow, self@, r@),
    {
        self.block.accumulate(Running::Sum, wide, narrow)
    }

    /// A table of the running products of every numeric column. For floating
    /// point values `wide` and `narrow` do the multiplying. With `skip_na`
    /// every floating point value must be a number, so that nothing is
    /// passed over and the columns keep their length.
    pub fn cum_prod<A: Fn(Float64, Float64) -> Float64, B: Fn(Float32, Float32) -> Float32>(
        &self,
        skip_na: bool,
        wide: A,
        narrow: B,
    ) -> (r: DataFrame)
        requires
            accepts_any_pair(wide),
            accepts_any_pair(narrow),
            frame_accumulable(Running::Product, self@),
            skip_na ==> without_nan(self@),
        ensures
            frame_accumulated(Running::Product, wide, narrow, self@, r@),
    {
        self.block.accumulate(Running::Product, wide, narrow)
    }

    /// A table of the running minima of every numeric column, each under
    /// its name and with its labels. Every floating point value must be a
    /// number.
    pub fn cum_min(&self) -> (r: DataFrame)
        requires
            without_nan(self@),
        ensures
            frame_extremes(false, self@, r@),
    {
        self.block.extremes(false)
    }

    /// A table of the running maxima of every numeric column, each under
    /// its name and with its labels. Every floating point value must be a
    /// number.
    pub fn cum_max(&self) -> (r: DataFrame)
        requires
            without_nan(self@),
        ensures
            frame_extremes(true, self@, r@),
    {
        self.block.extremes(true)
    }

    /// Whether every value of the floating point columns is a number.
    pub fn has_no_nan(&self) -> (b: bool)
        ensures
            b == without_nan(self@),
    {
        self.block.has_no_nan()
    }
}

} // verus!

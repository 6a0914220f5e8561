//! Arithmetic between two tables.
use vstd::prelude::*;
use crate::engine::block_manager::ops::{frame_computable, frame_computed, frame_fits};
use crate::engine::series::generic::accepts_any_pair;
use crate::engine::dataframe::DataFrame;
use crate::engine::series::ops::Operation;
use crate::engine::series::{Float32, Float64};

verus! {

impl DataFrame {
    /// A table of what arithmetic makes of every numeric column and the
    /// column that `rhs` holds under the same name and the same tag; see
    /// [`crate::engine::block_manager::BlockManager::arithmetic`].
    pub fn arithmetic<A: Fn(Float64, Float64) -> Float64, B: Fn(Float32, Float32) -> Float32>(
        &self,
        rhs: &DataFrame,
        op: Operation,
        wide: A,
        narrow: B,
    ) -> (r: DataFrame)
        requires
            frame_computable(op, wide, narrow, self@, rhs@),
        ensures
            frame_computed(op, wide, narrow, self@, rhs@, r@),
    {
        DataFrame::from_block(self.block.arithmetic(&rhs.block, op, wide, narrow))
    }

    /// Whether arithmetic stays within range on every column of integers
    /// and its partner in `rhs`: see [`frame_fits`].
    pub fn can_compute(&self, rhs: &DataFrame, op: Operation) -> (b: bool)
        ensures
            b == frame_fits(op, self@, rhs@),
    {
        self.block.can_compute(&rhs.block, op)
    }

    /// What arithmetic makes of the two tables, as [`DataFrame::arithmetic`]
    /// tells; `None` where a result leaves the range of its type or a
    /// divisor is 0.
    pub fn checked_arithmetic<A: Fn(Float64, Float64) -> Float64, B: Fn(Float32, Float32) -> Float32>(
        &self,
        rhs: &DataFrame,
        op: Operation,
        wide: A,
        narrow: B,
    ) -> (r: Option<DataFrame>)
        requires
            accepts_any_pair(wide),
            accepts_any_pair(narrow),
        ensures
            r is Some <==> frame_fits(op, self@, rhs@),
            r matches Some(made) ==> frame_computed(op, wide, narrow, self@, rhs@, made@),
    {
        match self.block.checked_arithmetic(&rhs.block, op, wide, narrow) {
            Some(block) => Some(DataFrame::from_block(block)),
            None => None,
        }
    }
}

} // verus!

//! `i32` as an element type.
use vstd::prelude::*;
use crate::engine::block_manager::column::{Cell, CellView};
use crate::engine::series::{Column, ColumnView, Scalar, Series, SeriesView};
use crate::enums::DataTypes;
use crate::text::{i64_to_string, signed_decimal};

verus! {

impl Scalar for i32 {
    open spec fn tag() -> DataTypes {
        DataTypes::I32
    }

    open spec fn project(col: ColumnView) -> Option<SeriesView<Self>> {
        match col {
            ColumnView::I32(s) => Some(s),
            _ => None,
        }
    }

    open spec fn embed(series: SeriesView<Self>) -> Option<ColumnView> {
        Some(ColumnView::I32(series))
    }

    proof fn lemma_stored(series: SeriesView<Self>, col: ColumnView) {
    }

    open spec fn cell_of(self) -> CellView {
        CellView::Text(signed_decimal(self as int))
    }

    fn cell(&self) -> (c: Cell) {
        Cell::Text(i64_to_string(*self as i64))
    }

    fn kind() -> (d: DataTypes) {
        DataTypes::I32
    }

    fn dup(&self) -> (r: Self) {
        *self
    }

    fn pick(col: &Column) -> (r: Option<&Series<Self>>) {
        match col {
            Column::I32(s) => Some(s),
            _ => None,
        }
    }

    fn wrap(series: Series<Self>) -> (r: Option<Column>) {
        Some(Column::I32(series))
    }
}

} // verus!

//! Floating point values, held by their bit patterns, as element types.
use vstd::prelude::*;
use crate::engine::block_manager::column::{Cell, CellView};
use crate::engine::series::{Column, ColumnView, Float32, Float64, Scalar, Series, SeriesView};
use crate::enums::DataTypes;

verus! {

impl Scalar for Float64 {
    open spec fn tag() -> DataTypes {
        DataTypes::F64
    }

    open spec fn project(col: ColumnView) -> Option<SeriesView<Self>> {
        match col {
            ColumnView::F64(s) => Some(s),
            _ => None,
        }
    }

    open spec fn embed(series: SeriesView<Self>) -> Option<ColumnView> {
        Some(ColumnView::F64(series))
    }

    proof fn lemma_stored(series: SeriesView<Self>, col: ColumnView) {
    }

    open spec fn cell_of(self) -> CellView {
        CellView::F64(self)
    }

    fn cell(&self) -> (c: Cell) {
        Cell::F64(*self)
    }

    fn kind() -> (d: DataTypes) {
        DataTypes::F64
    }

    fn dup(&self) -> (r: Self) {
        *self
    }

    fn pick(col: &Column) -> (r: Option<&Series<Self>>) {
        match col {
            Column::F64(s) => Some(s),
            _ => None,
        }
    }

    fn wrap(series: Series<Self>) -> (r: Option<Column>) {
        Some(Column::F64(series))
    }
}

impl Scalar for Float32 {
    open spec fn tag() -> DataTypes {
        DataTypes::F32
    }

    open spec fn project(col: ColumnView) -> Option<SeriesView<Self>> {
        match col {
            ColumnView::F32(s) => Some(s),
            _ => None,
        }
    }

    open spec fn embed(series: SeriesView<Self>) -> Option<ColumnView> {
        Some(ColumnView::F32(series))
    }

    proof fn lemma_stored(series: SeriesView<Self>, col: ColumnView) {
    }

    open spec fn cell_of(self) -> CellView {
        CellView::F32(self)
    }

    fn cell(&self) -> (c: Cell) {
        Cell::F32(*self)
    }

    fn kind() -> (d: DataTypes) {
        DataTypes::F32
    }

    fn dup(&self) -> (r: Self) {
        *self
    }

    fn pick(col: &Column) -> (r: Option<&Series<Self>>) {
        match col {
            Column::F32(s) => Some(s),
            _ => None,
        }
    }

    fn wrap(series: Series<Self>) -> (r: Option<Column>) {
        Some(Column::F32(series))
    }
}

} // verus!

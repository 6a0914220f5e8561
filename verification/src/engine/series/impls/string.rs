//! Strings and booleans as element types.
use vstd::prelude::*;
use crate::engine::block_manager::column::{Cell, CellView};
use crate::engine::series::{Column, ColumnView, Scalar, Series, SeriesView};
use crate::enums::DataTypes;
use vstd::string::StringExecFns;
use crate::engine::block_manager::column::{bool_text, shorten, shortened};

verus! {

impl Scalar for String {
    open spec fn tag() -> DataTypes {
        DataTypes::STRING
    }

    open spec fn project(col: ColumnView) -> Option<SeriesView<Self>> {
        match col {
            ColumnView::Text(s) => Some(s),
            _ => None,
        }
    }

    open spec fn embed(series: SeriesView<Self>) -> Option<ColumnView> {
        Some(ColumnView::Text(series))
    }

    proof fn lemma_stored(series: SeriesView<Self>, col: ColumnView) {
    }

    open spec fn cell_of(self) -> CellView {
        CellView::Text(shortened(self@))
    }

    fn cell(&self) -> (c: Cell) {
        Cell::Text(shorten(self.as_str()))
    }

    fn kind() -> (d: DataTypes) {
        DataTypes::STRING
    }

    fn dup(&self) -> (r: Self) {
        self.clone()
    }

    fn pick(col: &Column) -> (r: Option<&Series<Self>>) {
        match col {
            Column::Text(s) => Some(s),
            _ => None,
        }
    }

    fn wrap(series: Series<Self>) -> (r: Option<Column>) {
        Some(Column::Text(series))
    }
}

impl Scalar for &'static str {
    open spec fn tag() -> DataTypes {
        DataTypes::STR
    }

    open spec fn project(col: ColumnView) -> Option<SeriesView<Self>> {
        match col {
            ColumnView::Str(s) => Some(s),
            _ => None,
        }
    }

    open spec fn embed(series: SeriesView<Self>) -> Option<ColumnView> {
        Some(ColumnView::Str(series))
    }

    proof fn lemma_stored(series: SeriesView<Self>, col: ColumnView) {
    }

    open spec fn cell_of(self) -> CellView {
        CellView::Text(self@)
    }

    fn cell(&self) -> (c: Cell) {
        Cell::Text(String::from_str(*self))
    }

    fn kind() -> (d: DataTypes) {
        DataTypes::STR
    }

    fn dup(&self) -> (r: Self) {
        *self
    }

    fn pick(col: &Column) -> (r: Option<&Series<Self>>) {
        match col {
            Column::Str(s) => Some(s),
            _ => None,
        }
    }

    fn wrap(series: Series<Self>) -> (r: Option<Column>) {
        Some(Column::Str(series))
    }
}

impl Scalar for bool {
    open spec fn tag() -> DataTypes {
        DataTypes::BOOL
    }

    open spec fn project(col: ColumnView) -> Option<SeriesView<Self>> {
        match col {
            ColumnView::Bool(s) => Some(s),
            _ => None,
        }
    }

    open spec fn embed(series: SeriesView<Self>) -> Option<ColumnView> {
        Some(ColumnView::Bool(series))
    }

    proof fn lemma_stored(series: SeriesView<Self>, col: ColumnView) {
    }

    open spec fn cell_of(self) -> CellView {
        CellView::Text(bool_text(self))
    }

    fn cell(&self) -> (c: Cell) {
        Cell::Text(
            if *self {
                String::from_str("true")
            } else {
                String::from_str("false")
            },
        )
    }

    fn kind() -> (d: DataTypes) {
        DataTypes::BOOL
    }

    fn dup(&self) -> (r: Self) {
        *self
    }

    fn pick(col: &Column) -> (r: Option<&Series<Self>>) {
        match col {
            Column::Bool(s) => Some(s),
            _ => None,
        }
    }

    fn wrap(series: Series<Self>) -> (r: Option<Column>) {
        Some(Column::Bool(series))
    }
}

} // verus!

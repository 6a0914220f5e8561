//! `i64` as an element type, and the integer types that tables do not store.
use vstd::prelude::*;
use crate::engine::block_manager::column::{Cell, CellView};
use crate::engine::series::{Column, ColumnView, Scalar, Series, SeriesView};
use crate::enums::DataTypes;
use crate::text::{
    decimal, i128_to_string, i64_to_string, signed_decimal, u64_to_string, usize_to_string,
};

verus! {

impl Scalar for i64 {
    open spec fn tag() -> DataTypes {
        DataTypes::I64
    }

    open spec fn project(col: ColumnView) -> Option<SeriesView<Self>> {
        match col {
            ColumnView::I64(s) => Some(s),
            _ => None,
        }
    }

    open spec fn embed(series: SeriesView<Self>) -> Option<ColumnView> {
        Some(ColumnView::I64(series))
    }

    proof fn lemma_stored(series: SeriesView<Self>, col: ColumnView) {
    }

    open spec fn cell_of(self) -> CellView {
        CellView::Text(signed_decimal(self as int))
    }

    fn cell(&self) -> (c: Cell) {
        Cell::Text(i64_to_string(*self))
    }

    fn kind() -> (d: DataTypes) {
        DataTypes::I64
    }

    fn dup(&self) -> (r: Self) {
        *self
    }

    fn pick(col: &Column) -> (r: Option<&Series<Self>>) {
        match col {
            Column::I64(s) => Some(s),
            _ => None,
        }
    }

    fn wrap(series: Series<Self>) -> (r: Option<Column>) {
        Some(Column::I64(series))
    }
}

impl Scalar for i128 {
    open spec fn tag() -> DataTypes {
        DataTypes::OBJECT
    }

    open spec fn project(col: ColumnView) -> Option<SeriesView<Self>> {
        None
    }

    open spec fn embed(series: SeriesView<Self>) -> Option<ColumnView> {
        None
    }

    proof fn lemma_stored(series: SeriesView<Self>, col: ColumnView) {
    }

    open spec fn cell_of(self) -> CellView {
        CellView::Text(signed_decimal(self as int))
    }

    fn cell(&self) -> (c: Cell) {
        Cell::Text(i128_to_string(*self))
    }

    fn kind() -> (d: DataTypes) {
        DataTypes::OBJECT
    }

    fn dup(&self) -> (r: Self) {
        *self
    }

    fn pick(col: &Column) -> (r: Option<&Series<Self>>) {
        None
    }

    fn wrap(series: Series<Self>) -> (r: Option<Column>) {
        None
    }
}

impl Scalar for u64 {
    open spec fn tag() -> DataTypes {
        DataTypes::OBJECT
    }

    open spec fn project(col: ColumnView) -> Option<SeriesView<Self>> {
        None
    }

    open spec fn embed(series: SeriesView<Self>) -> Option<ColumnView> {
        None
    }

    proof fn lemma_stored(series: SeriesView<Self>, col: ColumnView) {
    }

    open spec fn cell_of(self) -> CellView {
        CellView::Text(decimal(self as nat))
    }

    fn cell(&self) -> (c: Cell) {
        Cell::Text(u64_to_string(*self))
    }

    fn kind() -> (d: DataTypes) {
        DataTypes::OBJECT
    }

    fn dup(&self) -> (r: Self) {
        *self
    }

    fn pick(col: &Column) -> (r: Option<&Series<Self>>) {
        None
    }

    fn wrap(series: Series<Self>) -> (r: Option<Column>) {
        None
    }
}

impl Scalar for usize {
    open spec fn tag() -> DataTypes {
        DataTypes::OBJECT
    }

    open spec fn project(col: ColumnView) -> Option<SeriesView<Self>> {
        None
    }

    open spec fn embed(series: SeriesView<Self>) -> Option<ColumnView> {
        None
    }

    proof fn lemma_stored(series: SeriesView<Self>, col: ColumnView) {
    }

    open spec fn cell_of(self) -> CellView {
        CellView::Text(decimal(self as nat))
    }

    fn cell(&self) -> (c: Cell) {
        Cell::Text(usize_to_string(*self))
    }

    fn kind() -> (d: DataTypes) {
        DataTypes::OBJECT
    }

    fn dup(&self) -> (r: Self) {
        *self
    }

    fn pick(col: &Column) -> (r: Option<&Series<Self>>) {
        None
    }

    fn wrap(series: Series<Self>) -> (r: Option<Column>) {
        None
    }
}

} // verus!

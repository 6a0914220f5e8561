//! The stored form of a column, whatever its element type, and the cells it shows.
use vstd::prelude::*;
use vstd::string::StringExecFns;
use crate::engine::series::generic::str_texts;
use crate::engine::series::{Column, ColumnView, Float32, Float64, Scalar};
use crate::enums::DataTypes;
use crate::text::{chars_of, string_from_chars, texts};

verus! {

/// One cell of a rendered table: text that is ready to show, or a floating
/// point value that the caller has yet to turn into text.
pub enum Cell {
    /// A cell that is already text.
    Text(String),
    /// A double precision value.
    F64(Float64),
    /// A single precision value.
    F32(Float32),
}

/// What a [`Cell`] stands for.
pub enum CellView {
    /// See [`Cell::Text`].
    Text(Seq<char>),
    /// See [`Cell::F64`].
    F64(Float64),
    /// See [`Cell::F32`].
    F32(Float32),
}

impl View for Cell {
    type V = CellView;

    open spec fn view(&self) -> CellView {
        match self {
            Cell::Text(s) => CellView::Text(s@),
            Cell::F64(v) => CellView::F64(*v),
            Cell::F32(v) => CellView::F32(*v),
        }
    }
}

/// The number of characters after which the text of a string cell is cut.
pub const CELL_WIDTH: usize = 30;

/// The text of a string cell: the string itself where it is shorter than
/// [`CELL_WIDTH`] characters, else its first [`CELL_WIDTH`] characters and `...`.
pub open spec fn shortened(text: Seq<char>) -> Seq<char> {
    if text.len() < CELL_WIDTH {
        text
    } else {
        text.take(CELL_WIDTH as int) + "..."@
    }
}

/// The text of a boolean cell.
pub open spec fn bool_text(b: bool) -> Seq<char> {
    if b {
        "true"@
    } else {
        "false"@
    }
}

/// The text of a string cell.
pub fn shorten(text: &str) -> (s: String)
    ensures
        s@ == shortened(text@),
{
    let chars = chars_of(text);
    if chars.len() < CELL_WIDTH {
        String::from_str(text)
    } else {
        let mut head: Vec<char> = Vec::new();
        let mut i: usize = 0;
        while i < CELL_WIDTH
            invariant
                i <= CELL_WIDTH,
                CELL_WIDTH <= chars@.len(),
                head@ == chars@.take(i as int),
            decreases CELL_WIDTH - i,
        {
            head.push(chars[i]);
            i += 1;
        }
        let mut s = string_from_chars(&head);
        s.append("...");
        s
    }
}

impl ColumnView {
    /// The cell that shows the value at position `i`.
    pub open spec fn cell(self, i: int) -> CellView {
        match self {
            ColumnView::F64(s) => s.values[i].cell_of(),
            ColumnView::F32(s) => s.values[i].cell_of(),
            ColumnView::I64(s) => s.values[i].cell_of(),
            ColumnView::I32(s) => s.values[i].cell_of(),
            ColumnView::Text(s) => s.values[i].cell_of(),
            ColumnView::Str(s) => s.values[i].cell_of(),
            ColumnView::Bool(s) => s.values[i].cell_of(),
        }
    }

    /// The column without the positions whose label is among `dropped`.
    pub open spec fn without_labels(self, dropped: Seq<Seq<char>>) -> Self {
        match self {
            ColumnView::F64(s) => ColumnView::F64(s.without_labels(dropped)),
            ColumnView::F32(s) => ColumnView::F32(s.without_labels(dropped)),
            ColumnView::I64(s) => ColumnView::I64(s.without_labels(dropped)),
            ColumnView::I32(s) => ColumnView::I32(s.without_labels(dropped)),
            ColumnView::Text(s) => ColumnView::Text(s.without_labels(dropped)),
            ColumnView::Str(s) => ColumnView::Str(s.without_labels(dropped)),
            ColumnView::Bool(s) => ColumnView::Bool(s.without_labels(dropped)),
        }
    }
}

impl Column {
    /// The tag of the column.
    pub fn tag(&self) -> (d: DataTypes)
        ensures
            d == self@.tag(),
    {
        match self {
            Column::F64(_) => DataTypes::F64,
            Column::F32(_) => DataTypes::F32,
            Column::I64(_) => DataTypes::I64,
            Column::I32(_) => DataTypes::I32,
            Column::Text(_) => DataTypes::STRING,
            Column::Str(_) => DataTypes::STR,
            Column::Bool(_) => DataTypes::BOOL,
        }
    }

    /// The name of the column.
    pub fn name(&self) -> (name: String)
        ensures
            name@ == self@.name(),
    {
        match self {
            Column::F64(s) => s.get_name(),
            Column::F32(s) => s.get_name(),
            Column::I64(s) => s.get_name(),
            Column::I32(s) => s.get_name(),
            Column::Text(s) => s.get_name(),
            Column::Str(s) => s.get_name(),
            Column::Bool(s) => s.get_name(),
        }
    }

    /// The number of values in the column.
    pub fn len(&self) -> (n: usize)
        ensures
            n == self@.len(),
            self@.aligned(),
    {
        match self {
            Column::F64(s) => s.len(),
            Column::F32(s) => s.len(),
            Column::I64(s) => s.len(),
            Column::I32(s) => s.len(),
            Column::Text(s) => s.len(),
            Column::Str(s) => s.len(),
            Column::Bool(s) => s.len(),
        }
    }

    /// The labels of the column.
    pub fn index(&self) -> (index: Vec<String>)
        ensures
            texts(index@) == self@.index(),
            index@.len() == self@.len(),
    {
        match self {
            Column::F64(s) => s.get_index(),
            Column::F32(s) => s.get_index(),
            Column::I64(s) => s.get_index(),
            Column::I32(s) => s.get_index(),
            Column::Text(s) => s.get_index(),
            Column::Str(s) => s.get_index(),
            Column::Bool(s) => s.get_index(),
        }
    }

    /// A copy of the column.
    pub fn duplicate(&self) -> (c: Column)
        ensures
            c@ == self@,
    {
        match self {
            Column::F64(s) => Column::F64(s.duplicate()),
            Column::F32(s) => Column::F32(s.duplicate()),
            Column::I64(s) => Column::I64(s.duplicate()),
            Column::I32(s) => Column::I32(s.duplicate()),
            Column::Text(s) => Column::Text(s.duplicate()),
            Column::Str(s) => Column::Str(s.duplicate()),
            Column::Bool(s) => Column::Bool(s.duplicate()),
        }
    }

    /// The column under another name.
    pub fn renamed(self, name: &str) -> (c: Column)
        ensures
            c@ == self@.renamed(name@),
    {
        match self {
            Column::F64(s) => {
                let mut s = s;
                s.set_name(name);
                Column::F64(s)
            },
            Column::F32(s) => {
                let mut s = s;
                s.set_name(name);
                Column::F32(s)
            },
            Column::I64(s) => {
                let mut s = s;
                s.set_name(name);
                Column::I64(s)
            },
            Column::I32(s) => {
                let mut s = s;
                s.set_name(name);
                Column::I32(s)
            },
            Column::Text(s) => {
                let mut s = s;
                s.set_name(name);
                Column::Text(s)
            },
            Column::Str(s) => {
                let mut s = s;
                s.set_name(name);
                Column::Str(s)
            },
            Column::Bool(s) => {
                let mut s = s;
                s.set_name(name);
                Column::Bool(s)
            },
        }
    }

    /// The column without the positions whose label is among `labels`.
    pub fn without_labels(&self, labels: &[&str]) -> (c: Column)
        ensures
            c@ == self@.without_labels(str_texts(labels@)),
    {
        match self {
            Column::F64(s) => Column::F64(s.drop(labels)),
            Column::F32(s) => Column::F32(s.drop(labels)),
            Column::I64(s) => Column::I64(s.drop(labels)),
            Column::I32(s) => Column::I32(s.drop(labels)),
            Column::Text(s) => Column::Text(s.drop(labels)),
            Column::Str(s) => Column::Str(s.drop(labels)),
            Column::Bool(s) => Column::Bool(s.drop(labels)),
        }
    }

    /// The cell that shows the value at position `i`.
    pub fn cell(&self, i: usize) -> (c: Cell)
        requires
            i < self@.len(),
        ensures
            c@ == self@.cell(i as int),
    {
        match self {
            Column::F64(s) => s.array[i].cell(),
            Column::F32(s) => s.array[i].cell(),
            Column::I64(s) => s.array[i].cell(),
            Column::I32(s) => s.array[i].cell(),
            Column::Text(s) => s.array[i].cell(),
            Column::Str(s) => s.array[i].cell(),
            Column::Bool(s) => s.array[i].cell(),
        }
    }
}

} // verus!

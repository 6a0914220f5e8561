//! The scalar kinds a column can hold, and the errors a table reports.
use vstd::prelude::*;
use vstd::string::StringExecFns;
use crate::text::{decimal, usize_to_string};

verus! {

/// The scalar kinds that columns and tables know how to work with.
/// Any other element type is tagged `OBJECT`.
#[derive(Clone, Copy, Debug, PartialEq, Eq, Hash, Structural)]
pub enum DataTypes {
    /// 32-bit signed integers.
    I32,
    /// 64-bit signed integers.
    I64,
    /// Single precision floating point values.
    F32,
    /// Double precision floating point values.
    F64,
    /// Owned strings.
    STRING,
    /// Borrowed string slices.
    STR,
    /// Booleans.
    BOOL,
    /// Anything else.
    OBJECT,
}

impl DataTypes {
    /// Whether columns of this kind take part in arithmetic between tables.
    pub open spec fn is_numeric(self) -> bool {
        self == DataTypes::I32 || self == DataTypes::I64 || self == DataTypes::F32 || self
            == DataTypes::F64
    }

    /// Whether a table can store columns of this kind.
    pub open spec fn is_supported(self) -> bool {
        self != DataTypes::OBJECT
    }

    /// Executable form of [`DataTypes::is_supported`].
    pub fn supported(&self) -> (b: bool)
        ensures
            b == self.is_supported(),
    {
        !matches!(self, DataTypes::OBJECT)
    }
}


impl DataTypes {
    /// The short lower-case label of the kind, as shown under a rendered table.
    pub open spec fn label_text(self) -> Seq<char> {
        match self {
            DataTypes::F32 => "f32"@,
            DataTypes::F64 => "f64"@,
            DataTypes::I32 => "i32"@,
            DataTypes::I64 => "i64"@,
            DataTypes::STR => "str"@,
            DataTypes::BOOL => "bool"@,
            DataTypes::STRING => "string"@,
            DataTypes::OBJECT => "object"@,
        }
    }

    /// The label of the kind as a string.
    pub fn label(&self) -> (s: String)
        ensures
            s@ == self.label_text(),
    {
        match self {
            DataTypes::F32 => String::from_str("f32"),
            DataTypes::F64 => String::from_str("f64"),
            DataTypes::I32 => String::from_str("i32"),
            DataTypes::I64 => String::from_str("i64"),
            DataTypes::STR => String::from_str("str"),
            DataTypes::BOOL => String::from_str("bool"),
            DataTypes::STRING => String::from_str("string"),
            DataTypes::OBJECT => String::from_str("object"),
        }
    }
}

/// What can go wrong when a table takes in or looks up a column.
#[derive(Debug)]
pub enum DataFrameErrors {
    /// A column was offered whose length differs from the table's row count.
    /// Holds the offered length, then the table's.
    DifferentLength(usize, usize),
    /// The name a column would get is already taken.
    ColumnNameErrors(String),
    /// A column was asked for that the table does not hold under the requested type.
    KeyError(String),
}

/// The model of a [`DataFrameErrors`] value.
pub enum DataFrameErrorsView {
    /// See [`DataFrameErrors::DifferentLength`].
    DifferentLength(nat, nat),
    /// See [`DataFrameErrors::ColumnNameErrors`].
    ColumnNameErrors(Seq<char>),
    /// See [`DataFrameErrors::KeyError`].
    KeyError(Seq<char>),
}

impl View for DataFrameErrors {
    type V = DataFrameErrorsView;

    open spec fn view(&self) -> DataFrameErrorsView {
        match self {
            DataFrameErrors::DifferentLength(me, other) => DataFrameErrorsView::DifferentLength(
                *me as nat,
                *other as nat,
            ),
            DataFrameErrors::ColumnNameErrors(name) => DataFrameErrorsView::ColumnNameErrors(
                name@,
            ),
            DataFrameErrors::KeyError(text) => DataFrameErrorsView::KeyError(text@),
        }
    }
}

impl DataFrameErrorsView {
    /// The sentence that describes the error.
    pub open spec fn message(self) -> Seq<char> {
        match self {
            DataFrameErrorsView::DifferentLength(me, other) => {
                "Arrays must be of same length. me "@ + decimal(me) + ". Other array "@ + decimal(
                    other,
                )
            },
            DataFrameErrorsView::ColumnNameErrors(name) => {
                "Name "@ + name + " already in DataFrame, consider changing the series name"@
            },
            DataFrameErrorsView::KeyError(text) => text,
        }
    }
}

/// The text of a [`DataFrameErrors::KeyError`] for the column `key`.
pub open spec fn missing_key_text(key: Seq<char>) -> Seq<char> {
    "key "@ + key + " does not exist"@
}

/// Builds the [`DataFrameErrors::KeyError`] for the column `key`.
pub fn missing_key(key: &str) -> (e: DataFrameErrors)
    ensures
        e@ == DataFrameErrorsView::KeyError(missing_key_text(key@)),
{
    let mut text = String::from_str("key ");
    text.append(key);
    text.append(" does not exist");
    DataFrameErrors::KeyError(text)
}

impl DataFrameErrors {
    /// The sentence that describes the error.
    pub fn message(&self) -> (s: String)
        ensures
            s@ == self@.message(),
    {
        match self {
            DataFrameErrors::DifferentLength(me, other) => {
                let mut s = String::from_str("Arrays must be of same length. me ");
                let a = usize_to_string(*me);
                s.append(a.as_str());
                s.append(". Other array ");
                let b = usize_to_string(*other);
                s.append(b.as_str());
                s
            },
            DataFrameErrors::ColumnNameErrors(name) => {
                let mut s = String::from_str("Name ");
                s.append(name.as_str());
                s.append(" already in DataFrame, consider changing the series name");
                s
            },
            DataFrameErrors::KeyError(text) => text.clone(),
        }
    }
}

} // verus!

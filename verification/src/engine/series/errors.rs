//! Errors of operations on columns.
use vstd::prelude::*;
use vstd::string::StringExecFns;
use crate::text::{decimal, usize_to_string};

verus! {

/// Errors of operations that work on two columns at once.
#[derive(Debug)]
pub enum SeriesErrors {
    /// The two columns differ in length. Holds the length of the column the
    /// operation was called on, then the other one's.
    MatrixUnaligned(usize, usize),
}

impl SeriesErrors {
    /// The sentence that describes the error.
    pub open spec fn message_text(self) -> Seq<char> {
        match self {
            SeriesErrors::MatrixUnaligned(me, other) => "Matrices unaligned. Length for me "@
                + decimal(me as nat) + ",length for other "@ + decimal(other as nat),
        }
    }

    /// The sentence that describes the error.
    pub fn message(&self) -> (s: String)
        ensures
            s@ == self.message_text(),
    {
        match self {
            SeriesErrors::MatrixUnaligned(me, other) => {
                let mut s = String::from_str("Matrices unaligned. Length for me ");
                let a = usize_to_string(*me);
                s.append(a.as_str());
                s.append(",length for other ");
                let b = usize_to_string(*other);
                s.append(b.as_str());
                s
            },
        }
    }
}

/// Errors of building or relabelling a column.
#[derive(Debug)]
pub enum Error {
    /// A column was to be made of a mapping that does not hold exactly one
    /// entry. Holds the number of entries.
    HashMapError(usize),
    /// Labels were to be replaced by labels with another number of distinct ones.
    LabelError,
}

impl Error {
    /// The sentence that describes the error.
    pub open spec fn message_text(self) -> Seq<char> {
        match self {
            Error::HashMapError(len) => "Expected a hashmap of length 1\nFound a Hashmap of length "@
                + decimal(len as nat),
            Error::LabelError => "found duplicate labels"@,
        }
    }

    /// The sentence that describes the error.
    pub fn message(&self) -> (s: String)
        ensures
            s@ == self.message_text(),
    {
        match self {
            Error::HashMapError(len) => {
                let mut s = String::from_str(
                    "Expected a hashmap of length 1\nFound a Hashmap of length ",
                );
                let a = usize_to_string(*len);
                s.append(a.as_str());
                s
            },
            Error::LabelError => String::from_str("found duplicate labels"),
        }
    }
}

} // verus!

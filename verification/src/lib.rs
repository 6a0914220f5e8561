//! Typed, labelled columns and tables of equal-length columns.
pub mod engine;
pub mod enums;
pub mod io;
pub mod text;

//! Labels of rows that are more than text.
pub mod date_time;

//! Columns, groups of columns and tables.
pub mod block_manager;
pub mod common;
pub mod dataframe;
pub mod index;
pub mod laws;
pub mod series;

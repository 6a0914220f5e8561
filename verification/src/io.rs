//! Reading tables from text: telling the types of columns, and parsing
//! delimited and fixed-width text.
pub mod clipboard;
pub mod csv;
pub mod dtypes;
pub mod excel;
pub mod fwf;
pub mod infer;
pub mod json;
pub mod parser;
pub mod utils;

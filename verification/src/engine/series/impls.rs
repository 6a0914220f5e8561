//! The element types that the library provides.
pub mod bigint;
pub mod float;
pub mod ints;
pub mod string;

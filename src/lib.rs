//! Predicate parsing and typed comparison over JSON arrays: the core of a
//! small command-line JSON query tool.
pub mod laws;
pub mod operators;
pub mod parsers;
pub mod path;
pub mod runner;
pub mod text;
pub mod value;

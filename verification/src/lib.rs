//! Synthesis of delimited text tables with randomly typed columns.
//!
//! A [`schema::Schema`] assigns every column one of three kinds. Rows are
//! drawn field by field, joined by a delimiter and collected by workers that
//! each own a contiguous share of the requested row count. The workers'
//! artifacts are concatenated, in worker order, behind a header line.

pub mod bytes;
pub mod config;
pub mod coordinator;
pub mod decimal;
pub mod field;
pub mod partition;
pub mod random;
pub mod schema;
pub mod table;
pub mod worker;

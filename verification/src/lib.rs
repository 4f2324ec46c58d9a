//! Affine column combinations over a pair of trace tables.
//!
//! A constraint author describes an affine function `constant + sum of
//! weight * column` over two disjoint tables of field elements (a fixed
//! "preprocessed" table and a per-execution "main" table), without
//! committing to whether the function is later evaluated over concrete
//! field values or over symbolic expression nodes.

pub mod algebra;
pub mod f7;
pub mod laws;
pub mod ring;
pub mod symbolic;
pub mod virtual_column;

//! Vectorized columnar execution core: typed columns with validity bitmaps,
//! physical-type dispatch for temporal types, a scalar comparison/arithmetic
//! evaluation framework with numeric promotion and null propagation, a
//! name-keyed database catalog, and plan-tree pretty printers.

pub mod arith;
pub mod catalog;
pub mod column;
pub mod compare;
pub mod error;
pub mod function;
pub mod hashing;
pub mod plan;
pub mod types;
pub mod value;

//! The error taxonomy shared by the evaluation core and the catalog.

use vstd::prelude::*;

use crate::types::LogicalType;

verus! {

/// Every fallible operation of the library returns one of these typed errors.
/// Type errors carry the offending logical types; catalog misses carry the
/// name that was looked up.
#[derive(Clone, Debug, PartialEq)]
pub enum ErrorCode {
    /// No defined or lossless mapping between the two logical types.
    UnsupportedCast(LogicalType, LogicalType),
    /// The operands are not comparable or arithmetic-compatible.
    TypeMismatch(LogicalType, LogicalType),
    /// A row index at or past the column length.
    IndexOutOfRange,
    /// Catalog miss on a database name.
    UnknownDatabase(String),
    /// Catalog miss on a table name.
    UnknownTable(String),
    /// Catalog miss on a table-function name.
    UnknownTableFunction(String),
    /// Registry miss on a scalar-function name.
    UnknownFunction(String),
    /// A programming error, such as a physical-type query on a type that is
    /// already physical; it must fail fast and is never caught and retried.
    InvariantViolation(LogicalType),
}

} // verus!

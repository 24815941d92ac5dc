//! Row-level values: the mathematical cell model used by contracts, and the
//! tagged scalar returned by row accessors.

use vstd::prelude::*;

use crate::types::IntervalUnit;
use crate::types::LogicalType;
use crate::types::TimeUnit;

verus! {

/// The mathematical value of one row of a column: null, an unbounded integer
/// (all integer-backed logical types, dates, timestamps and intervals), a
/// boolean, or a byte string (Utf8 and Binary).
pub enum Cell {
    Null,
    Int(int),
    Bool(bool),
    Bytes(Seq<u8>),
}

/// A row's value as a tagged scalar, carrying the logical type it came from.
#[derive(Clone, Debug, PartialEq)]
pub enum DataValue {
    Null,
    Int8(i8),
    Int16(i16),
    Int32(i32),
    Int64(i64),
    UInt8(u8),
    UInt16(u16),
    UInt32(u32),
    UInt64(u64),
    Boolean(bool),
    Utf8(Vec<u8>),
    Binary(Vec<u8>),
    Date32(i32),
    Date64(i64),
    Timestamp(TimeUnit, Option<i32>, i64),
    IntervalYearMonth(i32),
    IntervalDayTime(i64),
}

impl DataValue {
    /// The mathematical cell this scalar stands for.
    pub open spec fn cell(self) -> Cell {
        match self {
            DataValue::Null => Cell::Null,
            DataValue::Int8(v) => Cell::Int(v as int),
            DataValue::Int16(v) => Cell::Int(v as int),
            DataValue::Int32(v) => Cell::Int(v as int),
            DataValue::Int64(v) => Cell::Int(v as int),
            DataValue::UInt8(v) => Cell::Int(v as int),
            DataValue::UInt16(v) => Cell::Int(v as int),
            DataValue::UInt32(v) => Cell::Int(v as int),
            DataValue::UInt64(v) => Cell::Int(v as int),
            DataValue::Boolean(v) => Cell::Bool(v),
            DataValue::Utf8(v) => Cell::Bytes(v@),
            DataValue::Binary(v) => Cell::Bytes(v@),
            DataValue::Date32(v) => Cell::Int(v as int),
            DataValue::Date64(v) => Cell::Int(v as int),
            DataValue::Timestamp(_, _, v) => Cell::Int(v as int),
            DataValue::IntervalYearMonth(v) => Cell::Int(v as int),
            DataValue::IntervalDayTime(v) => Cell::Int(v as int),
        }
    }

    /// Whether this scalar is the variant that belongs to the given logical
    /// type (or null, which belongs to every type).
    pub open spec fn belongs_to(self, lt: LogicalType) -> bool {
        match self {
            DataValue::Null => true,
            DataValue::Int8(_) => lt == LogicalType::Int8,
            DataValue::Int16(_) => lt == LogicalType::Int16,
            DataValue::Int32(_) => lt == LogicalType::Int32,
            DataValue::Int64(_) => lt == LogicalType::Int64,
            DataValue::UInt8(_) => lt == LogicalType::UInt8,
            DataValue::UInt16(_) => lt == LogicalType::UInt16,
            DataValue::UInt32(_) => lt == LogicalType::UInt32,
            DataValue::UInt64(_) => lt == LogicalType::UInt64,
            DataValue::Boolean(_) => lt == LogicalType::Boolean,
            DataValue::Utf8(_) => lt == LogicalType::Utf8,
            DataValue::Binary(_) => lt == LogicalType::Binary,
            DataValue::Date32(_) => lt == LogicalType::Date32,
            DataValue::Date64(_) => lt == LogicalType::Date64,
            DataValue::Timestamp(u, tz, _) => lt == LogicalType::Timestamp(u, tz),
            DataValue::IntervalYearMonth(_) => lt == LogicalType::Interval(
                IntervalUnit::YearMonth,
            ),
            DataValue::IntervalDayTime(_) => lt == LogicalType::Interval(IntervalUnit::DayTime),
        }
    }
}

} // verus!

//! Logical column types and their physical (storage) representations.

use vstd::prelude::*;

verus! {

/// Granularity of a timestamp value.
#[derive(Clone, Copy, Debug, PartialEq, Eq, Structural)]
pub enum TimeUnit {
    Second,
    Millisecond,
    Microsecond,
    Nanosecond,
}

/// Granularity of an interval value.
#[derive(Clone, Copy, Debug, PartialEq, Eq, Structural)]
pub enum IntervalUnit {
    /// A whole number of months, backed by a 32-bit integer.
    YearMonth,
    /// A whole number of days, backed by a 64-bit integer.
    DayTime,
}

/// The semantic type of a column, fixed at column creation.
///
/// A timestamp may carry a fixed-offset timezone, kept as a count of minutes
/// east of UTC.
#[derive(Clone, Copy, Debug, PartialEq, Eq, Structural)]
pub enum LogicalType {
    Int8,
    Int16,
    Int32,
    Int64,
    UInt8,
    UInt16,
    UInt32,
    UInt64,
    Float32,
    Float64,
    Boolean,
    Utf8,
    Binary,
    /// Days since the epoch, backed by a 32-bit integer.
    Date32,
    /// Milliseconds since the epoch, backed by a 64-bit integer.
    Date64,
    Timestamp(TimeUnit, Option<i32>),
    Interval(IntervalUnit),
}

/// The storage primitive backing a logical type that has no native one.
#[derive(Clone, Copy, Debug, PartialEq, Eq, Structural)]
pub enum PhysicalRepresentation {
    Int32,
    Int64,
    Float32,
    Float64,
    Boolean,
    Binary,
}

impl LogicalType {
    /// A type is physical when it is its own storage representation; only the
    /// temporal types (dates, timestamps, intervals) are not.
    pub open spec fn is_physical_spec(self) -> bool {
        match self {
            LogicalType::Date32
            | LogicalType::Date64
            | LogicalType::Timestamp(_, _)
            | LogicalType::Interval(_) => false,
            _ => true,
        }
    }

    /// Whether this type is its own storage representation.
    pub fn is_physical(&self) -> (r: bool)
        ensures
            r == self.is_physical_spec(),
    {
        match self {
            LogicalType::Date32
            | LogicalType::Date64
            | LogicalType::Timestamp(_, _)
            | LogicalType::Interval(_) => false,
            _ => true,
        }
    }

    /// The physical primitive backing a non-physical type.
    pub open spec fn physical_of_spec(self) -> PhysicalRepresentation
        recommends
            !self.is_physical_spec(),
    {
        match self {
            LogicalType::Date32 | LogicalType::Interval(IntervalUnit::YearMonth)
                => PhysicalRepresentation::Int32,
            _ => PhysicalRepresentation::Int64,
        }
    }

    /// Get the physical memory type of a date, timestamp or interval type.
    ///
    /// Asking for the physical type of a type that is already physical is an
    /// invariant violation, excluded by the precondition; callers that cannot
    /// establish it use [`LogicalType::physical_of_checked`].
    pub fn physical_of(&self) -> (r: PhysicalRepresentation)
        requires
            !self.is_physical_spec(),
        ensures
            r == self.physical_of_spec(),
    {
        match self {
            LogicalType::Date32 | LogicalType::Interval(IntervalUnit::YearMonth)
                => PhysicalRepresentation::Int32,
            LogicalType::Date64
            | LogicalType::Timestamp(_, _)
            | LogicalType::Interval(IntervalUnit::DayTime) => PhysicalRepresentation::Int64,
            _ => {
                proof {
                    assert(false);
                }
                PhysicalRepresentation::Int32
            },
        }
    }

    /// Fail-fast form of [`LogicalType::physical_of`]: on a type that is
    /// already physical it reports the invariant violation instead of
    /// silently coercing.
    pub fn physical_of_checked(&self) -> (r: Result<PhysicalRepresentation, crate::error::ErrorCode>)
        ensures
            self.is_physical_spec() ==> r == Result::<
                PhysicalRepresentation,
                crate::error::ErrorCode,
            >::Err(crate::error::ErrorCode::InvariantViolation(*self)),
            !self.is_physical_spec() ==> r == Result::<
                PhysicalRepresentation,
                crate::error::ErrorCode,
            >::Ok(self.physical_of_spec()),
    {
        if self.is_physical() {
            Err(crate::error::ErrorCode::InvariantViolation(*self))
        } else {
            Ok(self.physical_of())
        }
    }
}

impl PhysicalRepresentation {
    /// The logical type that coincides with this physical representation.
    pub open spec fn as_logical_spec(self) -> LogicalType {
        match self {
            PhysicalRepresentation::Int32 => LogicalType::Int32,
            PhysicalRepresentation::Int64 => LogicalType::Int64,
            PhysicalRepresentation::Float32 => LogicalType::Float32,
            PhysicalRepresentation::Float64 => LogicalType::Float64,
            PhysicalRepresentation::Boolean => LogicalType::Boolean,
            PhysicalRepresentation::Binary => LogicalType::Binary,
        }
    }

    /// The logical type that coincides with this physical representation.
    pub fn as_logical(&self) -> (r: LogicalType)
        ensures
            r == self.as_logical_spec(),
    {
        match self {
            PhysicalRepresentation::Int32 => LogicalType::Int32,
            PhysicalRepresentation::Int64 => LogicalType::Int64,
            PhysicalRepresentation::Float32 => LogicalType::Float32,
            PhysicalRepresentation::Float64 => LogicalType::Float64,
            PhysicalRepresentation::Boolean => LogicalType::Boolean,
            PhysicalRepresentation::Binary => LogicalType::Binary,
        }
    }
}

} // verus!

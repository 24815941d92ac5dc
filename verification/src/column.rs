//! The column abstraction: one logical type, a contiguous element buffer and
//! an optional validity bitmap (absent bitmap means all rows are valid).
//!
//! Columns are value-immutable: every operation returns a new column and never
//! mutates its input.

use vstd::prelude::*;

use crate::error::ErrorCode;
use crate::types::IntervalUnit;
use crate::types::LogicalType;
use crate::value::Cell;
use crate::value::DataValue;

verus! {

/// The storage shape of a column buffer.
#[derive(Clone, Copy, Debug, PartialEq, Eq, Structural)]
pub enum StorageKind {
    I8,
    I16,
    I32,
    I64,
    U8,
    U16,
    U32,
    U64,
    Bool,
    Bytes,
}

/// The element buffer of a column. Temporal types are stored as the integers
/// of their physical representation: `Date32` and `Interval(YearMonth)` in
/// `Int32` buffers (days, months), `Date64`, `Timestamp` and
/// `Interval(DayTime)` in `Int64` buffers (milliseconds since the epoch,
/// timestamp ticks, days).
#[derive(Debug)]
pub enum ColumnData {
    Int8(Vec<i8>),
    Int16(Vec<i16>),
    Int32(Vec<i32>),
    Int64(Vec<i64>),
    UInt8(Vec<u8>),
    UInt16(Vec<u16>),
    UInt32(Vec<u32>),
    UInt64(Vec<u64>),
    Boolean(Vec<bool>),
    Bytes(Vec<Vec<u8>>),
}

impl ColumnData {
    /// Number of rows in the buffer.
    pub open spec fn len_spec(&self) -> nat {
        match self {
            ColumnData::Int8(v) => v@.len(),
            ColumnData::Int16(v) => v@.len(),
            ColumnData::Int32(v) => v@.len(),
            ColumnData::Int64(v) => v@.len(),
            ColumnData::UInt8(v) => v@.len(),
            ColumnData::UInt16(v) => v@.len(),
            ColumnData::UInt32(v) => v@.len(),
            ColumnData::UInt64(v) => v@.len(),
            ColumnData::Boolean(v) => v@.len(),
            ColumnData::Bytes(v) => v@.len(),
        }
    }

    /// The stored value of row `i`, ignoring validity.
    pub open spec fn raw_cell(&self, i: int) -> Cell {
        match self {
            ColumnData::Int8(v) => Cell::Int(v@[i] as int),
            ColumnData::Int16(v) => Cell::Int(v@[i] as int),
            ColumnData::Int32(v) => Cell::Int(v@[i] as int),
            ColumnData::Int64(v) => Cell::Int(v@[i] as int),
            ColumnData::UInt8(v) => Cell::Int(v@[i] as int),
            ColumnData::UInt16(v) => Cell::Int(v@[i] as int),
            ColumnData::UInt32(v) => Cell::Int(v@[i] as int),
            ColumnData::UInt64(v) => Cell::Int(v@[i] as int),
            ColumnData::Boolean(v) => Cell::Bool(v@[i]),
            ColumnData::Bytes(v) => Cell::Bytes(v@[i]@),
        }
    }

    /// The storage shape of this buffer.
    pub open spec fn kind_spec(&self) -> StorageKind {
        match self {
            ColumnData::Int8(_) => StorageKind::I8,
            ColumnData::Int16(_) => StorageKind::I16,
            ColumnData::Int32(_) => StorageKind::I32,
            ColumnData::Int64(_) => StorageKind::I64,
            ColumnData::UInt8(_) => StorageKind::U8,
            ColumnData::UInt16(_) => StorageKind::U16,
            ColumnData::UInt32(_) => StorageKind::U32,
            ColumnData::UInt64(_) => StorageKind::U64,
            ColumnData::Boolean(_) => StorageKind::Bool,
            ColumnData::Bytes(_) => StorageKind::Bytes,
        }
    }

    /// The storage shape of this buffer.
    pub fn kind(&self) -> (r: StorageKind)
        ensures
            r == self.kind_spec(),
    {
        match self {
            ColumnData::Int8(_) => StorageKind::I8,
            ColumnData::Int16(_) => StorageKind::I16,
            ColumnData::Int32(_) => StorageKind::I32,
            ColumnData::Int64(_) => StorageKind::I64,
            ColumnData::UInt8(_) => StorageKind::U8,
            ColumnData::UInt16(_) => StorageKind::U16,
            ColumnData::UInt32(_) => StorageKind::U32,
            ColumnData::UInt64(_) => StorageKind::U64,
            ColumnData::Boolean(_) => StorageKind::Bool,
            ColumnData::Bytes(_) => StorageKind::Bytes,
        }
    }
}

/// The storage shape each logical type is kept in; floating-point types have
/// no storage in this library and never inhabit a column.
pub open spec fn storage_of(lt: LogicalType) -> Option<StorageKind> {
    match lt {
        LogicalType::Int8 => Some(StorageKind::I8),
        LogicalType::Int16 => Some(StorageKind::I16),
        LogicalType::Int32 => Some(StorageKind::I32),
        LogicalType::Int64 => Some(StorageKind::I64),
        LogicalType::UInt8 => Some(StorageKind::U8),
        LogicalType::UInt16 => Some(StorageKind::U16),
        LogicalType::UInt32 => Some(StorageKind::U32),
        LogicalType::UInt64 => Some(StorageKind::U64),
        LogicalType::Float32 => None,
        LogicalType::Float64 => None,
        LogicalType::Boolean => Some(StorageKind::Bool),
        LogicalType::Utf8 => Some(StorageKind::Bytes),
        LogicalType::Binary => Some(StorageKind::Bytes),
        LogicalType::Date32 => Some(StorageKind::I32),
        LogicalType::Date64 => Some(StorageKind::I64),
        LogicalType::Timestamp(_, _) => Some(StorageKind::I64),
        LogicalType::Interval(IntervalUnit::YearMonth) => Some(StorageKind::I32),
        LogicalType::Interval(IntervalUnit::DayTime) => Some(StorageKind::I64),
    }
}

/// Whether rows of this storage shape are integers.
pub open spec fn int_kind(k: StorageKind) -> bool {
    k != StorageKind::Bool && k != StorageKind::Bytes
}

/// The storage shape each logical type is kept in.
pub fn storage_of_exec(lt: &LogicalType) -> (r: Option<StorageKind>)
    ensures
        r == storage_of(*lt),
{
    match lt {
        LogicalType::Int8 => Some(StorageKind::I8),
        LogicalType::Int16 => Some(StorageKind::I16),
        LogicalType::Int32 => Some(StorageKind::I32),
        LogicalType::Int64 => Some(StorageKind::I64),
        LogicalType::UInt8 => Some(StorageKind::U8),
        LogicalType::UInt16 => Some(StorageKind::U16),
        LogicalType::UInt32 => Some(StorageKind::U32),
        LogicalType::UInt64 => Some(StorageKind::U64),
        LogicalType::Float32 => None,
        LogicalType::Float64 => None,
        LogicalType::Boolean => Some(StorageKind::Bool),
        LogicalType::Utf8 => Some(StorageKind::Bytes),
        LogicalType::Binary => Some(StorageKind::Bytes),
        LogicalType::Date32 => Some(StorageKind::I32),
        LogicalType::Date64 => Some(StorageKind::I64),
        LogicalType::Timestamp(_, _) => Some(StorageKind::I64),
        LogicalType::Interval(IntervalUnit::YearMonth) => Some(StorageKind::I32),
        LogicalType::Interval(IntervalUnit::DayTime) => Some(StorageKind::I64),
    }
}

/// The mathematical model of a column: its logical type and the sequence of
/// row values, with invalid rows already collapsed to [`Cell::Null`].
#[verifier::ext_equal]
pub struct ColumnV {
    pub logical: LogicalType,
    pub cells: Seq<Cell>,
}

/// An immutable sequence of rows of one logical type with an optional
/// validity bitmap. Build columns with [`Column::new`]; every operation of
/// the library preserves [`Column::wf`].
#[derive(Debug)]
pub struct Column {
    pub logical: LogicalType,
    pub data: ColumnData,
    pub validity: Option<Vec<bool>>,
}

impl Column {
    /// Well-formed: the buffer has the shape that the logical type requires,
    /// and a validity bitmap, if present, has one bit per row.
    pub open spec fn wf(&self) -> bool {
        &&& storage_of(self.logical) == Some(self.data.kind_spec())
        &&& match self.validity {
            Some(b) => b@.len() == self.data.len_spec(),
            None => true,
        }
    }

    /// Whether row `i` is valid (not null).
    pub open spec fn valid_spec(&self, i: int) -> bool {
        match self.validity {
            Some(b) => b@[i],
            None => true,
        }
    }

    /// The model value of row `i`.
    pub open spec fn cell_spec(&self, i: int) -> Cell {
        if self.valid_spec(i) {
            self.data.raw_cell(i)
        } else {
            Cell::Null
        }
    }
}

impl View for Column {
    type V = ColumnV;

    open spec fn view(&self) -> ColumnV {
        ColumnV {
            logical: self.logical,
            cells: Seq::new(self.data.len_spec(), |i: int| self.cell_spec(i)),
        }
    }
}

impl Column {
    /// Build a column, checking that the buffer shape fits the logical type
    /// and that the bitmap, if any, covers every row. A mismatch is a
    /// programming error and fails fast.
    pub fn new(logical: LogicalType, data: ColumnData, validity: Option<Vec<bool>>) -> (r: Result<
        Column,
        ErrorCode,
    >)
        ensures
            match r {
                Ok(c) => {
                    &&& c.wf()
                    &&& c.logical == logical
                    &&& c.data == data
                    &&& c.validity == validity
                },
                Err(e) => {
                    &&& e == ErrorCode::InvariantViolation(logical)
                    &&& !(Column { logical, data, validity }).wf()
                },
            },
    {
        let shape_ok = match storage_of_exec(&logical) {
            Some(k) => k == data.kind(),
            None => false,
        };
        let bitmap_ok = match &validity {
            Some(b) => b.len() == data_len(&data),
            None => true,
        };
        if shape_ok && bitmap_ok {
            Ok(Column { logical, data, validity })
        } else {
            Err(ErrorCode::InvariantViolation(logical))
        }
    }

    /// The logical type, fixed for the column's whole lifetime.
    pub fn logical_type(&self) -> (r: LogicalType)
        ensures
            r == self@.logical,
    {
        self.logical
    }

    /// Number of rows.
    pub fn len(&self) -> (r: usize)
        ensures
            r == self@.cells.len(),
    {
        data_len(&self.data)
    }

    /// Whether the column has no rows.
    pub fn is_empty(&self) -> (r: bool)
        ensures
            r == (self@.cells.len() == 0),
    {
        self.len() == 0
    }

    /// Whether row `i` is valid; callers must stay in bounds.
    pub fn is_valid_at(&self, i: usize) -> (r: bool)
        requires
            self.wf(),
            i < self@.cells.len(),
        ensures
            r == self.valid_spec(i as int),
    {
        match &self.validity {
            Some(b) => b[i],
            None => true,
        }
    }

    /// Whether row `row` is null; rows at or past the length are rejected.
    pub fn is_null(&self, row: usize) -> (r: Result<bool, ErrorCode>)
        requires
            self.wf(),
        ensures
            match r {
                Ok(b) => row < self@.cells.len() && b == (self@.cells[row as int] is Null),
                Err(e) => row >= self@.cells.len() && e == ErrorCode::IndexOutOfRange,
            },
    {
        if row >= self.len() {
            Err(ErrorCode::IndexOutOfRange)
        } else {
            let valid = self.is_valid_at(row);
            if !valid {
                Ok(true)
            } else {
                assert(self@.cells[row as int] == self.cell_spec(row as int));
                Ok(is_null_raw(&self.data, row))
            }
        }
    }

    /// How many rows are null.
    pub fn null_count(&self) -> (r: usize)
        requires
            self.wf(),
        ensures
            r == count_nulls(self@.cells, self@.cells.len() as int),
    {
        let n = self.len();
        let mut count: usize = 0;
        let mut i: usize = 0;
        while i < n
            invariant
                self.wf(),
                n == self@.cells.len(),
                i <= n,
                count <= i,
                count == count_nulls(self@.cells, i as int),
            decreases n - i,
        {
            let valid = self.is_valid_at(i);
            let row_null = if !valid {
                true
            } else {
                assert(self@.cells[i as int] == self.cell_spec(i as int));
                is_null_raw(&self.data, i)
            };
            if row_null {
                count = count + 1;
            }
            assert(self@.cells[i as int] == self.cell_spec(i as int));
            i = i + 1;
        }
        count
    }
}

/// How many of the first `n` cells are null.
pub open spec fn count_nulls(cells: Seq<Cell>, n: int) -> nat
    decreases n,
{
    if n <= 0 {
        0
    } else {
        count_nulls(cells, n - 1) + if cells[n - 1] is Null {
            1nat
        } else {
            0nat
        }
    }
}

/// Number of rows in a buffer.
pub fn data_len(data: &ColumnData) -> (r: usize)
    ensures
        r == data.len_spec(),
{
    match data {
        ColumnData::Int8(v) => v.len(),
        ColumnData::Int16(v) => v.len(),
        ColumnData::Int32(v) => v.len(),
        ColumnData::Int64(v) => v.len(),
        ColumnData::UInt8(v) => v.len(),
        ColumnData::UInt16(v) => v.len(),
        ColumnData::UInt32(v) => v.len(),
        ColumnData::UInt64(v) => v.len(),
        ColumnData::Boolean(v) => v.len(),
        ColumnData::Bytes(v) => v.len(),
    }
}

/// Smallest integer a storage shape can hold (integer shapes only).
pub open spec fn kind_min(k: StorageKind) -> int {
    match k {
        StorageKind::I8 => i8::MIN as int,
        StorageKind::I16 => i16::MIN as int,
        StorageKind::I32 => i32::MIN as int,
        StorageKind::I64 => i64::MIN as int,
        _ => 0,
    }
}

/// Largest integer a storage shape can hold (integer shapes only).
pub open spec fn kind_max(k: StorageKind) -> int {
    match k {
        StorageKind::I8 => i8::MAX as int,
        StorageKind::I16 => i16::MAX as int,
        StorageKind::I32 => i32::MAX as int,
        StorageKind::I64 => i64::MAX as int,
        StorageKind::U8 => u8::MAX as int,
        StorageKind::U16 => u16::MAX as int,
        StorageKind::U32 => u32::MAX as int,
        StorageKind::U64 => u64::MAX as int,
        _ => 0,
    }
}

/// Whether `v` fits in the integer storage shape `k`.
pub open spec fn in_kind_range(k: StorageKind, v: int) -> bool {
    int_kind(k) && kind_min(k) <= v <= kind_max(k)
}

/// Whether every value of integer shape `from` fits losslessly in `to`.
pub open spec fn int_widening(from: StorageKind, to: StorageKind) -> bool {
    &&& int_kind(from)
    &&& int_kind(to)
    &&& kind_min(to) <= kind_min(from)
    &&& kind_max(from) <= kind_max(to)
}

/// The bounds of an integer storage shape.
fn kind_bounds(k: StorageKind) -> (r: (i128, i128))
    requires
        int_kind(k),
    ensures
        r.0 as int == kind_min(k),
        r.1 as int == kind_max(k),
{
    match k {
        StorageKind::I8 => (i8::MIN as i128, i8::MAX as i128),
        StorageKind::I16 => (i16::MIN as i128, i16::MAX as i128),
        StorageKind::I32 => (i32::MIN as i128, i32::MAX as i128),
        StorageKind::I64 => (i64::MIN as i128, i64::MAX as i128),
        StorageKind::U8 => (0, u8::MAX as i128),
        StorageKind::U16 => (0, u16::MAX as i128),
        StorageKind::U32 => (0, u32::MAX as i128),
        StorageKind::U64 => (0, u64::MAX as i128),
        StorageKind::Bool | StorageKind::Bytes => (0, 0),
    }
}

/// The stored integer of row `i` of an integer-shaped buffer.
pub fn raw_int(data: &ColumnData, i: usize) -> (r: i128)
    requires
        int_kind(data.kind_spec()),
        i < data.len_spec(),
    ensures
        data.raw_cell(i as int) == Cell::Int(r as int),
        in_kind_range(data.kind_spec(), r as int),
        -0x8000_0000_0000_0000 <= r as int <= 0xFFFF_FFFF_FFFF_FFFF,
{
    match data {
        ColumnData::Int8(v) => v[i] as i128,
        ColumnData::Int16(v) => v[i] as i128,
        ColumnData::Int32(v) => v[i] as i128,
        ColumnData::Int64(v) => v[i] as i128,
        ColumnData::UInt8(v) => v[i] as i128,
        ColumnData::UInt16(v) => v[i] as i128,
        ColumnData::UInt32(v) => v[i] as i128,
        ColumnData::UInt64(v) => v[i] as i128,
        ColumnData::Boolean(_) | ColumnData::Bytes(_) => {
            proof {
                assert(false);
            }
            0
        },
    }
}

/// Pack integers into a buffer of the requested shape; every value must fit.
pub fn build_int_data(kind: StorageKind, vals: &Vec<i128>) -> (r: ColumnData)
    requires
        int_kind(kind),
        forall|i: int| 0 <= i < vals@.len() ==> in_kind_range(kind, vals@[i] as int),
    ensures
        r.kind_spec() == kind,
        r.len_spec() == vals@.len(),
        forall|i: int| 0 <= i < vals@.len() ==> r.raw_cell(i) == Cell::Int(vals@[i] as int),
{
    let n = vals.len();
    match kind {
        StorageKind::I8 => {
            let mut v: Vec<i8> = Vec::new();
            let mut i: usize = 0;
            while i < n
                invariant
                    kind == StorageKind::I8,
                    n == vals@.len(),
                    i <= n,
                    v@.len() == i,
                    forall|k: int| 0 <= k < vals@.len() ==> in_kind_range(kind, vals@[k] as int),
                    forall|k: int| 0 <= k < i ==> v@[k] as int == vals@[k] as int,
                decreases n - i,
            {
                assert(in_kind_range(kind, vals@[i as int] as int));
                v.push(vals[i] as i8);
                i = i + 1;
            }
            ColumnData::Int8(v)
        },
        StorageKind::I16 => {
            let mut v: Vec<i16> = Vec::new();
            let mut i: usize = 0;
            while i < n
                invariant
                    kind == StorageKind::I16,
                    n == vals@.len(),
                    i <= n,
                    v@.len() == i,
                    forall|k: int| 0 <= k < vals@.len() ==> in_kind_range(kind, vals@[k] as int),
                    forall|k: int| 0 <= k < i ==> v@[k] as int == vals@[k] as int,
                decreases n - i,
            {
                assert(in_kind_range(kind, vals@[i as int] as int));
                v.push(vals[i] as i16);
                i = i + 1;
            }
            ColumnData::Int16(v)
        },
        StorageKind::I32 => {
            let mut v: Vec<i32> = Vec::new();
            let mut i: usize = 0;
            while i < n
                invariant
                    kind == StorageKind::I32,
                    n == vals@.len(),
                    i <= n,
                    v@.len() == i,
                    forall|k: int| 0 <= k < vals@.len() ==> in_kind_range(kind, vals@[k] as int),
                    forall|k: int| 0 <= k < i ==> v@[k] as int == vals@[k] as int,
                decreases n - i,
            {
                assert(in_kind_range(kind, vals@[i as int] as int));
                v.push(vals[i] as i32);
                i = i + 1;
            }
            ColumnData::Int32(v)
        },
        StorageKind::I64 => {
            let mut v: Vec<i64> = Vec::new();
            let mut i: usize = 0;
            while i < n
                invariant
                    kind == StorageKind::I64,
                    n == vals@.len(),
                    i <= n,
                    v@.len() == i,
                    forall|k: int| 0 <= k < vals@.len() ==> in_kind_range(kind, vals@[k] as int),
                    forall|k: int| 0 <= k < i ==> v@[k] as int == vals@[k] as int,
                decreases n - i,
            {
                assert(in_kind_range(kind, vals@[i as int] as int));
                v.push(vals[i] as i64);
                i = i + 1;
            }
            ColumnData::Int64(v)
        },
        StorageKind::U8 => {
            let mut v: Vec<u8> = Vec::new();
            let mut i: usize = 0;
            while i < n
                invariant
                    kind == StorageKind::U8,
                    n == vals@.len(),
                    i <= n,
                    v@.len() == i,
                    forall|k: int| 0 <= k < vals@.len() ==> in_kind_range(kind, vals@[k] as int),
                    forall|k: int| 0 <= k < i ==> v@[k] as int == vals@[k] as int,
                decreases n - i,
            {
                assert(in_kind_range(kind, vals@[i as int] as int));
                v.push(vals[i] as u8);
                i = i + 1;
            }
            ColumnData::UInt8(v)
        },
        StorageKind::U16 => {
            let mut v: Vec<u16> = Vec::new();
            let mut i: usize = 0;
            while i < n
                invariant
                    kind == StorageKind::U16,
                    n == vals@.len(),
                    i <= n,
                    v@.len() == i,
                    forall|k: int| 0 <= k < vals@.len() ==> in_kind_range(kind, vals@[k] as int),
                    forall|k: int| 0 <= k < i ==> v@[k] as int == vals@[k] as int,
                decreases n - i,
            {
                assert(in_kind_range(kind, vals@[i as int] as int));
                v.push(vals[i] as u16);
                i = i + 1;
            }
            ColumnData::UInt16(v)
        },
        StorageKind::U32 => {
            let mut v: Vec<u32> = Vec::new();
            let mut i: usize = 0;
            while i < n
                invariant
                    kind == StorageKind::U32,
                    n == vals@.len(),
                    i <= n,
                    v@.len() == i,
                    forall|k: int| 0 <= k < vals@.len() ==> in_kind_range(kind, vals@[k] as int),
                    forall|k: int| 0 <= k < i ==> v@[k] as int == vals@[k] as int,
                decreases n - i,
            {
                assert(in_kind_range(kind, vals@[i as int] as int));
                v.push(vals[i] as u32);
                i = i + 1;
            }
            ColumnData::UInt32(v)
        },
        StorageKind::U64 => {
            let mut v: Vec<u64> = Vec::new();
            let mut i: usize = 0;
            while i < n
                invariant
                    kind == StorageKind::U64,
                    n == vals@.len(),
                    i <= n,
                    v@.len() == i,
                    forall|k: int| 0 <= k < vals@.len() ==> in_kind_range(kind, vals@[k] as int),
                    forall|k: int| 0 <= k < i ==> v@[k] as int == vals@[k] as int,
                decreases n - i,
            {
                assert(in_kind_range(kind, vals@[i as int] as int));
                v.push(vals[i] as u64);
                i = i + 1;
            }
            ColumnData::UInt64(v)
        },
        StorageKind::Bool | StorageKind::Bytes => {
            proof {
                assert(false);
            }
            ColumnData::Int8(Vec::new())
        },
    }
}

/// Copy `length` elements of `v` starting at `offset`.
pub fn subvec<T: Copy>(v: &Vec<T>, offset: usize, length: usize) -> (r: Vec<T>)
    requires
        offset + length <= v@.len(),
    ensures
        r@ == v@.subrange(offset as int, offset as int + length as int),
{
    let upper = v.len();
    let mut out: Vec<T> = Vec::new();
    let mut i: usize = 0;
    while i < length
        invariant
            upper == v@.len(),
            offset + length <= v@.len(),
            i <= length,
            out@.len() == i,
            forall|k: int| 0 <= k < i ==> out@[k] == v@[offset + k],
        decreases length - i,
    {
        out.push(v[offset + i]);
        i = i + 1;
    }
    proof {
        assert(out@ =~= v@.subrange(offset as int, offset as int + length as int));
    }
    out
}

/// Copy `length` byte rows of `v` starting at `offset`.
pub fn subvec_bytes(v: &Vec<Vec<u8>>, offset: usize, length: usize) -> (r: Vec<Vec<u8>>)
    requires
        offset + length <= v@.len(),
    ensures
        r@.len() == length,
        forall|k: int| 0 <= k < length ==> r@[k]@ == v@[offset + k]@,
{
    let upper = v.len();
    let mut out: Vec<Vec<u8>> = Vec::new();
    let mut i: usize = 0;
    while i < length
        invariant
            upper == v@.len(),
            offset + length <= v@.len(),
            i <= length,
            out@.len() == i,
            forall|k: int| 0 <= k < i ==> out@[k]@ == v@[offset + k]@,
        decreases length - i,
    {
        let row: &Vec<u8> = &v[offset + i];
        out.push(subvec(row, 0, row.len()));
        proof {
            assert(v@[offset + i]@.subrange(0, v@[offset + i]@.len() as int) =~= v@[offset
                + i]@);
        }
        i = i + 1;
    }
    out
}

/// Copy a sub-range of a buffer.
pub fn slice_data(data: &ColumnData, offset: usize, length: usize) -> (r: ColumnData)
    requires
        offset + length <= data.len_spec(),
    ensures
        r.kind_spec() == data.kind_spec(),
        r.len_spec() == length,
        forall|k: int| 0 <= k < length ==> r.raw_cell(k) == data.raw_cell(offset + k),
{
    match data {
        ColumnData::Int8(v) => ColumnData::Int8(subvec(v, offset, length)),
        ColumnData::Int16(v) => ColumnData::Int16(subvec(v, offset, length)),
        ColumnData::Int32(v) => ColumnData::Int32(subvec(v, offset, length)),
        ColumnData::Int64(v) => ColumnData::Int64(subvec(v, offset, length)),
        ColumnData::UInt8(v) => ColumnData::UInt8(subvec(v, offset, length)),
        ColumnData::UInt16(v) => ColumnData::UInt16(subvec(v, offset, length)),
        ColumnData::UInt32(v) => ColumnData::UInt32(subvec(v, offset, length)),
        ColumnData::UInt64(v) => ColumnData::UInt64(subvec(v, offset, length)),
        ColumnData::Boolean(v) => ColumnData::Boolean(subvec(v, offset, length)),
        ColumnData::Bytes(v) => ColumnData::Bytes(subvec_bytes(v, offset, length)),
    }
}

/// Whether two byte rows hold the same bytes.
pub fn bytes_eq(a: &Vec<u8>, b: &Vec<u8>) -> (r: bool)
    ensures
        r == (a@ == b@),
{
    if a.len() != b.len() {
        return false;
    }
    let n = a.len();
    let mut i: usize = 0;
    while i < n
        invariant
            n == a@.len(),
            n == b@.len(),
            i <= n,
            forall|k: int| 0 <= k < i ==> a@[k] == b@[k],
        decreases n - i,
    {
        if a[i] != b[i] {
            return false;
        }
        i = i + 1;
    }
    proof {
        assert(a@ =~= b@);
    }
    true
}

impl Column {
    /// Zero-based sub-range view: `length` rows starting at `offset`, sharing
    /// the column's logical type and validity semantics. Fails with
    /// `IndexOutOfRange` when the range reaches past the end.
    pub fn slice(&self, offset: usize, length: usize) -> (r: Result<Column, ErrorCode>)
        requires
            self.wf(),
        ensures
            match r {
                Ok(c) => {
                    &&& offset + length <= self@.cells.len()
                    &&& c.wf()
                    &&& c@.logical == self@.logical
                    &&& c@.cells == self@.cells.subrange(
                        offset as int,
                        offset as int + length as int,
                    )
                },
                Err(e) => {
                    &&& offset + length > self@.cells.len()
                    &&& e == ErrorCode::IndexOutOfRange
                },
            },
    {
        let n = self.len();
        if length > n || offset > n - length {
            return Err(ErrorCode::IndexOutOfRange);
        }
        let data = slice_data(&self.data, offset, length);
        let validity = match &self.validity {
            Some(b) => Some(subvec(b, offset, length)),
            None => None,
        };
        let c = Column { logical: self.logical, data, validity };
        proof {
            assert forall|k: int| 0 <= k < length implies c@.cells[k] == self@.cells[offset + k]
                by {
                assert(c.cell_spec(k) == self.cell_spec(offset + k));
            }
            assert(c@.cells =~= self@.cells.subrange(
                offset as int,
                offset as int + length as int,
            ));
        }
        Ok(c)
    }

    /// The value of row `index` as a tagged scalar, or `IndexOutOfRange`.
    pub fn try_get(&self, index: usize) -> (r: Result<DataValue, ErrorCode>)
        requires
            self.wf(),
        ensures
            match r {
                Ok(dv) => {
                    &&& index < self@.cells.len()
                    &&& dv.belongs_to(self@.logical)
                    &&& dv.cell() == self@.cells[index as int]
                },
                Err(e) => {
                    &&& index >= self@.cells.len()
                    &&& e == ErrorCode::IndexOutOfRange
                },
            },
    {
        if index >= self.len() {
            return Err(ErrorCode::IndexOutOfRange);
        }
        if !self.is_valid_at(index) {
            return Ok(DataValue::Null);
        }
        proof {
            assert(self@.cells[index as int] == self.cell_spec(index as int));
        }
        let dv = match (&self.logical, &self.data) {
            (LogicalType::Int8, ColumnData::Int8(v)) => DataValue::Int8(v[index]),
            (LogicalType::Int16, ColumnData::Int16(v)) => DataValue::Int16(v[index]),
            (LogicalType::Int32, ColumnData::Int32(v)) => DataValue::Int32(v[index]),
            (LogicalType::Int64, ColumnData::Int64(v)) => DataValue::Int64(v[index]),
            (LogicalType::UInt8, ColumnData::UInt8(v)) => DataValue::UInt8(v[index]),
            (LogicalType::UInt16, ColumnData::UInt16(v)) => DataValue::UInt16(v[index]),
            (LogicalType::UInt32, ColumnData::UInt32(v)) => DataValue::UInt32(v[index]),
            (LogicalType::UInt64, ColumnData::UInt64(v)) => DataValue::UInt64(v[index]),
            (LogicalType::Boolean, ColumnData::Boolean(v)) => DataValue::Boolean(v[index]),
            (LogicalType::Utf8, ColumnData::Bytes(v)) => {
                let row: &Vec<u8> = &v[index];
                let copy = subvec(row, 0, row.len());
                proof {
                    assert(v@[index as int]@.subrange(0, v@[index as int]@.len() as int)
                        =~= v@[index as int]@);
                }
                DataValue::Utf8(copy)
            },
            (LogicalType::Binary, ColumnData::Bytes(v)) => {
                let row: &Vec<u8> = &v[index];
                let copy = subvec(row, 0, row.len());
                proof {
                    assert(v@[index as int]@.subrange(0, v@[index as int]@.len() as int)
                        =~= v@[index as int]@);
                }
                DataValue::Binary(copy)
            },
            (LogicalType::Date32, ColumnData::Int32(v)) => DataValue::Date32(v[index]),
            (LogicalType::Date64, ColumnData::Int64(v)) => DataValue::Date64(v[index]),
            (LogicalType::Timestamp(u, tz), ColumnData::Int64(v)) => DataValue::Timestamp(
                *u,
                *tz,
                v[index],
            ),
            (LogicalType::Interval(IntervalUnit::YearMonth), ColumnData::Int32(v))
                => DataValue::IntervalYearMonth(v[index]),
            (LogicalType::Interval(IntervalUnit::DayTime), ColumnData::Int64(v))
                => DataValue::IntervalDayTime(v[index]),
            _ => {
                proof {
                    assert(false);
                }
                DataValue::Null
            },
        };
        Ok(dv)
    }

    /// Fast row comparison: row `idx_self` of this column against row
    /// `idx_other` of `other`, with no run-time bounds or shape checks. The
    /// precondition is the caller's obligation: both indices in bounds and
    /// both buffers of the same storage shape. Null compares equal to null
    /// and unequal to every value. The bounds-checked companion is
    /// [`Column::equal_element_checked`].
    pub fn equal_element(&self, idx_self: usize, idx_other: usize, other: &Column) -> (r: bool)
        requires
            self.wf(),
            other.wf(),
            idx_self < self@.cells.len(),
            idx_other < other@.cells.len(),
            self.data.kind_spec() == other.data.kind_spec(),
        ensures
            r == (self@.cells[idx_self as int] == other@.cells[idx_other as int]),
    {
        proof {
            assert(self@.cells[idx_self as int] == self.cell_spec(idx_self as int));
            assert(other@.cells[idx_other as int] == other.cell_spec(idx_other as int));
        }
        let self_valid = self.is_valid_at(idx_self);
        let other_valid = other.is_valid_at(idx_other);
        if !self_valid || !other_valid {
            return !self_valid && !other_valid;
        }
        match (&self.data, &other.data) {
            (ColumnData::Int8(a), ColumnData::Int8(b)) => a[idx_self] == b[idx_other],
            (ColumnData::Int16(a), ColumnData::Int16(b)) => a[idx_self] == b[idx_other],
            (ColumnData::Int32(a), ColumnData::Int32(b)) => a[idx_self] == b[idx_other],
            (ColumnData::Int64(a), ColumnData::Int64(b)) => a[idx_self] == b[idx_other],
            (ColumnData::UInt8(a), ColumnData::UInt8(b)) => a[idx_self] == b[idx_other],
            (ColumnData::UInt16(a), ColumnData::UInt16(b)) => a[idx_self] == b[idx_other],
            (ColumnData::UInt32(a), ColumnData::UInt32(b)) => a[idx_self] == b[idx_other],
            (ColumnData::UInt64(a), ColumnData::UInt64(b)) => a[idx_self] == b[idx_other],
            (ColumnData::Boolean(a), ColumnData::Boolean(b)) => a[idx_self] == b[idx_other],
            (ColumnData::Bytes(a), ColumnData::Bytes(b)) => bytes_eq(&a[idx_self], &b[idx_other]),
            _ => {
                proof {
                    assert(false);
                }
                false
            },
        }
    }

    /// Bounds- and shape-checked row comparison; the safe companion of
    /// [`Column::equal_element`].
    pub fn equal_element_checked(&self, idx_self: usize, idx_other: usize, other: &Column) -> (r:
        Result<bool, ErrorCode>)
        requires
            self.wf(),
            other.wf(),
        ensures
            match r {
                Ok(b) => {
                    &&& idx_self < self@.cells.len()
                    &&& idx_other < other@.cells.len()
                    &&& self.data.kind_spec() == other.data.kind_spec()
                    &&& b == (self@.cells[idx_self as int] == other@.cells[idx_other as int])
                },
                Err(e) => match e {
                    ErrorCode::IndexOutOfRange => idx_self >= self@.cells.len() || idx_other
                        >= other@.cells.len(),
                    ErrorCode::TypeMismatch(l, r) => {
                        &&& self.data.kind_spec() != other.data.kind_spec()
                        &&& l == self@.logical
                        &&& r == other@.logical
                    },
                    _ => false,
                },
            },
    {
        if idx_self >= self.len() || idx_other >= other.len() {
            return Err(ErrorCode::IndexOutOfRange);
        }
        if self.data.kind() != other.data.kind() {
            return Err(ErrorCode::TypeMismatch(self.logical, other.logical));
        }
        Ok(self.equal_element(idx_self, idx_other, other))
    }

    /// Whether this column can be cast to `to`: the identity, any
    /// reinterpretation between types of one storage shape (dates and
    /// intervals to and from their physical integers, `Utf8` to and from
    /// `Binary`), and lossless integer widening. Narrowing would lose
    /// information and is unsupported.
    pub open spec fn castable(from: LogicalType, to: LogicalType) -> bool {
        match (storage_of(from), storage_of(to)) {
            (Some(kf), Some(kt)) => kf == kt || int_widening(kf, kt),
            _ => false,
        }
    }

    /// A new column of logical type `target` with the same row values, or
    /// `UnsupportedCast` naming both types. The source is never mutated.
    pub fn cast_to(&self, target: &LogicalType) -> (r: Result<Column, ErrorCode>)
        requires
            self.wf(),
        ensures
            match r {
                Ok(c) => {
                    &&& Column::castable(self@.logical, *target)
                    &&& c.wf()
                    &&& c@.logical == *target
                    &&& c@.cells == self@.cells
                },
                Err(e) => {
                    &&& !Column::castable(self@.logical, *target)
                    &&& e == ErrorCode::UnsupportedCast(self@.logical, *target)
                },
            },
    {
        let from_kind = self.data.kind();
        let to_kind = match storage_of_exec(target) {
            Some(k) => k,
            None => {
                return Err(ErrorCode::UnsupportedCast(self.logical, *target));
            },
        };
        let n = self.len();
        let validity = match &self.validity {
            Some(b) => Some(subvec(b, 0, n)),
            None => None,
        };
        proof {
            match &self.validity {
                Some(b) => assert(b@.subrange(0, n as int) =~= b@),
                None => {},
            }
        }
        if from_kind == to_kind {
            let data = slice_data(&self.data, 0, n);
            let c = Column { logical: *target, data, validity };
            proof {
                assert forall|k: int| 0 <= k < n implies c@.cells[k] == self@.cells[k] by {
                    assert(c.cell_spec(k) == self.cell_spec(k));
                }
                assert(c@.cells =~= self@.cells);
            }
            return Ok(c);
        }
        let from_int = from_kind != StorageKind::Bool && from_kind != StorageKind::Bytes;
        let to_int = to_kind != StorageKind::Bool && to_kind != StorageKind::Bytes;
        if !(from_int && to_int) {
            return Err(ErrorCode::UnsupportedCast(self.logical, *target));
        }
        let (from_min, from_max) = kind_bounds(from_kind);
        let (to_min, to_max) = kind_bounds(to_kind);
        if !(to_min <= from_min && from_max <= to_max) {
            return Err(ErrorCode::UnsupportedCast(self.logical, *target));
        }
        let mut vals: Vec<i128> = Vec::new();
        let mut i: usize = 0;
        while i < n
            invariant
                self.wf(),
                n == self@.cells.len(),
                int_kind(self.data.kind_spec()),
                i <= n,
                vals@.len() == i,
                forall|k: int| 0 <= k < i ==> self.data.raw_cell(k) == Cell::Int(
                    vals@[k] as int,
                ),
                forall|k: int| 0 <= k < i ==> in_kind_range(self.data.kind_spec(), vals@[k] as int),
            decreases n - i,
        {
            vals.push(raw_int(&self.data, i));
            i = i + 1;
        }
        let data = build_int_data(to_kind, &vals);
        let c = Column { logical: *target, data, validity };
        proof {
            assert forall|k: int| 0 <= k < n implies c@.cells[k] == self@.cells[k] by {
                assert(c.cell_spec(k) == self.cell_spec(k));
            }
            assert(c@.cells =~= self@.cells);
        }
        Ok(c)
    }
}

/// The stored boolean of row `i` of a boolean buffer.
pub fn raw_bool(data: &ColumnData, i: usize) -> (r: bool)
    requires
        data.kind_spec() == StorageKind::Bool,
        i < data.len_spec(),
    ensures
        data.raw_cell(i as int) == Cell::Bool(r),
{
    match data {
        ColumnData::Boolean(v) => v[i],
        _ => {
            proof {
                assert(false);
            }
            false
        },
    }
}

impl Column {
    /// A copy of the column: same logical type, row values and validity.
    pub fn duplicate(&self) -> (r: Column)
        requires
            self.wf(),
        ensures
            r.wf(),
            r@ == self@,
    {
        let n = self.len();
        let data = slice_data(&self.data, 0, n);
        let validity = match &self.validity {
            Some(b) => Some(subvec(b, 0, n)),
            None => None,
        };
        let c = Column { logical: self.logical, data, validity };
        proof {
            match &self.validity {
                Some(b) => assert(b@.subrange(0, n as int) =~= b@),
                None => {},
            }
            assert forall|k: int| 0 <= k < n implies c@.cells[k] == self@.cells[k] by {
                assert(c.cell_spec(k) == self.cell_spec(k));
            }
            assert(c@.cells =~= self@.cells);
            assert(c@ =~= self@);
        }
        c
    }
}

/// Bytes one row's fixed-size slot occupies: the element itself, or the row
/// header of a variable-width byte row.
pub open spec fn kind_slot_bytes(k: StorageKind) -> int {
    match k {
        StorageKind::I8 | StorageKind::U8 | StorageKind::Bool => 1,
        StorageKind::I16 | StorageKind::U16 => 2,
        StorageKind::I32 | StorageKind::U32 => 4,
        StorageKind::I64 | StorageKind::U64 => 8,
        StorageKind::Bytes => 24,
    }
}

/// Total length of the byte payloads of the first `n` rows (zero for
/// fixed-width buffers).
pub open spec fn payload_bytes(d: ColumnData, n: int) -> int
    decreases n,
{
    if n <= 0 {
        0
    } else {
        payload_bytes(d, n - 1) + match d {
            ColumnData::Bytes(v) => v@[n - 1]@.len() as int,
            _ => 0,
        }
    }
}

impl Column {
    /// The memory the column accounts for: one slot per row, one byte per
    /// validity bit, and the byte payloads of variable-width rows.
    pub open spec fn footprint_spec(&self) -> int {
        self.data.len_spec() * kind_slot_bytes(self.data.kind_spec()) + (
        if self.validity is Some {
            self.data.len_spec() as int
        } else {
            0
        }) + payload_bytes(self.data, self.data.len_spec() as int)
    }

    /// The memory the column accounts for, in bytes, saturating at the
    /// machine limit.
    pub fn memory_footprint(&self) -> (r: usize)
        requires
            self.wf(),
        ensures
            r as int == if self.footprint_spec() <= usize::MAX as int {
                self.footprint_spec()
            } else {
                usize::MAX as int
            },
    {
        let n = self.len();
        let slot: u128 = match self.data.kind() {
            StorageKind::I8 | StorageKind::U8 | StorageKind::Bool => 1,
            StorageKind::I16 | StorageKind::U16 => 2,
            StorageKind::I32 | StorageKind::U32 => 4,
            StorageKind::I64 | StorageKind::U64 => 8,
            StorageKind::Bytes => 24,
        };
        let cap: u128 = usize::MAX as u128;
        let mut payload: u128 = 0;
        if let ColumnData::Bytes(rows) = &self.data {
            let mut i: usize = 0;
            while i < n
                invariant
                    self.data == ColumnData::Bytes(*rows),
                    n == self.data.len_spec(),
                    cap == usize::MAX as u128,
                    i <= n,
                    payload <= cap,
                    if payload_bytes(self.data, i as int) <= cap as int {
                        payload as int == payload_bytes(self.data, i as int)
                    } else {
                        payload == cap
                    },
                decreases n - i,
            {
                let next = payload + rows[i].len() as u128;
                payload = if next > cap {
                    cap
                } else {
                    next
                };
                i = i + 1;
            }
        }
        proof {
            if !(self.data is Bytes) {
                lemma_payload_bytes_zero(self.data, n as int);
            }
            assert(payload_bytes(self.data, 0) == 0);
            assert(1 <= slot as int <= 24);
            assert((n as int) * (slot as int) <= (n as int) * 24) by (nonlinear_arith)
                requires
                    0 <= n as int,
                    0 <= slot as int <= 24,
            ;
            if n >= 1 {
                assert((n as int) * (slot as int) >= 1) by (nonlinear_arith)
                    requires
                        1 <= n as int,
                        1 <= slot as int,
                ;
            }
        }
        let total: u128 = payload + (n as u128) * slot + (
        if self.validity.is_some() {
            n as u128
        } else {
            0
        });
        if total > usize::MAX as u128 {
            usize::MAX
        } else {
            total as usize
        }
    }
}

/// A fixed-width buffer has no byte payloads.
proof fn lemma_payload_bytes_zero(d: ColumnData, n: int)
    requires
        !(d is Bytes),
    ensures
        payload_bytes(d, n) == 0,
    decreases n,
{
    if n > 0 {
        lemma_payload_bytes_zero(d, n - 1);
    }
}

/// Slice consistency: row `k` of a sub-range view is row `offset + k` of the
/// column it was taken from, so (by the contracts of [`Column::slice`] and
/// [`Column::try_get`]) the scalar that the view's row `k` yields agrees
/// with the column's row `offset + k`.
pub proof fn lemma_slice_try_get(c: ColumnV, s: ColumnV, offset: int, length: int, k: int)
    requires
        s.logical == c.logical,
        s.cells == c.cells.subrange(offset, offset + length),
        0 <= offset,
        0 <= k < length,
        offset + length <= c.cells.len(),
    ensures
        s.cells[k] == c.cells[offset + k],
{
}

/// A vector of `n` copies of one element.
pub fn repeat_elem<T: Copy>(x: T, n: usize) -> (r: Vec<T>)
    ensures
        r@.len() == n,
        forall|k: int| 0 <= k < n ==> r@[k] == x,
{
    let mut out: Vec<T> = Vec::new();
    let mut i: usize = 0;
    while i < n
        invariant
            i <= n,
            out@.len() == i,
            forall|k: int| 0 <= k < i ==> out@[k] == x,
        decreases n - i,
    {
        out.push(x);
        i = i + 1;
    }
    out
}

/// A vector of `n` copies of one byte row.
pub fn repeat_bytes(row: &Vec<u8>, n: usize) -> (r: Vec<Vec<u8>>)
    ensures
        r@.len() == n,
        forall|k: int| 0 <= k < n ==> r@[k]@ == row@,
{
    let mut out: Vec<Vec<u8>> = Vec::new();
    let mut i: usize = 0;
    while i < n
        invariant
            i <= n,
            out@.len() == i,
            forall|k: int| 0 <= k < i ==> out@[k]@ == row@,
        decreases n - i,
    {
        let copy = subvec(row, 0, row.len());
        proof {
            assert(row@.subrange(0, row@.len() as int) =~= row@);
        }
        out.push(copy);
        i = i + 1;
    }
    out
}

/// A buffer of `n` placeholder rows of shape `k`, for columns whose rows are
/// all null.
fn zero_data(k: StorageKind, n: usize) -> (r: ColumnData)
    ensures
        r.kind_spec() == k,
        r.len_spec() == n,
{
    match k {
        StorageKind::I8 => ColumnData::Int8(repeat_elem(0i8, n)),
        StorageKind::I16 => ColumnData::Int16(repeat_elem(0i16, n)),
        StorageKind::I32 => ColumnData::Int32(repeat_elem(0i32, n)),
        StorageKind::I64 => ColumnData::Int64(repeat_elem(0i64, n)),
        StorageKind::U8 => ColumnData::UInt8(repeat_elem(0u8, n)),
        StorageKind::U16 => ColumnData::UInt16(repeat_elem(0u16, n)),
        StorageKind::U32 => ColumnData::UInt32(repeat_elem(0u32, n)),
        StorageKind::U64 => ColumnData::UInt64(repeat_elem(0u64, n)),
        StorageKind::Bool => ColumnData::Boolean(repeat_elem(false, n)),
        StorageKind::Bytes => {
            let empty: Vec<u8> = Vec::new();
            ColumnData::Bytes(repeat_bytes(&empty, n))
        },
    }
}

/// A column of `n` rows all holding the scalar `dv`, of logical type `lt`;
/// this is how a scalar operand broadcasts across a vector's rows.
pub fn repeat_column(dv: &DataValue, lt: &LogicalType, n: usize) -> (r: Column)
    requires
        dv.belongs_to(*lt),
        storage_of(*lt) is Some,
    ensures
        r.wf(),
        r@.logical == *lt,
        r@.cells.len() == n,
        forall|k: int| 0 <= k < n ==> r@.cells[k] == dv.cell(),
{
    let c = match dv {
        DataValue::Null => {
            let k = match storage_of_exec(lt) {
                Some(k) => k,
                None => {
                    proof {
                        assert(false);
                    }
                    StorageKind::I8
                },
            };
            Column { logical: *lt, data: zero_data(k, n), validity: Some(repeat_elem(false, n)) }
        },
        DataValue::Int8(v) => Column {
            logical: *lt,
            data: ColumnData::Int8(repeat_elem(*v, n)),
            validity: None,
        },
        DataValue::Int16(v) => Column {
            logical: *lt,
            data: ColumnData::Int16(repeat_elem(*v, n)),
            validity: None,
        },
        DataValue::Int32(v) => Column {
            logical: *lt,
            data: ColumnData::Int32(repeat_elem(*v, n)),
            validity: None,
        },
        DataValue::Int64(v) => Column {
            logical: *lt,
            data: ColumnData::Int64(repeat_elem(*v, n)),
            validity: None,
        },
        DataValue::UInt8(v) => Column {
            logical: *lt,
            data: ColumnData::UInt8(repeat_elem(*v, n)),
            validity: None,
        },
        DataValue::UInt16(v) => Column {
            logical: *lt,
            data: ColumnData::UInt16(repeat_elem(*v, n)),
            validity: None,
        },
        DataValue::UInt32(v) => Column {
            logical: *lt,
            data: ColumnData::UInt32(repeat_elem(*v, n)),
            validity: None,
        },
        DataValue::UInt64(v) => Column {
            logical: *lt,
            data: ColumnData::UInt64(repeat_elem(*v, n)),
            validity: None,
        },
        DataValue::Boolean(v) => Column {
            logical: *lt,
            data: ColumnData::Boolean(repeat_elem(*v, n)),
            validity: None,
        },
        DataValue::Utf8(v) => Column {
            logical: *lt,
            data: ColumnData::Bytes(repeat_bytes(v, n)),
            validity: None,
        },
        DataValue::Binary(v) => Column {
            logical: *lt,
            data: ColumnData::Bytes(repeat_bytes(v, n)),
            validity: None,
        },
        DataValue::Date32(v) => Column {
            logical: *lt,
            data: ColumnData::Int32(repeat_elem(*v, n)),
            validity: None,
        },
        DataValue::Date64(v) => Column {
            logical: *lt,
            data: ColumnData::Int64(repeat_elem(*v, n)),
            validity: None,
        },
        DataValue::Timestamp(_, _, v) => Column {
            logical: *lt,
            data: ColumnData::Int64(repeat_elem(*v, n)),
            validity: None,
        },
        DataValue::IntervalYearMonth(v) => Column {
            logical: *lt,
            data: ColumnData::Int32(repeat_elem(*v, n)),
            validity: None,
        },
        DataValue::IntervalDayTime(v) => Column {
            logical: *lt,
            data: ColumnData::Int64(repeat_elem(*v, n)),
            validity: None,
        },
    };
    proof {
        assert forall|k: int| 0 <= k < n implies c@.cells[k] == dv.cell() by {
            assert(c@.cells[k] == c.cell_spec(k));
        }
    }
    c
}

/// Whether the stored value of row `i` is null: it never is, since buffers
/// hold plain values; nullness lives in the bitmap alone.
fn is_null_raw(data: &ColumnData, i: usize) -> (r: bool)
    requires
        i < data.len_spec(),
    ensures
        r == (data.raw_cell(i as int) is Null),
{
    proof {
        assert(!(data.raw_cell(i as int) is Null));
    }
    false
}

} // verus!

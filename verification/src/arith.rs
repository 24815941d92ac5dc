//! The arithmetic half of the scalar evaluation framework: five elementwise
//! operators over two same-length columns, with lossless numeric promotion
//! and null propagation. Division or remainder by zero, and a result outside
//! the promoted type's range, propagate as null and raise the matching flag
//! in the call's [`EvalContext`]. Temporal operands route through the
//! physical-type dispatch of [`Column::add_to`] and its siblings.

use vstd::prelude::*;

use crate::column::in_kind_range;
use crate::column::int_kind;
use crate::column::kind_min;
use crate::column::kind_max;
use crate::column::build_int_data;
use crate::column::raw_int;
use crate::column::storage_of;
use crate::column::storage_of_exec;
use crate::column::Column;
use crate::column::ColumnV;
use crate::column::StorageKind;
use crate::compare::int_backed;
use crate::error::ErrorCode;
use crate::types::LogicalType;
use crate::value::Cell;

verus! {

/// The five arithmetic operators.
#[derive(Clone, Copy, Debug, PartialEq, Eq, Structural)]
pub enum ArithOp {
    Plus,
    Minus,
    Mul,
    Div,
    Rem,
}

/// Call-scoped accumulator threaded through one evaluation call: records
/// whether any row overflowed the result type and whether any row divided by
/// zero (both propagate as null rows). Not persisted past the call.
pub struct EvalContext {
    pub overflow: bool,
    pub division_by_zero: bool,
}

impl EvalContext {
    /// A context with no flags raised.
    pub fn fresh() -> (r: EvalContext)
        ensures
            !r.overflow,
            !r.division_by_zero,
    {
        EvalContext { overflow: false, division_by_zero: false }
    }
}

/// Whether a storage shape holds signed integers.
pub open spec fn kind_signed(k: StorageKind) -> bool {
    match k {
        StorageKind::I8 | StorageKind::I16 | StorageKind::I32 | StorageKind::I64 => true,
        _ => false,
    }
}

/// Bit width of an integer storage shape.
pub open spec fn kind_width(k: StorageKind) -> int {
    match k {
        StorageKind::I8 | StorageKind::U8 => 8,
        StorageKind::I16 | StorageKind::U16 => 16,
        StorageKind::I32 | StorageKind::U32 => 32,
        StorageKind::I64 | StorageKind::U64 => 64,
        _ => 0,
    }
}

/// The integer storage shape of the given signedness and width.
pub open spec fn kind_of(signed: bool, width: int) -> StorageKind {
    if signed {
        if width <= 8 {
            StorageKind::I8
        } else if width <= 16 {
            StorageKind::I16
        } else if width <= 32 {
            StorageKind::I32
        } else {
            StorageKind::I64
        }
    } else {
        if width <= 8 {
            StorageKind::U8
        } else if width <= 16 {
            StorageKind::U16
        } else if width <= 32 {
            StorageKind::U32
        } else {
            StorageKind::U64
        }
    }
}

/// The narrowest integer shape both operand shapes convert into losslessly:
/// same signedness widens to the larger width; mixed signedness widens to the
/// signed shape of twice the unsigned width (at least the signed width);
/// an unsigned 64-bit operand mixed with a signed one has no such shape.
pub open spec fn promote(a: StorageKind, b: StorageKind) -> Option<StorageKind> {
    if !int_kind(a) || !int_kind(b) {
        None
    } else if kind_signed(a) == kind_signed(b) {
        Some(
            kind_of(
                kind_signed(a),
                if kind_width(a) >= kind_width(b) {
                    kind_width(a)
                } else {
                    kind_width(b)
                },
            ),
        )
    } else {
        let uw = if kind_signed(a) {
            kind_width(b)
        } else {
            kind_width(a)
        };
        let sw = if kind_signed(a) {
            kind_width(a)
        } else {
            kind_width(b)
        };
        if uw >= 64 {
            None
        } else {
            Some(
                kind_of(
                    true,
                    if 2 * uw >= sw {
                        2 * uw
                    } else {
                        sw
                    },
                ),
            )
        }
    }
}

/// The plain integer logical type of an integer storage shape.
pub open spec fn kind_logical(k: StorageKind) -> LogicalType {
    match k {
        StorageKind::I8 => LogicalType::Int8,
        StorageKind::I16 => LogicalType::Int16,
        StorageKind::I32 => LogicalType::Int32,
        StorageKind::I64 => LogicalType::Int64,
        StorageKind::U8 => LogicalType::UInt8,
        StorageKind::U16 => LogicalType::UInt16,
        StorageKind::U32 => LogicalType::UInt32,
        StorageKind::U64 => LogicalType::UInt64,
        _ => LogicalType::Int64,
    }
}

/// The logical type an arithmetic operator yields on the given operand
/// types, before any physical-type restore: an interval operand adopts the
/// other operand's shape (an interval adjusts a value, it does not widen
/// it); any other integer-backed pair takes its promoted shape; everything
/// else is a type mismatch.
pub open spec fn arith_result_type(l: LogicalType, r: LogicalType) -> Option<LogicalType> {
    if !int_backed(l) || !int_backed(r) {
        None
    } else {
        let kl = storage_of(l)->Some_0;
        let kr = storage_of(r)->Some_0;
        if l is Interval && !(r is Interval) {
            Some(kind_logical(kr))
        } else if r is Interval && !(l is Interval) {
            Some(kind_logical(kl))
        } else {
            match promote(kl, kr) {
                Some(k) => Some(kind_logical(k)),
                None => None,
            }
        }
    }
}

/// Truncated integer division, as the machine division of every signed
/// integer type behaves (rounding toward zero).
pub open spec fn trunc_div(x: int, d: int) -> int
    recommends
        d != 0,
{
    if x == 0 {
        0
    } else if x > 0 && d > 0 {
        x / d
    } else if x < 0 && d < 0 {
        (x * -1) / (d * -1)
    } else if x < 0 {
        ((x * -1) / d) * -1
    } else {
        (x / (d * -1)) * -1
    }
}

/// Truncated integer remainder: the value with `x == trunc_div(x, d) * d +
/// trunc_rem(x, d)`, taking the dividend's sign.
pub open spec fn trunc_rem(x: int, d: int) -> int
    recommends
        d != 0,
{
    if x == 0 {
        0
    } else if x > 0 && d > 0 {
        x % d
    } else if x < 0 && d < 0 {
        ((x * -1) % (d * -1)) * -1
    } else if x < 0 {
        ((x * -1) % d) * -1
    } else {
        x % (d * -1)
    }
}

/// The unbounded value an operator gives on two integers.
pub open spec fn arith_value(op: ArithOp, x: int, y: int) -> int {
    match op {
        ArithOp::Plus => x + y,
        ArithOp::Minus => x - y,
        ArithOp::Mul => x * y,
        ArithOp::Div => trunc_div(x, y),
        ArithOp::Rem => trunc_rem(x, y),
    }
}

/// Whether the row divides by zero.
pub open spec fn row_div_by_zero(op: ArithOp, a: Cell, b: Cell) -> bool {
    (op is Div || op is Rem) && a is Int && b == Cell::Int(0)
}

/// Whether the row's value falls outside the result shape `k`.
pub open spec fn row_overflows(op: ArithOp, k: StorageKind, a: Cell, b: Cell) -> bool {
    match (a, b) {
        (Cell::Int(x), Cell::Int(y)) => !row_div_by_zero(op, a, b) && !in_kind_range(
            k,
            arith_value(op, x, y),
        ),
        _ => false,
    }
}

/// One result row of shape `k`: null when either operand row is null, when
/// the row divides by zero, or when the value falls outside `k`'s range.
pub open spec fn arith_cell(op: ArithOp, k: StorageKind, a: Cell, b: Cell) -> Cell {
    match (a, b) {
        (Cell::Int(x), Cell::Int(y)) => {
            if row_div_by_zero(op, a, b) {
                Cell::Null
            } else {
                let v = arith_value(op, x, y);
                if in_kind_range(k, v) {
                    Cell::Int(v)
                } else {
                    Cell::Null
                }
            }
        },
        _ => Cell::Null,
    }
}

/// What an arithmetic operator returns on two columns as they stand, with no
/// physical-type dispatch: a column of the promoted type with one value per
/// row, or `TypeMismatch` naming both types.
pub open spec fn spec_arith_raw(op: ArithOp, l: ColumnV, r: ColumnV) -> Result<ColumnV, ErrorCode>
    recommends
        l.cells.len() == r.cells.len(),
{
    match arith_result_type(l.logical, r.logical) {
        None => Err(ErrorCode::TypeMismatch(l.logical, r.logical)),
        Some(t) => Ok(
            ColumnV {
                logical: t,
                cells: Seq::new(
                    l.cells.len(),
                    |i: int| arith_cell(op, storage_of(t)->Some_0, l.cells[i], r.cells[i]),
                ),
            },
        ),
    }
}

/// What an arithmetic operator returns on two columns, physical-type
/// dispatch included: a temporal left operand is reduced to its physical
/// integer type, the operator applied, and the result cast back to the
/// temporal type exactly when the operation preserved the physical
/// representation; any other change of type is the operation's own output and
/// passes through.
pub open spec fn spec_arith(op: ArithOp, l: ColumnV, r: ColumnV) -> Result<ColumnV, ErrorCode>
    recommends
        l.cells.len() == r.cells.len(),
{
    if l.logical.is_physical_spec() {
        spec_arith_raw(op, l, r)
    } else {
        let p = l.logical.physical_of_spec().as_logical_spec();
        match spec_arith_raw(op, ColumnV { logical: p, cells: l.cells }, r) {
            Err(e) => Err(e),
            Ok(c) => {
                if c.logical == p {
                    Ok(ColumnV { logical: l.logical, cells: c.cells })
                } else {
                    Ok(c)
                }
            },
        }
    }
}

/// The logical type an arithmetic operator yields on the given operand
/// types, before any restore.
pub fn arith_result_type_exec(l: &LogicalType, r: &LogicalType) -> (res: Option<LogicalType>)
    ensures
        res == arith_result_type(*l, *r),
{
    let kl = match storage_of_exec(l) {
        Some(k) => k,
        None => {
            return None;
        },
    };
    let kr = match storage_of_exec(r) {
        Some(k) => k,
        None => {
            return None;
        },
    };
    let int_l = kl != StorageKind::Bool && kl != StorageKind::Bytes;
    let int_r = kr != StorageKind::Bool && kr != StorageKind::Bytes;
    if !int_l || !int_r {
        return None;
    }
    let l_interval = matches!(l, LogicalType::Interval(_));
    let r_interval = matches!(r, LogicalType::Interval(_));
    if l_interval && !r_interval {
        return Some(kind_logical_exec(kr));
    }
    if r_interval && !l_interval {
        return Some(kind_logical_exec(kl));
    }
    match promote_exec(kl, kr) {
        Some(k) => Some(kind_logical_exec(k)),
        None => None,
    }
}

/// The plain integer logical type of an integer storage shape.
fn kind_logical_exec(k: StorageKind) -> (r: LogicalType)
    ensures
        r == kind_logical(k),
{
    match k {
        StorageKind::I8 => LogicalType::Int8,
        StorageKind::I16 => LogicalType::Int16,
        StorageKind::I32 => LogicalType::Int32,
        StorageKind::I64 => LogicalType::Int64,
        StorageKind::U8 => LogicalType::UInt8,
        StorageKind::U16 => LogicalType::UInt16,
        StorageKind::U32 => LogicalType::UInt32,
        StorageKind::U64 => LogicalType::UInt64,
        StorageKind::Bool | StorageKind::Bytes => LogicalType::Int64,
    }
}

/// The narrowest integer shape both operand shapes convert into losslessly.
fn promote_exec(a: StorageKind, b: StorageKind) -> (r: Option<StorageKind>)
    requires
        int_kind(a),
        int_kind(b),
    ensures
        r == promote(a, b),
{
    let sa = matches!(a, StorageKind::I8 | StorageKind::I16 | StorageKind::I32 | StorageKind::I64);
    let sb = matches!(b, StorageKind::I8 | StorageKind::I16 | StorageKind::I32 | StorageKind::I64);
    let wa = kind_width_exec(a);
    let wb = kind_width_exec(b);
    if sa == sb {
        let w = if wa >= wb {
            wa
        } else {
            wb
        };
        Some(kind_of_exec(sa, w))
    } else {
        let uw = if sa {
            wb
        } else {
            wa
        };
        let sw = if sa {
            wa
        } else {
            wb
        };
        if uw >= 64 {
            None
        } else {
            let w = if 2 * uw >= sw {
                2 * uw
            } else {
                sw
            };
            Some(kind_of_exec(true, w))
        }
    }
}

/// Bit width of an integer storage shape.
fn kind_width_exec(k: StorageKind) -> (r: u32)
    requires
        int_kind(k),
    ensures
        r as int == kind_width(k),
{
    match k {
        StorageKind::I8 | StorageKind::U8 => 8,
        StorageKind::I16 | StorageKind::U16 => 16,
        StorageKind::I32 | StorageKind::U32 => 32,
        StorageKind::I64 | StorageKind::U64 => 64,
        StorageKind::Bool | StorageKind::Bytes => {
            proof {
                assert(false);
            }
            8
        },
    }
}

/// The integer storage shape of the given signedness and width.
fn kind_of_exec(signed: bool, width: u32) -> (r: StorageKind)
    requires
        width <= 128,
    ensures
        r == kind_of(signed, width as int),
{
    if signed {
        if width <= 8 {
            StorageKind::I8
        } else if width <= 16 {
            StorageKind::I16
        } else if width <= 32 {
            StorageKind::I32
        } else {
            StorageKind::I64
        }
    } else {
        if width <= 8 {
            StorageKind::U8
        } else if width <= 16 {
            StorageKind::U16
        } else if width <= 32 {
            StorageKind::U32
        } else {
            StorageKind::U64
        }
    }
}

/// One row's unbounded value, or `None` exactly when it falls outside what a
/// 128-bit integer holds (possible only under `Mul`).
fn arith_value_exec(op: ArithOp, x: i128, y: i128) -> (r: Option<i128>)
    requires
        !(op is Div || op is Rem) || y != 0,
        -0x8000_0000_0000_0000 <= x as int <= 0xFFFF_FFFF_FFFF_FFFF,
        -0x8000_0000_0000_0000 <= y as int <= 0xFFFF_FFFF_FFFF_FFFF,
    ensures
        match r {
            Some(v) => v as int == arith_value(op, x as int, y as int),
            None => {
                &&& op is Mul
                &&& (arith_value(op, x as int, y as int) > i128::MAX || arith_value(
                    op,
                    x as int,
                    y as int,
                ) < i128::MIN)
            },
        },
{
    match op {
        ArithOp::Plus => Some(x + y),
        ArithOp::Minus => Some(x - y),
        ArithOp::Mul => x.checked_mul(y),
        ArithOp::Div => {
            match x.checked_div(y) {
                Some(v) => Some(v),
                None => {
                    proof {
                        assert(false);
                    }
                    None
                },
            }
        },
        ArithOp::Rem => {
            match x.checked_rem(y) {
                Some(v) => Some(v),
                None => {
                    proof {
                        assert(false);
                    }
                    None
                },
            }
        },
    }
}

/// Evaluate one arithmetic operator over two same-length columns as they
/// stand, with no physical-type dispatch. Row `i` of the result is null when
/// either operand row is null, when the row divides by zero, or when its
/// value falls outside the result type's range; the context records whether
/// the last two ever happened.
pub fn arith_raw(op: ArithOp, lhs: &Column, rhs: &Column, ctx: &mut EvalContext) -> (r: Result<
    Column,
    ErrorCode,
>)
    requires
        lhs.wf(),
        rhs.wf(),
        lhs@.cells.len() == rhs@.cells.len(),
    ensures
        match r {
            Ok(c) => {
                &&& c.wf()
                &&& Ok::<ColumnV, ErrorCode>(c@) == spec_arith_raw(op, lhs@, rhs@)
                &&& final(ctx).overflow == (old(ctx).overflow || exists|i: int|
                    0 <= i < lhs@.cells.len() && row_overflows(
                        op,
                        storage_of(c@.logical)->Some_0,
                        #[trigger] lhs@.cells[i],
                        rhs@.cells[i],
                    ))
                &&& final(ctx).division_by_zero == (old(ctx).division_by_zero || exists|i: int|
                    0 <= i < lhs@.cells.len() && row_div_by_zero(
                        op,
                        #[trigger] lhs@.cells[i],
                        rhs@.cells[i],
                    ))
            },
            Err(e) => {
                &&& Err::<ColumnV, ErrorCode>(e) == spec_arith_raw(op, lhs@, rhs@)
                &&& *final(ctx) == *old(ctx)
            },
        },
{
    let result_type = match arith_result_type_exec(&lhs.logical, &rhs.logical) {
        Some(t) => t,
        None => {
            return Err(ErrorCode::TypeMismatch(lhs.logical, rhs.logical));
        },
    };
    let kind = match storage_of_exec(&result_type) {
        Some(k) => k,
        None => {
            proof {
                assert(false);
            }
            return Err(ErrorCode::TypeMismatch(lhs.logical, rhs.logical));
        },
    };
    let (lo, hi) = kind_bounds_arith(kind);
    let n = lhs.len();
    let mut vals: Vec<i128> = Vec::new();
    let mut validity: Vec<bool> = Vec::new();
    let mut any_overflow: bool = false;
    let mut any_div_zero: bool = false;
    let mut i: usize = 0;
    while i < n
        invariant
            lhs.wf(),
            rhs.wf(),
            n == lhs@.cells.len(),
            n == rhs@.cells.len(),
            int_kind(lhs.data.kind_spec()),
            int_kind(rhs.data.kind_spec()),
            int_kind(kind),
            lo as int == kind_min(kind),
            hi as int == kind_max(kind),
            i <= n,
            vals@.len() == i,
            validity@.len() == i,
            forall|k: int| 0 <= k < i ==> in_kind_range(kind, vals@[k] as int),
            forall|k: int|
                0 <= k < i ==> arith_out_cell(vals@[k], validity@[k]) == arith_cell(
                    op,
                    kind,
                    lhs@.cells[k],
                    rhs@.cells[k],
                ),
            any_overflow == exists|k: int|
                0 <= k < i && row_overflows(op, kind, #[trigger] lhs@.cells[k], rhs@.cells[k]),
            any_div_zero == exists|k: int|
                0 <= k < i && row_div_by_zero(op, #[trigger] lhs@.cells[k], rhs@.cells[k]),
        decreases n - i,
    {
        proof {
            assert(lhs@.cells[i as int] == lhs.cell_spec(i as int));
            assert(rhs@.cells[i as int] == rhs.cell_spec(i as int));
        }
        let lv = lhs.is_valid_at(i);
        let rv = rhs.is_valid_at(i);
        if lv && rv {
            let a = raw_int(&lhs.data, i);
            let b = raw_int(&rhs.data, i);
            let div_or_rem = matches!(op, ArithOp::Div | ArithOp::Rem);
            if div_or_rem && b == 0 {
                vals.push(0);
                validity.push(false);
                any_div_zero = true;
            } else {
                match arith_value_exec(op, a, b) {
                    Some(v) if lo <= v && v <= hi => {
                        vals.push(v);
                        validity.push(true);
                    },
                    _ => {
                        vals.push(0);
                        validity.push(false);
                        any_overflow = true;
                    },
                }
            }
        } else {
            vals.push(0);
            validity.push(false);
        }
        i = i + 1;
    }
    let data = build_int_data(kind, &vals);
    let c = Column { logical: result_type, data, validity: Some(validity) };
    ctx.overflow = ctx.overflow || any_overflow;
    ctx.division_by_zero = ctx.division_by_zero || any_div_zero;
    proof {
        assert forall|k: int| 0 <= k < n implies c@.cells[k] == arith_cell(
            op,
            kind,
            lhs@.cells[k],
            rhs@.cells[k],
        ) by {
            assert(c@.cells[k] == c.cell_spec(k));
            assert(c.cell_spec(k) == arith_out_cell(vals@[k], validity@[k]));
        }
        let s = spec_arith_raw(op, lhs@, rhs@);
        assert(c@.cells =~= s->Ok_0.cells);
        assert(c@ =~= s->Ok_0);
    }
    Ok(c)
}

/// One result row, packed as the evaluation loop builds it: a value and a
/// validity bit.
pub open spec fn arith_out_cell(v: i128, valid: bool) -> Cell {
    if valid {
        Cell::Int(v as int)
    } else {
        Cell::Null
    }
}

/// Evaluate one arithmetic operator over two same-length columns with
/// physical-type dispatch: a temporal left operand is cast to its physical
/// integer type, the operator applied, and the result cast back exactly when
/// the operation preserved the physical representation. Cast failures cannot
/// arise here: the dispatch casts are reinterpretations within one storage
/// shape.
pub fn eval_arith(op: ArithOp, lhs: &Column, rhs: &Column, ctx: &mut EvalContext) -> (r: Result<
    Column,
    ErrorCode,
>)
    requires
        lhs.wf(),
        rhs.wf(),
        lhs@.cells.len() == rhs@.cells.len(),
    ensures
        match r {
            Ok(c) => {
                &&& c.wf()
                &&& Ok::<ColumnV, ErrorCode>(c@) == spec_arith(op, lhs@, rhs@)
                &&& final(ctx).overflow == (old(ctx).overflow || exists|i: int|
                    0 <= i < lhs@.cells.len() && row_overflows(
                        op,
                        storage_of(c@.logical)->Some_0,
                        #[trigger] lhs@.cells[i],
                        rhs@.cells[i],
                    ))
                &&& final(ctx).division_by_zero == (old(ctx).division_by_zero || exists|i: int|
                    0 <= i < lhs@.cells.len() && row_div_by_zero(
                        op,
                        #[trigger] lhs@.cells[i],
                        rhs@.cells[i],
                    ))
            },
            Err(e) => {
                &&& Err::<ColumnV, ErrorCode>(e) == spec_arith(op, lhs@, rhs@)
                &&& *final(ctx) == *old(ctx)
            },
        },
{
    if lhs.logical.is_physical() {
        return arith_raw(op, lhs, rhs, ctx);
    }
    let p = lhs.logical.physical_of().as_logical();
    proof {
        assert(storage_of(p) == storage_of(lhs.logical));
    }
    let s = match lhs.cast_to(&p) {
        Ok(c) => c,
        Err(_) => {
            proof {
                assert(false);
            }
            return Err(ErrorCode::IndexOutOfRange);
        },
    };
    let res = match arith_raw(op, &s, rhs, ctx) {
        Ok(c) => c,
        Err(e) => {
            return Err(e);
        },
    };
    if res.logical == p {
        let restored = match res.cast_to(&lhs.logical) {
            Ok(c) => c,
            Err(_) => {
                proof {
                    assert(false);
                }
                return Err(ErrorCode::IndexOutOfRange);
            },
        };
        proof {
            assert(restored@ =~= spec_arith(op, lhs@, rhs@)->Ok_0);
        }
        Ok(restored)
    } else {
        proof {
            assert(res@ =~= spec_arith(op, lhs@, rhs@)->Ok_0);
        }
        Ok(res)
    }
}

impl Column {
    /// Elementwise difference of two same-length columns; see
    /// [`spec_arith`] for the physical-type dispatch and null rules.
    pub fn subtract(&self, rhs: &Column) -> (r: Result<Column, ErrorCode>)
        requires
            self.wf(),
            rhs.wf(),
            self@.cells.len() == rhs@.cells.len(),
        ensures
            match r {
                Ok(c) => c.wf() && Ok::<ColumnV, ErrorCode>(c@) == spec_arith(
                    ArithOp::Minus,
                    self@,
                    rhs@,
                ),
                Err(e) => Err::<ColumnV, ErrorCode>(e) == spec_arith(ArithOp::Minus, self@, rhs@),
            },
    {
        let mut ctx = EvalContext::fresh();
        eval_arith(ArithOp::Minus, self, rhs, &mut ctx)
    }

    /// Elementwise sum of two same-length columns; see [`spec_arith`] for
    /// the physical-type dispatch and null rules.
    pub fn add_to(&self, rhs: &Column) -> (r: Result<Column, ErrorCode>)
        requires
            self.wf(),
            rhs.wf(),
            self@.cells.len() == rhs@.cells.len(),
        ensures
            match r {
                Ok(c) => c.wf() && Ok::<ColumnV, ErrorCode>(c@) == spec_arith(
                    ArithOp::Plus,
                    self@,
                    rhs@,
                ),
                Err(e) => Err::<ColumnV, ErrorCode>(e) == spec_arith(ArithOp::Plus, self@, rhs@),
            },
    {
        let mut ctx = EvalContext::fresh();
        eval_arith(ArithOp::Plus, self, rhs, &mut ctx)
    }

    /// Elementwise product of two same-length columns; see [`spec_arith`]
    /// for the physical-type dispatch and null rules.
    pub fn multiply(&self, rhs: &Column) -> (r: Result<Column, ErrorCode>)
        requires
            self.wf(),
            rhs.wf(),
            self@.cells.len() == rhs@.cells.len(),
        ensures
            match r {
                Ok(c) => c.wf() && Ok::<ColumnV, ErrorCode>(c@) == spec_arith(
                    ArithOp::Mul,
                    self@,
                    rhs@,
                ),
                Err(e) => Err::<ColumnV, ErrorCode>(e) == spec_arith(ArithOp::Mul, self@, rhs@),
            },
    {
        let mut ctx = EvalContext::fresh();
        eval_arith(ArithOp::Mul, self, rhs, &mut ctx)
    }

    /// Elementwise truncated quotient of two same-length columns; a row that
    /// divides by zero is null. See [`spec_arith`] for the full rules.
    pub fn divide(&self, rhs: &Column) -> (r: Result<Column, ErrorCode>)
        requires
            self.wf(),
            rhs.wf(),
            self@.cells.len() == rhs@.cells.len(),
        ensures
            match r {
                Ok(c) => c.wf() && Ok::<ColumnV, ErrorCode>(c@) == spec_arith(
                    ArithOp::Div,
                    self@,
                    rhs@,
                ),
                Err(e) => Err::<ColumnV, ErrorCode>(e) == spec_arith(ArithOp::Div, self@, rhs@),
            },
    {
        let mut ctx = EvalContext::fresh();
        eval_arith(ArithOp::Div, self, rhs, &mut ctx)
    }

    /// Elementwise truncated remainder of two same-length columns; a row that
    /// divides by zero is null. See [`spec_arith`] for the full rules.
    pub fn remainder(&self, rhs: &Column) -> (r: Result<Column, ErrorCode>)
        requires
            self.wf(),
            rhs.wf(),
            self@.cells.len() == rhs@.cells.len(),
        ensures
            match r {
                Ok(c) => c.wf() && Ok::<ColumnV, ErrorCode>(c@) == spec_arith(
                    ArithOp::Rem,
                    self@,
                    rhs@,
                ),
                Err(e) => Err::<ColumnV, ErrorCode>(e) == spec_arith(ArithOp::Rem, self@, rhs@),
            },
    {
        let mut ctx = EvalContext::fresh();
        eval_arith(ArithOp::Rem, self, rhs, &mut ctx)
    }
}

/// Null propagation for arithmetic: whenever either operand's row `i` is
/// null, the result's row `i` is null.
pub proof fn lemma_arith_null_propagation(op: ArithOp, l: ColumnV, r: ColumnV, i: int)
    requires
        spec_arith(op, l, r) is Ok,
        l.cells.len() == r.cells.len(),
        0 <= i < l.cells.len(),
        l.cells[i] is Null || r.cells[i] is Null,
    ensures
        spec_arith(op, l, r)->Ok_0.cells[i] is Null,
{
}

/// The physical round trip: on a temporal left operand whose operation
/// preserves the physical representation (such as a date plus an interval),
/// the result carries the temporal logical type back; an operation that
/// changes the representation passes its own type through.
pub proof fn lemma_physical_restore(op: ArithOp, l: ColumnV, r: ColumnV)
    requires
        !l.logical.is_physical_spec(),
        spec_arith(op, l, r) is Ok,
    ensures
        spec_arith_raw(
            op,
            ColumnV { logical: l.logical.physical_of_spec().as_logical_spec(), cells: l.cells },
            r,
        ) matches Ok(c) ==> spec_arith(op, l, r)->Ok_0.logical == (if c.logical
            == l.logical.physical_of_spec().as_logical_spec() {
            l.logical
        } else {
            c.logical
        }),
        spec_arith(op, l, r)->Ok_0.cells == spec_arith_raw(
            op,
            ColumnV { logical: l.logical.physical_of_spec().as_logical_spec(), cells: l.cells },
            r,
        )->Ok_0.cells,
{
}

/// The bounds of an integer storage shape.
fn kind_bounds_arith(k: StorageKind) -> (r: (i128, i128))
    requires
        int_kind(k),
    ensures
        r.0 as int == kind_min(k),
        r.1 as int == kind_max(k),
{
    match k {
        StorageKind::I8 => (i8::MIN as i128, i8::MAX as i128),
        StorageKind::I16 => (i16::MIN as i128, i16::MAX as i128),
        StorageKind::I32 => (i32::MIN as i128, i32::MAX as i128),
        StorageKind::I64 => (i64::MIN as i128, i64::MAX as i128),
        StorageKind::U8 => (0, u8::MAX as i128),
        StorageKind::U16 => (0, u16::MAX as i128),
        StorageKind::U32 => (0, u32::MAX as i128),
        StorageKind::U64 => (0, u64::MAX as i128),
        StorageKind::Bool | StorageKind::Bytes => (0, 0),
    }
}

} // verus!

//! The named scalar-function registry: one entry per comparison or
//! arithmetic operator, created by name, evaluating over two columns or over
//! a column and a broadcast scalar.

use vstd::prelude::*;

use crate::arith::eval_arith;
use crate::arith::row_div_by_zero;
use crate::arith::row_overflows;
use crate::arith::spec_arith;
use crate::arith::ArithOp;
use crate::arith::EvalContext;
use crate::column::repeat_column;
use crate::column::storage_of;
use crate::column::Column;
use crate::column::ColumnV;
use crate::compare::compare;
use crate::compare::spec_compare;
use crate::compare::CmpOp;
use crate::error::ErrorCode;
use crate::types::LogicalType;
use crate::value::DataValue;

verus! {

/// Every operator the registry serves.
#[derive(Clone, Copy, Debug, PartialEq, Eq, Structural)]
pub enum Operator {
    Cmp(CmpOp),
    Arith(ArithOp),
}

/// The operator registered under a name, or none.
pub open spec fn operator_of(name: Seq<char>) -> Option<Operator> {
    if name == "="@ {
        Some(Operator::Cmp(CmpOp::Eq))
    } else if name == "!="@ {
        Some(Operator::Cmp(CmpOp::NotEq))
    } else if name == "<"@ {
        Some(Operator::Cmp(CmpOp::Lt))
    } else if name == "<="@ {
        Some(Operator::Cmp(CmpOp::LtEq))
    } else if name == ">"@ {
        Some(Operator::Cmp(CmpOp::Gt))
    } else if name == ">="@ {
        Some(Operator::Cmp(CmpOp::GtEq))
    } else if name == "+"@ {
        Some(Operator::Arith(ArithOp::Plus))
    } else if name == "-"@ {
        Some(Operator::Arith(ArithOp::Minus))
    } else if name == "*"@ {
        Some(Operator::Arith(ArithOp::Mul))
    } else if name == "/"@ {
        Some(Operator::Arith(ArithOp::Div))
    } else if name == "%"@ {
        Some(Operator::Arith(ArithOp::Rem))
    } else {
        None
    }
}

/// What one evaluation returns: the comparison or arithmetic result of the
/// operator, physical-type dispatch included.
pub open spec fn spec_eval(op: Operator, l: ColumnV, r: ColumnV) -> Result<ColumnV, ErrorCode> {
    match op {
        Operator::Cmp(c) => spec_compare(c, l, r),
        Operator::Arith(a) => spec_arith(a, l, r),
    }
}

/// Whether two strings hold the same characters.
fn str_eq(a: &str, b: &str) -> (r: bool)
    ensures
        r == (a@ == b@),
{
    let x: String = a.to_owned();
    let y: String = b.to_owned();
    x == y
}

/// One registry entry: a named scalar function over two operands.
#[derive(Clone, Copy, Debug)]
pub struct Function {
    pub op: Operator,
}

impl Function {
    /// Look a scalar function up by its registered name: `=`, `!=`, `<`,
    /// `<=`, `>`, `>=`, `+`, `-`, `*`, `/`, `%`. Any other name misses with
    /// `UnknownFunction` carrying it.
    pub fn try_create(name: &str) -> (r: Result<Function, ErrorCode>)
        ensures
            match r {
                Ok(f) => operator_of(name@) == Some(f.op),
                Err(e) => {
                    &&& operator_of(name@) is None
                    &&& e matches ErrorCode::UnknownFunction(s) && s@ == name@
                },
            },
    {
        if str_eq(name, "=") {
            Ok(Function { op: Operator::Cmp(CmpOp::Eq) })
        } else if str_eq(name, "!=") {
            Ok(Function { op: Operator::Cmp(CmpOp::NotEq) })
        } else if str_eq(name, "<") {
            Ok(Function { op: Operator::Cmp(CmpOp::Lt) })
        } else if str_eq(name, "<=") {
            Ok(Function { op: Operator::Cmp(CmpOp::LtEq) })
        } else if str_eq(name, ">") {
            Ok(Function { op: Operator::Cmp(CmpOp::Gt) })
        } else if str_eq(name, ">=") {
            Ok(Function { op: Operator::Cmp(CmpOp::GtEq) })
        } else if str_eq(name, "+") {
            Ok(Function { op: Operator::Arith(ArithOp::Plus) })
        } else if str_eq(name, "-") {
            Ok(Function { op: Operator::Arith(ArithOp::Minus) })
        } else if str_eq(name, "*") {
            Ok(Function { op: Operator::Arith(ArithOp::Mul) })
        } else if str_eq(name, "/") {
            Ok(Function { op: Operator::Arith(ArithOp::Div) })
        } else if str_eq(name, "%") {
            Ok(Function { op: Operator::Arith(ArithOp::Rem) })
        } else {
            Err(ErrorCode::UnknownFunction(name.to_owned()))
        }
    }

    /// Evaluate the function over two same-length columns. Comparisons leave
    /// the context untouched; arithmetic records overflow and division by
    /// zero in it as [`eval_arith`] does.
    pub fn eval(&self, lhs: &Column, rhs: &Column, ctx: &mut EvalContext) -> (r: Result<
        Column,
        ErrorCode,
    >)
        requires
            lhs.wf(),
            rhs.wf(),
            lhs@.cells.len() == rhs@.cells.len(),
        ensures
            match r {
                Ok(c) => c.wf() && Ok::<ColumnV, ErrorCode>(c@) == spec_eval(self.op, lhs@, rhs@),
                Err(e) => Err::<ColumnV, ErrorCode>(e) == spec_eval(self.op, lhs@, rhs@),
            },
            self.op is Cmp ==> *final(ctx) == *old(ctx),
            self.op matches Operator::Arith(a) ==> match r {
                Ok(c) => {
                    &&& final(ctx).overflow == (old(ctx).overflow || exists|i: int|
                        0 <= i < lhs@.cells.len() && row_overflows(
                            a,
                            storage_of(c@.logical)->Some_0,
                            #[trigger] lhs@.cells[i],
                            rhs@.cells[i],
                        ))
                    &&& final(ctx).division_by_zero == (old(ctx).division_by_zero || exists|i: int|
                        0 <= i < lhs@.cells.len() && row_div_by_zero(
                            a,
                            #[trigger] lhs@.cells[i],
                            rhs@.cells[i],
                        ))
                },
                Err(_) => *final(ctx) == *old(ctx),
            },
    {
        match self.op {
            Operator::Cmp(c) => compare(c, lhs, rhs),
            Operator::Arith(a) => eval_arith(a, lhs, rhs, ctx),
        }
    }

    /// Evaluate the function over a column and a scalar broadcast across all
    /// of its rows; the result has the column's length. The scalar takes its
    /// own logical type, or the column's when it is null.
    pub fn eval_scalar(&self, lhs: &Column, rhs: &DataValue, ctx: &mut EvalContext) -> (r: Result<
        Column,
        ErrorCode,
    >)
        requires
            lhs.wf(),
            rhs.belongs_to(scalar_logical(*rhs, lhs@.logical)),
            storage_of(scalar_logical(*rhs, lhs@.logical)) is Some,
        ensures
            match r {
                Ok(c) => {
                    &&& c.wf()
                    &&& Ok::<ColumnV, ErrorCode>(c@) == spec_eval(
                        self.op,
                        lhs@,
                        ColumnV {
                            logical: scalar_logical(*rhs, lhs@.logical),
                            cells: Seq::new(lhs@.cells.len(), |i: int| rhs.cell()),
                        },
                    )
                },
                Err(e) => Err::<ColumnV, ErrorCode>(e) == spec_eval(
                    self.op,
                    lhs@,
                    ColumnV {
                        logical: scalar_logical(*rhs, lhs@.logical),
                        cells: Seq::new(lhs@.cells.len(), |i: int| rhs.cell()),
                    },
                ),
            },
    {
        let lt = scalar_logical_exec(rhs, &lhs.logical);
        let rc = repeat_column(rhs, &lt, lhs.len());
        proof {
            assert(rc@.cells =~= Seq::new(lhs@.cells.len(), |i: int| rhs.cell()));
            assert(rc@ =~= ColumnV {
                logical: scalar_logical(*rhs, lhs@.logical),
                cells: Seq::new(lhs@.cells.len(), |i: int| rhs.cell()),
            });
        }
        self.eval(lhs, &rc, ctx)
    }
}

/// The logical type a broadcast scalar carries: its own, or the vector
/// operand's when the scalar is null.
pub open spec fn scalar_logical(dv: DataValue, fallback: LogicalType) -> LogicalType {
    match dv {
        DataValue::Null => fallback,
        DataValue::Int8(_) => LogicalType::Int8,
        DataValue::Int16(_) => LogicalType::Int16,
        DataValue::Int32(_) => LogicalType::Int32,
        DataValue::Int64(_) => LogicalType::Int64,
        DataValue::UInt8(_) => LogicalType::UInt8,
        DataValue::UInt16(_) => LogicalType::UInt16,
        DataValue::UInt32(_) => LogicalType::UInt32,
        DataValue::UInt64(_) => LogicalType::UInt64,
        DataValue::Boolean(_) => LogicalType::Boolean,
        DataValue::Utf8(_) => LogicalType::Utf8,
        DataValue::Binary(_) => LogicalType::Binary,
        DataValue::Date32(_) => LogicalType::Date32,
        DataValue::Date64(_) => LogicalType::Date64,
        DataValue::Timestamp(u, tz, _) => LogicalType::Timestamp(u, tz),
        DataValue::IntervalYearMonth(_) => LogicalType::Interval(
            crate::types::IntervalUnit::YearMonth,
        ),
        DataValue::IntervalDayTime(_) => LogicalType::Interval(crate::types::IntervalUnit::DayTime),
    }
}

/// The logical type a broadcast scalar carries.
fn scalar_logical_exec(dv: &DataValue, fallback: &LogicalType) -> (r: LogicalType)
    ensures
        r == scalar_logical(*dv, *fallback),
{
    match dv {
        DataValue::Null => *fallback,
        DataValue::Int8(_) => LogicalType::Int8,
        DataValue::Int16(_) => LogicalType::Int16,
        DataValue::Int32(_) => LogicalType::Int32,
        DataValue::Int64(_) => LogicalType::Int64,
        DataValue::UInt8(_) => LogicalType::UInt8,
        DataValue::UInt16(_) => LogicalType::UInt16,
        DataValue::UInt32(_) => LogicalType::UInt32,
        DataValue::UInt64(_) => LogicalType::UInt64,
        DataValue::Boolean(_) => LogicalType::Boolean,
        DataValue::Utf8(_) => LogicalType::Utf8,
        DataValue::Binary(_) => LogicalType::Binary,
        DataValue::Date32(_) => LogicalType::Date32,
        DataValue::Date64(_) => LogicalType::Date64,
        DataValue::Timestamp(u, tz, _) => LogicalType::Timestamp(*u, *tz),
        DataValue::IntervalYearMonth(_) => LogicalType::Interval(
            crate::types::IntervalUnit::YearMonth,
        ),
        DataValue::IntervalDayTime(_) => LogicalType::Interval(crate::types::IntervalUnit::DayTime),
    }
}

/// Null propagation across the whole framework: for every comparison or
/// arithmetic operator, whenever either operand's row `i` is null, the
/// result's row `i` is null.
pub proof fn lemma_null_propagation(op: Operator, l: ColumnV, r: ColumnV, i: int)
    requires
        spec_eval(op, l, r) is Ok,
        l.cells.len() == r.cells.len(),
        0 <= i < l.cells.len(),
        l.cells[i] is Null || r.cells[i] is Null,
    ensures
        spec_eval(op, l, r)->Ok_0.cells[i] is Null,
{
    match op {
        Operator::Cmp(c) => crate::compare::lemma_compare_null_propagation(c, l, r, i),
        Operator::Arith(a) => crate::arith::lemma_arith_null_propagation(a, l, r, i),
    }
}

} // verus!

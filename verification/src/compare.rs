//! The comparison half of the scalar evaluation framework: six operators over
//! two same-length columns, with numeric promotion, a raw-byte path for
//! `Utf8`/`Binary`, a dedicated boolean-equality special case, and uniform
//! null propagation (a result row is null exactly when either operand row is).

use vstd::prelude::*;

use crate::column::int_kind;
use crate::column::raw_bool;
use crate::column::raw_int;
use crate::column::storage_of;
use crate::column::storage_of_exec;
use crate::column::bytes_eq;
use crate::column::Column;
use crate::column::ColumnData;
use crate::column::ColumnV;
use crate::column::StorageKind;
use crate::error::ErrorCode;
use crate::types::LogicalType;
use crate::value::Cell;

verus! {

/// The six comparison operators.
#[derive(Clone, Copy, Debug, PartialEq, Eq, Structural)]
pub enum CmpOp {
    Eq,
    NotEq,
    Lt,
    LtEq,
    Gt,
    GtEq,
}

/// Lexicographic byte-string order: negative, zero or positive as `a` is
/// below, equal to or above `b`.
pub open spec fn lex_cmp(a: Seq<u8>, b: Seq<u8>) -> int
    decreases a.len(),
{
    if a.len() == 0 && b.len() == 0 {
        0
    } else if a.len() == 0 {
        -1
    } else if b.len() == 0 {
        1
    } else if a[0] < b[0] {
        -1
    } else if a[0] > b[0] {
        1
    } else {
        lex_cmp(a.skip(1), b.skip(1))
    }
}

/// A comparison of two integers.
pub open spec fn cmp_int(op: CmpOp, x: int, y: int) -> bool {
    match op {
        CmpOp::Eq => x == y,
        CmpOp::NotEq => x != y,
        CmpOp::Lt => x < y,
        CmpOp::LtEq => x <= y,
        CmpOp::Gt => x > y,
        CmpOp::GtEq => x >= y,
    }
}

/// A comparison of two byte strings: exact byte equality for `Eq`/`NotEq`,
/// lexicographic order for the ordering operators.
pub open spec fn cmp_bytes(op: CmpOp, a: Seq<u8>, b: Seq<u8>) -> bool {
    match op {
        CmpOp::Eq => a == b,
        CmpOp::NotEq => a != b,
        CmpOp::Lt => lex_cmp(a, b) < 0,
        CmpOp::LtEq => lex_cmp(a, b) <= 0,
        CmpOp::Gt => lex_cmp(a, b) > 0,
        CmpOp::GtEq => lex_cmp(a, b) >= 0,
    }
}

/// One result row of a comparison: null when either operand row is null,
/// otherwise the boolean verdict of the operator.
pub open spec fn cmp_cell(op: CmpOp, a: Cell, b: Cell) -> Cell {
    match (a, b) {
        (Cell::Int(x), Cell::Int(y)) => Cell::Bool(cmp_int(op, x, y)),
        (Cell::Bool(x), Cell::Bool(y)) => Cell::Bool(
            if op is Eq {
                x == y
            } else {
                x != y
            },
        ),
        (Cell::Bytes(x), Cell::Bytes(y)) => Cell::Bool(cmp_bytes(op, x, y)),
        _ => Cell::Null,
    }
}

/// Whether a logical type is stored as integers (every numeric and temporal
/// type).
pub open spec fn int_backed(lt: LogicalType) -> bool {
    match storage_of(lt) {
        Some(k) => int_kind(k),
        None => false,
    }
}

/// Which operand types each comparison operator accepts: any two
/// integer-backed types (compared as mathematical integers, which subsumes
/// lossless numeric promotion), two booleans under equality, or two byte
/// columns of one type.
pub open spec fn comparable(op: CmpOp, l: LogicalType, r: LogicalType) -> bool {
    ||| (int_backed(l) && int_backed(r))
    ||| (l == LogicalType::Boolean && r == LogicalType::Boolean && (op is Eq || op is NotEq))
    ||| (l == LogicalType::Utf8 && r == LogicalType::Utf8)
    ||| (l == LogicalType::Binary && r == LogicalType::Binary)
}

/// What a comparison of two columns returns: a boolean column of the common
/// length with one verdict per row, or `TypeMismatch` naming both types.
pub open spec fn spec_compare(op: CmpOp, l: ColumnV, r: ColumnV) -> Result<ColumnV, ErrorCode>
    recommends
        l.cells.len() == r.cells.len(),
{
    if comparable(op, l.logical, r.logical) {
        Ok(
            ColumnV {
                logical: LogicalType::Boolean,
                cells: Seq::new(l.cells.len(), |i: int| cmp_cell(op, l.cells[i], r.cells[i])),
            },
        )
    } else {
        Err(ErrorCode::TypeMismatch(l.logical, r.logical))
    }
}

/// One result row, packed as the pair the evaluation loops build: a verdict
/// bit and a validity bit.
pub open spec fn out_cell(v: bool, valid: bool) -> Cell {
    if valid {
        Cell::Bool(v)
    } else {
        Cell::Null
    }
}

/// A comparison of two integers, given as the promoted 128-bit values every
/// stored integer converts into losslessly.
pub fn cmp_int_exec(op: CmpOp, x: i128, y: i128) -> (r: bool)
    ensures
        r == cmp_int(op, x as int, y as int),
{
    match op {
        CmpOp::Eq => x == y,
        CmpOp::NotEq => x != y,
        CmpOp::Lt => x < y,
        CmpOp::LtEq => x <= y,
        CmpOp::Gt => x > y,
        CmpOp::GtEq => x >= y,
    }
}

/// Lexicographic comparison of two byte rows.
pub fn lex_cmp_exec(a: &Vec<u8>, b: &Vec<u8>) -> (r: i8)
    ensures
        r as int == lex_cmp(a@, b@),
{
    let na = a.len();
    let nb = b.len();
    let mut i: usize = 0;
    proof {
        assert(a@.skip(0) =~= a@);
        assert(b@.skip(0) =~= b@);
    }
    while i < na && i < nb
        invariant
            na == a@.len(),
            nb == b@.len(),
            i <= na,
            i <= nb,
            lex_cmp(a@, b@) == lex_cmp(a@.skip(i as int), b@.skip(i as int)),
        decreases na - i,
    {
        let ghost sa = a@.skip(i as int);
        let ghost sb = b@.skip(i as int);
        if a[i] < b[i] {
            return -1;
        }
        if a[i] > b[i] {
            return 1;
        }
        proof {
            assert(sa[0] == a@[i as int]);
            assert(sb[0] == b@[i as int]);
            assert(sa.skip(1) =~= a@.skip(i + 1));
            assert(sb.skip(1) =~= b@.skip(i + 1));
        }
        i = i + 1;
    }
    proof {
        assert(a@.skip(i as int).len() == na - i);
        assert(b@.skip(i as int).len() == nb - i);
    }
    if na == nb {
        0
    } else if na < nb {
        -1
    } else {
        1
    }
}

/// Whether the operator accepts the two operand types.
pub fn comparable_exec(op: CmpOp, l: &LogicalType, r: &LogicalType) -> (res: bool)
    ensures
        res == comparable(op, *l, *r),
{
    let int_l = match storage_of_exec(l) {
        Some(k) => k != StorageKind::Bool && k != StorageKind::Bytes,
        None => false,
    };
    let int_r = match storage_of_exec(r) {
        Some(k) => k != StorageKind::Bool && k != StorageKind::Bytes,
        None => false,
    };
    if int_l && int_r {
        return true;
    }
    if *l == LogicalType::Boolean && *r == LogicalType::Boolean {
        return match op {
            CmpOp::Eq | CmpOp::NotEq => true,
            _ => false,
        };
    }
    (*l == LogicalType::Utf8 && *r == LogicalType::Utf8) || (*l == LogicalType::Binary && *r
        == LogicalType::Binary)
}

/// Evaluate one comparison operator over two same-length columns: a boolean
/// column whose row `i` is null when either operand row `i` is null and the
/// operator's verdict otherwise, or `TypeMismatch` naming both logical types.
pub fn compare(op: CmpOp, lhs: &Column, rhs: &Column) -> (r: Result<Column, ErrorCode>)
    requires
        lhs.wf(),
        rhs.wf(),
        lhs@.cells.len() == rhs@.cells.len(),
    ensures
        match r {
            Ok(c) => {
                &&& c.wf()
                &&& Ok::<ColumnV, ErrorCode>(c@) == spec_compare(op, lhs@, rhs@)
            },
            Err(e) => Err::<ColumnV, ErrorCode>(e) == spec_compare(op, lhs@, rhs@),
        },
{
    if !comparable_exec(op, &lhs.logical, &rhs.logical) {
        return Err(ErrorCode::TypeMismatch(lhs.logical, rhs.logical));
    }
    let n = lhs.len();
    let kl = lhs.data.kind();
    let int_path = kl != StorageKind::Bool && kl != StorageKind::Bytes;
    if int_path {
        let mut vals: Vec<bool> = Vec::new();
        let mut validity: Vec<bool> = Vec::new();
        let mut i: usize = 0;
        while i < n
            invariant
                lhs.wf(),
                rhs.wf(),
                n == lhs@.cells.len(),
                n == rhs@.cells.len(),
                int_kind(lhs.data.kind_spec()),
                int_kind(rhs.data.kind_spec()),
                i <= n,
                vals@.len() == i,
                validity@.len() == i,
                forall|k: int|
                    0 <= k < i ==> out_cell(vals@[k], validity@[k]) == cmp_cell(
                        op,
                        lhs@.cells[k],
                        rhs@.cells[k],
                    ),
            decreases n - i,
        {
            proof {
                assert(lhs@.cells[i as int] == lhs.cell_spec(i as int));
                assert(rhs@.cells[i as int] == rhs.cell_spec(i as int));
            }
            let lv = lhs.is_valid_at(i);
            let rv = rhs.is_valid_at(i);
            if lv && rv {
                let a = raw_int(&lhs.data, i);
                let b = raw_int(&rhs.data, i);
                vals.push(cmp_int_exec(op, a, b));
                validity.push(true);
            } else {
                vals.push(false);
                validity.push(false);
            }
            i = i + 1;
        }
        let c = Column {
            logical: LogicalType::Boolean,
            data: ColumnData::Boolean(vals),
            validity: Some(validity),
        };
        proof {
            lemma_result_cells(&c, op, lhs, rhs);
        }
        return Ok(c);
    }
    if kl == StorageKind::Bool {
        if let CmpOp::Eq = op {
            let c = BooleanSimdEq::vector_vector(lhs, rhs);
            proof {
                let s = spec_compare(op, lhs@, rhs@);
                assert(c@.cells =~= s->Ok_0.cells);
                assert(c@ =~= s->Ok_0);
            }
            return Ok(c);
        }
        let mut vals: Vec<bool> = Vec::new();
        let mut validity: Vec<bool> = Vec::new();
        let mut i: usize = 0;
        while i < n
            invariant
                lhs.wf(),
                rhs.wf(),
                op is NotEq,
                n == lhs@.cells.len(),
                n == rhs@.cells.len(),
                lhs.data.kind_spec() == StorageKind::Bool,
                rhs.data.kind_spec() == StorageKind::Bool,
                i <= n,
                vals@.len() == i,
                validity@.len() == i,
                forall|k: int|
                    0 <= k < i ==> out_cell(vals@[k], validity@[k]) == cmp_cell(
                        op,
                        lhs@.cells[k],
                        rhs@.cells[k],
                    ),
            decreases n - i,
        {
            proof {
                assert(lhs@.cells[i as int] == lhs.cell_spec(i as int));
                assert(rhs@.cells[i as int] == rhs.cell_spec(i as int));
            }
            let lv = lhs.is_valid_at(i);
            let rv = rhs.is_valid_at(i);
            if lv && rv {
                let a = raw_bool(&lhs.data, i);
                let b = raw_bool(&rhs.data, i);
                vals.push(a ^ b);
                validity.push(true);
            } else {
                vals.push(false);
                validity.push(false);
            }
            i = i + 1;
        }
        let c = Column {
            logical: LogicalType::Boolean,
            data: ColumnData::Boolean(vals),
            validity: Some(validity),
        };
        proof {
            lemma_result_cells(&c, op, lhs, rhs);
        }
        return Ok(c);
    }
    match (&lhs.data, &rhs.data) {
        (ColumnData::Bytes(la), ColumnData::Bytes(ra)) => {
            let mut vals: Vec<bool> = Vec::new();
            let mut validity: Vec<bool> = Vec::new();
            let mut i: usize = 0;
            while i < n
                invariant
                    lhs.wf(),
                    rhs.wf(),
                    n == lhs@.cells.len(),
                    n == rhs@.cells.len(),
                    lhs.data == ColumnData::Bytes(*la),
                    rhs.data == ColumnData::Bytes(*ra),
                    i <= n,
                    vals@.len() == i,
                    validity@.len() == i,
                    forall|k: int|
                        0 <= k < i ==> out_cell(vals@[k], validity@[k]) == cmp_cell(
                            op,
                            lhs@.cells[k],
                            rhs@.cells[k],
                        ),
                decreases n - i,
            {
                proof {
                    assert(lhs@.cells[i as int] == lhs.cell_spec(i as int));
                    assert(rhs@.cells[i as int] == rhs.cell_spec(i as int));
                }
                let lv = lhs.is_valid_at(i);
                let rv = rhs.is_valid_at(i);
                if lv && rv {
                    let a: &Vec<u8> = &la[i];
                    let b: &Vec<u8> = &ra[i];
                    let verdict = match op {
                        CmpOp::Eq => bytes_eq(a, b),
                        CmpOp::NotEq => !bytes_eq(a, b),
                        CmpOp::Lt => lex_cmp_exec(a, b) < 0,
                        CmpOp::LtEq => lex_cmp_exec(a, b) <= 0,
                        CmpOp::Gt => lex_cmp_exec(a, b) > 0,
                        CmpOp::GtEq => lex_cmp_exec(a, b) >= 0,
                    };
                    vals.push(verdict);
                    validity.push(true);
                } else {
                    vals.push(false);
                    validity.push(false);
                }
                i = i + 1;
            }
            let c = Column {
                logical: LogicalType::Boolean,
                data: ColumnData::Boolean(vals),
                validity: Some(validity),
            };
            proof {
                lemma_result_cells(&c, op, lhs, rhs);
            }
            Ok(c)
        },
        _ => {
            proof {
                assert(false);
            }
            Err(ErrorCode::TypeMismatch(lhs.logical, rhs.logical))
        },
    }
}

/// A freshly built boolean result column models the pointwise comparison.
proof fn lemma_result_cells(c: &Column, op: CmpOp, lhs: &Column, rhs: &Column)
    requires
        c.logical == LogicalType::Boolean,
        c.data is Boolean,
        c.validity is Some,
        c.data.len_spec() == lhs@.cells.len(),
        c.validity->Some_0@.len() == lhs@.cells.len(),
        lhs@.cells.len() == rhs@.cells.len(),
        forall|k: int|
            0 <= k < lhs@.cells.len() ==> out_cell(c.data->Boolean_0@[k], c.validity->Some_0@[k])
                == cmp_cell(op, lhs@.cells[k], rhs@.cells[k]),
        comparable(op, lhs@.logical, rhs@.logical),
    ensures
        c.wf(),
        Ok::<ColumnV, ErrorCode>(c@) == spec_compare(op, lhs@, rhs@),
{
    assert forall|k: int| 0 <= k < lhs@.cells.len() implies c@.cells[k] == cmp_cell(
        op,
        lhs@.cells[k],
        rhs@.cells[k],
    ) by {
        assert(c@.cells[k] == c.cell_spec(k));
        assert(c.cell_spec(k) == out_cell(c.data->Boolean_0@[k], c.validity->Some_0@[k]));
    }
    let s = spec_compare(op, lhs@, rhs@);
    assert(c@.cells =~= s->Ok_0.cells);
    assert(c@ =~= s->Ok_0);
}

/// The boolean-equality special case: `eq(a, b)` is `NOT (a XOR b)` on the
/// value bits, never routed through numeric promotion, with separate
/// vector/vector, vector/const and const/vector entry points.
#[derive(Clone)]
pub struct BooleanSimdEq;

impl BooleanSimdEq {
    /// Equality of two same-length boolean columns.
    pub fn vector_vector(lhs: &Column, rhs: &Column) -> (r: Column)
        requires
            lhs.wf(),
            rhs.wf(),
            lhs.data.kind_spec() == StorageKind::Bool,
            rhs.data.kind_spec() == StorageKind::Bool,
            lhs@.cells.len() == rhs@.cells.len(),
        ensures
            r.wf(),
            r@.logical == LogicalType::Boolean,
            r@.cells.len() == lhs@.cells.len(),
            forall|k: int|
                0 <= k < lhs@.cells.len() ==> r@.cells[k] == cmp_cell(
                    CmpOp::Eq,
                    lhs@.cells[k],
                    rhs@.cells[k],
                ),
    {
        let n = lhs.len();
        let mut vals: Vec<bool> = Vec::new();
        let mut validity: Vec<bool> = Vec::new();
        let mut i: usize = 0;
        while i < n
            invariant
                lhs.wf(),
                rhs.wf(),
                n == lhs@.cells.len(),
                n == rhs@.cells.len(),
                lhs.data.kind_spec() == StorageKind::Bool,
                rhs.data.kind_spec() == StorageKind::Bool,
                i <= n,
                vals@.len() == i,
                validity@.len() == i,
                forall|k: int|
                    0 <= k < i ==> out_cell(vals@[k], validity@[k]) == cmp_cell(
                        CmpOp::Eq,
                        lhs@.cells[k],
                        rhs@.cells[k],
                    ),
            decreases n - i,
        {
            proof {
                assert(lhs@.cells[i as int] == lhs.cell_spec(i as int));
                assert(rhs@.cells[i as int] == rhs.cell_spec(i as int));
            }
            let lv = lhs.is_valid_at(i);
            let rv = rhs.is_valid_at(i);
            if lv && rv {
                let a = raw_bool(&lhs.data, i);
                let b = raw_bool(&rhs.data, i);
                vals.push(!(a ^ b));
                validity.push(true);
            } else {
                vals.push(false);
                validity.push(false);
            }
            i = i + 1;
        }
        let c = Column {
            logical: LogicalType::Boolean,
            data: ColumnData::Boolean(vals),
            validity: Some(validity),
        };
        proof {
            assert forall|k: int| 0 <= k < n implies c@.cells[k] == cmp_cell(
                CmpOp::Eq,
                lhs@.cells[k],
                rhs@.cells[k],
            ) by {
                assert(c@.cells[k] == c.cell_spec(k));
                assert(c.cell_spec(k) == out_cell(c.data->Boolean_0@[k], c.validity->Some_0@[k]));
            }
        }
        c
    }

    /// Equality of a boolean column with a constant: with `true` it is the
    /// identity projection of the column, with `false` its logical negation.
    pub fn vector_const(lhs: &Column, rhs: bool) -> (r: Column)
        requires
            lhs.wf(),
            lhs.data.kind_spec() == StorageKind::Bool,
        ensures
            r.wf(),
            r@.logical == lhs@.logical,
            r@.cells.len() == lhs@.cells.len(),
            forall|k: int|
                0 <= k < lhs@.cells.len() ==> r@.cells[k] == cmp_cell(
                    CmpOp::Eq,
                    lhs@.cells[k],
                    Cell::Bool(rhs),
                ),
            rhs ==> r@ == lhs@,
    {
        if rhs {
            let c = lhs.duplicate();
            proof {
                assert forall|k: int| 0 <= k < lhs@.cells.len() implies c@.cells[k] == cmp_cell(
                    CmpOp::Eq,
                    lhs@.cells[k],
                    Cell::Bool(true),
                ) by {
                    assert(lhs@.cells[k] == lhs.cell_spec(k));
                }
            }
            return c;
        }
        let n = lhs.len();
        let mut vals: Vec<bool> = Vec::new();
        let mut validity: Vec<bool> = Vec::new();
        let mut i: usize = 0;
        while i < n
            invariant
                lhs.wf(),
                n == lhs@.cells.len(),
                lhs.data.kind_spec() == StorageKind::Bool,
                i <= n,
                vals@.len() == i,
                validity@.len() == i,
                forall|k: int|
                    0 <= k < i ==> out_cell(vals@[k], validity@[k]) == cmp_cell(
                        CmpOp::Eq,
                        lhs@.cells[k],
                        Cell::Bool(false),
                    ),
            decreases n - i,
        {
            proof {
                assert(lhs@.cells[i as int] == lhs.cell_spec(i as int));
            }
            if lhs.is_valid_at(i) {
                let a = raw_bool(&lhs.data, i);
                vals.push(!a);
                validity.push(true);
            } else {
                vals.push(false);
                validity.push(false);
            }
            i = i + 1;
        }
        let c = Column {
            logical: lhs.logical,
            data: ColumnData::Boolean(vals),
            validity: Some(validity),
        };
        proof {
            assert forall|k: int| 0 <= k < n implies c@.cells[k] == cmp_cell(
                CmpOp::Eq,
                lhs@.cells[k],
                Cell::Bool(false),
            ) by {
                assert(c@.cells[k] == c.cell_spec(k));
                assert(c.cell_spec(k) == out_cell(c.data->Boolean_0@[k], c.validity->Some_0@[k]));
            }
        }
        c
    }

    /// Equality of a constant with a boolean column; equality is symmetric,
    /// so this mirrors [`BooleanSimdEq::vector_const`].
    pub fn const_vector(lhs: bool, rhs: &Column) -> (r: Column)
        requires
            rhs.wf(),
            rhs.data.kind_spec() == StorageKind::Bool,
        ensures
            r.wf(),
            r@.logical == rhs@.logical,
            r@.cells.len() == rhs@.cells.len(),
            forall|k: int|
                0 <= k < rhs@.cells.len() ==> r@.cells[k] == cmp_cell(
                    CmpOp::Eq,
                    Cell::Bool(lhs),
                    rhs@.cells[k],
                ),
    {
        let c = Self::vector_const(rhs, lhs);
        proof {
            assert forall|k: int| 0 <= k < rhs@.cells.len() implies c@.cells[k] == cmp_cell(
                CmpOp::Eq,
                Cell::Bool(lhs),
                rhs@.cells[k],
            ) by {
                assert(c@.cells[k] == cmp_cell(CmpOp::Eq, rhs@.cells[k], Cell::Bool(lhs)));
            }
        }
        c
    }
}

/// The equality kernels the comparison framework plugs in: one for promoted
/// integers, one for raw bytes.
#[derive(Clone)]
pub struct ComparisonEqImpl;

impl ComparisonEqImpl {
    /// Equality of two integers after lossless promotion.
    pub fn eval_primitive(l: i128, r: i128) -> (res: bool)
        ensures
            res == (l == r),
    {
        cmp_int_exec(CmpOp::Eq, l, r)
    }

    /// Byte-exact equality of two byte rows.
    pub fn eval_binary(l: &Vec<u8>, r: &Vec<u8>) -> (res: bool)
        ensures
            res == (l@ == r@),
    {
        bytes_eq(l, r)
    }
}

/// Reflexivity: comparing a fully valid well-formed column with itself for
/// equality succeeds and every result row is `true`.
pub proof fn lemma_eq_reflexive(a: Column)
    requires
        a.wf(),
        forall|i: int| 0 <= i < a@.cells.len() ==> !(#[trigger] a@.cells[i] is Null),
    ensures
        spec_compare(CmpOp::Eq, a@, a@) is Ok,
        forall|i: int|
            0 <= i < a@.cells.len() ==> #[trigger] spec_compare(
                CmpOp::Eq,
                a@,
                a@,
            )->Ok_0.cells[i] == Cell::Bool(true),
{
    assert(comparable(CmpOp::Eq, a@.logical, a@.logical));
    assert forall|i: int| 0 <= i < a@.cells.len() implies #[trigger] spec_compare(
        CmpOp::Eq,
        a@,
        a@,
    )->Ok_0.cells[i] == Cell::Bool(true) by {
        assert(a@.cells[i] == a.cell_spec(i));
        assert(cmp_cell(CmpOp::Eq, a@.cells[i], a@.cells[i]) == Cell::Bool(true));
    }
}

/// Null propagation for comparisons: whenever either operand's row `i` is
/// null, the result's row `i` is null.
pub proof fn lemma_compare_null_propagation(op: CmpOp, l: ColumnV, r: ColumnV, i: int)
    requires
        spec_compare(op, l, r) is Ok,
        l.cells.len() == r.cells.len(),
        0 <= i < l.cells.len(),
        l.cells[i] is Null || r.cells[i] is Null,
    ensures
        spec_compare(op, l, r)->Ok_0.cells[i] is Null,
{
}

/// The boolean-equality laws behind [`BooleanSimdEq::vector_const`]: against
/// the constant `true` every row keeps its value, against `false` every valid
/// row is negated, and null rows stay null either way.
pub proof fn lemma_bool_eq_const(a: ColumnV, i: int)
    requires
        0 <= i < a.cells.len(),
        a.cells[i] is Bool || a.cells[i] is Null,
    ensures
        cmp_cell(CmpOp::Eq, a.cells[i], Cell::Bool(true)) == a.cells[i],
        a.cells[i] matches Cell::Bool(v) ==> cmp_cell(CmpOp::Eq, a.cells[i], Cell::Bool(false))
            == Cell::Bool(!v),
        a.cells[i] is Null ==> cmp_cell(CmpOp::Eq, a.cells[i], Cell::Bool(false)) is Null,
{
}

} // verus!

use fusecol::column::Column;
use fusecol::column::ColumnData;
use fusecol::compare::compare;
use fusecol::compare::BooleanSimdEq;
use fusecol::compare::CmpOp;
use fusecol::compare::ComparisonEqImpl;
use fusecol::error::ErrorCode;
use fusecol::types::LogicalType;
use fusecol::value::DataValue;

fn int32(vals: Vec<i32>) -> Column {
    Column::new(LogicalType::Int32, ColumnData::Int32(vals), None).unwrap()
}

fn int64(vals: Vec<i64>) -> Column {
    Column::new(LogicalType::Int64, ColumnData::Int64(vals), None).unwrap()
}

fn boolean(vals: Vec<bool>) -> Column {
    Column::new(LogicalType::Boolean, ColumnData::Boolean(vals), None).unwrap()
}

fn utf8(vals: Vec<&str>) -> Column {
    let rows: Vec<Vec<u8>> = vals.iter().map(|s| s.as_bytes().to_vec()).collect();
    Column::new(LogicalType::Utf8, ColumnData::Bytes(rows), None).unwrap()
}

fn bools_of(c: &Column) -> Vec<DataValue> {
    let mut out = Vec::new();
    for i in 0..c.len() {
        out.push(c.try_get(i).unwrap());
    }
    out
}

#[test]
fn eq_is_reflexive_on_non_null_columns() {
    let a = int32(vec![5, -3, 0, i32::MAX]);
    let r = compare(CmpOp::Eq, &a, &a).unwrap();
    assert_eq!(r.logical_type(), LogicalType::Boolean);
    for v in bools_of(&r) {
        assert_eq!(v, DataValue::Boolean(true));
    }

    let s = utf8(vec!["x", "", "longer"]);
    let r = compare(CmpOp::Eq, &s, &s).unwrap();
    for v in bools_of(&r) {
        assert_eq!(v, DataValue::Boolean(true));
    }
}

#[test]
fn promotion_compares_across_widths() {
    let l = int32(vec![1, 2, 3]);
    let r = int64(vec![1, 2, 4]);
    let out = compare(CmpOp::Eq, &l, &r).unwrap();
    assert_eq!(
        bools_of(&out),
        vec![
            DataValue::Boolean(true),
            DataValue::Boolean(true),
            DataValue::Boolean(false),
        ]
    );
}

#[test]
fn promotion_orders_signed_against_unsigned() {
    let l = Column::new(LogicalType::Int8, ColumnData::Int8(vec![-1, 3]), None).unwrap();
    let r = Column::new(LogicalType::UInt32, ColumnData::UInt32(vec![2, 2]), None).unwrap();
    let out = compare(CmpOp::Lt, &l, &r).unwrap();
    assert_eq!(bools_of(&out), vec![DataValue::Boolean(true), DataValue::Boolean(false)]);
}

#[test]
fn boolean_equality_special_case() {
    let l = boolean(vec![true, false]);
    let r = boolean(vec![true, true]);
    let out = compare(CmpOp::Eq, &l, &r).unwrap();
    assert_eq!(bools_of(&out), vec![DataValue::Boolean(true), DataValue::Boolean(false)]);

    let vv = BooleanSimdEq::vector_vector(&l, &r);
    assert_eq!(bools_of(&vv), vec![DataValue::Boolean(true), DataValue::Boolean(false)]);

    // eq(col, true) is the identity projection of col
    let id = BooleanSimdEq::vector_const(&l, true);
    assert_eq!(bools_of(&id), vec![DataValue::Boolean(true), DataValue::Boolean(false)]);

    // eq(col, false) is the logical negation of col
    let neg = BooleanSimdEq::vector_const(&l, false);
    assert_eq!(bools_of(&neg), vec![DataValue::Boolean(false), DataValue::Boolean(true)]);

    let sym = BooleanSimdEq::const_vector(false, &l);
    assert_eq!(bools_of(&sym), vec![DataValue::Boolean(false), DataValue::Boolean(true)]);
}

#[test]
fn raw_byte_equality_is_case_sensitive() {
    let l = utf8(vec!["Abc"]);
    let r = utf8(vec!["Abc"]);
    let out = compare(CmpOp::Eq, &l, &r).unwrap();
    assert_eq!(bools_of(&out), vec![DataValue::Boolean(true)]);

    let lower = utf8(vec!["abc"]);
    let out = compare(CmpOp::Eq, &l, &lower).unwrap();
    assert_eq!(bools_of(&out), vec![DataValue::Boolean(false)]);
}

#[test]
fn raw_byte_ordering_is_lexicographic() {
    let l = utf8(vec!["abc", "abc", "abd", "ab"]);
    let r = utf8(vec!["abd", "abc", "abc", "abc"]);
    let out = compare(CmpOp::Lt, &l, &r).unwrap();
    assert_eq!(
        bools_of(&out),
        vec![
            DataValue::Boolean(true),
            DataValue::Boolean(false),
            DataValue::Boolean(false),
            DataValue::Boolean(true),
        ]
    );
}

#[test]
fn date64_eq_itself_is_all_true() {
    let d = Column::new(
        LogicalType::Date64,
        ColumnData::Int64(vec![1609459200000, 1623715200000]),
        None,
    )
    .unwrap();
    let out = compare(CmpOp::Eq, &d, &d).unwrap();
    assert_eq!(out.logical_type(), LogicalType::Boolean);
    assert_eq!(bools_of(&out), vec![DataValue::Boolean(true), DataValue::Boolean(true)]);
}

#[test]
fn comparison_propagates_nulls() {
    let ops = [CmpOp::Eq, CmpOp::NotEq, CmpOp::Lt, CmpOp::LtEq, CmpOp::Gt, CmpOp::GtEq];
    let l = Column::new(
        LogicalType::Int32,
        ColumnData::Int32(vec![1, 2, 3]),
        Some(vec![true, false, true]),
    )
    .unwrap();
    let r = Column::new(
        LogicalType::Int32,
        ColumnData::Int32(vec![1, 2, 3]),
        Some(vec![true, true, false]),
    )
    .unwrap();
    for op in ops {
        let out = compare(op, &l, &r).unwrap();
        assert!(!out.is_null(0).unwrap());
        assert!(out.is_null(1).unwrap());
        assert!(out.is_null(2).unwrap());
        assert_eq!(out.try_get(1).unwrap(), DataValue::Null);
    }
}

#[test]
fn comparison_type_mismatch_names_both_types() {
    let l = utf8(vec!["a"]);
    let r = int32(vec![1]);
    let err = compare(CmpOp::Eq, &l, &r).unwrap_err();
    assert_eq!(err, ErrorCode::TypeMismatch(LogicalType::Utf8, LogicalType::Int32));

    let b = boolean(vec![true]);
    let err = compare(CmpOp::Lt, &b, &b).unwrap_err();
    assert_eq!(err, ErrorCode::TypeMismatch(LogicalType::Boolean, LogicalType::Boolean));
}

#[test]
fn equality_kernels() {
    assert!(ComparisonEqImpl::eval_primitive(42, 42));
    assert!(!ComparisonEqImpl::eval_primitive(42, -42));
    assert!(ComparisonEqImpl::eval_binary(&b"Abc".to_vec(), &b"Abc".to_vec()));
    assert!(!ComparisonEqImpl::eval_binary(&b"Abc".to_vec(), &b"abc".to_vec()));
}

use fusecol::arith::eval_arith;
use fusecol::arith::ArithOp;
use fusecol::arith::EvalContext;
use fusecol::column::Column;
use fusecol::column::ColumnData;
use fusecol::error::ErrorCode;
use fusecol::types::IntervalUnit;
use fusecol::types::LogicalType;
use fusecol::value::DataValue;

fn int32(vals: Vec<i32>) -> Column {
    Column::new(LogicalType::Int32, ColumnData::Int32(vals), None).unwrap()
}

fn int64(vals: Vec<i64>) -> Column {
    Column::new(LogicalType::Int64, ColumnData::Int64(vals), None).unwrap()
}

fn rows_of(c: &Column) -> Vec<DataValue> {
    let mut out = Vec::new();
    for i in 0..c.len() {
        out.push(c.try_get(i).unwrap());
    }
    out
}

#[test]
fn date_plus_interval_round_trips_to_date() {
    // 2021-01-01 is day 18628 since the epoch
    let date = Column::new(LogicalType::Date32, ColumnData::Int32(vec![18628]), None).unwrap();
    let one_day = Column::new(
        LogicalType::Interval(IntervalUnit::DayTime),
        ColumnData::Int64(vec![1]),
        None,
    )
    .unwrap();
    let out = date.add_to(&one_day).unwrap();
    // the physical representation was preserved, so the logical type is
    // restored: the result is a date again, one day later (2021-01-02)
    assert_eq!(out.logical_type(), LogicalType::Date32);
    assert_eq!(rows_of(&out), vec![DataValue::Date32(18629)]);
}

#[test]
fn date_minus_date_stays_date_shaped() {
    let d1 = Column::new(LogicalType::Date32, ColumnData::Int32(vec![18629]), None).unwrap();
    let d2 = Column::new(LogicalType::Date32, ColumnData::Int32(vec![18628]), None).unwrap();
    let out = d1.subtract(&d2).unwrap();
    assert_eq!(out.logical_type(), LogicalType::Date32);
    assert_eq!(rows_of(&out), vec![DataValue::Date32(1)]);
}

#[test]
fn addition_promotes_to_the_wider_type() {
    let l = int32(vec![1, 2]);
    let r = int64(vec![10, 20]);
    let out = l.add_to(&r).unwrap();
    assert_eq!(out.logical_type(), LogicalType::Int64);
    assert_eq!(rows_of(&out), vec![DataValue::Int64(11), DataValue::Int64(22)]);
}

#[test]
fn mixed_signedness_promotes_to_a_wider_signed_type() {
    let l = Column::new(LogicalType::UInt8, ColumnData::UInt8(vec![200]), None).unwrap();
    let r = Column::new(LogicalType::Int8, ColumnData::Int8(vec![-100]), None).unwrap();
    let out = l.add_to(&r).unwrap();
    assert_eq!(out.logical_type(), LogicalType::Int16);
    assert_eq!(rows_of(&out), vec![DataValue::Int16(100)]);
}

#[test]
fn division_by_zero_propagates_as_null_and_flags_the_context() {
    let l = int32(vec![10, 9]);
    let r = int32(vec![2, 0]);
    let mut ctx = EvalContext::fresh();
    let out = eval_arith(ArithOp::Div, &l, &r, &mut ctx).unwrap();
    assert_eq!(out.try_get(0).unwrap(), DataValue::Int32(5));
    assert_eq!(out.try_get(1).unwrap(), DataValue::Null);
    assert!(ctx.division_by_zero);
    assert!(!ctx.overflow);
}

#[test]
fn division_truncates_toward_zero() {
    let l = int32(vec![7, -7, 7, -7]);
    let r = int32(vec![2, 2, -2, -2]);
    let out = l.divide(&r).unwrap();
    assert_eq!(
        rows_of(&out),
        vec![
            DataValue::Int32(3),
            DataValue::Int32(-3),
            DataValue::Int32(-3),
            DataValue::Int32(3),
        ]
    );
    let rem = l.remainder(&r).unwrap();
    assert_eq!(
        rows_of(&rem),
        vec![
            DataValue::Int32(1),
            DataValue::Int32(-1),
            DataValue::Int32(1),
            DataValue::Int32(-1),
        ]
    );
}

#[test]
fn remainder_by_zero_propagates_as_null() {
    let l = int32(vec![9]);
    let r = int32(vec![0]);
    let out = l.remainder(&r).unwrap();
    assert_eq!(rows_of(&out), vec![DataValue::Null]);
}

#[test]
fn overflow_propagates_as_null_and_flags_the_context() {
    let l = int64(vec![i64::MAX, 1]);
    let r = int64(vec![1, 1]);
    let mut ctx = EvalContext::fresh();
    let out = eval_arith(ArithOp::Plus, &l, &r, &mut ctx).unwrap();
    assert_eq!(out.try_get(0).unwrap(), DataValue::Null);
    assert_eq!(out.try_get(1).unwrap(), DataValue::Int64(2));
    assert!(ctx.overflow);
    assert!(!ctx.division_by_zero);

    let big = int64(vec![i64::MAX]);
    let mut ctx = EvalContext::fresh();
    let out = eval_arith(ArithOp::Mul, &big, &big, &mut ctx).unwrap();
    assert_eq!(out.try_get(0).unwrap(), DataValue::Null);
    assert!(ctx.overflow);
}

#[test]
fn arithmetic_propagates_nulls() {
    let ops = [ArithOp::Plus, ArithOp::Minus, ArithOp::Mul, ArithOp::Div, ArithOp::Rem];
    let l = Column::new(
        LogicalType::Int32,
        ColumnData::Int32(vec![8, 8]),
        Some(vec![true, false]),
    )
    .unwrap();
    let r = int32(vec![2, 2]);
    for op in ops {
        let mut ctx = EvalContext::fresh();
        let out = eval_arith(op, &l, &r, &mut ctx).unwrap();
        assert!(!out.is_null(0).unwrap());
        assert_eq!(out.try_get(1).unwrap(), DataValue::Null);
    }
}

#[test]
fn arithmetic_type_mismatch_names_both_types() {
    let l = Column::new(LogicalType::Boolean, ColumnData::Boolean(vec![true]), None).unwrap();
    let r = int32(vec![1]);
    let err = l.add_to(&r).unwrap_err();
    assert_eq!(err, ErrorCode::TypeMismatch(LogicalType::Boolean, LogicalType::Int32));

    // an unsigned 64-bit operand mixed with a signed one has no lossless
    // common type
    let u = Column::new(LogicalType::UInt64, ColumnData::UInt64(vec![1]), None).unwrap();
    let s = int64(vec![1]);
    let err = u.multiply(&s).unwrap_err();
    assert_eq!(err, ErrorCode::TypeMismatch(LogicalType::UInt64, LogicalType::Int64));
}

#[test]
fn interval_operand_adopts_the_other_side_shape() {
    let months = Column::new(
        LogicalType::Interval(IntervalUnit::YearMonth),
        ColumnData::Int32(vec![3]),
        None,
    )
    .unwrap();
    let n = int32(vec![4]);
    let out = n.add_to(&months).unwrap();
    assert_eq!(out.logical_type(), LogicalType::Int32);
    assert_eq!(rows_of(&out), vec![DataValue::Int32(7)]);
}

use fusecol::arith::ArithOp;
use fusecol::arith::EvalContext;
use fusecol::column::Column;
use fusecol::column::ColumnData;
use fusecol::compare::CmpOp;
use fusecol::error::ErrorCode;
use fusecol::function::Function;
use fusecol::function::Operator;
use fusecol::types::LogicalType;
use fusecol::value::DataValue;

fn int32(vals: Vec<i32>) -> Column {
    Column::new(LogicalType::Int32, ColumnData::Int32(vals), None).unwrap()
}

#[test]
fn try_create_serves_every_operator_name() {
    let cases = [
        ("=", Operator::Cmp(CmpOp::Eq)),
        ("!=", Operator::Cmp(CmpOp::NotEq)),
        ("<", Operator::Cmp(CmpOp::Lt)),
        ("<=", Operator::Cmp(CmpOp::LtEq)),
        (">", Operator::Cmp(CmpOp::Gt)),
        (">=", Operator::Cmp(CmpOp::GtEq)),
        ("+", Operator::Arith(ArithOp::Plus)),
        ("-", Operator::Arith(ArithOp::Minus)),
        ("*", Operator::Arith(ArithOp::Mul)),
        ("/", Operator::Arith(ArithOp::Div)),
        ("%", Operator::Arith(ArithOp::Rem)),
    ];
    for (name, op) in cases {
        assert_eq!(Function::try_create(name).unwrap().op, op);
    }
    let err = Function::try_create("sqrt").unwrap_err();
    assert!(matches!(err, ErrorCode::UnknownFunction(s) if s == "sqrt"));
}

#[test]
fn functions_evaluate_comparisons_and_arithmetic() {
    let f = Function::try_create("=").unwrap();
    let mut ctx = EvalContext::fresh();
    let out = f.eval(&int32(vec![1, 2]), &int32(vec![1, 3]), &mut ctx).unwrap();
    assert_eq!(out.try_get(0).unwrap(), DataValue::Boolean(true));
    assert_eq!(out.try_get(1).unwrap(), DataValue::Boolean(false));
    assert!(!ctx.overflow && !ctx.division_by_zero);

    let f = Function::try_create("*").unwrap();
    let out = f.eval(&int32(vec![6]), &int32(vec![7]), &mut ctx).unwrap();
    assert_eq!(out.try_get(0).unwrap(), DataValue::Int32(42));
}

#[test]
fn scalars_broadcast_across_the_vector_operand() {
    let f = Function::try_create(">").unwrap();
    let mut ctx = EvalContext::fresh();
    let out = f
        .eval_scalar(&int32(vec![1, 5, 3]), &DataValue::Int32(2), &mut ctx)
        .unwrap();
    assert_eq!(out.len(), 3);
    assert_eq!(out.try_get(0).unwrap(), DataValue::Boolean(false));
    assert_eq!(out.try_get(1).unwrap(), DataValue::Boolean(true));
    assert_eq!(out.try_get(2).unwrap(), DataValue::Boolean(true));

    // a null scalar makes every row null
    let f = Function::try_create("+").unwrap();
    let out = f.eval_scalar(&int32(vec![1, 2]), &DataValue::Null, &mut ctx).unwrap();
    assert_eq!(out.try_get(0).unwrap(), DataValue::Null);
    assert_eq!(out.try_get(1).unwrap(), DataValue::Null);
}

#[test]
fn function_eval_rejects_incompatible_operands() {
    let f = Function::try_create("+").unwrap();
    let mut ctx = EvalContext::fresh();
    let s = Column::new(
        LogicalType::Utf8,
        ColumnData::Bytes(vec![b"x".to_vec()]),
        None,
    )
    .unwrap();
    let err = f.eval(&s, &int32(vec![1]), &mut ctx).unwrap_err();
    assert_eq!(err, ErrorCode::TypeMismatch(LogicalType::Utf8, LogicalType::Int32));
}

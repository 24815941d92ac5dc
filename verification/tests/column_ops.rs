use fusecol::column::Column;
use fusecol::column::ColumnData;
use fusecol::column::repeat_column;
use fusecol::error::ErrorCode;
use fusecol::types::LogicalType;
use fusecol::types::PhysicalRepresentation;
use fusecol::value::DataValue;

fn int32(vals: Vec<i32>) -> Column {
    Column::new(LogicalType::Int32, ColumnData::Int32(vals), None).unwrap()
}

fn utf8(vals: Vec<&str>) -> Column {
    let rows: Vec<Vec<u8>> = vals.iter().map(|s| s.as_bytes().to_vec()).collect();
    Column::new(LogicalType::Utf8, ColumnData::Bytes(rows), None).unwrap()
}

#[test]
fn metadata_queries() {
    let c = Column::new(
        LogicalType::Int32,
        ColumnData::Int32(vec![1, 2, 3]),
        Some(vec![true, false, true]),
    )
    .unwrap();
    assert_eq!(c.len(), 3);
    assert!(!c.is_empty());
    assert_eq!(c.null_count(), 1);
    assert_eq!(c.logical_type(), LogicalType::Int32);
    assert!(!c.is_null(0).unwrap());
    assert!(c.is_null(1).unwrap());
    assert_eq!(c.is_null(3).unwrap_err(), ErrorCode::IndexOutOfRange);

    let empty = int32(vec![]);
    assert!(empty.is_empty());
    assert_eq!(empty.null_count(), 0);
}

#[test]
fn slice_rows_agree_with_the_source() {
    let c = Column::new(
        LogicalType::Int32,
        ColumnData::Int32(vec![10, 20, 30, 40, 50]),
        Some(vec![true, true, false, true, true]),
    )
    .unwrap();
    let s = c.slice(1, 3).unwrap();
    assert_eq!(s.len(), 3);
    assert_eq!(s.logical_type(), c.logical_type());
    for k in 0..3 {
        assert_eq!(s.try_get(k).unwrap(), c.try_get(1 + k).unwrap());
    }
}

#[test]
fn slice_of_bytes_and_bounds() {
    let c = utf8(vec!["a", "bb", "ccc"]);
    let s = c.slice(2, 1).unwrap();
    assert_eq!(s.try_get(0).unwrap(), DataValue::Utf8(b"ccc".to_vec()));

    assert_eq!(c.slice(2, 2).unwrap_err(), ErrorCode::IndexOutOfRange);
    // an empty slice at the very end is fine
    assert_eq!(c.slice(3, 0).unwrap().len(), 0);
}

#[test]
fn try_get_returns_tagged_scalars() {
    let c = Column::new(
        LogicalType::Date32,
        ColumnData::Int32(vec![18628, 0]),
        Some(vec![true, false]),
    )
    .unwrap();
    assert_eq!(c.try_get(0).unwrap(), DataValue::Date32(18628));
    assert_eq!(c.try_get(1).unwrap(), DataValue::Null);
    assert_eq!(c.try_get(2).unwrap_err(), ErrorCode::IndexOutOfRange);
}

#[test]
fn equal_element_fast_and_checked() {
    let a = int32(vec![1, 2]);
    let b = Column::new(
        LogicalType::Int32,
        ColumnData::Int32(vec![2, 1]),
        Some(vec![true, false]),
    )
    .unwrap();
    assert!(a.equal_element(1, 0, &b));
    assert!(!a.equal_element(0, 0, &b));
    // a null row never equals a valid one
    assert!(!a.equal_element(0, 1, &b));

    assert_eq!(a.equal_element_checked(1, 0, &b).unwrap(), true);
    assert_eq!(a.equal_element_checked(9, 0, &b).unwrap_err(), ErrorCode::IndexOutOfRange);
    let s = utf8(vec!["x"]);
    assert_eq!(
        a.equal_element_checked(0, 0, &s).unwrap_err(),
        ErrorCode::TypeMismatch(LogicalType::Int32, LogicalType::Utf8)
    );
}

#[test]
fn casts_reinterpret_and_widen() {
    let d = Column::new(LogicalType::Date32, ColumnData::Int32(vec![18628]), None).unwrap();
    let as_int = d.cast_to(&LogicalType::Int32).unwrap();
    assert_eq!(as_int.try_get(0).unwrap(), DataValue::Int32(18628));
    let back = as_int.cast_to(&LogicalType::Date32).unwrap();
    assert_eq!(back.try_get(0).unwrap(), DataValue::Date32(18628));

    let wide = as_int.cast_to(&LogicalType::Int64).unwrap();
    assert_eq!(wide.try_get(0).unwrap(), DataValue::Int64(18628));

    let b = utf8(vec!["Abc"]).cast_to(&LogicalType::Binary).unwrap();
    assert_eq!(b.try_get(0).unwrap(), DataValue::Binary(b"Abc".to_vec()));
}

#[test]
fn unsupported_casts_name_both_types() {
    let wide = Column::new(LogicalType::Int64, ColumnData::Int64(vec![1]), None).unwrap();
    assert_eq!(
        wide.cast_to(&LogicalType::Int32).unwrap_err(),
        ErrorCode::UnsupportedCast(LogicalType::Int64, LogicalType::Int32)
    );
    assert_eq!(
        wide.cast_to(&LogicalType::Float64).unwrap_err(),
        ErrorCode::UnsupportedCast(LogicalType::Int64, LogicalType::Float64)
    );
    let s = utf8(vec!["x"]);
    assert_eq!(
        s.cast_to(&LogicalType::Int32).unwrap_err(),
        ErrorCode::UnsupportedCast(LogicalType::Utf8, LogicalType::Int32)
    );
}

#[test]
fn content_hash_is_keyed_and_row_consistent() {
    let c = Column::new(
        LogicalType::Int32,
        ColumnData::Int32(vec![7, 8, 7, 0]),
        Some(vec![true, true, true, false]),
    )
    .unwrap();
    let h = c.content_hash(0x5eed);
    assert_eq!(h.len(), 4);
    // equal rows hash equal within one call
    assert_eq!(h[0], h[2]);

    let s = utf8(vec!["Abc", "Abc", "abd"]);
    let hs = s.content_hash(1);
    assert_eq!(hs[0], hs[1]);
}

#[test]
fn physical_type_queries_fail_fast_on_physical_types() {
    assert!(LogicalType::Int32.is_physical());
    assert!(!LogicalType::Date64.is_physical());
    assert_eq!(
        LogicalType::Date64.physical_of_checked().unwrap(),
        PhysicalRepresentation::Int64
    );
    assert_eq!(
        LogicalType::Int32.physical_of_checked().unwrap_err(),
        ErrorCode::InvariantViolation(LogicalType::Int32)
    );
    assert_eq!(PhysicalRepresentation::Int32.as_logical(), LogicalType::Int32);
}

#[test]
fn construction_checks_shape_and_bitmap() {
    let err = Column::new(LogicalType::Int32, ColumnData::Int64(vec![1]), None).unwrap_err();
    assert_eq!(err, ErrorCode::InvariantViolation(LogicalType::Int32));
    let err =
        Column::new(LogicalType::Int32, ColumnData::Int32(vec![1]), Some(vec![])).unwrap_err();
    assert_eq!(err, ErrorCode::InvariantViolation(LogicalType::Int32));
    let err = Column::new(LogicalType::Float32, ColumnData::Int32(vec![]), None).unwrap_err();
    assert_eq!(err, ErrorCode::InvariantViolation(LogicalType::Float32));
}

#[test]
fn scalars_broadcast_into_columns() {
    let c = repeat_column(&DataValue::Int32(9), &LogicalType::Int32, 3);
    assert_eq!(c.len(), 3);
    assert_eq!(c.try_get(2).unwrap(), DataValue::Int32(9));

    let n = repeat_column(&DataValue::Null, &LogicalType::Utf8, 2);
    assert_eq!(n.null_count(), 2);
}

#[test]
fn memory_footprint_counts_slots_payloads_and_bitmap() {
    let c = int32(vec![1, 2, 3]);
    assert_eq!(c.memory_footprint(), 12);
    let with_bitmap = Column::new(
        LogicalType::Int32,
        ColumnData::Int32(vec![1, 2, 3]),
        Some(vec![true, true, true]),
    )
    .unwrap();
    assert_eq!(with_bitmap.memory_footprint(), 15);
    let s = utf8(vec!["ab", "c"]);
    assert_eq!(s.memory_footprint(), 2 * 24 + 3);
}

#[test]
fn duplicate_copies_every_row() {
    let c = Column::new(
        LogicalType::Int32,
        ColumnData::Int32(vec![4, 5]),
        Some(vec![false, true]),
    )
    .unwrap();
    let d = c.duplicate();
    assert_eq!(d.len(), 2);
    assert_eq!(d.try_get(0).unwrap(), DataValue::Null);
    assert_eq!(d.try_get(1).unwrap(), DataValue::Int32(5));
}

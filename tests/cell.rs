use pg_replicate::cell::{
    decimal_from_cell, option_decimal_from_cell, option_from_cell, option_vec_from_cell, utc_timestamp_from_cell,
    vec_from_cell, ArrayCell, Cell, CellValue, DecimalConversionError, UtcTimestamp,
};
use pg_replicate::numeric::PgDecimal;
use pg_replicate::table_row::Cell as RowCell;
use pg_replicate::numeric::PgNumeric;
use pg_replicate::table_row::CellConversionError;

#[test]
fn scalar_round_trips() {
    assert_eq!(bool::from_cell(bool::into_cell(true)), Ok(true));
    assert_eq!(i16::from_cell(i16::into_cell(-3)), Ok(-3));
    assert_eq!(u32::from_cell(u32::into_cell(7)), Ok(7));
    assert_eq!(String::from_cell(String::into_cell("s".to_string())), Ok("s".to_string()));
    assert_eq!(PgNumeric::from_cell(PgNumeric::into_cell(PgNumeric::NaN)), Ok(PgNumeric::NaN));
    let ts = UtcTimestamp { unix_micros: 5 };
    assert_eq!(UtcTimestamp::from_cell(UtcTimestamp::into_cell(ts)), Ok(ts));
    let u = uuid::Uuid::from_u128(42);
    assert_eq!(uuid::Uuid::from_cell(uuid::Uuid::into_cell(u)), Ok(u));
    let j = serde_json::Value::from(3);
    assert_eq!(serde_json::Value::from_cell(serde_json::Value::into_cell(j.clone())), Ok(j));
}

#[test]
fn other_variants_fail() {
    assert_eq!(i32::from_cell(Cell::I64(1)), Err(CellConversionError));
    assert_eq!(String::from_cell(Cell::Null), Err(CellConversionError));
    assert_eq!(bool::from_cell(Cell::Array(ArrayCell::Bool(vec![Some(true)]))), Err(CellConversionError));
}

#[test]
fn null_converts_to_none() {
    assert_eq!(option_from_cell::<i64>(Cell::Null), Ok(None));
    assert_eq!(option_from_cell::<i64>(Cell::I64(4)), Ok(Some(4)));
    assert_eq!(option_from_cell::<i64>(Cell::I32(4)), Err(CellConversionError));
}

#[test]
fn arrays_convert() {
    let c = Cell::Array(ArrayCell::I32(vec![Some(1), None]));
    assert_eq!(vec_from_cell::<i32>(c), Ok(vec![Some(1), None]));
    assert_eq!(vec_from_cell::<i32>(Cell::Null), Err(CellConversionError));
    assert_eq!(option_vec_from_cell::<i32>(Cell::Array(ArrayCell::Null)), Ok(None));
    assert_eq!(option_vec_from_cell::<i32>(Cell::Null), Ok(None));
    let c = Cell::Array(ArrayCell::Bool(vec![None]));
    assert_eq!(option_vec_from_cell::<bool>(c), Ok(Some(vec![None])));
    let c = Cell::Array(ArrayCell::Bool(vec![None]));
    assert_eq!(option_vec_from_cell::<i32>(c), Err(CellConversionError));
}

#[test]
fn decimal_cells() {
    let d = PgDecimal { negative: false, mantissa: 15, scale: 1 };
    assert_eq!(decimal_from_cell(Cell::Numeric(PgNumeric::Value(d))), Ok(d));
    assert_eq!(decimal_from_cell(Cell::Numeric(PgNumeric::NaN)), Err(DecimalConversionError::NaN));
    assert_eq!(decimal_from_cell(Cell::Numeric(PgNumeric::PositiveInf)), Err(DecimalConversionError::PositiveInf));
    assert_eq!(decimal_from_cell(Cell::Numeric(PgNumeric::NegativeInf)), Err(DecimalConversionError::NegativeInf));
    assert_eq!(decimal_from_cell(Cell::I32(1)), Err(DecimalConversionError::NotNumeric));
    assert_eq!(option_decimal_from_cell(Cell::Null), Ok(None));
}

#[test]
fn utc_timestamp_cells() {
    let c = RowCell::TimeStamp("1970-01-01 00:00:01.5+00:00".to_string());
    assert_eq!(utc_timestamp_from_cell(c), Ok(UtcTimestamp { unix_micros: 1_500_000 }));
    let c = RowCell::TimeStamp("not a time".to_string());
    assert_eq!(utc_timestamp_from_cell(c), Err(CellConversionError));
    assert_eq!(utc_timestamp_from_cell(RowCell::I32(1)), Err(CellConversionError));
}

#[test]
fn try_from_conversions() {
    let d = PgDecimal { negative: true, mantissa: 42, scale: 1 };
    assert_eq!(PgDecimal::try_from(Cell::Numeric(PgNumeric::Value(d))), Ok(d));
    assert_eq!(PgDecimal::try_from(Cell::Null), Err(DecimalConversionError::NotNumeric));
    assert_eq!(Option::<PgDecimal>::try_from(Cell::Null), Ok(None));
    assert_eq!(Option::<PgDecimal>::try_from(Cell::Numeric(PgNumeric::Value(d))), Ok(Some(d)));
    assert_eq!(Option::<i16>::try_from(Cell::Null), Ok(None));
    assert_eq!(Option::<i16>::try_from(Cell::I16(5)), Ok(Some(5)));
    assert_eq!(Option::<i16>::try_from(Cell::I32(5)), Err(CellConversionError));
    assert_eq!(Vec::<Option<String>>::try_from(Cell::Array(ArrayCell::String(vec![None]))), Ok(vec![None]));
    assert_eq!(Option::<Vec<Option<u32>>>::try_from(Cell::Array(ArrayCell::Null)), Ok(None));
    assert_eq!(Option::<Vec<Option<u32>>>::try_from(Cell::Null), Ok(None));
    assert_eq!(Option::<Vec<Option<u32>>>::try_from(Cell::Array(ArrayCell::U32(vec![Some(3)]))), Ok(Some(vec![Some(3)])));
    assert_eq!(Option::<Vec<Option<u32>>>::try_from(Cell::U32(3)), Err(CellConversionError));
}

use pg_replicate::table::{
    ColumnSchema, BOOL_OID, INT2_OID, INT4_OID, INT8_OID, TEXT_OID, TIMESTAMPTZ_OID, TIMESTAMP_OID, UUID_ARRAY_OID, UUID_OID,
};
use pg_replicate::table_row::{option_from_cell, Cell, CellConversionError, CopyRow, TableRowConversionError, TableRowConverter};

fn column(typ: u32, nullable: bool) -> ColumnSchema {
    ColumnSchema { name: "c".to_string(), typ, modifier: -1, nullable, primary_key: None }
}

#[test]
fn copy_row_decodes_binary_values() {
    let row = CopyRow {
        values: vec![
            Some(vec![1]),
            Some(b"hello".to_vec()),
            Some((-2i16).to_be_bytes().to_vec()),
            Some(70000i32.to_be_bytes().to_vec()),
            Some((-5i64).to_be_bytes().to_vec()),
            Some(vec![9, 8, 7]),
        ],
    };
    let cols = vec![
        column(BOOL_OID, false),
        column(TEXT_OID, false),
        column(INT2_OID, false),
        column(INT4_OID, false),
        column(INT8_OID, false),
        column(17, false),
    ];
    let r = TableRowConverter::try_from(&row, &cols).unwrap();
    assert!(matches!(r.values[0], Cell::Bool(true)));
    assert!(matches!(&r.values[1], Cell::String(s) if s == "hello"));
    assert!(matches!(r.values[2], Cell::I16(-2)));
    assert!(matches!(r.values[3], Cell::I32(70000)));
    assert!(matches!(r.values[4], Cell::I64(-5)));
    assert!(matches!(&r.values[5], Cell::Bytes(b) if b == &vec![9, 8, 7]));
    assert!(r.is_last_in_batch());
}

#[test]
fn copy_row_timestamps() {
    // 2000-01-02 00:00:00.25 is one day and a quarter second after the Postgres epoch
    let micros: i64 = 86_400_000_000 + 250_000;
    let row = CopyRow { values: vec![Some(micros.to_be_bytes().to_vec()), Some(micros.to_be_bytes().to_vec())] };
    let cols = vec![column(TIMESTAMP_OID, false), column(TIMESTAMPTZ_OID, false)];
    let r = TableRowConverter::try_from(&row, &cols).unwrap();
    assert!(matches!(&r.values[0], Cell::TimeStamp(s) if s == "2000-01-02 00:00:00.250"));
    assert!(matches!(&r.values[1], Cell::TimeStamp(s) if s == "2000-01-02 00:00:00.250+00:00"));
}

#[test]
fn copy_row_nulls() {
    let row = CopyRow { values: vec![None, Some(vec![]), None] };
    let cols = vec![column(INT4_OID, true), column(17, true), column(17, true)];
    let r = TableRowConverter::try_from(&row, &cols).unwrap();
    assert!(matches!(r.values[0], Cell::Null));
    assert!(matches!(r.values[1], Cell::Null));
    assert!(matches!(r.values[2], Cell::Null));
}

#[test]
fn null_in_non_nullable_column_fails() {
    let row = CopyRow { values: vec![None] };
    assert!(matches!(
        TableRowConverter::try_from(&row, &[column(17, false)]),
        Err(TableRowConversionError::InvalidValue(0))
    ));
    assert!(matches!(
        TableRowConverter::try_from(&row, &[column(INT4_OID, false)]),
        Err(TableRowConversionError::InvalidValue(0))
    ));
    let row = CopyRow { values: vec![Some(vec![]), None] };
    let r = TableRowConverter::try_from(&row, &[column(17, false), column(17, true)]).unwrap();
    assert!(matches!(&r.values[0], Cell::Bytes(b) if b.is_empty()));
    assert!(matches!(r.values[1], Cell::Null));
}

#[test]
fn undecodable_value_fails_in_nullable_column() {
    let row = CopyRow { values: vec![Some(vec![1, 2])] };
    assert!(matches!(
        TableRowConverter::try_from(&row, &[column(INT4_OID, true)]),
        Err(TableRowConversionError::InvalidValue(0))
    ));
}

#[test]
fn copy_row_errors() {
    let row = CopyRow { values: vec![Some(vec![1]), None] };
    let cols = vec![column(BOOL_OID, false), column(INT4_OID, false)];
    assert!(matches!(TableRowConverter::try_from(&row, &cols), Err(TableRowConversionError::InvalidValue(1))));
    let row = CopyRow { values: vec![Some(vec![1, 2, 3])] };
    let cols = vec![column(INT4_OID, false)];
    assert!(matches!(TableRowConverter::try_from(&row, &cols), Err(TableRowConversionError::InvalidValue(0))));
    let row = CopyRow { values: vec![Some(vec![1])] };
    let cols = vec![column(BOOL_OID, false), column(BOOL_OID, false)];
    assert!(matches!(TableRowConverter::try_from(&row, &cols), Err(TableRowConversionError::MissingColumn(1))));
}

#[test]
fn row_cell_conversions() {
    assert_eq!(bool::try_from(Cell::Bool(true)), Ok(true));
    assert_eq!(i32::try_from(Cell::I32(-1)), Ok(-1));
    assert_eq!(u32::try_from(Cell::I32(-1)), Ok(u32::MAX));
    assert_eq!(u64::try_from(Cell::I64(-1)), Ok(u64::MAX));
    assert_eq!(String::try_from(Cell::String("x".to_string())), Ok("x".to_string()));
    assert_eq!(Vec::<u8>::try_from(Cell::Bytes(vec![3])), Ok(vec![3]));
    assert_eq!(i64::try_from(Cell::I32(1)), Err(CellConversionError));
    assert_eq!(bool::try_from(Cell::Null), Err(CellConversionError));
}

fn uuid_array_bytes(dims: &[i32], elements: &[Option<u128>]) -> Vec<u8> {
    let mut v = Vec::new();
    v.extend_from_slice(&(dims.len() as i32).to_be_bytes());
    v.extend_from_slice(&1i32.to_be_bytes());
    v.extend_from_slice(&2950u32.to_be_bytes());
    for d in dims {
        v.extend_from_slice(&d.to_be_bytes());
        v.extend_from_slice(&1i32.to_be_bytes());
    }
    for e in elements {
        match e {
            Some(u) => {
                v.extend_from_slice(&16i32.to_be_bytes());
                v.extend_from_slice(&u.to_be_bytes());
            }
            None => v.extend_from_slice(&(-1i32).to_be_bytes()),
        }
    }
    v
}

#[test]
fn copy_row_uuids() {
    let u: u128 = 0x0123_4567_89ab_cdef_0011_2233_4455_6677;
    let row = CopyRow {
        values: vec![Some(u.to_be_bytes().to_vec()), Some(uuid_array_bytes(&[2], &[Some(u), None]))],
    };
    let cols = vec![column(UUID_OID, false), column(UUID_ARRAY_OID, false)];
    let r = TableRowConverter::try_from(&row, &cols).unwrap();
    assert!(matches!(r.values[0], Cell::Uuid(x) if x == u));
    assert!(matches!(&r.values[1], Cell::UuidArray(v) if v == &vec![Some(u), None]));
}

#[test]
fn copy_row_uuid_array_edge_cases() {
    let empty = CopyRow { values: vec![Some(uuid_array_bytes(&[], &[]))] };
    let r = TableRowConverter::try_from(&empty, &[column(UUID_ARRAY_OID, false)]).unwrap();
    assert!(matches!(&r.values[0], Cell::UuidArray(v) if v.is_empty()));
    let two_dims = CopyRow { values: vec![Some(uuid_array_bytes(&[1, 1], &[Some(1)]))] };
    assert!(matches!(
        TableRowConverter::try_from(&two_dims, &[column(UUID_ARRAY_OID, false)]),
        Err(TableRowConversionError::InvalidValue(0))
    ));
    assert!(matches!(
        TableRowConverter::try_from(&two_dims, &[column(UUID_ARRAY_OID, true)]),
        Err(TableRowConversionError::InvalidValue(0))
    ));
    let short = CopyRow { values: vec![Some(vec![0; 15])] };
    assert!(matches!(
        TableRowConverter::try_from(&short, &[column(UUID_OID, false)]),
        Err(TableRowConversionError::InvalidValue(0))
    ));
}

#[test]
fn row_cell_optional_conversions() {
    assert_eq!(option_from_cell::<bool>(Cell::Null), Ok(None));
    assert_eq!(option_from_cell::<bool>(Cell::Bool(false)), Ok(Some(false)));
    assert_eq!(option_from_cell::<u64>(Cell::I64(-1)), Ok(Some(u64::MAX)));
    assert_eq!(option_from_cell::<String>(Cell::I32(1)), Err(CellConversionError));
    assert_eq!(option_from_cell::<Vec<u8>>(Cell::Bytes(vec![1])), Ok(Some(vec![1])));
}

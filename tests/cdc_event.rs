use std::collections::HashMap;

use pg_replicate::cdc_event::{
    BeginBody, CdcEvent, CdcEventConversionError, CdcEventConverter, CommitBody, DeleteBody,
    InsertBody, LogicalReplicationMessage, ReplicationMessage, Tuple, TupleData, UpdateBody,
};
use pg_replicate::table::{
    ColumnSchema, TableName, TableSchema, BOOL_OID, INT2_OID, INT4_OID, INT8_OID, TEXT_OID,
    TIMESTAMPTZ_OID, TIMESTAMP_OID,
};
use pg_replicate::table_row::Cell;

fn column(name: &str, typ: u32) -> ColumnSchema {
    ColumnSchema { name: name.to_string(), typ, modifier: -1, nullable: true, primary_key: None }
}

fn schemas(id: u32, types: &[u32]) -> HashMap<u32, TableSchema> {
    let mut m = HashMap::new();
    m.insert(
        id,
        TableSchema {
            table_id: id,
            table_name: TableName { schema: "public".to_string(), name: "t".to_string() },
            column_schemas: types.iter().enumerate().map(|(i, t)| column(&format!("c{i}"), *t)).collect(),
        },
    );
    m
}

fn text(s: &str) -> TupleData {
    TupleData::Text(s.as_bytes().to_vec())
}

fn insert(rel_id: u32, data: Vec<TupleData>) -> ReplicationMessage {
    ReplicationMessage::XLogData(LogicalReplicationMessage::Insert(InsertBody {
        rel_id,
        tuple: Tuple { tuple_data: data },
    }))
}

fn single_cell(typ: u32, data: TupleData) -> Result<Cell, CdcEventConversionError> {
    match CdcEventConverter::try_from(insert(1, vec![data]), &schemas(1, &[typ]))? {
        CdcEvent::Insert((_, mut row)) => Ok(row.values.remove(0)),
        other => panic!("unexpected event {other:?}"),
    }
}

#[test]
fn insert_decodes_text_tuple() {
    let msg = insert(16384, vec![text("1"), text("t"), TupleData::Null]);
    let event = CdcEventConverter::try_from(msg, &schemas(16384, &[INT4_OID, BOOL_OID, TEXT_OID])).unwrap();
    match event {
        CdcEvent::Insert((id, row)) => {
            assert_eq!(id, 16384);
            assert_eq!(row.values.len(), 3);
            assert!(matches!(row.values[0], Cell::I32(1)));
            assert!(matches!(row.values[1], Cell::Bool(true)));
            assert!(matches!(row.values[2], Cell::Null));
        }
        other => panic!("unexpected event {other:?}"),
    }
}

#[test]
fn delete_without_tuple_fails() {
    let msg = ReplicationMessage::XLogData(LogicalReplicationMessage::Delete(DeleteBody {
        rel_id: 1,
        old_tuple: None,
        key_tuple: None,
    }));
    let r = CdcEventConverter::try_from(msg, &schemas(1, &[INT4_OID]));
    assert!(matches!(r, Err(CdcEventConversionError::MissingTupleInDeleteBody)));
}

#[test]
fn delete_prefers_key_tuple() {
    let msg = ReplicationMessage::XLogData(LogicalReplicationMessage::Delete(DeleteBody {
        rel_id: 1,
        old_tuple: Some(Tuple { tuple_data: vec![text("2")] }),
        key_tuple: Some(Tuple { tuple_data: vec![text("1")] }),
    }));
    match CdcEventConverter::try_from(msg, &schemas(1, &[INT8_OID])).unwrap() {
        CdcEvent::Delete((1, row)) => assert!(matches!(row.values[0], Cell::I64(1))),
        other => panic!("unexpected event {other:?}"),
    }
}

#[test]
fn update_decodes_all_tuples() {
    let msg = ReplicationMessage::XLogData(LogicalReplicationMessage::Update(UpdateBody {
        rel_id: 1,
        old_tuple: Some(Tuple { tuple_data: vec![text("old")] }),
        key_tuple: None,
        new_tuple: Tuple { tuple_data: vec![text("new")] },
    }));
    match CdcEventConverter::try_from(msg, &schemas(1, &[TEXT_OID])).unwrap() {
        CdcEvent::Update { table_id, old_row, key_row, row } => {
            assert_eq!(table_id, 1);
            assert!(key_row.is_none());
            assert!(matches!(&old_row.unwrap().values[0], Cell::String(s) if s == "old"));
            assert!(matches!(&row.values[0], Cell::String(s) if s == "new"));
        }
        other => panic!("unexpected event {other:?}"),
    }
}

#[test]
fn missing_schema_is_an_error() {
    let r = CdcEventConverter::try_from(insert(7, vec![text("1")]), &schemas(1, &[INT4_OID]));
    assert!(matches!(r, Err(CdcEventConversionError::MissingSchema(7))));
}

#[test]
fn unsupported_messages() {
    let m = HashMap::new();
    let r = CdcEventConverter::try_from(ReplicationMessage::XLogData(LogicalReplicationMessage::Truncate), &m);
    assert!(matches!(r, Err(CdcEventConversionError::MessageNotSupported)));
    let r = CdcEventConverter::try_from(ReplicationMessage::XLogData(LogicalReplicationMessage::Origin), &m);
    assert!(matches!(r, Err(CdcEventConversionError::MessageNotSupported)));
    let r = CdcEventConverter::try_from(ReplicationMessage::Unknown, &m);
    assert!(matches!(r, Err(CdcEventConversionError::UnknownReplicationMessage)));
}

#[test]
fn keep_alive_and_commit_end_batches() {
    let m = HashMap::new();
    let e = CdcEventConverter::try_from(ReplicationMessage::PrimaryKeepAlive { reply: 1 }, &m).unwrap();
    assert!(matches!(e, CdcEvent::KeepAliveRequested { reply: true }));
    assert!(e.is_last_in_batch());
    let e = CdcEventConverter::try_from(ReplicationMessage::PrimaryKeepAlive { reply: 0 }, &m).unwrap();
    assert!(matches!(e, CdcEvent::KeepAliveRequested { reply: false }));
    let commit = CommitBody { flags: 0, commit_lsn: 5, end_lsn: 6, timestamp: 0 };
    let e = CdcEventConverter::try_from(ReplicationMessage::XLogData(LogicalReplicationMessage::Commit(commit)), &m).unwrap();
    assert!(e.is_last_in_batch());
    let begin = BeginBody { final_lsn: 5, timestamp: 0, xid: 9 };
    let e = CdcEventConverter::try_from(ReplicationMessage::XLogData(LogicalReplicationMessage::Begin(begin)), &m).unwrap();
    assert!(!e.is_last_in_batch());
}

#[test]
fn text_values_by_type() {
    assert!(matches!(single_cell(BOOL_OID, text("false")), Ok(Cell::Bool(false))));
    assert!(matches!(single_cell(BOOL_OID, text("yes")), Err(CdcEventConversionError::InvalidBool)));
    assert!(matches!(single_cell(INT2_OID, text("-32768")), Ok(Cell::I16(-32768))));
    assert!(matches!(single_cell(INT2_OID, text("32768")), Err(CdcEventConversionError::InvalidInt)));
    assert!(matches!(single_cell(INT4_OID, text("+42")), Ok(Cell::I32(42))));
    assert!(matches!(single_cell(INT4_OID, text("4x")), Err(CdcEventConversionError::InvalidInt)));
    assert!(matches!(single_cell(INT8_OID, text("-9223372036854775808")), Ok(Cell::I64(i64::MIN))));
    assert!(matches!(single_cell(INT8_OID, text("9223372036854775808")), Err(CdcEventConversionError::InvalidInt)));
    assert!(matches!(single_cell(INT4_OID, TupleData::Text(vec![0xff])), Err(CdcEventConversionError::InvalidStr)));
    assert!(matches!(single_cell(INT4_OID, TupleData::UnchangedToast), Err(CdcEventConversionError::UnchangedToastNotSupported)));
    assert!(matches!(single_cell(9999, TupleData::Text(vec![1, 2])), Ok(Cell::Bytes(b)) if b == vec![1, 2]));
}

#[test]
fn text_timestamps_are_canonical() {
    let c = single_cell(TIMESTAMP_OID, text("2024-01-02 03:04:05.5")).unwrap();
    assert!(matches!(&c, Cell::TimeStamp(s) if s == "2024-01-02 03:04:05.500"));
    let c = single_cell(TIMESTAMPTZ_OID, text("2024-01-02 03:04:05+02")).unwrap();
    assert!(matches!(&c, Cell::TimeStamp(s) if s == "2024-01-02 03:04:05+02:00"));
    assert!(matches!(single_cell(TIMESTAMP_OID, text("yesterday")), Err(CdcEventConversionError::InvalidTimestamp)));
}

#[test]
fn short_tuple_is_an_error() {
    let r = CdcEventConverter::try_from(insert(1, vec![text("1")]), &schemas(1, &[INT4_OID, INT4_OID]));
    assert!(matches!(r, Err(CdcEventConversionError::TupleTooShort)));
}

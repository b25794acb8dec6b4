//! Decoding of logical replication messages into change events.
use vstd::prelude::*;
use std::collections::HashMap;
use crate::table::{ColumnSchema, TableId, TableSchema, is_text_type, text_type, BOOL_OID, INT2_OID, INT4_OID, INT8_OID, TIMESTAMP_OID, TIMESTAMPTZ_OID};
use crate::table_row::{Cell, CellModel, TableRow};
use crate::text::{bool_text_value, bytes_to_vec, int_text_in_range, parse_bool, parse_int, utf8_text};
use crate::timestamp::{naive_reformat, reformat_naive, reformat_zoned, zoned_reformat, TIMESTAMP_FORMAT, TIMESTAMPTZ_FORMAT, TIMESTAMPTZ_INPUT_FORMAT};

verus! {

broadcast use vstd::std_specs::hash::group_hash_axioms;

/// One column of a tuple in a logical replication message.
#[derive(Debug, Clone)]
pub enum TupleData {
    Null,
    /// A large value that the change left untouched and did not resend.
    UnchangedToast,
    /// The value in Postgres's text output form.
    Text(Vec<u8>),
}

#[derive(Debug, Clone)]
pub struct Tuple {
    pub tuple_data: Vec<TupleData>,
}

#[derive(Debug, Clone, Copy, PartialEq, Eq, Structural)]
pub struct BeginBody {
    pub final_lsn: u64,
    pub timestamp: i64,
    pub xid: u32,
}

#[derive(Debug, Clone, Copy, PartialEq, Eq, Structural)]
pub struct CommitBody {
    pub flags: i8,
    pub commit_lsn: u64,
    pub end_lsn: u64,
    pub timestamp: i64,
}

#[derive(Debug, Clone)]
pub struct RelationColumn {
    pub flags: i8,
    pub name: String,
    pub type_id: i32,
    pub type_modifier: i32,
}

#[derive(Debug, Clone)]
pub struct RelationBody {
    pub rel_id: u32,
    pub namespace: String,
    pub name: String,
    pub replica_identity: u8,
    pub columns: Vec<RelationColumn>,
}

#[derive(Debug, Clone)]
pub struct TypeBody {
    pub id: u32,
    pub namespace: String,
    pub name: String,
}

#[derive(Debug, Clone)]
pub struct InsertBody {
    pub rel_id: u32,
    pub tuple: Tuple,
}

#[derive(Debug, Clone)]
pub struct UpdateBody {
    pub rel_id: u32,
    /// Full before-image, sent under `REPLICA IDENTITY FULL`.
    pub old_tuple: Option<Tuple>,
    /// Before-values of the replica-identity columns.
    pub key_tuple: Option<Tuple>,
    pub new_tuple: Tuple,
}

#[derive(Debug, Clone)]
pub struct DeleteBody {
    pub rel_id: u32,
    pub old_tuple: Option<Tuple>,
    pub key_tuple: Option<Tuple>,
}

/// The payload of a WAL data message.
#[derive(Debug, Clone)]
pub enum LogicalReplicationMessage {
    Begin(BeginBody),
    Commit(CommitBody),
    Origin,
    Relation(RelationBody),
    Type(TypeBody),
    Insert(InsertBody),
    Update(UpdateBody),
    Delete(DeleteBody),
    Truncate,
    /// A message kind this decoder does not know.
    Unknown,
}

/// A message of the replication stream.
#[derive(Debug, Clone)]
pub enum ReplicationMessage {
    XLogData(LogicalReplicationMessage),
    PrimaryKeepAlive { reply: u8 },
    /// A message kind this decoder does not know.
    Unknown,
}

#[derive(Debug, Clone)]
pub enum CdcEventConversionError {
    MessageNotSupported,
    UnknownReplicationMessage,
    UnchangedToastNotSupported,
    InvalidStr,
    InvalidBool,
    InvalidInt,
    InvalidTimestamp,
    /// A tuple holds fewer values than the table has columns.
    TupleTooShort,
    MissingTupleInDeleteBody,
    MissingSchema(TableId),
    InvalidNamespace(String),
    InvalidRelationName(String),
    InvalidColumnName(String),
}

/// A decoded change event.
#[derive(Debug)]
pub enum CdcEvent {
    Begin(BeginBody),
    Commit(CommitBody),
    Insert((TableId, TableRow)),
    Update { table_id: TableId, old_row: Option<TableRow>, key_row: Option<TableRow>, row: TableRow },
    Delete((TableId, TableRow)),
    Relation(RelationBody),
    Type(TypeBody),
    KeepAliveRequested { reply: bool },
}

impl CdcEvent {
    pub open spec fn spec_is_last_in_batch(&self) -> bool {
        self is Commit || self is KeepAliveRequested
    }

    /// Only a commit or a keep-alive may end a batch.
    pub fn is_last_in_batch(&self) -> (r: bool)
        ensures
            r == self.spec_is_last_in_batch(),
    {
        match self {
            CdcEvent::Commit(_) => true,
            CdcEvent::KeepAliveRequested { .. } => true,
            _ => false,
        }
    }
}

/// The cell a tuple value of a column type decodes to.
pub open spec fn text_cell(typ: u32, val: TupleData) -> Result<CellModel, CdcEventConversionError> {
    match val {
        TupleData::Null => Ok(CellModel::Null),
        TupleData::UnchangedToast => Err(CdcEventConversionError::UnchangedToastNotSupported),
        TupleData::Text(b) => {
            let bytes = b@;
            let s = vstd::utf8::decode_utf8(bytes);
            if !(typ == BOOL_OID || is_text_type(typ) || typ == INT2_OID || typ == INT4_OID || typ == INT8_OID
                || typ == TIMESTAMP_OID || typ == TIMESTAMPTZ_OID) {
                Ok(CellModel::Bytes(bytes))
            } else if !vstd::utf8::valid_utf8(bytes) {
                Err(CdcEventConversionError::InvalidStr)
            } else if typ == BOOL_OID {
                match bool_text_value(s) {
                    Some(v) => Ok(CellModel::Bool(v)),
                    None => Err(CdcEventConversionError::InvalidBool),
                }
            } else if is_text_type(typ) {
                Ok(CellModel::String(s))
            } else if typ == INT2_OID {
                match int_text_in_range(s, i16::MIN as int, i16::MAX as int) {
                    Some(v) => Ok(CellModel::I16(v as i16)),
                    None => Err(CdcEventConversionError::InvalidInt),
                }
            } else if typ == INT4_OID {
                match int_text_in_range(s, i32::MIN as int, i32::MAX as int) {
                    Some(v) => Ok(CellModel::I32(v as i32)),
                    None => Err(CdcEventConversionError::InvalidInt),
                }
            } else if typ == INT8_OID {
                match int_text_in_range(s, i64::MIN as int, i64::MAX as int) {
                    Some(v) => Ok(CellModel::I64(v as i64)),
                    None => Err(CdcEventConversionError::InvalidInt),
                }
            } else if typ == TIMESTAMP_OID {
                match naive_reformat(s, TIMESTAMP_FORMAT@) {
                    Some(t) => Ok(CellModel::TimeStamp(t)),
                    None => Err(CdcEventConversionError::InvalidTimestamp),
                }
            } else {
                match zoned_reformat(s, TIMESTAMPTZ_INPUT_FORMAT@, TIMESTAMPTZ_FORMAT@) {
                    Some(t) => Ok(CellModel::TimeStamp(t)),
                    None => Err(CdcEventConversionError::InvalidTimestamp),
                }
            }
        },
    }
}

/// The first `n` cells of a tuple decoded against column schemas, or the
/// error of the first column that fails.
pub open spec fn tuple_prefix(cols: Seq<ColumnSchema>, data: Seq<TupleData>, n: int) -> Result<Seq<CellModel>, CdcEventConversionError>
    decreases n,
{
    if n <= 0 {
        Ok(Seq::empty())
    } else {
        match tuple_prefix(cols, data, n - 1) {
            Err(e) => Err(e),
            Ok(cells) => if n - 1 >= data.len() {
                Err(CdcEventConversionError::TupleTooShort)
            } else {
                match text_cell(cols[n - 1].typ, data[n - 1]) {
                    Err(e) => Err(e),
                    Ok(c) => Ok(cells.push(c)),
                }
            },
        }
    }
}

/// A whole tuple decoded against column schemas.
pub open spec fn tuple_row(cols: Seq<ColumnSchema>, data: Seq<TupleData>) -> Result<Seq<CellModel>, CdcEventConversionError> {
    tuple_prefix(cols, data, cols.len() as int)
}

/// `r` is what decoding the tuple values `data` gives: its row, or its error.
pub open spec fn row_result(cols: Seq<ColumnSchema>, data: Seq<TupleData>, r: Result<TableRow, CdcEventConversionError>) -> bool {
    match tuple_row(cols, data) {
        Ok(cells) => r matches Ok(row) && row@ == cells,
        Err(e) => r == Err::<TableRow, CdcEventConversionError>(e),
    }
}

proof fn lemma_tuple_err_stays(cols: Seq<ColumnSchema>, data: Seq<TupleData>, k: int, m: int)
    requires
        0 <= k <= m,
        tuple_prefix(cols, data, k) is Err,
    ensures
        tuple_prefix(cols, data, m) == tuple_prefix(cols, data, k),
    decreases m - k,
{
    if k < m {
        lemma_tuple_err_stays(cols, data, k, m - 1);
    }
}

pub open spec fn opt_tuple_row(cols: Seq<ColumnSchema>, t: Option<Tuple>) -> Result<Option<Seq<CellModel>>, CdcEventConversionError> {
    match t {
        None => Ok(None),
        Some(t) => match tuple_row(cols, t.tuple_data@) {
            Ok(cells) => Ok(Some(cells)),
            Err(e) => Err(e),
        },
    }
}

pub open spec fn opt_row_view(r: Option<TableRow>) -> Option<Seq<CellModel>> {
    match r {
        Some(row) => Some(row@),
        None => None,
    }
}

/// The event of a data change on a table whose columns are known: its
/// tuples are decoded in the order key, old, new, and the first failure is
/// the result.
pub open spec fn change_result(msg: LogicalReplicationMessage, cols: Seq<ColumnSchema>, r: Result<CdcEvent, CdcEventConversionError>) -> bool {
    match msg {
        LogicalReplicationMessage::Insert(b) => match tuple_row(cols, b.tuple.tuple_data@) {
            Ok(cells) => r matches Ok(CdcEvent::Insert((id, row))) && id == b.rel_id && row@ == cells,
            Err(e) => r == Err::<CdcEvent, CdcEventConversionError>(e),
        },
        LogicalReplicationMessage::Update(b) => match opt_tuple_row(cols, b.key_tuple) {
            Err(e) => r == Err::<CdcEvent, CdcEventConversionError>(e),
            Ok(key) => match opt_tuple_row(cols, b.old_tuple) {
                Err(e) => r == Err::<CdcEvent, CdcEventConversionError>(e),
                Ok(old) => match tuple_row(cols, b.new_tuple.tuple_data@) {
                    Err(e) => r == Err::<CdcEvent, CdcEventConversionError>(e),
                    Ok(new) => r matches Ok(CdcEvent::Update { table_id, old_row, key_row, row }) && table_id == b.rel_id
                        && opt_row_view(old_row) == old && opt_row_view(key_row) == key && row@ == new,
                },
            },
        },
        LogicalReplicationMessage::Delete(b) => {
            let t = if b.key_tuple is Some { b.key_tuple } else { b.old_tuple };
            match t {
                None => r == Err::<CdcEvent, CdcEventConversionError>(CdcEventConversionError::MissingTupleInDeleteBody),
                Some(t) => match tuple_row(cols, t.tuple_data@) {
                    Ok(cells) => r matches Ok(CdcEvent::Delete((id, row))) && id == b.rel_id && row@ == cells,
                    Err(e) => r == Err::<CdcEvent, CdcEventConversionError>(e),
                },
            }
        },
        _ => false,
    }
}

/// The relation a data change refers to.
pub open spec fn change_rel_id(msg: LogicalReplicationMessage) -> Option<u32> {
    match msg {
        LogicalReplicationMessage::Insert(b) => Some(b.rel_id),
        LogicalReplicationMessage::Update(b) => Some(b.rel_id),
        LogicalReplicationMessage::Delete(b) => Some(b.rel_id),
        _ => None,
    }
}

/// What decoding a replication message against the table schemas gives.
pub open spec fn event_result(msg: ReplicationMessage, schemas: Map<TableId, TableSchema>, r: Result<CdcEvent, CdcEventConversionError>) -> bool {
    match msg {
        ReplicationMessage::XLogData(m) => match change_rel_id(m) {
            Some(id) => if schemas.contains_key(id) {
                change_result(m, schemas[id].column_schemas@, r)
            } else {
                r == Err::<CdcEvent, CdcEventConversionError>(CdcEventConversionError::MissingSchema(id))
            },
            None => match m {
                LogicalReplicationMessage::Begin(b) => r == Ok::<CdcEvent, CdcEventConversionError>(CdcEvent::Begin(b)),
                LogicalReplicationMessage::Commit(b) => r == Ok::<CdcEvent, CdcEventConversionError>(CdcEvent::Commit(b)),
                LogicalReplicationMessage::Relation(b) => r == Ok::<CdcEvent, CdcEventConversionError>(CdcEvent::Relation(b)),
                LogicalReplicationMessage::Type(b) => r == Ok::<CdcEvent, CdcEventConversionError>(CdcEvent::Type(b)),
                LogicalReplicationMessage::Origin => r == Err::<CdcEvent, CdcEventConversionError>(CdcEventConversionError::MessageNotSupported),
                LogicalReplicationMessage::Truncate => r == Err::<CdcEvent, CdcEventConversionError>(CdcEventConversionError::MessageNotSupported),
                _ => r == Err::<CdcEvent, CdcEventConversionError>(CdcEventConversionError::UnknownReplicationMessage),
            },
        },
        ReplicationMessage::PrimaryKeepAlive { reply } => r == Ok::<CdcEvent, CdcEventConversionError>(
            CdcEvent::KeepAliveRequested { reply: reply == 1 },
        ),
        ReplicationMessage::Unknown => r == Err::<CdcEvent, CdcEventConversionError>(CdcEventConversionError::UnknownReplicationMessage),
    }
}

/// Decodes logical replication messages against the table schemas.
pub struct CdcEventConverter;

impl CdcEventConverter {
    fn from_tuple_data(typ: u32, val: &TupleData) -> (r: Result<Cell, CdcEventConversionError>)
        ensures
            match r {
                Ok(c) => text_cell(typ, *val) == Ok::<CellModel, CdcEventConversionError>(c@),
                Err(e) => text_cell(typ, *val) == Err::<CellModel, CdcEventConversionError>(e),
            },
    {
        let bytes = match val {
            TupleData::Null => {
                return Ok(Cell::Null);
            },
            TupleData::UnchangedToast => {
                return Err(CdcEventConversionError::UnchangedToastNotSupported);
            },
            TupleData::Text(bytes) => bytes.as_slice(),
        };
        if !(typ == BOOL_OID || text_type(typ) || typ == INT2_OID || typ == INT4_OID || typ == INT8_OID
            || typ == TIMESTAMP_OID || typ == TIMESTAMPTZ_OID) {
            return Ok(Cell::Bytes(bytes_to_vec(bytes)));
        }
        let s = match utf8_text(bytes_to_vec(bytes)) {
            Some(s) => s,
            None => {
                return Err(CdcEventConversionError::InvalidStr);
            },
        };
        if typ == BOOL_OID {
            match parse_bool(s.as_str()) {
                Some(v) => Ok(Cell::Bool(v)),
                None => Err(CdcEventConversionError::InvalidBool),
            }
        } else if text_type(typ) {
            Ok(Cell::String(s))
        } else if typ == INT2_OID {
            match parse_int(s.as_str(), i16::MIN as i64, i16::MAX as i64) {
                Some(v) => Ok(Cell::I16(v as i16)),
                None => Err(CdcEventConversionError::InvalidInt),
            }
        } else if typ == INT4_OID {
            match parse_int(s.as_str(), i32::MIN as i64, i32::MAX as i64) {
                Some(v) => Ok(Cell::I32(v as i32)),
                None => Err(CdcEventConversionError::InvalidInt),
            }
        } else if typ == INT8_OID {
            match parse_int(s.as_str(), i64::MIN, i64::MAX) {
                Some(v) => Ok(Cell::I64(v)),
                None => Err(CdcEventConversionError::InvalidInt),
            }
        } else if typ == TIMESTAMP_OID {
            match reformat_naive(s.as_str(), TIMESTAMP_FORMAT) {
                Some(t) => Ok(Cell::TimeStamp(t)),
                None => Err(CdcEventConversionError::InvalidTimestamp),
            }
        } else {
            match reformat_zoned(s.as_str(), TIMESTAMPTZ_INPUT_FORMAT, TIMESTAMPTZ_FORMAT) {
                Some(t) => Ok(Cell::TimeStamp(t)),
                None => Err(CdcEventConversionError::InvalidTimestamp),
            }
        }
    }

    fn from_tuple_data_slice(column_schemas: &[ColumnSchema], tuple_data: &[TupleData]) -> (r: Result<TableRow, CdcEventConversionError>)
        ensures
            row_result(column_schemas@, tuple_data@, r),
    {
        let mut values: Vec<Cell> = Vec::new();
        let mut i: usize = 0;
        assert(values@.map_values(|c: Cell| c@) =~= Seq::<CellModel>::empty());
        while i < column_schemas.len()
            invariant
                i <= column_schemas@.len(),
                tuple_prefix(column_schemas@, tuple_data@, i as int) == Ok::<Seq<CellModel>, CdcEventConversionError>(values@.map_values(|c: Cell| c@)),
            decreases column_schemas@.len() - i,
        {
            if i >= tuple_data.len() {
                proof { lemma_tuple_err_stays(column_schemas@, tuple_data@, i as int + 1, column_schemas@.len() as int); }
                return Err(CdcEventConversionError::TupleTooShort);
            }
            let val = match Self::from_tuple_data(column_schemas[i].typ, &tuple_data[i]) {
                Ok(v) => v,
                Err(e) => {
                    proof { lemma_tuple_err_stays(column_schemas@, tuple_data@, i as int + 1, column_schemas@.len() as int); }
                    return Err(e);
                },
            };
            let ghost before = values@;
            values.push(val);
            assert(values@.map_values(|c: Cell| c@) =~= before.map_values(|c: Cell| c@).push(val@));
            i = i + 1;
        }
        Ok(TableRow { values })
    }

    fn from_opt_tuple(column_schemas: &[ColumnSchema], tuple: Option<Tuple>) -> (r: Result<Option<TableRow>, CdcEventConversionError>)
        ensures
            match opt_tuple_row(column_schemas@, tuple) {
                Ok(v) => r matches Ok(row) && opt_row_view(row) == v,
                Err(e) => r == Err::<Option<TableRow>, CdcEventConversionError>(e),
            },
    {
        match tuple {
            None => Ok(None),
            Some(t) => match Self::from_tuple_data_slice(column_schemas, t.tuple_data.as_slice()) {
                Ok(row) => Ok(Some(row)),
                Err(e) => Err(e),
            },
        }
    }

    fn from_insert_body(table_id: TableId, column_schemas: &[ColumnSchema], insert_body: InsertBody) -> (r: Result<CdcEvent, CdcEventConversionError>)
        requires
            table_id == insert_body.rel_id,
        ensures
            change_result(LogicalReplicationMessage::Insert(insert_body), column_schemas@, r),
    {
        let row = match Self::from_tuple_data_slice(column_schemas, insert_body.tuple.tuple_data.as_slice()) {
            Ok(row) => row,
            Err(e) => return Err(e),
        };
        Ok(CdcEvent::Insert((table_id, row)))
    }

    fn from_update_body(table_id: TableId, column_schemas: &[ColumnSchema], update_body: UpdateBody) -> (r: Result<CdcEvent, CdcEventConversionError>)
        requires
            table_id == update_body.rel_id,
        ensures
            change_result(LogicalReplicationMessage::Update(update_body), column_schemas@, r),
    {
        let UpdateBody { rel_id: _, old_tuple, key_tuple, new_tuple } = update_body;
        let key_row = match Self::from_opt_tuple(column_schemas, key_tuple) {
            Ok(row) => row,
            Err(e) => return Err(e),
        };
        let old_row = match Self::from_opt_tuple(column_schemas, old_tuple) {
            Ok(row) => row,
            Err(e) => return Err(e),
        };
        let row = match Self::from_tuple_data_slice(column_schemas, new_tuple.tuple_data.as_slice()) {
            Ok(row) => row,
            Err(e) => return Err(e),
        };
        Ok(CdcEvent::Update { table_id, old_row, key_row, row })
    }

    fn from_delete_body(table_id: TableId, column_schemas: &[ColumnSchema], delete_body: DeleteBody) -> (r: Result<CdcEvent, CdcEventConversionError>)
        requires
            table_id == delete_body.rel_id,
        ensures
            change_result(LogicalReplicationMessage::Delete(delete_body), column_schemas@, r),
    {
        let tuple = match delete_body.key_tuple {
            Some(t) => t,
            None => match delete_body.old_tuple {
                Some(t) => t,
                None => return Err(CdcEventConversionError::MissingTupleInDeleteBody),
            },
        };
        let row = match Self::from_tuple_data_slice(column_schemas, tuple.tuple_data.as_slice()) {
            Ok(row) => row,
            Err(e) => return Err(e),
        };
        Ok(CdcEvent::Delete((table_id, row)))
    }

    /// Decodes one replication message; data changes are decoded against the
    /// schema registered for their relation.
    pub fn try_from(value: ReplicationMessage, table_schemas: &HashMap<TableId, TableSchema>) -> (r: Result<CdcEvent, CdcEventConversionError>)
        ensures
            event_result(value, table_schemas@, r),
    {
        match value {
            ReplicationMessage::XLogData(m) => match m {
                LogicalReplicationMessage::Begin(b) => Ok(CdcEvent::Begin(b)),
                LogicalReplicationMessage::Commit(b) => Ok(CdcEvent::Commit(b)),
                LogicalReplicationMessage::Origin => Err(CdcEventConversionError::MessageNotSupported),
                LogicalReplicationMessage::Relation(b) => Ok(CdcEvent::Relation(b)),
                LogicalReplicationMessage::Type(b) => Ok(CdcEvent::Type(b)),
                LogicalReplicationMessage::Insert(b) => {
                    let table_id = b.rel_id;
                    match table_schemas.get(&table_id) {
                        Some(schema) => Self::from_insert_body(table_id, schema.column_schemas.as_slice(), b),
                        None => Err(CdcEventConversionError::MissingSchema(table_id)),
                    }
                },
                LogicalReplicationMessage::Update(b) => {
                    let table_id = b.rel_id;
                    match table_schemas.get(&table_id) {
                        Some(schema) => Self::from_update_body(table_id, schema.column_schemas.as_slice(), b),
                        None => Err(CdcEventConversionError::MissingSchema(table_id)),
                    }
                },
                LogicalReplicationMessage::Delete(b) => {
                    let table_id = b.rel_id;
                    match table_schemas.get(&table_id) {
                        Some(schema) => Self::from_delete_body(table_id, schema.column_schemas.as_slice(), b),
                        None => Err(CdcEventConversionError::MissingSchema(table_id)),
                    }
                },
                LogicalReplicationMessage::Truncate => Err(CdcEventConversionError::MessageNotSupported),
                LogicalReplicationMessage::Unknown => Err(CdcEventConversionError::UnknownReplicationMessage),
            },
            ReplicationMessage::PrimaryKeepAlive { reply } => Ok(CdcEvent::KeepAliveRequested { reply: reply == 1 }),
            ReplicationMessage::Unknown => Err(CdcEventConversionError::UnknownReplicationMessage),
        }
    }
}

} // verus!

//! Table and column schemas, keyed by the Postgres relation id.
use vstd::prelude::*;

verus! {

/// Postgres relation OID.
pub type TableId = u32;

/// Postgres type OIDs that the decoders tell apart.
pub const BOOL_OID: u32 = 16;
pub const CHAR_OID: u32 = 18;
pub const NAME_OID: u32 = 19;
pub const INT8_OID: u32 = 20;
pub const INT2_OID: u32 = 21;
pub const INT4_OID: u32 = 23;
pub const TEXT_OID: u32 = 25;
pub const BPCHAR_OID: u32 = 1042;
pub const VARCHAR_OID: u32 = 1043;
pub const TIMESTAMP_OID: u32 = 1114;
pub const TIMESTAMPTZ_OID: u32 = 1184;
pub const NUMERIC_OID: u32 = 1700;
pub const UUID_OID: u32 = 2950;
pub const UUID_ARRAY_OID: u32 = 2951;

/// The character and text types, all decoded as strings.
pub open spec fn is_text_type(typ: u32) -> bool {
    typ == CHAR_OID || typ == BPCHAR_OID || typ == VARCHAR_OID || typ == NAME_OID || typ == TEXT_OID
}

pub fn text_type(typ: u32) -> (r: bool)
    ensures
        r == is_text_type(typ),
{
    typ == CHAR_OID || typ == BPCHAR_OID || typ == VARCHAR_OID || typ == NAME_OID || typ == TEXT_OID
}

/// Schema-qualified relation name.
#[derive(Clone, Debug)]
pub struct TableName {
    pub schema: String,
    pub name: String,
}

#[derive(Clone, Debug)]
pub struct ColumnSchema {
    pub name: String,
    /// Postgres type OID.
    pub typ: u32,
    pub modifier: i32,
    pub nullable: bool,
    /// Position in the primary key, when the column is part of it.
    pub primary_key: Option<u16>,
}

#[derive(Clone, Debug)]
pub struct TableSchema {
    pub table_id: TableId,
    pub table_name: TableName,
    pub column_schemas: Vec<ColumnSchema>,
}

} // verus!

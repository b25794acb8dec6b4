//! The row model produced by the decoders, and the decoder of binary COPY rows.
use vstd::prelude::*;
use crate::table::{ColumnSchema, is_text_type, text_type, BOOL_OID, INT2_OID, INT4_OID, INT8_OID, TIMESTAMP_OID, TIMESTAMPTZ_OID, UUID_ARRAY_OID, UUID_OID};
use crate::text::{bytes_to_vec, utf8_text};
use crate::timestamp::{format_unix_micros, unix_micros_text, TIMESTAMP_FORMAT, TIMESTAMPTZ_FORMAT};

verus! {

/// One column value of a decoded row.
#[derive(Debug, Clone)]
pub enum Cell {
    Null,
    Bool(bool),
    String(String),
    I16(i16),
    I32(i32),
    I64(i64),
    /// Canonical timestamp text.
    TimeStamp(String),
    /// The 128 bits of a UUID, most significant byte first.
    Uuid(u128),
    UuidArray(Vec<Option<u128>>),
    Bytes(Vec<u8>),
}

/// What a `Cell` holds, as mathematical values.
pub enum CellModel {
    Null,
    Bool(bool),
    String(Seq<char>),
    I16(i16),
    I32(i32),
    I64(i64),
    TimeStamp(Seq<char>),
    Uuid(u128),
    UuidArray(Seq<Option<u128>>),
    Bytes(Seq<u8>),
}

impl View for Cell {
    type V = CellModel;

    open spec fn view(&self) -> CellModel {
        match self {
            Cell::Null => CellModel::Null,
            Cell::Bool(b) => CellModel::Bool(*b),
            Cell::String(s) => CellModel::String(s@),
            Cell::I16(i) => CellModel::I16(*i),
            Cell::I32(i) => CellModel::I32(*i),
            Cell::I64(i) => CellModel::I64(*i),
            Cell::TimeStamp(s) => CellModel::TimeStamp(s@),
            Cell::Uuid(u) => CellModel::Uuid(*u),
            Cell::UuidArray(v) => CellModel::UuidArray(v@),
            Cell::Bytes(b) => CellModel::Bytes(b@),
        }
    }
}

/// The cell does not hold the requested type.
#[derive(Debug, Clone, Copy, PartialEq, Eq, Structural)]
pub struct CellConversionError;

impl TryFrom<Cell> for bool {
    type Error = CellConversionError;

    fn try_from(cell: Cell) -> (r: Result<bool, CellConversionError>) {
        match cell {
            Cell::Bool(b) => Ok(b),
            _ => Err(CellConversionError),
        }
    }
}

impl vstd::std_specs::convert::TryFromSpecImpl<Cell> for bool {
    open spec fn obeys_try_from_spec() -> bool {
        true
    }

    open spec fn try_from_spec(cell: Cell) -> Result<bool, CellConversionError> {
        match cell {
            Cell::Bool(b) => Ok(b),
            _ => Err(CellConversionError),
        }
    }
}

impl TryFrom<Cell> for i32 {
    type Error = CellConversionError;

    fn try_from(cell: Cell) -> (r: Result<i32, CellConversionError>) {
        match cell {
            Cell::I32(i) => Ok(i),
            _ => Err(CellConversionError),
        }
    }
}

impl vstd::std_specs::convert::TryFromSpecImpl<Cell> for i32 {
    open spec fn obeys_try_from_spec() -> bool {
        true
    }

    open spec fn try_from_spec(cell: Cell) -> Result<i32, CellConversionError> {
        match cell {
            Cell::I32(i) => Ok(i),
            _ => Err(CellConversionError),
        }
    }
}

/// An `I32` cell read as its 32-bit pattern (OIDs travel as INT4).
impl TryFrom<Cell> for u32 {
    type Error = CellConversionError;

    fn try_from(cell: Cell) -> (r: Result<u32, CellConversionError>) {
        match cell {
            Cell::I32(i) => Ok(i as u32),
            _ => Err(CellConversionError),
        }
    }
}

impl vstd::std_specs::convert::TryFromSpecImpl<Cell> for u32 {
    open spec fn obeys_try_from_spec() -> bool {
        true
    }

    open spec fn try_from_spec(cell: Cell) -> Result<u32, CellConversionError> {
        match cell {
            Cell::I32(i) => Ok(i as u32),
            _ => Err(CellConversionError),
        }
    }
}

impl TryFrom<Cell> for i64 {
    type Error = CellConversionError;

    fn try_from(cell: Cell) -> (r: Result<i64, CellConversionError>) {
        match cell {
            Cell::I64(i) => Ok(i),
            _ => Err(CellConversionError),
        }
    }
}

impl vstd::std_specs::convert::TryFromSpecImpl<Cell> for i64 {
    open spec fn obeys_try_from_spec() -> bool {
        true
    }

    open spec fn try_from_spec(cell: Cell) -> Result<i64, CellConversionError> {
        match cell {
            Cell::I64(i) => Ok(i),
            _ => Err(CellConversionError),
        }
    }
}

/// An `I64` cell read as its 64-bit pattern.
impl TryFrom<Cell> for u64 {
    type Error = CellConversionError;

    fn try_from(cell: Cell) -> (r: Result<u64, CellConversionError>) {
        match cell {
            Cell::I64(i) => Ok(i as u64),
            _ => Err(CellConversionError),
        }
    }
}

impl vstd::std_specs::convert::TryFromSpecImpl<Cell> for u64 {
    open spec fn obeys_try_from_spec() -> bool {
        true
    }

    open spec fn try_from_spec(cell: Cell) -> Result<u64, CellConversionError> {
        match cell {
            Cell::I64(i) => Ok(i as u64),
            _ => Err(CellConversionError),
        }
    }
}

impl TryFrom<Cell> for String {
    type Error = CellConversionError;

    fn try_from(cell: Cell) -> (r: Result<String, CellConversionError>) {
        match cell {
            Cell::String(s) => Ok(s),
            _ => Err(CellConversionError),
        }
    }
}

impl vstd::std_specs::convert::TryFromSpecImpl<Cell> for String {
    open spec fn obeys_try_from_spec() -> bool {
        true
    }

    open spec fn try_from_spec(cell: Cell) -> Result<String, CellConversionError> {
        match cell {
            Cell::String(s) => Ok(s),
            _ => Err(CellConversionError),
        }
    }
}

impl TryFrom<Cell> for Vec<u8> {
    type Error = CellConversionError;

    fn try_from(cell: Cell) -> (r: Result<Vec<u8>, CellConversionError>) {
        match cell {
            Cell::Bytes(b) => Ok(b),
            _ => Err(CellConversionError),
        }
    }
}

impl vstd::std_specs::convert::TryFromSpecImpl<Cell> for Vec<u8> {
    open spec fn obeys_try_from_spec() -> bool {
        true
    }

    open spec fn try_from_spec(cell: Cell) -> Result<Vec<u8>, CellConversionError> {
        match cell {
            Cell::Bytes(b) => Ok(b),
            _ => Err(CellConversionError),
        }
    }
}

/// `NULL` converts to `None`; any other cell converts as `T` does.
pub fn option_from_cell<T: TryFrom<Cell, Error = CellConversionError>>(cell: Cell) -> (r: Result<Option<T>, CellConversionError>)
    ensures
        cell is Null ==> r == Ok::<Option<T>, CellConversionError>(None),
        !(cell is Null) && <T as vstd::std_specs::convert::TryFromSpec<Cell>>::obeys_try_from_spec() ==> r == (match <T as vstd::std_specs::convert::TryFromSpec<Cell>>::try_from_spec(cell) {
            Ok(v) => Ok(Some(v)),
            Err(e) => Err::<Option<T>, CellConversionError>(e),
        }),
{
    match cell {
        Cell::Null => Ok(None),
        _ => match T::try_from(cell) {
            Ok(v) => Ok(Some(v)),
            Err(e) => Err(e),
        },
    }
}

/// An ordered row of cells, one per column in schema order.
#[derive(Debug, Clone)]
pub struct TableRow {
    pub values: Vec<Cell>,
}

impl View for TableRow {
    type V = Seq<CellModel>;

    open spec fn view(&self) -> Seq<CellModel> {
        self.values@.map_values(|c: Cell| c@)
    }
}

impl TableRow {
    /// A copied row may end a batch anywhere.
    pub fn is_last_in_batch(&self) -> (r: bool)
        ensures
            r,
    {
        true
    }
}

/// Why a copied row could not be decoded.
#[derive(Debug, Clone, Copy, PartialEq, Eq, Structural)]
pub enum TableRowConversionError {
    /// The row holds fewer values than the schema has columns.
    MissingColumn(usize),
    /// The column holds a value that does not decode, or NULL while it is
    /// not nullable.
    InvalidValue(usize),
}

/// One row of a binary COPY: per column, the raw value or NULL.
#[derive(Debug, Clone)]
pub struct CopyRow {
    pub values: Vec<Option<Vec<u8>>>,
}

/// Microseconds from the Unix epoch to the Postgres epoch (2000-01-01).
pub const POSTGRES_EPOCH_MICROS: i64 = 946684800000000;

/// Unsigned big-endian value of some bytes.
pub open spec fn be_value(b: Seq<u8>) -> nat
    decreases b.len(),
{
    if b.len() == 0 { 0 } else { be_value(b.drop_last()) * 256 + b.last() as nat }
}

/// Two's-complement reading of `v`, where `half` is half the range.
pub open spec fn twos(v: nat, half: nat) -> int {
    if v >= half { v - 2 * half } else { v as int }
}

/// A binary timestamp (microseconds since 2000-01-01) as text.
pub open spec fn timestamp_cell(raw: Seq<u8>, fmt: Seq<char>) -> Option<CellModel> {
    if raw.len() != 8 {
        None
    } else {
        let unix = twos(be_value(raw), 0x8000_0000_0000_0000) + POSTGRES_EPOCH_MICROS;
        if unix > i64::MAX {
            None
        } else {
            match unix_micros_text(unix as i64, fmt) {
                Some(t) => Some(CellModel::TimeStamp(t)),
                None => None,
            }
        }
    }
}

/// The element values of a binary array, as postgres-protocol reads them.
pub uninterp spec fn pg_array_values(raw: Seq<u8>) -> Option<Seq<Option<Seq<u8>>>>;

/// Relies on `postgres_protocol::types::array_from_sql` and the iterator of
/// its values.
#[verifier::external_body]
fn array_values(raw: &[u8]) -> (r: Option<Vec<Option<Vec<u8>>>>)
    ensures
        match r {
            Some(v) => pg_array_values(raw@) == Some(v@.map_values(|o: Option<Vec<u8>>| raw_value(o))),
            None => pg_array_values(raw@) is None,
        },
{
    let array = match postgres_protocol::types::array_from_sql(raw) {
        Ok(a) => a,
        Err(_) => return None,
    };
    let mut values = array.values();
    let mut out = Vec::new();
    loop {
        match tokio_postgres::fallible_iterator::FallibleIterator::next(&mut values) {
            Ok(Some(v)) => out.push(v.map(|b| b.to_vec())),
            Ok(None) => return Some(out),
            Err(_) => return None,
        }
    }
}

/// A UUID array: at most one dimension, every element 16 bytes or NULL.
pub open spec fn uuid_array_cell(raw: Seq<u8>) -> Option<CellModel> {
    match pg_array_values(raw) {
        None => None,
        Some(vals) => if raw.len() < 12 || be_value(raw.subrange(0, 4)) > 1 || exists|i: int|
            0 <= i < vals.len() && (#[trigger] vals[i] matches Some(b) && b.len() != 16) {
            None
        } else {
            Some(CellModel::UuidArray(vals.map_values(|o: Option<Seq<u8>>| match o {
                Some(b) => Some(be_value(b) as u128),
                None => None,
            })))
        },
    }
}

/// The cell a binary COPY value of a type decodes to; `None` when the bytes
/// are not a value of the type. Types not listed are kept as raw bytes.
pub open spec fn binary_cell(typ: u32, raw: Seq<u8>) -> Option<CellModel> {
    if typ == BOOL_OID {
        if raw.len() == 1 { Some(CellModel::Bool(raw[0] != 0)) } else { None }
    } else if is_text_type(typ) {
        if vstd::utf8::valid_utf8(raw) { Some(CellModel::String(vstd::utf8::decode_utf8(raw))) } else { None }
    } else if typ == INT2_OID {
        if raw.len() == 2 { Some(CellModel::I16(twos(be_value(raw), 0x8000) as i16)) } else { None }
    } else if typ == INT4_OID {
        if raw.len() == 4 { Some(CellModel::I32(twos(be_value(raw), 0x8000_0000) as i32)) } else { None }
    } else if typ == INT8_OID {
        if raw.len() == 8 { Some(CellModel::I64(twos(be_value(raw), 0x8000_0000_0000_0000) as i64)) } else { None }
    } else if typ == TIMESTAMP_OID {
        timestamp_cell(raw, TIMESTAMP_FORMAT@)
    } else if typ == TIMESTAMPTZ_OID {
        timestamp_cell(raw, TIMESTAMPTZ_FORMAT@)
    } else if typ == UUID_OID {
        if raw.len() == 16 { Some(CellModel::Uuid(be_value(raw) as u128)) } else { None }
    } else if typ == UUID_ARRAY_OID {
        uuid_array_cell(raw)
    } else {
        Some(CellModel::Bytes(raw))
    }
}

pub open spec fn is_bytes_type(typ: u32) -> bool {
    typ != BOOL_OID && !is_text_type(typ) && typ != INT2_OID && typ != INT4_OID && typ != INT8_OID
        && typ != TIMESTAMP_OID && typ != TIMESTAMPTZ_OID && typ != UUID_OID && typ != UUID_ARRAY_OID
}

/// The cell of column `i`. NULL yields `Null` in a nullable column and an
/// error in a non-nullable one; a nullable column also reports an empty value
/// kept as bytes as `Null`. A value that does not decode is an error.
pub open spec fn copy_cell(col: ColumnSchema, raw: Option<Seq<u8>>, i: usize) -> Result<CellModel, TableRowConversionError> {
    match raw {
        None => if col.nullable {
            Ok(CellModel::Null)
        } else {
            Err(TableRowConversionError::InvalidValue(i))
        },
        Some(b) => match binary_cell(col.typ, b) {
            Some(c) => if col.nullable && is_bytes_type(col.typ) && b.len() == 0 {
                Ok(CellModel::Null)
            } else {
                Ok(c)
            },
            None => Err(TableRowConversionError::InvalidValue(i)),
        },
    }
}

pub open spec fn raw_value(v: Option<Vec<u8>>) -> Option<Seq<u8>> {
    match v {
        Some(b) => Some(b@),
        None => None,
    }
}

/// The first `n` cells of a copied row, or the error of the first column
/// that fails.
pub open spec fn copy_row_prefix(values: Seq<Option<Vec<u8>>>, cols: Seq<ColumnSchema>, n: int) -> Result<Seq<CellModel>, TableRowConversionError>
    decreases n,
{
    if n <= 0 {
        Ok(Seq::empty())
    } else {
        match copy_row_prefix(values, cols, n - 1) {
            Err(e) => Err(e),
            Ok(cells) => if n - 1 >= values.len() {
                Err(TableRowConversionError::MissingColumn((n - 1) as usize))
            } else {
                match copy_cell(cols[n - 1], raw_value(values[n - 1]), (n - 1) as usize) {
                    Err(e) => Err(e),
                    Ok(c) => Ok(cells.push(c)),
                }
            },
        }
    }
}

proof fn lemma_copy_row_err_stays(values: Seq<Option<Vec<u8>>>, cols: Seq<ColumnSchema>, k: int, m: int)
    requires
        0 <= k <= m,
        copy_row_prefix(values, cols, k) is Err,
    ensures
        copy_row_prefix(values, cols, m) == copy_row_prefix(values, cols, k),
    decreases m - k,
{
    if k < m {
        lemma_copy_row_err_stays(values, cols, k, m - 1);
    }
}

fn read_be(raw: &[u8]) -> (r: u128)
    requires
        raw@.len() <= 16,
    ensures
        r as nat == be_value(raw@),
        (r as nat) < pow256(raw@.len() as nat),
{
    assert(raw@.subrange(0, raw@.len() as int) =~= raw@);
    read_be_range(raw, 0, raw.len())
}

/// Big-endian value of `raw[from..to]`.
fn read_be_range(raw: &[u8], from: usize, to: usize) -> (r: u128)
    requires
        from <= to <= raw@.len(),
        to - from <= 16,
    ensures
        r as nat == be_value(raw@.subrange(from as int, to as int)),
        (r as nat) < pow256((to - from) as nat),
{
    let mut acc: u128 = 0;
    let mut i: usize = from;
    let ghost b = raw@.subrange(from as int, to as int);
    assert(b.take(0) =~= Seq::<u8>::empty());
    while i < to
        invariant
            from <= i <= to <= raw@.len(),
            to - from <= 16,
            b == raw@.subrange(from as int, to as int),
            acc as nat == be_value(b.take(i - from)),
            acc < pow256((i - from) as nat),
        decreases to - i,
    {
        proof {
            assert(b.take(i - from + 1).drop_last() =~= b.take(i - from));
            assert(b.take(i - from + 1).last() == raw@[i as int]);
            lemma_pow256_bound((i - from) as nat);
        }
        acc = acc * 256 + raw[i] as u128;
        i = i + 1;
    }
    assert(b.take(to - from) =~= b);
    acc
}

pub open spec fn pow256(n: nat) -> nat
    decreases n,
{
    if n == 0 { 1 } else { 256 * pow256((n - 1) as nat) }
}

proof fn lemma_pow256_values()
    ensures
        pow256(2) == 0x10000,
        pow256(4) == 0x1_0000_0000,
        pow256(8) == 0x1_0000_0000_0000_0000,
        pow256(16) == 0x1_0000_0000_0000_0000_0000_0000_0000_0000,
{
    reveal_with_fuel(pow256, 17);
}

proof fn lemma_pow256_bound(n: nat)
    requires
        n < 16,
    ensures
        pow256(n) * 256 == pow256(n + 1),
        pow256(n + 1) <= 0x1_0000_0000_0000_0000_0000_0000_0000_0000,
{
    reveal_with_fuel(pow256, 17);
}

fn timestamp_text(raw: &[u8], fmt: &str) -> (r: Option<Cell>)
    requires
        fmt@ == TIMESTAMP_FORMAT@ || fmt@ == TIMESTAMPTZ_FORMAT@,
    ensures
        match r {
            Some(c) => timestamp_cell(raw@, fmt@) == Some(c@),
            None => timestamp_cell(raw@, fmt@) is None,
        },
{
    if raw.len() != 8 {
        return None;
    }
    let v = read_be(raw);
    proof { lemma_pow256_values(); }
    let pg: i128 = if v >= 0x8000_0000_0000_0000 { v as i128 - 0x1_0000_0000_0000_0000 } else { v as i128 };
    let unix: i128 = pg + POSTGRES_EPOCH_MICROS as i128;
    if unix > i64::MAX as i128 {
        return None;
    }
    match format_unix_micros(unix as i64, fmt) {
        Some(t) => Some(Cell::TimeStamp(t)),
        None => None,
    }
}

/// Decodes one binary value of a column type.
fn binary_value(typ: u32, raw: &[u8]) -> (r: Option<Cell>)
    ensures
        match r {
            Some(c) => binary_cell(typ, raw@) == Some(c@),
            None => binary_cell(typ, raw@) is None,
        },
{
    proof { lemma_pow256_values(); }
    if typ == BOOL_OID {
        if raw.len() == 1 { Some(Cell::Bool(raw[0] != 0)) } else { None }
    } else if text_type(typ) {
        match utf8_text(bytes_to_vec(raw)) {
            Some(s) => Some(Cell::String(s)),
            None => None,
        }
    } else if typ == INT2_OID {
        if raw.len() == 2 {
            let v = read_be(raw);
            Some(Cell::I16(if v >= 0x8000 { (v as i32 - 0x10000) as i16 } else { v as i16 }))
        } else {
            None
        }
    } else if typ == INT4_OID {
        if raw.len() == 4 {
            let v = read_be(raw);
            Some(Cell::I32(if v >= 0x8000_0000 { (v as i64 - 0x1_0000_0000) as i32 } else { v as i32 }))
        } else {
            None
        }
    } else if typ == INT8_OID {
        if raw.len() == 8 {
            let v = read_be(raw);
            Some(Cell::I64(if v >= 0x8000_0000_0000_0000 { (v as i128 - 0x1_0000_0000_0000_0000) as i64 } else { v as i64 }))
        } else {
            None
        }
    } else if typ == TIMESTAMP_OID {
        timestamp_text(raw, TIMESTAMP_FORMAT)
    } else if typ == TIMESTAMPTZ_OID {
        timestamp_text(raw, TIMESTAMPTZ_FORMAT)
    } else if typ == UUID_OID {
        if raw.len() == 16 { Some(Cell::Uuid(read_be(raw))) } else { None }
    } else if typ == UUID_ARRAY_OID {
        uuid_array(raw)
    } else {
        Some(Cell::Bytes(bytes_to_vec(raw)))
    }
}

fn uuid_array(raw: &[u8]) -> (r: Option<Cell>)
    ensures
        match r {
            Some(c) => uuid_array_cell(raw@) == Some(c@),
            None => uuid_array_cell(raw@) is None,
        },
{
    let vals = match array_values(raw) {
        Some(v) => v,
        None => return None,
    };
    let ghost model = vals@.map_values(|o: Option<Vec<u8>>| raw_value(o));
    if raw.len() < 12 || read_be_range(raw, 0, 4) > 1 {
        return None;
    }
    let mut out: Vec<Option<u128>> = Vec::new();
    let mut i: usize = 0;
    while i < vals.len()
        invariant
            i <= vals@.len(),
            model == vals@.map_values(|o: Option<Vec<u8>>| raw_value(o)),
            pg_array_values(raw@) == Some(model),
            raw@.len() >= 12,
            be_value(raw@.subrange(0, 4)) <= 1,
            forall|k: int| 0 <= k < i ==> !(#[trigger] model[k] matches Some(b) && b.len() != 16),
            out@ == model.take(i as int).map_values(|o: Option<Seq<u8>>| match o {
                Some(b) => Some(be_value(b) as u128),
                None => None,
            }),
        decreases vals@.len() - i,
    {
        assert(model[i as int] == raw_value(vals@[i as int]));
        match &vals[i] {
            Some(b) => {
                if b.len() != 16 {
                    assert(model[i as int] matches Some(x) && x.len() != 16);
                    assert(exists|k: int| 0 <= k < model.len() && (#[trigger] model[k] matches Some(x) && x.len() != 16));
                    return None;
                }
                let u = read_be(b.as_slice());
                out.push(Some(u));
            },
            None => {
                out.push(None);
            },
        }
        assert(model.take(i as int + 1) =~= model.take(i as int).push(model[i as int]));
        assert(out@ =~= model.take(i as int + 1).map_values(|o: Option<Seq<u8>>| match o {
            Some(b) => Some(be_value(b) as u128),
            None => None,
        }));
        i = i + 1;
    }
    assert(model.take(vals@.len() as int) =~= model);
    Some(Cell::UuidArray(out))
}

fn bytes_type(typ: u32) -> (r: bool)
    ensures
        r == is_bytes_type(typ),
{
    typ != BOOL_OID && !text_type(typ) && typ != INT2_OID && typ != INT4_OID && typ != INT8_OID
        && typ != TIMESTAMP_OID && typ != TIMESTAMPTZ_OID && typ != UUID_OID && typ != UUID_ARRAY_OID
}

/// Decodes rows of a binary COPY against the table's column schemas.
pub struct TableRowConverter;

impl TableRowConverter {
    fn get_cell_value(row: &CopyRow, column_schema: &ColumnSchema, i: usize) -> (r: Result<Cell, TableRowConversionError>)
        requires
            i < row.values@.len(),
        ensures
            match r {
                Ok(c) => copy_cell(*column_schema, raw_value(row.values@[i as int]), i) == Ok::<CellModel, TableRowConversionError>(c@),
                Err(e) => copy_cell(*column_schema, raw_value(row.values@[i as int]), i) == Err::<CellModel, TableRowConversionError>(e),
            },
    {
        match &row.values[i] {
            None => {
                if column_schema.nullable {
                    Ok(Cell::Null)
                } else {
                    Err(TableRowConversionError::InvalidValue(i))
                }
            },
            Some(raw) => {
                match binary_value(column_schema.typ, raw.as_slice()) {
                    Some(c) => {
                        if column_schema.nullable && bytes_type(column_schema.typ) && raw.len() == 0 {
                            Ok(Cell::Null)
                        } else {
                            Ok(c)
                        }
                    },
                    None => Err(TableRowConversionError::InvalidValue(i)),
                }
            },
        }
    }

    /// Decodes a copied row, column by column; the first column that fails
    /// decides the error.
    pub fn try_from(row: &CopyRow, column_schemas: &[ColumnSchema]) -> (r: Result<TableRow, TableRowConversionError>)
        ensures
            match r {
                Ok(t) => copy_row_prefix(row.values@, column_schemas@, column_schemas@.len() as int) == Ok::<Seq<CellModel>, TableRowConversionError>(t@),
                Err(e) => copy_row_prefix(row.values@, column_schemas@, column_schemas@.len() as int) == Err::<Seq<CellModel>, TableRowConversionError>(e),
            },
    {
        let mut values: Vec<Cell> = Vec::new();
        let mut i: usize = 0;
        assert(values@.map_values(|c: Cell| c@) =~= Seq::<CellModel>::empty());
        while i < column_schemas.len()
            invariant
                i <= column_schemas@.len(),
                copy_row_prefix(row.values@, column_schemas@, i as int) == Ok::<Seq<CellModel>, TableRowConversionError>(values@.map_values(|c: Cell| c@)),
            decreases column_schemas@.len() - i,
        {
            if i >= row.values.len() {
                proof { lemma_copy_row_err_stays(row.values@, column_schemas@, i as int + 1, column_schemas@.len() as int); }
                return Err(TableRowConversionError::MissingColumn(i));
            }
            let value = match Self::get_cell_value(row, &column_schemas[i], i) {
                Ok(v) => v,
                Err(e) => {
                    proof { lemma_copy_row_err_stays(row.values@, column_schemas@, i as int + 1, column_schemas@.len() as int); }
                    return Err(e);
                },
            };
            let ghost before = values@;
            values.push(value);
            assert(values@.map_values(|c: Cell| c@) =~= before.map_values(|c: Cell| c@).push(value@));
            i = i + 1;
        }
        Ok(TableRow { values })
    }
}

} // verus!

//! The general cell model: a tagged value of any supported Postgres type,
//! one-level arrays of such values, and conversions to native types.
use vstd::prelude::*;
use crate::numeric::{PgDecimal, PgNumeric};
use crate::table_row;
use crate::timestamp::{parse_utc_micros, utc_text_micros};
use vstd::std_specs::convert::TryFromSpec;
use crate::table_row::CellConversionError;

verus! {

/// chrono's calendar date, carried opaquely in cells.
#[verifier::external_type_specification]
#[verifier::external_body]
pub struct ExNaiveDate(chrono::NaiveDate);

/// chrono's time of day, carried opaquely in cells.
#[verifier::external_type_specification]
#[verifier::external_body]
pub struct ExNaiveTime(chrono::NaiveTime);

/// chrono's date and time without zone, carried opaquely in cells.
#[verifier::external_type_specification]
#[verifier::external_body]
pub struct ExNaiveDateTime(chrono::NaiveDateTime);

/// A UTC instant, in microseconds since the Unix epoch.
#[derive(Clone, Copy, Debug, PartialEq, Eq, Structural)]
pub struct UtcTimestamp {
    pub unix_micros: i64,
}

/// uuid's `Uuid`, carried opaquely in cells.
#[verifier::external_type_specification]
#[verifier::external_body]
pub struct ExUuid(uuid::Uuid);

/// serde_json's document type, carried opaquely in cells.
#[verifier::external_type_specification]
#[verifier::external_body]
pub struct ExJsonValue(serde_json::Value);

/// A value of one column.
#[derive(Debug)]
pub enum Cell {
    Null,
    Bool(bool),
    String(String),
    I16(i16),
    I32(i32),
    U32(u32),
    I64(i64),
    Numeric(PgNumeric),
    Date(chrono::NaiveDate),
    Time(chrono::NaiveTime),
    TimeStamp(chrono::NaiveDateTime),
    TimeStampTz(UtcTimestamp),
    Uuid(uuid::Uuid),
    Json(serde_json::Value),
    Bytes(Vec<u8>),
    Array(ArrayCell),
}

/// A one-level array of values of one type, or NULL.
#[derive(Debug)]
pub enum ArrayCell {
    Null,
    Bool(Vec<Option<bool>>),
    String(Vec<Option<String>>),
    I16(Vec<Option<i16>>),
    I32(Vec<Option<i32>>),
    U32(Vec<Option<u32>>),
    I64(Vec<Option<i64>>),
    Numeric(Vec<Option<PgNumeric>>),
    Date(Vec<Option<chrono::NaiveDate>>),
    Time(Vec<Option<chrono::NaiveTime>>),
    TimeStamp(Vec<Option<chrono::NaiveDateTime>>),
    TimeStampTz(Vec<Option<UtcTimestamp>>),
    Uuid(Vec<Option<uuid::Uuid>>),
    Json(Vec<Option<serde_json::Value>>),
    Bytes(Vec<Option<Vec<u8>>>),
}

/// A native type that a cell variant holds.
pub trait CellValue: Sized {
    /// The value a cell holds when it is of this type's variant.
    spec fn from_cell_spec(c: Cell) -> Option<Self>;

    /// The values an array holds when it is of this type's variant.
    spec fn from_array_spec(a: ArrayCell) -> Option<Vec<Option<Self>>>;

    /// The cell of this type's variant holding `v`.
    spec fn into_cell_spec(v: Self) -> Cell;

    fn from_cell(c: Cell) -> (r: Result<Self, CellConversionError>)
        ensures
            match Self::from_cell_spec(c) {
                Some(v) => r == Ok::<Self, CellConversionError>(v),
                None => r == Err::<Self, CellConversionError>(CellConversionError),
            },
    ;

    fn from_array(a: ArrayCell) -> (r: Result<Vec<Option<Self>>, CellConversionError>)
        ensures
            match Self::from_array_spec(a) {
                Some(v) => r == Ok::<Vec<Option<Self>>, CellConversionError>(v),
                None => r == Err::<Vec<Option<Self>>, CellConversionError>(CellConversionError),
            },
    ;

    fn into_cell(v: Self) -> (c: Cell)
        ensures
            c == Self::into_cell_spec(v),
    ;

    /// A value put in a cell converts back to itself; that cell is not NULL.
    proof fn lemma_round_trip(v: Self)
        ensures
            Self::from_cell_spec(Self::into_cell_spec(v)) == Some(v),
            !(Self::into_cell_spec(v) is Null),
    ;

    /// Only the cell of this type's variant converts.
    proof fn lemma_only_own_variant(c: Cell)
        ensures
            Self::from_cell_spec(c) matches Some(v) ==> c == Self::into_cell_spec(v),
    ;
}

impl CellValue for bool {
    open spec fn from_cell_spec(c: Cell) -> Option<Self> {
        match c {
            Cell::Bool(x) => Some(x),
            _ => None,
        }
    }

    open spec fn from_array_spec(a: ArrayCell) -> Option<Vec<Option<Self>>> {
        match a {
            ArrayCell::Bool(x) => Some(x),
            _ => None,
        }
    }

    open spec fn into_cell_spec(v: Self) -> Cell {
        Cell::Bool(v)
    }

    fn from_cell(c: Cell) -> (r: Result<Self, CellConversionError>) {
        match c {
            Cell::Bool(x) => Ok(x),
            _ => Err(CellConversionError),
        }
    }

    fn from_array(a: ArrayCell) -> (r: Result<Vec<Option<Self>>, CellConversionError>) {
        match a {
            ArrayCell::Bool(x) => Ok(x),
            _ => Err(CellConversionError),
        }
    }

    fn into_cell(v: Self) -> (c: Cell) {
        Cell::Bool(v)
    }

    proof fn lemma_round_trip(v: Self) {
    }

    proof fn lemma_only_own_variant(c: Cell) {
    }
}

impl CellValue for String {
    open spec fn from_cell_spec(c: Cell) -> Option<Self> {
        match c {
            Cell::String(x) => Some(x),
            _ => None,
        }
    }

    open spec fn from_array_spec(a: ArrayCell) -> Option<Vec<Option<Self>>> {
        match a {
            ArrayCell::String(x) => Some(x),
            _ => None,
        }
    }

    open spec fn into_cell_spec(v: Self) -> Cell {
        Cell::String(v)
    }

    fn from_cell(c: Cell) -> (r: Result<Self, CellConversionError>) {
        match c {
            Cell::String(x) => Ok(x),
            _ => Err(CellConversionError),
        }
    }

    fn from_array(a: ArrayCell) -> (r: Result<Vec<Option<Self>>, CellConversionError>) {
        match a {
            ArrayCell::String(x) => Ok(x),
            _ => Err(CellConversionError),
        }
    }

    fn into_cell(v: Self) -> (c: Cell) {
        Cell::String(v)
    }

    proof fn lemma_round_trip(v: Self) {
    }

    proof fn lemma_only_own_variant(c: Cell) {
    }
}

impl CellValue for i16 {
    open spec fn from_cell_spec(c: Cell) -> Option<Self> {
        match c {
            Cell::I16(x) => Some(x),
            _ => None,
        }
    }

    open spec fn from_array_spec(a: ArrayCell) -> Option<Vec<Option<Self>>> {
        match a {
            ArrayCell::I16(x) => Some(x),
            _ => None,
        }
    }

    open spec fn into_cell_spec(v: Self) -> Cell {
        Cell::I16(v)
    }

    fn from_cell(c: Cell) -> (r: Result<Self, CellConversionError>) {
        match c {
            Cell::I16(x) => Ok(x),
            _ => Err(CellConversionError),
        }
    }

    fn from_array(a: ArrayCell) -> (r: Result<Vec<Option<Self>>, CellConversionError>) {
        match a {
            ArrayCell::I16(x) => Ok(x),
            _ => Err(CellConversionError),
        }
    }

    fn into_cell(v: Self) -> (c: Cell) {
        Cell::I16(v)
    }

    proof fn lemma_round_trip(v: Self) {
    }

    proof fn lemma_only_own_variant(c: Cell) {
    }
}

impl CellValue for i32 {
    open spec fn from_cell_spec(c: Cell) -> Option<Self> {
        match c {
            Cell::I32(x) => Some(x),
            _ => None,
        }
    }

    open spec fn from_array_spec(a: ArrayCell) -> Option<Vec<Option<Self>>> {
        match a {
            ArrayCell::I32(x) => Some(x),
            _ => None,
        }
    }

    open spec fn into_cell_spec(v: Self) -> Cell {
        Cell::I32(v)
    }

    fn from_cell(c: Cell) -> (r: Result<Self, CellConversionError>) {
        match c {
            Cell::I32(x) => Ok(x),
            _ => Err(CellConversionError),
        }
    }

    fn from_array(a: ArrayCell) -> (r: Result<Vec<Option<Self>>, CellConversionError>) {
        match a {
            ArrayCell::I32(x) => Ok(x),
            _ => Err(CellConversionError),
        }
    }

    fn into_cell(v: Self) -> (c: Cell) {
        Cell::I32(v)
    }

    proof fn lemma_round_trip(v: Self) {
    }

    proof fn lemma_only_own_variant(c: Cell) {
    }
}

impl CellValue for u32 {
    open spec fn from_cell_spec(c: Cell) -> Option<Self> {
        match c {
            Cell::U32(x) => Some(x),
            _ => None,
        }
    }

    open spec fn from_array_spec(a: ArrayCell) -> Option<Vec<Option<Self>>> {
        match a {
            ArrayCell::U32(x) => Some(x),
            _ => None,
        }
    }

    open spec fn into_cell_spec(v: Self) -> Cell {
        Cell::U32(v)
    }

    fn from_cell(c: Cell) -> (r: Result<Self, CellConversionError>) {
        match c {
            Cell::U32(x) => Ok(x),
            _ => Err(CellConversionError),
        }
    }

    fn from_array(a: ArrayCell) -> (r: Result<Vec<Option<Self>>, CellConversionError>) {
        match a {
            ArrayCell::U32(x) => Ok(x),
            _ => Err(CellConversionError),
        }
    }

    fn into_cell(v: Self) -> (c: Cell) {
        Cell::U32(v)
    }

    proof fn lemma_round_trip(v: Self) {
    }

    proof fn lemma_only_own_variant(c: Cell) {
    }
}

impl CellValue for i64 {
    open spec fn from_cell_spec(c: Cell) -> Option<Self> {
        match c {
            Cell::I64(x) => Some(x),
            _ => None,
        }
    }

    open spec fn from_array_spec(a: ArrayCell) -> Option<Vec<Option<Self>>> {
        match a {
            ArrayCell::I64(x) => Some(x),
            _ => None,
        }
    }

    open spec fn into_cell_spec(v: Self) -> Cell {
        Cell::I64(v)
    }

    fn from_cell(c: Cell) -> (r: Result<Self, CellConversionError>) {
        match c {
            Cell::I64(x) => Ok(x),
            _ => Err(CellConversionError),
        }
    }

    fn from_array(a: ArrayCell) -> (r: Result<Vec<Option<Self>>, CellConversionError>) {
        match a {
            ArrayCell::I64(x) => Ok(x),
            _ => Err(CellConversionError),
        }
    }

    fn into_cell(v: Self) -> (c: Cell) {
        Cell::I64(v)
    }

    proof fn lemma_round_trip(v: Self) {
    }

    proof fn lemma_only_own_variant(c: Cell) {
    }
}

impl CellValue for PgNumeric {
    open spec fn from_cell_spec(c: Cell) -> Option<Self> {
        match c {
            Cell::Numeric(x) => Some(x),
            _ => None,
        }
    }

    open spec fn from_array_spec(a: ArrayCell) -> Option<Vec<Option<Self>>> {
        match a {
            ArrayCell::Numeric(x) => Some(x),
            _ => None,
        }
    }

    open spec fn into_cell_spec(v: Self) -> Cell {
        Cell::Numeric(v)
    }

    fn from_cell(c: Cell) -> (r: Result<Self, CellConversionError>) {
        match c {
            Cell::Numeric(x) => Ok(x),
            _ => Err(CellConversionError),
        }
    }

    fn from_array(a: ArrayCell) -> (r: Result<Vec<Option<Self>>, CellConversionError>) {
        match a {
            ArrayCell::Numeric(x) => Ok(x),
            _ => Err(CellConversionError),
        }
    }

    fn into_cell(v: Self) -> (c: Cell) {
        Cell::Numeric(v)
    }

    proof fn lemma_round_trip(v: Self) {
    }

    proof fn lemma_only_own_variant(c: Cell) {
    }
}

impl CellValue for chrono::NaiveDate {
    open spec fn from_cell_spec(c: Cell) -> Option<Self> {
        match c {
            Cell::Date(x) => Some(x),
            _ => None,
        }
    }

    open spec fn from_array_spec(a: ArrayCell) -> Option<Vec<Option<Self>>> {
        match a {
            ArrayCell::Date(x) => Some(x),
            _ => None,
        }
    }

    open spec fn into_cell_spec(v: Self) -> Cell {
        Cell::Date(v)
    }

    fn from_cell(c: Cell) -> (r: Result<Self, CellConversionError>) {
        match c {
            Cell::Date(x) => Ok(x),
            _ => Err(CellConversionError),
        }
    }

    fn from_array(a: ArrayCell) -> (r: Result<Vec<Option<Self>>, CellConversionError>) {
        match a {
            ArrayCell::Date(x) => Ok(x),
            _ => Err(CellConversionError),
        }
    }

    fn into_cell(v: Self) -> (c: Cell) {
        Cell::Date(v)
    }

    proof fn lemma_round_trip(v: Self) {
    }

    proof fn lemma_only_own_variant(c: Cell) {
    }
}

impl CellValue for chrono::NaiveTime {
    open spec fn from_cell_spec(c: Cell) -> Option<Self> {
        match c {
            Cell::Time(x) => Some(x),
            _ => None,
        }
    }

    open spec fn from_array_spec(a: ArrayCell) -> Option<Vec<Option<Self>>> {
        match a {
            ArrayCell::Time(x) => Some(x),
            _ => None,
        }
    }

    open spec fn into_cell_spec(v: Self) -> Cell {
        Cell::Time(v)
    }

    fn from_cell(c: Cell) -> (r: Result<Self, CellConversionError>) {
        match c {
            Cell::Time(x) => Ok(x),
            _ => Err(CellConversionError),
        }
    }

    fn from_array(a: ArrayCell) -> (r: Result<Vec<Option<Self>>, CellConversionError>) {
        match a {
            ArrayCell::Time(x) => Ok(x),
            _ => Err(CellConversionError),
        }
    }

    fn into_cell(v: Self) -> (c: Cell) {
        Cell::Time(v)
    }

    proof fn lemma_round_trip(v: Self) {
    }

    proof fn lemma_only_own_variant(c: Cell) {
    }
}

impl CellValue for chrono::NaiveDateTime {
    open spec fn from_cell_spec(c: Cell) -> Option<Self> {
        match c {
            Cell::TimeStamp(x) => Some(x),
            _ => None,
        }
    }

    open spec fn from_array_spec(a: ArrayCell) -> Option<Vec<Option<Self>>> {
        match a {
            ArrayCell::TimeStamp(x) => Some(x),
            _ => None,
        }
    }

    open spec fn into_cell_spec(v: Self) -> Cell {
        Cell::TimeStamp(v)
    }

    fn from_cell(c: Cell) -> (r: Result<Self, CellConversionError>) {
        match c {
            Cell::TimeStamp(x) => Ok(x),
            _ => Err(CellConversionError),
        }
    }

    fn from_array(a: ArrayCell) -> (r: Result<Vec<Option<Self>>, CellConversionError>) {
        match a {
            ArrayCell::TimeStamp(x) => Ok(x),
            _ => Err(CellConversionError),
        }
    }

    fn into_cell(v: Self) -> (c: Cell) {
        Cell::TimeStamp(v)
    }

    proof fn lemma_round_trip(v: Self) {
    }

    proof fn lemma_only_own_variant(c: Cell) {
    }
}

impl CellValue for UtcTimestamp {
    open spec fn from_cell_spec(c: Cell) -> Option<Self> {
        match c {
            Cell::TimeStampTz(x) => Some(x),
            _ => None,
        }
    }

    open spec fn from_array_spec(a: ArrayCell) -> Option<Vec<Option<Self>>> {
        match a {
            ArrayCell::TimeStampTz(x) => Some(x),
            _ => None,
        }
    }

    open spec fn into_cell_spec(v: Self) -> Cell {
        Cell::TimeStampTz(v)
    }

    fn from_cell(c: Cell) -> (r: Result<Self, CellConversionError>) {
        match c {
            Cell::TimeStampTz(x) => Ok(x),
            _ => Err(CellConversionError),
        }
    }

    fn from_array(a: ArrayCell) -> (r: Result<Vec<Option<Self>>, CellConversionError>) {
        match a {
            ArrayCell::TimeStampTz(x) => Ok(x),
            _ => Err(CellConversionError),
        }
    }

    fn into_cell(v: Self) -> (c: Cell) {
        Cell::TimeStampTz(v)
    }

    proof fn lemma_round_trip(v: Self) {
    }

    proof fn lemma_only_own_variant(c: Cell) {
    }
}

impl CellValue for uuid::Uuid {
    open spec fn from_cell_spec(c: Cell) -> Option<Self> {
        match c {
            Cell::Uuid(x) => Some(x),
            _ => None,
        }
    }

    open spec fn from_array_spec(a: ArrayCell) -> Option<Vec<Option<Self>>> {
        match a {
            ArrayCell::Uuid(x) => Some(x),
            _ => None,
        }
    }

    open spec fn into_cell_spec(v: Self) -> Cell {
        Cell::Uuid(v)
    }

    fn from_cell(c: Cell) -> (r: Result<Self, CellConversionError>) {
        match c {
            Cell::Uuid(x) => Ok(x),
            _ => Err(CellConversionError),
        }
    }

    fn from_array(a: ArrayCell) -> (r: Result<Vec<Option<Self>>, CellConversionError>) {
        match a {
            ArrayCell::Uuid(x) => Ok(x),
            _ => Err(CellConversionError),
        }
    }

    fn into_cell(v: Self) -> (c: Cell) {
        Cell::Uuid(v)
    }

    proof fn lemma_round_trip(v: Self) {
    }

    proof fn lemma_only_own_variant(c: Cell) {
    }
}

impl CellValue for serde_json::Value {
    open spec fn from_cell_spec(c: Cell) -> Option<Self> {
        match c {
            Cell::Json(x) => Some(x),
            _ => None,
        }
    }

    open spec fn from_array_spec(a: ArrayCell) -> Option<Vec<Option<Self>>> {
        match a {
            ArrayCell::Json(x) => Some(x),
            _ => None,
        }
    }

    open spec fn into_cell_spec(v: Self) -> Cell {
        Cell::Json(v)
    }

    fn from_cell(c: Cell) -> (r: Result<Self, CellConversionError>) {
        match c {
            Cell::Json(x) => Ok(x),
            _ => Err(CellConversionError),
        }
    }

    fn from_array(a: ArrayCell) -> (r: Result<Vec<Option<Self>>, CellConversionError>) {
        match a {
            ArrayCell::Json(x) => Ok(x),
            _ => Err(CellConversionError),
        }
    }

    fn into_cell(v: Self) -> (c: Cell) {
        Cell::Json(v)
    }

    proof fn lemma_round_trip(v: Self) {
    }

    proof fn lemma_only_own_variant(c: Cell) {
    }
}

impl CellValue for Vec<u8> {
    open spec fn from_cell_spec(c: Cell) -> Option<Self> {
        match c {
            Cell::Bytes(x) => Some(x),
            _ => None,
        }
    }

    open spec fn from_array_spec(a: ArrayCell) -> Option<Vec<Option<Self>>> {
        match a {
            ArrayCell::Bytes(x) => Some(x),
            _ => None,
        }
    }

    open spec fn into_cell_spec(v: Self) -> Cell {
        Cell::Bytes(v)
    }

    fn from_cell(c: Cell) -> (r: Result<Self, CellConversionError>) {
        match c {
            Cell::Bytes(x) => Ok(x),
            _ => Err(CellConversionError),
        }
    }

    fn from_array(a: ArrayCell) -> (r: Result<Vec<Option<Self>>, CellConversionError>) {
        match a {
            ArrayCell::Bytes(x) => Ok(x),
            _ => Err(CellConversionError),
        }
    }

    fn into_cell(v: Self) -> (c: Cell) {
        Cell::Bytes(v)
    }

    proof fn lemma_round_trip(v: Self) {
    }

    proof fn lemma_only_own_variant(c: Cell) {
    }
}

/// `NULL` converts to `None`; any other cell converts as `T` does.
pub fn option_from_cell<T: CellValue>(c: Cell) -> (r: Result<Option<T>, CellConversionError>)
    ensures
        c is Null ==> r == Ok::<Option<T>, CellConversionError>(None),
        !(c is Null) ==> match T::from_cell_spec(c) {
            Some(v) => r == Ok::<Option<T>, CellConversionError>(Some(v)),
            None => r == Err::<Option<T>, CellConversionError>(CellConversionError),
        },
{
    match c {
        Cell::Null => Ok(None),
        _ => match T::from_cell(c) {
            Ok(v) => Ok(Some(v)),
            Err(e) => Err(e),
        },
    }
}

/// An array cell of `T`'s variant converts to its elements; any other cell
/// fails.
pub fn vec_from_cell<T: CellValue>(c: Cell) -> (r: Result<Vec<Option<T>>, CellConversionError>)
    ensures
        match c {
            Cell::Array(a) => match T::from_array_spec(a) {
                Some(v) => r == Ok::<Vec<Option<T>>, CellConversionError>(v),
                None => r == Err::<Vec<Option<T>>, CellConversionError>(CellConversionError),
            },
            _ => r == Err::<Vec<Option<T>>, CellConversionError>(CellConversionError),
        },
{
    match c {
        Cell::Array(a) => T::from_array(a),
        _ => Err(CellConversionError),
    }
}

/// As `vec_from_cell`, and `NULL` or a NULL array converts to `None`.
pub fn option_vec_from_cell<T: CellValue>(c: Cell) -> (r: Result<Option<Vec<Option<T>>>, CellConversionError>)
    ensures
        (c is Null || c == Cell::Array(ArrayCell::Null)) ==> r == Ok::<Option<Vec<Option<T>>>, CellConversionError>(None),
        !(c is Null || c == Cell::Array(ArrayCell::Null)) ==> match c {
            Cell::Array(a) => match T::from_array_spec(a) {
                Some(v) => r == Ok::<Option<Vec<Option<T>>>, CellConversionError>(Some(v)),
                None => r == Err::<Option<Vec<Option<T>>>, CellConversionError>(CellConversionError),
            },
            _ => r == Err::<Option<Vec<Option<T>>>, CellConversionError>(CellConversionError),
        },
{
    match c {
        Cell::Null => Ok(None),
        Cell::Array(ArrayCell::Null) => Ok(None),
        Cell::Array(a) => match T::from_array(a) {
            Ok(v) => Ok(Some(v)),
            Err(e) => Err(e),
        },
        _ => Err(CellConversionError),
    }
}

/// A value put in a cell converts back to itself, for every native type.
pub proof fn lemma_cell_round_trip<T: CellValue>(v: T)
    ensures
        T::from_cell_spec(T::into_cell_spec(v)) == Some(v),
        <Option<T> as TryFromSpec<Cell>>::try_from_spec(T::into_cell_spec(v)) == Ok::<Option<T>, CellConversionError>(
            Some(v),
        ),
{
    T::lemma_round_trip(v);
}

/// A cell of any other variant than `T`'s fails to convert to `T`.
pub proof fn lemma_cell_other_variant_fails<T: CellValue>(c: Cell)
    requires
        forall|v: T| c != T::into_cell_spec(v),
    ensures
        T::from_cell_spec(c) is None,
{
    T::lemma_only_own_variant(c);
}

/// `NULL` converts to `None` as an optional value of any native type and as
/// an optional array, and so does a NULL array; any other cell converts to an
/// optional value as the native type does.
pub proof fn lemma_null_converts_to_none<T: CellValue>(c: Cell)
    ensures
        <Option<T> as TryFromSpec<Cell>>::try_from_spec(Cell::Null) == Ok::<Option<T>, CellConversionError>(None),
        <Option<Vec<Option<T>>> as TryFromSpec<Cell>>::try_from_spec(Cell::Null) == Ok::<
            Option<Vec<Option<T>>>,
            CellConversionError,
        >(None),
        <Option<Vec<Option<T>>> as TryFromSpec<Cell>>::try_from_spec(Cell::Array(ArrayCell::Null)) == Ok::<
            Option<Vec<Option<T>>>,
            CellConversionError,
        >(None),
        !(c is Null) ==> <Option<T> as TryFromSpec<Cell>>::try_from_spec(c) == match T::from_cell_spec(c) {
            Some(v) => Ok::<Option<T>, CellConversionError>(Some(v)),
            None => Err::<Option<T>, CellConversionError>(CellConversionError),
        },
{
}

/// Why a cell does not hold a finite decimal.
#[derive(Clone, Copy, Debug, PartialEq, Eq, Structural)]
pub enum DecimalConversionError {
    NaN,
    PositiveInf,
    NegativeInf,
    /// The cell is not a NUMERIC.
    NotNumeric,
}

/// A NUMERIC cell holding a finite value converts to that decimal.
pub fn decimal_from_cell(c: Cell) -> (r: Result<PgDecimal, DecimalConversionError>)
    ensures
        r == (match c {
            Cell::Numeric(PgNumeric::Value(d)) => Ok(d),
            Cell::Numeric(PgNumeric::NaN) => Err(DecimalConversionError::NaN),
            Cell::Numeric(PgNumeric::PositiveInf) => Err(DecimalConversionError::PositiveInf),
            Cell::Numeric(PgNumeric::NegativeInf) => Err(DecimalConversionError::NegativeInf),
            _ => Err::<PgDecimal, DecimalConversionError>(DecimalConversionError::NotNumeric),
        }),
{
    match c {
        Cell::Numeric(PgNumeric::Value(d)) => Ok(d),
        Cell::Numeric(PgNumeric::NaN) => Err(DecimalConversionError::NaN),
        Cell::Numeric(PgNumeric::PositiveInf) => Err(DecimalConversionError::PositiveInf),
        Cell::Numeric(PgNumeric::NegativeInf) => Err(DecimalConversionError::NegativeInf),
        _ => Err(DecimalConversionError::NotNumeric),
    }
}

/// As `decimal_from_cell`, and `NULL` converts to `None`.
pub fn option_decimal_from_cell(c: Cell) -> (r: Result<Option<PgDecimal>, DecimalConversionError>)
    ensures
        c is Null ==> r == Ok::<Option<PgDecimal>, DecimalConversionError>(None),
        !(c is Null) ==> r == (match c {
            Cell::Numeric(PgNumeric::Value(d)) => Ok(Some(d)),
            Cell::Numeric(PgNumeric::NaN) => Err(DecimalConversionError::NaN),
            Cell::Numeric(PgNumeric::PositiveInf) => Err(DecimalConversionError::PositiveInf),
            Cell::Numeric(PgNumeric::NegativeInf) => Err(DecimalConversionError::NegativeInf),
            _ => Err::<Option<PgDecimal>, DecimalConversionError>(DecimalConversionError::NotNumeric),
        }),
{
    match c {
        Cell::Null => Ok(None),
        _ => match decimal_from_cell(c) {
            Ok(d) => Ok(Some(d)),
            Err(e) => Err(e),
        },
    }
}

/// A timestamp cell of a decoded row whose text chrono reads as a UTC
/// instant converts to that instant.
pub fn utc_timestamp_from_cell(c: table_row::Cell) -> (r: Result<UtcTimestamp, table_row::CellConversionError>)
    ensures
        match c {
            table_row::Cell::TimeStamp(s) => match utc_text_micros(s@) {
                Some(m) => r == Ok::<UtcTimestamp, table_row::CellConversionError>(UtcTimestamp { unix_micros: m }),
                None => r == Err::<UtcTimestamp, table_row::CellConversionError>(table_row::CellConversionError),
            },
            _ => r == Err::<UtcTimestamp, table_row::CellConversionError>(table_row::CellConversionError),
        },
{
    match c {
        table_row::Cell::TimeStamp(s) => match parse_utc_micros(s.as_str()) {
            Some(m) => Ok(UtcTimestamp { unix_micros: m }),
            None => Err(table_row::CellConversionError),
        },
        _ => Err(table_row::CellConversionError),
    }
}

impl TryFrom<Cell> for PgDecimal {
    type Error = DecimalConversionError;

    fn try_from(cell: Cell) -> (r: Result<PgDecimal, DecimalConversionError>) {
        decimal_from_cell(cell)
    }
}

impl vstd::std_specs::convert::TryFromSpecImpl<Cell> for PgDecimal {
    open spec fn obeys_try_from_spec() -> bool {
        true
    }

    open spec fn try_from_spec(cell: Cell) -> Result<PgDecimal, DecimalConversionError> {
        match cell {
            Cell::Numeric(PgNumeric::Value(d)) => Ok(d),
            Cell::Numeric(PgNumeric::NaN) => Err(DecimalConversionError::NaN),
            Cell::Numeric(PgNumeric::PositiveInf) => Err(DecimalConversionError::PositiveInf),
            Cell::Numeric(PgNumeric::NegativeInf) => Err(DecimalConversionError::NegativeInf),
            _ => Err(DecimalConversionError::NotNumeric),
        }
    }
}

impl TryFrom<Cell> for Option<PgDecimal> {
    type Error = DecimalConversionError;

    fn try_from(cell: Cell) -> (r: Result<Option<PgDecimal>, DecimalConversionError>) {
        option_decimal_from_cell(cell)
    }
}

impl vstd::std_specs::convert::TryFromSpecImpl<Cell> for Option<PgDecimal> {
    open spec fn obeys_try_from_spec() -> bool {
        true
    }

    open spec fn try_from_spec(cell: Cell) -> Result<Option<PgDecimal>, DecimalConversionError> {
        match cell {
            Cell::Null => Ok(None),
            Cell::Numeric(PgNumeric::Value(d)) => Ok(Some(d)),
            Cell::Numeric(PgNumeric::NaN) => Err(DecimalConversionError::NaN),
            Cell::Numeric(PgNumeric::PositiveInf) => Err(DecimalConversionError::PositiveInf),
            Cell::Numeric(PgNumeric::NegativeInf) => Err(DecimalConversionError::NegativeInf),
            _ => Err(DecimalConversionError::NotNumeric),
        }
    }
}

impl<T: CellValue> TryFrom<Cell> for Option<T> {
    type Error = CellConversionError;

    fn try_from(cell: Cell) -> (r: Result<Option<T>, CellConversionError>) {
        option_from_cell(cell)
    }
}

impl<T: CellValue> vstd::std_specs::convert::TryFromSpecImpl<Cell> for Option<T> {
    open spec fn obeys_try_from_spec() -> bool {
        true
    }

    open spec fn try_from_spec(cell: Cell) -> Result<Option<T>, CellConversionError> {
        match cell {
            Cell::Null => Ok(None),
            _ => match T::from_cell_spec(cell) {
                Some(v) => Ok(Some(v)),
                None => Err(CellConversionError),
            },
        }
    }
}

impl<T: CellValue> TryFrom<Cell> for Vec<Option<T>> {
    type Error = CellConversionError;

    fn try_from(cell: Cell) -> (r: Result<Vec<Option<T>>, CellConversionError>) {
        vec_from_cell(cell)
    }
}

impl<T: CellValue> vstd::std_specs::convert::TryFromSpecImpl<Cell> for Vec<Option<T>> {
    open spec fn obeys_try_from_spec() -> bool {
        true
    }

    open spec fn try_from_spec(cell: Cell) -> Result<Vec<Option<T>>, CellConversionError> {
        match cell {
            Cell::Array(a) => match T::from_array_spec(a) {
                Some(v) => Ok(v),
                None => Err(CellConversionError),
            },
            _ => Err(CellConversionError),
        }
    }
}

impl<T: CellValue> TryFrom<Cell> for Option<Vec<Option<T>>> {
    type Error = CellConversionError;

    fn try_from(cell: Cell) -> (r: Result<Option<Vec<Option<T>>>, CellConversionError>) {
        option_vec_from_cell(cell)
    }
}

impl<T: CellValue> vstd::std_specs::convert::TryFromSpecImpl<Cell> for Option<Vec<Option<T>>> {
    open spec fn obeys_try_from_spec() -> bool {
        true
    }

    open spec fn try_from_spec(cell: Cell) -> Result<Option<Vec<Option<T>>>, CellConversionError> {
        match cell {
            Cell::Null => Ok(None),
            Cell::Array(ArrayCell::Null) => Ok(None),
            Cell::Array(a) => match T::from_array_spec(a) {
                Some(v) => Ok(Some(v)),
                None => Err(CellConversionError),
            },
            _ => Err(CellConversionError),
        }
    }
}

/// A NUMERIC cell holding a decimal converts to that decimal, also as an
/// optional decimal.
pub proof fn lemma_decimal_cell_round_trip(d: PgDecimal)
    ensures
        <PgDecimal as TryFromSpec<Cell>>::try_from_spec(Cell::Numeric(PgNumeric::Value(d))) == Ok::<
            PgDecimal,
            DecimalConversionError,
        >(d),
        <Option<PgDecimal> as TryFromSpec<Cell>>::try_from_spec(Cell::Numeric(PgNumeric::Value(d))) == Ok::<
            Option<PgDecimal>,
            DecimalConversionError,
        >(Some(d)),
{
}

/// Every other cell, the special NUMERIC values and NULL included, fails to
/// convert to a decimal.
pub proof fn lemma_decimal_other_cells_fail(c: Cell)
    requires
        !(c matches Cell::Numeric(PgNumeric::Value(_))),
    ensures
        <PgDecimal as TryFromSpec<Cell>>::try_from_spec(c) is Err,
{
}

} // verus!

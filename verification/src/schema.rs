//! Table descriptions and request shapes consumed by the service surface,
//! with the checks that keep identifiers and SQL type names safe.

use vstd::prelude::*;
use crate::json::str_bytes;

verus! {

/// An action the execute endpoint can carry.
#[derive(Debug)]
pub enum Action {
    CreateBatch,
    ReadBatch,
}

/// A batch read request: which records to fetch and prove.
#[derive(Debug)]
pub struct ReadBatchRequest {
    pub ids: Vec<String>,
}

/// Which direction an ordered read walks the table.
#[derive(Debug, Clone, Copy)]
pub enum OrderDirection {
    Asc,
    Desc,
}

impl Default for OrderDirection {
    /// Reads come newest-first unless asked otherwise.
    fn default() -> (r: Self)
        ensures
            r is Desc,
    {
        OrderDirection::Desc
    }
}

/// Ordering requested for a latest-records read.
#[derive(Debug)]
pub struct OrderBySpec {
    pub field: String,
    pub direction: OrderDirection,
}

/// How a table's primary key is declared.
#[derive(Debug, Clone)]
pub enum PrimaryKeyKind {
    Serial,
    BigSerial,
    Text,
    Int,
    BigInt,
    Uuid,
}

/// A column type the schema layer accepts.
#[derive(Debug, Clone)]
pub enum ColumnType {
    Text,
    Int,
    BigInt,
    Bool,
    Jsonb,
    Timestamptz,
    Uuid,
}

/// One column of a requested table.
#[derive(Debug, Clone)]
pub struct ColumnSpec {
    pub name: String,
    pub col_type: ColumnType,
    pub nullable: bool,
    pub unique: bool,
}

/// One requested table: its name, key, and columns.
#[derive(Debug, Clone)]
pub struct TableSpec {
    pub table_name: String,
    pub primary_key_field: String,
    pub primary_key_kind: PrimaryKeyKind,
    pub columns: Vec<ColumnSpec>,
}

/// A request to apply a schema; may force a full reset.
#[derive(Debug)]
pub struct BootstrapRequest {
    pub tables: Vec<TableSpec>,
    pub force_reset: bool,
}

/// A request to clear all managed data; requires confirmation.
#[derive(Debug)]
pub struct ClearDataRequest {
    pub confirm: bool,
}

/// A request to run migrations; requires confirmation.
#[derive(Debug)]
pub struct MigrateRequest {
    pub confirm: bool,
}

/// A request to rebuild the tree and realign roots; requires confirmation.
#[derive(Debug)]
pub struct RepairRootsRequest {
    pub confirm: bool,
}

/// The live database schema, as reported to callers.
#[derive(Debug)]
pub struct CurrentSchemaResponse {
    pub schema: String,
    pub tables: Vec<DbTableSchema>,
}

/// One live table: columns and primary key columns in order.
#[derive(Debug)]
pub struct DbTableSchema {
    pub table_name: String,
    pub columns: Vec<DbColumnSchema>,
    pub primary_key: Vec<String>,
}

/// One live column as the catalog reports it.
#[derive(Debug)]
pub struct DbColumnSchema {
    pub name: String,
    pub data_type: String,
    pub is_nullable: bool,
    pub default: Option<String>,
}

/// An ASCII letter.
pub open spec fn is_ascii_alpha(b: u8) -> bool {
    (0x41 <= b <= 0x5a) || (0x61 <= b <= 0x7a)
}

/// A byte an identifier may contain: a letter, a digit, or an underscore.
pub open spec fn is_ident_byte(b: u8) -> bool {
    is_ascii_alpha(b) || (0x30 <= b <= 0x39) || b == 0x5f
}

/// A safe SQL identifier: non-empty, starting with a letter or underscore,
/// made of letters, digits and underscores alone.
pub open spec fn ident_ok(bytes: Seq<u8>) -> bool {
    &&& bytes.len() > 0
    &&& (is_ascii_alpha(bytes[0]) || bytes[0] == 0x5f)
    &&& forall|i: int| 0 <= i < bytes.len() ==> is_ident_byte(#[trigger] bytes[i])
}

/// Accepts exactly the safe SQL identifiers; anything else would reach a
/// dynamically built statement.
pub fn validate_ident(ident: &str) -> (r: bool)
    ensures
        r == ident_ok(str_bytes(ident@)),
{
    let bytes = ident.as_bytes();
    proof {
        assert(str_bytes(ident@) =~= bytes@);
    }
    if bytes.len() == 0 {
        return false;
    }
    let b0 = bytes[0];
    if !((0x41 <= b0 && b0 <= 0x5a) || (0x61 <= b0 && b0 <= 0x7a) || b0 == 0x5f) {
        return false;
    }
    let mut i: usize = 0;
    while i < bytes.len()
        invariant
            bytes@ == str_bytes(ident@),
            i <= bytes@.len(),
            bytes@.len() > 0,
            is_ascii_alpha(bytes@[0]) || bytes@[0] == 0x5f,
            forall|j: int| 0 <= j < i ==> is_ident_byte(#[trigger] bytes@[j]),
        decreases bytes@.len() - i,
    {
        let b = bytes[i];
        if !((0x41 <= b && b <= 0x5a) || (0x61 <= b && b <= 0x7a) || (0x30 <= b && b <= 0x39) || b
            == 0x5f) {
            proof {
                assert(!is_ident_byte(str_bytes(ident@)[i as int]));
            }
            return false;
        }
        i = i + 1;
    }
    true
}

/// The SQL type a column type maps to.
pub open spec fn column_type_sql(t: ColumnType) -> Seq<char> {
    match t {
        ColumnType::Text => "TEXT"@,
        ColumnType::Int => "INTEGER"@,
        ColumnType::BigInt => "BIGINT"@,
        ColumnType::Bool => "BOOLEAN"@,
        ColumnType::Jsonb => "JSONB"@,
        ColumnType::Timestamptz => "TIMESTAMPTZ"@,
        ColumnType::Uuid => "UUID"@,
    }
}

/// Renders a column type as its SQL type name.
pub fn column_type_to_sql(t: &ColumnType) -> (r: &'static str)
    ensures
        r@ == column_type_sql(*t),
{
    match t {
        ColumnType::Text => "TEXT",
        ColumnType::Int => "INTEGER",
        ColumnType::BigInt => "BIGINT",
        ColumnType::Bool => "BOOLEAN",
        ColumnType::Jsonb => "JSONB",
        ColumnType::Timestamptz => "TIMESTAMPTZ",
        ColumnType::Uuid => "UUID",
    }
}

/// The SQL type a primary key kind maps to.
pub open spec fn pk_kind_sql(pk: PrimaryKeyKind) -> Seq<char> {
    match pk {
        PrimaryKeyKind::Serial => "SERIAL"@,
        PrimaryKeyKind::BigSerial => "BIGSERIAL"@,
        PrimaryKeyKind::Text => "TEXT"@,
        PrimaryKeyKind::Int => "INTEGER"@,
        PrimaryKeyKind::BigInt => "BIGINT"@,
        PrimaryKeyKind::Uuid => "UUID"@,
    }
}

/// Renders a primary key kind as its SQL type name.
pub fn pk_kind_to_sql(pk: &PrimaryKeyKind) -> (r: &'static str)
    ensures
        r@ == pk_kind_sql(*pk),
{
    match pk {
        PrimaryKeyKind::Serial => "SERIAL",
        PrimaryKeyKind::BigSerial => "BIGSERIAL",
        PrimaryKeyKind::Text => "TEXT",
        PrimaryKeyKind::Int => "INTEGER",
        PrimaryKeyKind::BigInt => "BIGINT",
        PrimaryKeyKind::Uuid => "UUID",
    }
}

} // verus!

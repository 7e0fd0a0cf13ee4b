//! Verifiable models: what table a record belongs to, which column keys it,
//! and which payloads the model accepts.

use vstd::prelude::*;
use crate::json::{JsonValue, spec_obj_get, spec_as_i64, str_bytes, obj_get, as_i64};

verus! {

/// The contract every verifiable model meets: its table identity, its SQL
/// shape, optional column typing, and payload validation.
pub trait VerifiableModel: Sized {
    /// The table this model writes to.
    spec fn spec_table_name(&self) -> Seq<char>;

    /// The column that keys the table.
    spec fn spec_primary_key_field(&self) -> Seq<char>;

    /// The column type recorded for a column, if any.
    spec fn spec_column_type(&self, column: Seq<char>) -> Option<Seq<char>>;

    /// Which payloads the model accepts for record creation.
    spec fn create_payload_ok(&self, payload: JsonValue) -> bool;

    /// The name of the database table for this model.
    fn table_name(&self) -> (r: &str)
        ensures
            r@ == self.spec_table_name(),
    ;

    /// The name of the primary key field for this model.
    fn primary_key_field(&self) -> (r: &str)
        ensures
            r@ == self.spec_primary_key_field(),
    ;

    /// The SQL CREATE TABLE statement for this model.
    fn get_create_table_sql(&self) -> &str;

    /// Column typing metadata for casting and binding, if the model has it.
    fn column_type(&self, column: &str) -> (r: Option<&str>)
        ensures
            match r {
                Some(t) => self.spec_column_type(column@) == Option::Some(t@),
                None => self.spec_column_type(column@) is None,
            },
    ;

    /// Validates a payload before records are created from it.
    fn validate_create_payload(&self, payload: &JsonValue) -> (r: Result<(), String>)
        ensures
            r is Ok == self.create_payload_ok(*payload),
    ;

    /// Validates a payload before records are updated from it.
    fn validate_update_payload(&self, payload: &JsonValue) -> (r: Result<(), String>)
        ensures
            r is Ok,
    ;
}

/// A model loaded at runtime from the registry of table descriptions.
pub struct DynamicModel {
    pub table_name: String,
    pub primary_key_field: String,
    pub create_table_sql: String,
    pub column_types: Vec<(String, String)>,
}

/// The first type recorded for a column in an association list.
pub open spec fn spec_assoc(ts: Seq<(String, String)>, column: Seq<char>) -> Option<Seq<char>>
    decreases ts.len(),
{
    if ts.len() == 0 {
        Option::None
    } else if ts[0].0@ == column {
        Option::Some(ts[0].1@)
    } else {
        spec_assoc(ts.drop_first(), column)
    }
}

/// Skipping columns that miss does not change an association lookup.
proof fn lemma_assoc_skip(ts: Seq<(String, String)>, column: Seq<char>, i: int)
    requires
        0 <= i <= ts.len(),
        forall|j: int| 0 <= j < i ==> (#[trigger] ts[j]).0@ != column,
    ensures
        spec_assoc(ts, column) == spec_assoc(ts.skip(i), column),
    decreases i,
{
    if i > 0 {
        lemma_assoc_skip(ts, column, i - 1);
        let tail = ts.skip(i - 1);
        assert(tail[0] == ts[i - 1]);
        assert(tail.drop_first() =~= ts.skip(i));
        assert(spec_assoc(tail, column) == spec_assoc(tail.drop_first(), column));
    } else {
        assert(ts.skip(0) =~= ts);
    }
}

impl DynamicModel {
    /// Builds a runtime model from its table description.
    pub fn new(
        table_name: String,
        primary_key_field: String,
        create_table_sql: String,
        column_types: Vec<(String, String)>,
    ) -> (r: DynamicModel)
        ensures
            r.table_name == table_name,
            r.primary_key_field == primary_key_field,
            r.create_table_sql == create_table_sql,
            r.column_types == column_types,
    {
        DynamicModel { table_name, primary_key_field, create_table_sql, column_types }
    }
}

impl VerifiableModel for DynamicModel {
    open spec fn spec_table_name(&self) -> Seq<char> {
        self.table_name@
    }

    open spec fn spec_primary_key_field(&self) -> Seq<char> {
        self.primary_key_field@
    }

    open spec fn spec_column_type(&self, column: Seq<char>) -> Option<Seq<char>> {
        spec_assoc(self.column_types@, column)
    }

    /// Dynamic models are validated at the schema layer; every payload
    /// passes here.
    open spec fn create_payload_ok(&self, payload: JsonValue) -> bool {
        true
    }

    fn table_name(&self) -> (r: &str) {
        self.table_name.as_str()
    }

    fn primary_key_field(&self) -> (r: &str) {
        self.primary_key_field.as_str()
    }

    fn get_create_table_sql(&self) -> &str {
        self.create_table_sql.as_str()
    }

    fn column_type(&self, column: &str) -> (r: Option<&str>) {
        let col: String = column.to_owned();
        let mut i: usize = 0;
        while i < self.column_types.len()
            invariant
                i <= self.column_types@.len(),
                col@ == column@,
                forall|j: int| 0 <= j < i ==> (#[trigger] self.column_types@[j]).0@ != column@,
            decreases self.column_types@.len() - i,
        {
            if self.column_types[i].0 == col {
                proof {
                    lemma_assoc_skip(self.column_types@, column@, i as int);
                    assert(self.column_types@.skip(i as int)[0] == self.column_types@[i as int]);
                }
                return Some(self.column_types[i].1.as_str());
            }
            i = i + 1;
        }
        proof {
            lemma_assoc_skip(self.column_types@, column@, self.column_types@.len() as int);
        }
        None
    }

    fn validate_create_payload(&self, payload: &JsonValue) -> (r: Result<(), String>) {
        Ok(())
    }

    fn validate_update_payload(&self, payload: &JsonValue) -> (r: Result<(), String>) {
        Ok(())
    }
}

/// The example users model.
pub struct UserModel;

impl VerifiableModel for UserModel {
    open spec fn spec_table_name(&self) -> Seq<char> {
        "users"@
    }

    open spec fn spec_primary_key_field(&self) -> Seq<char> {
        "id"@
    }

    open spec fn spec_column_type(&self, column: Seq<char>) -> Option<Seq<char>> {
        Option::None
    }

    /// A user payload must be an object holding an email field.
    open spec fn create_payload_ok(&self, payload: JsonValue) -> bool {
        match payload {
            JsonValue::Obj(entries) => spec_obj_get(entries@, str_bytes("email"@)) is Some,
            _ => false,
        }
    }

    fn table_name(&self) -> (r: &str) {
        "users"
    }

    fn primary_key_field(&self) -> (r: &str) {
        "id"
    }

    fn get_create_table_sql(&self) -> &str {
        "CREATE TABLE IF NOT EXISTS users (
            id BIGSERIAL PRIMARY KEY,
            email TEXT NOT NULL,
            last_login TIMESTAMPTZ NOT NULL,
            profile_data JSONB NOT NULL
        )"
    }

    fn column_type(&self, column: &str) -> (r: Option<&str>) {
        None
    }

    fn validate_create_payload(&self, payload: &JsonValue) -> (r: Result<(), String>) {
        match payload {
            JsonValue::Obj(entries) => {
                if obj_get(entries, "email").is_some() {
                    Ok(())
                } else {
                    Err("User must have an email field".to_owned())
                }
            },
            _ => Err("Payload must be an object".to_owned()),
        }
    }

    fn validate_update_payload(&self, payload: &JsonValue) -> (r: Result<(), String>) {
        Ok(())
    }
}

/// The example products model.
pub struct ProductModel;

impl VerifiableModel for ProductModel {
    open spec fn spec_table_name(&self) -> Seq<char> {
        "products"@
    }

    open spec fn spec_primary_key_field(&self) -> Seq<char> {
        "id"@
    }

    open spec fn spec_column_type(&self, column: Seq<char>) -> Option<Seq<char>> {
        Option::None
    }

    /// A product payload must be an object holding name and price fields.
    open spec fn create_payload_ok(&self, payload: JsonValue) -> bool {
        match payload {
            JsonValue::Obj(entries) => spec_obj_get(entries@, str_bytes("name"@)) is Some
                && spec_obj_get(entries@, str_bytes("price"@)) is Some,
            _ => false,
        }
    }

    fn table_name(&self) -> (r: &str) {
        "products"
    }

    fn primary_key_field(&self) -> (r: &str) {
        "id"
    }

    fn get_create_table_sql(&self) -> &str {
        "CREATE TABLE IF NOT EXISTS products (
            id BIGSERIAL PRIMARY KEY,
            external_id TEXT UNIQUE,
            name TEXT NOT NULL,
            price INTEGER NOT NULL,
            in_stock BOOLEAN NOT NULL
        )"
    }

    fn column_type(&self, column: &str) -> (r: Option<&str>) {
        None
    }

    fn validate_create_payload(&self, payload: &JsonValue) -> (r: Result<(), String>) {
        match payload {
            JsonValue::Obj(entries) => {
                if obj_get(entries, "name").is_none() {
                    return Err("Product must have a name field".to_owned());
                }
                if obj_get(entries, "price").is_none() {
                    return Err("Product must have a price field".to_owned());
                }
                Ok(())
            },
            _ => Err("Payload must be an object".to_owned()),
        }
    }

    fn validate_update_payload(&self, payload: &JsonValue) -> (r: Result<(), String>) {
        Ok(())
    }
}

/// The example widgets model.
pub struct WidgetModel;

impl VerifiableModel for WidgetModel {
    open spec fn spec_table_name(&self) -> Seq<char> {
        "widgets"@
    }

    open spec fn spec_primary_key_field(&self) -> Seq<char> {
        "id"@
    }

    open spec fn spec_column_type(&self, column: Seq<char>) -> Option<Seq<char>> {
        Option::None
    }

    /// A widget payload must be an object holding a widget_id field and a
    /// quantity that reads as a non-negative 64-bit integer.
    open spec fn create_payload_ok(&self, payload: JsonValue) -> bool {
        match payload {
            JsonValue::Obj(entries) => spec_obj_get(entries@, str_bytes("widget_id"@)) is Some
                && (match spec_obj_get(entries@, str_bytes("quantity"@)) {
                Option::Some(q) => match spec_as_i64(q) {
                    Option::Some(n) => n >= 0,
                    Option::None => false,
                },
                Option::None => false,
            }),
            _ => false,
        }
    }

    fn table_name(&self) -> (r: &str) {
        "widgets"
    }

    fn primary_key_field(&self) -> (r: &str) {
        "id"
    }

    fn get_create_table_sql(&self) -> &str {
        "CREATE TABLE IF NOT EXISTS widgets (
            id BIGSERIAL PRIMARY KEY,
            widget_id TEXT UNIQUE NOT NULL,
            name TEXT NOT NULL,
            quantity INTEGER NOT NULL,
            metadata JSONB
        )"
    }

    fn column_type(&self, column: &str) -> (r: Option<&str>) {
        None
    }

    fn validate_create_payload(&self, payload: &JsonValue) -> (r: Result<(), String>) {
        match payload {
            JsonValue::Obj(entries) => {
                if obj_get(entries, "widget_id").is_none() {
                    return Err("Widget must have a widget_id field".to_owned());
                }
                match obj_get(entries, "quantity") {
                    Some(q) => {
                        match as_i64(q) {
                            Some(n) => {
                                if n >= 0 {
                                    Ok(())
                                } else {
                                    Err("Widget quantity cannot be negative".to_owned())
                                }
                            },
                            None => Err("Widget quantity cannot be negative".to_owned()),
                        }
                    },
                    None => Err("Widget quantity cannot be negative".to_owned()),
                }
            },
            _ => Err("Widget must have a widget_id field".to_owned()),
        }
    }

    fn validate_update_payload(&self, payload: &JsonValue) -> (r: Result<(), String>) {
        Ok(())
    }
}

} // verus!

//! Models and schema helpers: payload validation, identifier checks, SQL
//! type names.

use verifiable_memory_example::json::{obj_insert, JsonValue};
use verifiable_memory_example::model::{
    DynamicModel, ProductModel, UserModel, VerifiableModel, WidgetModel,
};
use verifiable_memory_example::schema::{
    column_type_to_sql, pk_kind_to_sql, validate_ident, ColumnType, OrderDirection,
    PrimaryKeyKind,
};

fn obj(entries: Vec<(&str, JsonValue)>) -> JsonValue {
    let mut out: Vec<(String, JsonValue)> = Vec::new();
    for (k, v) in entries {
        obj_insert(&mut out, k.to_string(), v);
    }
    JsonValue::Obj(out)
}

#[test]
fn user_model_requires_email() {
    let m = UserModel;
    assert_eq!(m.table_name(), "users");
    assert_eq!(m.primary_key_field(), "id");
    let ok = obj(vec![("email", JsonValue::Str("a@b".to_string()))]);
    assert!(m.validate_create_payload(&ok).is_ok());
    let missing = obj(vec![("id", JsonValue::Int(1))]);
    assert_eq!(
        m.validate_create_payload(&missing),
        Err("User must have an email field".to_string())
    );
    assert_eq!(
        m.validate_create_payload(&JsonValue::Int(1)),
        Err("Payload must be an object".to_string())
    );
}

#[test]
fn product_model_requires_name_and_price() {
    let m = ProductModel;
    assert_eq!(m.table_name(), "products");
    let ok = obj(vec![
        ("name", JsonValue::Str("gizmo".to_string())),
        ("price", JsonValue::Int(10)),
    ]);
    assert!(m.validate_create_payload(&ok).is_ok());
    let no_price = obj(vec![("name", JsonValue::Str("gizmo".to_string()))]);
    assert_eq!(
        m.validate_create_payload(&no_price),
        Err("Product must have a price field".to_string())
    );
    let no_name = obj(vec![("price", JsonValue::Int(10))]);
    assert_eq!(
        m.validate_create_payload(&no_name),
        Err("Product must have a name field".to_string())
    );
}

#[test]
fn widget_model_rejects_negative_quantity() {
    let m = WidgetModel;
    assert_eq!(m.table_name(), "widgets");
    let ok = obj(vec![
        ("widget_id", JsonValue::Str("w1".to_string())),
        ("quantity", JsonValue::Int(0)),
    ]);
    assert!(m.validate_create_payload(&ok).is_ok());
    let negative = obj(vec![
        ("widget_id", JsonValue::Str("w1".to_string())),
        ("quantity", JsonValue::Int(-1)),
    ]);
    assert_eq!(
        m.validate_create_payload(&negative),
        Err("Widget quantity cannot be negative".to_string())
    );
    let missing_quantity = obj(vec![("widget_id", JsonValue::Str("w1".to_string()))]);
    assert_eq!(
        m.validate_create_payload(&missing_quantity),
        Err("Widget quantity cannot be negative".to_string())
    );
    let missing_id = obj(vec![("quantity", JsonValue::Int(3))]);
    assert_eq!(
        m.validate_create_payload(&missing_id),
        Err("Widget must have a widget_id field".to_string())
    );
}

#[test]
fn dynamic_model_reports_its_description() {
    let m = DynamicModel::new(
        "agents".to_string(),
        "id".to_string(),
        "CREATE TABLE IF NOT EXISTS agents (id BIGSERIAL PRIMARY KEY, name TEXT NOT NULL)"
            .to_string(),
        vec![
            ("id".to_string(), "bigint".to_string()),
            ("name".to_string(), "text".to_string()),
        ],
    );
    assert_eq!(m.table_name(), "agents");
    assert_eq!(m.primary_key_field(), "id");
    assert_eq!(m.column_type("name"), Some("text"));
    assert_eq!(m.column_type("id"), Some("bigint"));
    assert_eq!(m.column_type("missing"), None);
    assert!(m.validate_create_payload(&JsonValue::Null).is_ok());
}

#[test]
fn validate_ident_accepts_safe_identifiers() {
    assert!(validate_ident("agents"));
    assert!(validate_ident("_tmp1"));
    assert!(validate_ident("A_b_2"));
    assert!(!validate_ident(""));
    assert!(!validate_ident("1abc"));
    assert!(!validate_ident("a-b"));
    assert!(!validate_ident("a b"));
    assert!(!validate_ident("tablé"));
    assert!(!validate_ident("a;DROP"));
}

#[test]
fn sql_type_names() {
    assert_eq!(column_type_to_sql(&ColumnType::Text), "TEXT");
    assert_eq!(column_type_to_sql(&ColumnType::Int), "INTEGER");
    assert_eq!(column_type_to_sql(&ColumnType::BigInt), "BIGINT");
    assert_eq!(column_type_to_sql(&ColumnType::Bool), "BOOLEAN");
    assert_eq!(column_type_to_sql(&ColumnType::Jsonb), "JSONB");
    assert_eq!(column_type_to_sql(&ColumnType::Timestamptz), "TIMESTAMPTZ");
    assert_eq!(column_type_to_sql(&ColumnType::Uuid), "UUID");
    assert_eq!(pk_kind_to_sql(&PrimaryKeyKind::Serial), "SERIAL");
    assert_eq!(pk_kind_to_sql(&PrimaryKeyKind::BigSerial), "BIGSERIAL");
    assert_eq!(pk_kind_to_sql(&PrimaryKeyKind::Text), "TEXT");
    assert_eq!(pk_kind_to_sql(&PrimaryKeyKind::Int), "INTEGER");
    assert_eq!(pk_kind_to_sql(&PrimaryKeyKind::BigInt), "BIGINT");
    assert_eq!(pk_kind_to_sql(&PrimaryKeyKind::Uuid), "UUID");
}

#[test]
fn order_direction_defaults_to_descending() {
    assert!(matches!(OrderDirection::default(), OrderDirection::Desc));
}

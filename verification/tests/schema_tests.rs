//! Tests for field configuration and schema resolution.

use toon_table::schema::{CellType, FieldAttrs, FieldDef, Schema};

fn plain_field(name: &str, ty: CellType) -> FieldDef {
    FieldDef {
        name: name.to_string(),
        attrs: FieldAttrs::default(),
        ty,
    }
}

#[test]
fn test_default_field_attrs() {
    let attrs = FieldAttrs::default();
    assert!(attrs.rename.is_none());
    assert!(!attrs.skip);
    assert!(!attrs.default);
    assert!(attrs.order.is_none());
}

#[test]
fn test_schema_declaration_order() {
    let schema = Schema::new(vec![
        plain_field("id", CellType::U64),
        plain_field("name", CellType::Str),
        plain_field("role", CellType::Str),
    ]);
    assert_eq!(
        schema.columns(),
        vec!["id".to_string(), "name".to_string(), "role".to_string()]
    );
}

#[test]
fn test_schema_explicit_order_first() {
    // a column with explicit order 0 sorts before one with no explicit
    // order, whatever the declaration order was
    let mut last = plain_field("last", CellType::Str);
    last.attrs.order = Some(0);
    let schema = Schema::new(vec![plain_field("first", CellType::Str), last]);
    assert_eq!(schema.columns(), vec!["last".to_string(), "first".to_string()]);
}

#[test]
fn test_schema_order_values_ascending() {
    let mut a = plain_field("a", CellType::Str);
    a.attrs.order = Some(9);
    let mut b = plain_field("b", CellType::Str);
    b.attrs.order = Some(2);
    let schema = Schema::new(vec![a, b, plain_field("c", CellType::Str)]);
    assert_eq!(
        schema.columns(),
        vec!["b".to_string(), "a".to_string(), "c".to_string()]
    );
}

#[test]
fn test_schema_skip_drops_field() {
    let mut hidden = plain_field("hidden", CellType::Str);
    hidden.attrs.skip = true;
    let schema = Schema::new(vec![plain_field("id", CellType::U64), hidden]);
    assert_eq!(schema.columns(), vec!["id".to_string()]);
    assert_eq!(schema.column_count(), 1);
    assert_eq!(schema.field_count(), 2);
}

#[test]
fn test_schema_rename_replaces_name() {
    let mut id = plain_field("id", CellType::U64);
    id.attrs.rename = Some("userId".to_string());
    let schema = Schema::new(vec![id, plain_field("name", CellType::Str)]);
    let columns = schema.columns();
    assert_eq!(columns, vec!["userId".to_string(), "name".to_string()]);
    assert!(!columns.contains(&"id".to_string()));
}

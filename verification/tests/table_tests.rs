//! Tests for the table codec: encoding, decoding, bounds, and the cell
//! conversion protocol.

use toon_table::cell::Cell;
use toon_table::convert::{FromToonValue, IntoToonValue, ToonTable};
use toon_table::error::Error;
use toon_table::schema::{CellType, FieldAttrs, FieldDef, Schema};
use toon_table::table::{
    decode_table, encode_table, extract_columns, extract_rows, get_cell, get_row, Record,
};
use toon_table::value::{Number, Value, ValueMap};

fn table_field(name: &str, ty: CellType) -> FieldDef {
    FieldDef {
        name: name.to_string(),
        attrs: FieldAttrs::default(),
        ty,
    }
}

fn table_of(columns: Vec<&str>, rows: Vec<Vec<Value>>) -> Value {
    let mut map = ValueMap::new();
    map.insert(
        "columns".to_string(),
        Value::Array(columns.into_iter().map(Value::from).collect()),
    );
    map.insert(
        "rows".to_string(),
        Value::Array(rows.into_iter().map(Value::Array).collect()),
    );
    Value::Object(map)
}

fn user_schema() -> Schema {
    Schema::new(vec![
        table_field("id", CellType::U64),
        table_field("name", CellType::Str),
        table_field("role", CellType::Str),
    ])
}

fn user_record(id: u64, name: &str, role: &str) -> Record {
    vec![
        Cell::U64(id),
        Cell::Str(name.to_string()),
        Cell::Str(role.to_string()),
    ]
}

#[test]
fn test_extract_columns() {
    let table = table_of(
        vec!["id", "name"],
        vec![vec![Value::from(1u64), Value::from("Alice")]],
    );

    let cols = extract_columns(&table).unwrap();
    assert_eq!(cols, vec!["id", "name"]);
}

#[test]
fn test_extract_rows() {
    let table = table_of(
        vec!["id", "name"],
        vec![
            vec![Value::from(1u64), Value::from("Alice")],
            vec![Value::from(2u64), Value::from("Bob")],
        ],
    );

    let rows = extract_rows(&table).unwrap();
    assert_eq!(rows.len(), 2);
}

#[test]
fn test_from_toon_value() {
    let v = Value::String("hello".into());
    assert_eq!(String::from_toon_value(&v).unwrap(), "hello");

    let v = Value::Bool(true);
    assert!(bool::from_toon_value(&v).unwrap());

    let v = Value::Null;
    assert_eq!(Option::<String>::from_toon_value(&v).unwrap(), None);
}

#[test]
fn test_to_toon_value() {
    assert_eq!("hello".to_toon_value(), Value::String("hello".into()));
    assert_eq!(true.to_toon_value(), Value::Bool(true));
    assert_eq!(Option::<String>::None.to_toon_value(), Value::Null);
}

#[test]
fn test_toon_table_columns() {
    assert_eq!(user_schema().columns(), vec!["id", "name", "role"]);
}

#[test]
fn test_toon_table_encode() {
    let schema = user_schema();
    let users = vec![user_record(1, "Alice", "admin"), user_record(2, "Bob", "user")];

    let table = encode_table(&schema, &users);

    if let Value::Object(map) = &table {
        assert!(map.contains_key("columns"));
        assert!(map.contains_key("rows"));

        if let Some(Value::Array(cols)) = map.get("columns") {
            assert_eq!(cols.len(), 3);
            assert_eq!(cols[0], Value::String("id".into()));
            assert_eq!(cols[1], Value::String("name".into()));
            assert_eq!(cols[2], Value::String("role".into()));
        } else {
            panic!("Expected columns to be an array");
        }

        if let Some(Value::Array(rows)) = map.get("rows") {
            assert_eq!(rows.len(), 2);
        } else {
            panic!("Expected rows to be an array");
        }
    } else {
        panic!("Expected table to be an object");
    }
}

#[test]
fn test_toon_table_decode() {
    let table = table_of(
        vec!["id", "name", "role"],
        vec![
            vec![Value::from(1u64), Value::from("Alice"), Value::from("admin")],
            vec![Value::from(2u64), Value::from("Bob"), Value::from("user")],
        ],
    );

    let users = decode_table(&user_schema(), &table).unwrap();
    assert_eq!(users.len(), 2);
    assert_eq!(users[0][0], Cell::U64(1));
    assert_eq!(users[0][1], Cell::Str("Alice".to_string()));
    assert_eq!(users[0][2], Cell::Str("admin".to_string()));
    assert_eq!(users[1][0], Cell::U64(2));
    assert_eq!(users[1][1], Cell::Str("Bob".to_string()));
    assert_eq!(users[1][2], Cell::Str("user".to_string()));
}

#[test]
fn test_toon_table_roundtrip() {
    let schema = user_schema();
    let original = vec![user_record(1, "Alice", "admin"), user_record(2, "Bob", "user")];

    let table = encode_table(&schema, &original);
    let decoded = decode_table(&schema, &table).unwrap();

    assert_eq!(original, decoded);
}

#[test]
fn test_toon_table_rename() {
    let mut id = table_field("id", CellType::U64);
    id.attrs.rename = Some("userId".to_string());
    let mut name = table_field("name", CellType::Str);
    name.attrs.rename = Some("userName".to_string());
    let schema = Schema::new(vec![id, name]);

    assert_eq!(schema.columns(), vec!["userId", "userName"]);

    let items = vec![vec![Cell::U64(1), Cell::Str("Test".to_string())]];

    let table = encode_table(&schema, &items);

    if let Value::Object(map) = &table {
        if let Some(Value::Array(cols)) = map.get("columns") {
            assert_eq!(cols[0], Value::String("userId".into()));
            assert_eq!(cols[1], Value::String("userName".into()));
        }
    }
}

#[test]
fn test_toon_table_default() {
    // a table without the default-configured optional column
    let mut optional = table_field("optional", CellType::Str);
    optional.attrs.default = true;
    let schema = Schema::new(vec![
        table_field("id", CellType::U64),
        table_field("name", CellType::Str),
        optional,
    ]);

    let table = table_of(
        vec!["id", "name"],
        vec![vec![Value::from(1u64), Value::from("Alice")]],
    );

    let items = decode_table(&schema, &table).unwrap();
    assert_eq!(items.len(), 1);
    assert_eq!(items[0][0], Cell::U64(1));
    assert_eq!(items[0][1], Cell::Str("Alice".to_string()));
    assert_eq!(items[0][2], Cell::Str("".to_string()));
}

#[test]
fn test_toon_table_mixed_types() {
    let schema = Schema::new(vec![
        table_field("id", CellType::I64),
        table_field("count", CellType::U64),
        table_field("score", CellType::F64),
        table_field("active", CellType::Bool),
        table_field("name", CellType::Str),
    ]);
    let items = vec![vec![
        Cell::I64(-1),
        Cell::U64(100),
        Cell::F64(95.5f64.to_bits()),
        Cell::Bool(true),
        Cell::Str("Test".to_string()),
    ]];

    let table = encode_table(&schema, &items);
    let decoded = decode_table(&schema, &table).unwrap();

    assert_eq!(items, decoded);
}

#[test]
fn test_concrete_scenario() {
    // encode two records and check the exact table value, then decode it
    let schema = user_schema();
    let records = vec![user_record(1, "Alice", "admin"), user_record(2, "Bob", "user")];

    let table = encode_table(&schema, &records);

    let expected = table_of(
        vec!["id", "name", "role"],
        vec![
            vec![
                Value::Number(Number::U64(1)),
                Value::from("Alice"),
                Value::from("admin"),
            ],
            vec![
                Value::Number(Number::U64(2)),
                Value::from("Bob"),
                Value::from("user"),
            ],
        ],
    );
    assert_eq!(table, expected);

    let decoded = decode_table(&schema, &table).unwrap();
    assert_eq!(decoded, records);
}

#[test]
fn test_concrete_scenario_rename_default() {
    // rename + default: a table without the default-configured category
    // column decodes to the empty string for it
    let mut id = table_field("id", CellType::U64);
    id.attrs.rename = Some("productId".to_string());
    let mut name = table_field("name", CellType::Str);
    name.attrs.rename = Some("productName".to_string());
    let price = table_field("price", CellType::F64);
    let mut category = table_field("category", CellType::Str);
    category.attrs.default = true;
    let schema = Schema::new(vec![id, name, price, category]);

    let table = table_of(
        vec!["productId", "productName", "price"],
        vec![vec![
            Value::Number(Number::U64(100)),
            Value::from("Widget"),
            Value::Number(Number::F64(5.99f64.to_bits())),
        ]],
    );

    let items = decode_table(&schema, &table).unwrap();
    assert_eq!(items.len(), 1);
    assert_eq!(items[0][0], Cell::U64(100));
    assert_eq!(items[0][1], Cell::Str("Widget".to_string()));
    assert_eq!(items[0][2], Cell::F64(5.99f64.to_bits()));
    assert_eq!(items[0][3], Cell::Str("".to_string()));
}

#[test]
fn test_missing_required_column() {
    let table = table_of(
        vec!["id", "name"],
        vec![vec![Value::from(1u64), Value::from("Alice")]],
    );

    let err = decode_table(&user_schema(), &table).unwrap_err();
    assert_eq!(err, Error::MissingColumn("role".to_string()));
}

#[test]
fn test_type_mismatch() {
    // a string cell in the integer column
    let table = table_of(
        vec!["id", "name", "role"],
        vec![vec![Value::from("one"), Value::from("Alice"), Value::from("admin")]],
    );

    let err = decode_table(&user_schema(), &table).unwrap_err();
    assert_eq!(
        err,
        Error::InvalidType {
            expected: "u64".to_string(),
            got: "string".to_string(),
        }
    );
}

#[test]
fn test_conversion_errors() {
    let schema = Schema::new(vec![table_field("n", CellType::U64)]);
    let table = table_of(vec!["n"], vec![vec![Value::Number(Number::I64(-5))]]);
    let err = decode_table(&schema, &table).unwrap_err();
    assert_eq!(err, Error::ConversionError("number is not a u64".to_string()));

    let schema = Schema::new(vec![table_field("n", CellType::I64)]);
    let table = table_of(vec!["n"], vec![vec![Value::Number(Number::U64(u64::MAX))]]);
    let err = decode_table(&schema, &table).unwrap_err();
    assert_eq!(err, Error::ConversionError("number is not an i64".to_string()));
}

#[test]
fn test_empty_table() {
    let schema = user_schema();
    let no_records: Vec<Record> = Vec::new();
    let table = encode_table(&schema, &no_records);

    if let Value::Object(map) = &table {
        if let Some(Value::Array(cols)) = map.get("columns") {
            assert_eq!(cols.len(), 3);
        } else {
            panic!("Expected columns to be an array");
        }
        if let Some(Value::Array(rows)) = map.get("rows") {
            assert!(rows.is_empty());
        } else {
            panic!("Expected rows to be an array");
        }
    } else {
        panic!("Expected table to be an object");
    }

    let decoded = decode_table(&schema, &table).unwrap();
    assert!(decoded.is_empty());
}

#[test]
fn test_get_row_bounds() {
    let schema = user_schema();
    let records = vec![user_record(1, "Alice", "admin"), user_record(2, "Bob", "user")];
    let table = encode_table(&schema, &records);

    let second = get_row(&schema, &table, 1).unwrap();
    assert_eq!(second, user_record(2, "Bob", "user"));

    let err = get_row(&schema, &table, 5).unwrap_err();
    assert_eq!(err, Error::RowOutOfBounds { index: 5, len: 2 });
}

#[test]
fn test_get_cell_bounds() {
    let row = Value::Array(vec![Value::from(1u64), Value::from("Alice")]);
    assert_eq!(get_cell(&row, 1).unwrap(), &Value::String("Alice".to_string()));
    assert_eq!(
        get_cell(&row, 2).unwrap_err(),
        Error::ColumnOutOfBounds { index: 2, len: 2 }
    );
    assert_eq!(
        get_cell(&Value::Null, 0).unwrap_err(),
        Error::InvalidTable("row must be an array".to_string())
    );
}

#[test]
fn test_short_row_column_out_of_bounds() {
    let schema = user_schema();
    let table = table_of(
        vec!["id", "name", "role"],
        vec![vec![Value::from(1u64)]],
    );
    let err = decode_table(&schema, &table).unwrap_err();
    assert_eq!(err, Error::ColumnOutOfBounds { index: 1, len: 1 });
}

#[test]
fn test_invalid_table_shapes() {
    let schema = user_schema();

    let err = decode_table(&schema, &Value::Null).unwrap_err();
    assert_eq!(err, Error::InvalidTable("table must be an object".to_string()));

    let mut map = ValueMap::new();
    map.insert("rows".to_string(), Value::Array(Vec::new()));
    let err = decode_table(&schema, &Value::Object(map)).unwrap_err();
    assert_eq!(err, Error::InvalidTable("missing 'columns' field".to_string()));

    let mut map = ValueMap::new();
    map.insert("columns".to_string(), Value::from("id"));
    let err = decode_table(&schema, &Value::Object(map)).unwrap_err();
    assert_eq!(err, Error::InvalidTable("'columns' must be an array".to_string()));

    let mut map = ValueMap::new();
    map.insert("columns".to_string(), Value::Array(vec![Value::from(1u64)]));
    let err = decode_table(&schema, &Value::Object(map)).unwrap_err();
    assert_eq!(
        err,
        Error::InvalidTable("column names must be strings".to_string())
    );

    let mut map = ValueMap::new();
    map.insert("columns".to_string(), Value::Array(Vec::new()));
    let err = decode_table(&schema, &Value::Object(map)).unwrap_err();
    assert_eq!(err, Error::InvalidTable("missing 'rows' field".to_string()));

    let mut map = ValueMap::new();
    map.insert("columns".to_string(), Value::Array(Vec::new()));
    map.insert("rows".to_string(), Value::from("nope"));
    let err = decode_table(&schema, &Value::Object(map)).unwrap_err();
    assert_eq!(err, Error::InvalidTable("'rows' must be an array".to_string()));

    let schema2 = Schema::new(vec![table_field("id", CellType::U64)]);
    let table = table_of(vec!["id"], Vec::new());
    if let Value::Object(mut raw) = table {
        raw.insert("rows".to_string(), Value::Array(vec![Value::from("not a row")]));
        let err = decode_table(&schema2, &Value::Object(raw)).unwrap_err();
        assert_eq!(err, Error::InvalidTable("row must be an array".to_string()));
    } else {
        panic!("Expected object");
    }
}

#[test]
fn test_skipped_field_decodes_to_default() {
    let mut secret = table_field("secret", CellType::I64);
    secret.attrs.skip = true;
    let schema = Schema::new(vec![table_field("id", CellType::U64), secret]);

    let records = vec![vec![Cell::U64(9), Cell::I64(0)]];
    let table = encode_table(&schema, &records);
    let decoded = decode_table(&schema, &table).unwrap();
    assert_eq!(decoded, vec![vec![Cell::U64(9), Cell::I64(0)]]);
}

#[test]
fn test_duplicate_column_last_wins() {
    let schema = Schema::new(vec![table_field("x", CellType::I64)]);
    let table = table_of(
        vec!["x", "x"],
        vec![vec![Value::Number(Number::I64(1)), Value::Number(Number::I64(2))]],
    );
    let decoded = decode_table(&schema, &table).unwrap();
    assert_eq!(decoded, vec![vec![Cell::I64(2)]]);
}

#[test]
fn test_extra_cells_ignored() {
    let schema = Schema::new(vec![table_field("id", CellType::U64)]);
    let table = table_of(
        vec!["id"],
        vec![vec![Value::from(4u64), Value::from("ignored")]],
    );
    let decoded = decode_table(&schema, &table).unwrap();
    assert_eq!(decoded, vec![vec![Cell::U64(4)]]);
}

#[test]
fn test_optional_fields_round_trip() {
    let schema = Schema::new(vec![
        table_field("id", CellType::U64),
        table_field("note", CellType::OptStr),
        table_field("score", CellType::OptI64),
    ]);
    let records = vec![
        vec![Cell::U64(1), Cell::Str("hi".to_string()), Cell::Null],
        vec![Cell::U64(2), Cell::Null, Cell::I64(-3)],
    ];
    let table = encode_table(&schema, &records);
    let decoded = decode_table(&schema, &table).unwrap();
    assert_eq!(decoded, records);
}

#[test]
fn test_string_reads_null_as_empty() {
    let schema = Schema::new(vec![table_field("name", CellType::Str)]);
    let table = table_of(vec!["name"], vec![vec![Value::Null]]);
    let decoded = decode_table(&schema, &table).unwrap();
    assert_eq!(decoded, vec![vec![Cell::Str("".to_string())]]);
}

#[derive(Debug)]
struct DemoUser {
    id: u64,
    name: String,
    role: String,
}

impl toon_table::ToonTable for DemoUser {
    fn columns() -> Vec<String> {
        user_schema().columns()
    }

    fn to_toon_table(rows: &[DemoUser]) -> Value {
        let records: Vec<Record> = rows
            .iter()
            .map(|u| user_record(u.id, &u.name, &u.role))
            .collect();
        encode_table(&user_schema(), &records)
    }

    fn from_toon_table(value: &Value) -> Result<Vec<DemoUser>, Error> {
        let records = decode_table(&user_schema(), value)?;
        let mut out = Vec::new();
        for rec in records {
            let mut cells = rec.into_iter();
            let id = match cells.next() {
                Some(Cell::U64(id)) => id,
                _ => unreachable!(),
            };
            let name = match cells.next() {
                Some(Cell::Str(name)) => name,
                _ => unreachable!(),
            };
            let role = match cells.next() {
                Some(Cell::Str(role)) => role,
                _ => unreachable!(),
            };
            out.push(DemoUser { id, name, role });
        }
        Ok(out)
    }
}

#[test]
fn test_toon_table_trait_round_trip() {
    let users = vec![
        DemoUser {
            id: 1,
            name: "Alice".to_string(),
            role: "admin".to_string(),
        },
        DemoUser {
            id: 2,
            name: "Bob".to_string(),
            role: "user".to_string(),
        },
    ];

    let table = DemoUser::to_toon_table(&users);
    let decoded = DemoUser::from_toon_table(&table).unwrap();
    assert_eq!(decoded.len(), 2);
    assert_eq!(decoded[0].id, 1);
    assert_eq!(decoded[1].name, "Bob");

    let second = DemoUser::get_row(&table, 1).unwrap();
    assert_eq!(second.role, "user");
    let err = DemoUser::get_row(&table, 9).unwrap_err();
    assert_eq!(err, Error::RowOutOfBounds { index: 9, len: 2 });
}

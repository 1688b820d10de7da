//! Tests for building values and converting scalars into them.

use toon_table::convert::{IntoToonValue, IntoValue};
use toon_table::value::{Number, Value, ValueMap};

fn object_of(entries: Vec<(&str, Value)>) -> Value {
    let mut map = ValueMap::new();
    for (key, value) in entries {
        map.insert(key.to_string(), value);
    }
    Value::Object(map)
}

#[test]
fn test_toon_null() {
    let v = Value::Null;
    assert_eq!(v, Value::Null);
}

#[test]
fn test_toon_booleans() {
    assert_eq!(Value::from(true), Value::Bool(true));
    assert_eq!(Value::from(false), Value::Bool(false));
}

#[test]
fn test_toon_numbers() {
    let v = Value::from(42i64);
    assert!(matches!(v, Value::Number(_)));

    let v = Value::Number(Number::F64(3.14f64.to_bits()));
    assert!(matches!(v, Value::Number(_)));
}

#[test]
fn test_toon_strings() {
    let v = Value::from("hello");
    assert_eq!(v, Value::String("hello".to_string()));
}

#[test]
fn test_toon_empty_object() {
    let v = Value::Object(ValueMap::new());
    assert!(matches!(v, Value::Object(_)));
}

#[test]
fn test_toon_simple_object() {
    let v = object_of(vec![("name", Value::from("Alice")), ("age", 30i32.into_value())]);

    if let Value::Object(map) = v {
        assert_eq!(map.get("name"), Some(&Value::String("Alice".to_string())));
        assert!(matches!(map.get("age"), Some(Value::Number(_))));
    } else {
        panic!("Expected object");
    }
}

#[test]
fn test_toon_nested_object() {
    let v = object_of(vec![(
        "user",
        object_of(vec![("id", 1i32.into_value()), ("name", Value::from("Bob"))]),
    )]);

    if let Value::Object(map) = v {
        assert!(matches!(map.get("user"), Some(Value::Object(_))));
    } else {
        panic!("Expected object");
    }
}

#[test]
fn test_toon_array() {
    let v = Value::Array(vec![1i32.into_value(), 2i32.into_value(), 3i32.into_value()]);
    if let Value::Array(arr) = v {
        assert_eq!(arr.len(), 3);
    } else {
        panic!("Expected array");
    }
}

#[test]
fn test_toon_empty_array() {
    let v = Value::Array(Vec::new());
    if let Value::Array(arr) = v {
        assert!(arr.is_empty());
    } else {
        panic!("Expected array");
    }
}

#[test]
fn test_toon_array_of_objects() {
    let v = Value::Array(vec![
        object_of(vec![("id", 1i32.into_value()), ("name", Value::from("Alice"))]),
        object_of(vec![("id", 2i32.into_value()), ("name", Value::from("Bob"))]),
    ]);

    if let Value::Array(arr) = v {
        assert_eq!(arr.len(), 2);
        assert!(matches!(&arr[0], Value::Object(_)));
        assert!(matches!(&arr[1], Value::Object(_)));
    } else {
        panic!("Expected array");
    }
}

#[test]
fn test_toon_with_variables() {
    let name = "Charlie";
    let age = 25i64;

    let v = object_of(vec![("name", Value::from(name)), ("age", Value::from(age))]);

    if let Value::Object(map) = v {
        assert_eq!(map.get("name"), Some(&Value::String("Charlie".to_string())));
    } else {
        panic!("Expected object");
    }
}

#[test]
fn test_toon_string_keys() {
    let v = object_of(vec![
        ("kebab-key", Value::from("value")),
        ("key with spaces", 42i32.into_value()),
    ]);

    if let Value::Object(map) = v {
        assert_eq!(map.get("kebab-key"), Some(&Value::String("value".to_string())));
        assert!(map.contains_key("key with spaces"));
    } else {
        panic!("Expected object");
    }
}

#[test]
fn test_toon_trailing_comma() {
    let v = object_of(vec![("a", 1i32.into_value()), ("b", 2i32.into_value())]);

    if let Value::Object(map) = v {
        assert_eq!(map.len(), 2);
    } else {
        panic!("Expected object");
    }

    let arr = Value::Array(vec![1i32.into_value(), 2i32.into_value(), 3i32.into_value()]);
    if let Value::Array(arr) = arr {
        assert_eq!(arr.len(), 3);
    } else {
        panic!("Expected array");
    }
}

#[test]
fn test_toon_complex_nested() {
    let v = object_of(vec![
        (
            "config",
            object_of(vec![
                (
                    "database",
                    object_of(vec![
                        ("host", Value::from("localhost")),
                        ("port", 5432i32.into_value()),
                    ]),
                ),
                (
                    "features",
                    Value::Array(vec![
                        Value::from("auth"),
                        Value::from("logging"),
                        Value::from("metrics"),
                    ]),
                ),
            ]),
        ),
        (
            "users",
            Value::Array(vec![
                object_of(vec![("id", 1i32.into_value()), ("role", Value::from("admin"))]),
                object_of(vec![("id", 2i32.into_value()), ("role", Value::from("user"))]),
            ]),
        ),
    ]);

    assert!(matches!(v, Value::Object(_)));
}

#[test]
fn test_toon_macro_basic() {
    let v = object_of(vec![("name", Value::from("test")), ("value", 42i32.into_value())]);

    assert!(matches!(v, Value::Object(_)));
}

#[test]
fn test_toon_str_basic() {
    let v: serde_toon2::Value = serde_toon2::from_str(r#"name: "test""#).unwrap();
    assert!(matches!(v, serde_toon2::Value::Object(_)));
}

#[test]
fn test_bool_conversion() {
    assert_eq!(Value::from(true), Value::Bool(true));
    assert_eq!(Value::from(false), Value::Bool(false));
}

#[test]
fn test_integer_conversions() {
    let v: Value = 42i64.into();
    assert!(matches!(v, Value::Number(_)));

    let v: Value = 42u64.into();
    assert!(matches!(v, Value::Number(_)));
}

#[test]
fn test_into_value_smaller_ints() {
    let v = 42i32.into_value();
    assert!(matches!(v, Value::Number(_)));

    let v = 42u32.into_value();
    assert!(matches!(v, Value::Number(_)));
}

#[test]
fn test_string_conversion() {
    assert_eq!(Value::from("hello"), Value::String("hello".to_string()));
    assert_eq!(
        Value::from("world".to_string()),
        Value::String("world".to_string())
    );
}

#[test]
fn test_option_conversion() {
    let some: Value = Some(42i64).into_value();
    assert!(matches!(some, Value::Number(_)));

    let none: Value = Option::<i64>::None.into_value();
    assert_eq!(none, Value::Null);
}

#[test]
fn test_vec_conversion() {
    let v: Value = vec![Value::from(1i64), Value::from(2i64), Value::from(3i64)].into();
    assert!(matches!(v, Value::Array(_)));
}

#[test]
fn test_into_toon_value_promotes_widths() {
    assert_eq!(42i32.to_toon_value(), Value::Number(Number::I64(42)));
    assert_eq!(42u32.to_toon_value(), Value::Number(Number::U64(42)));
    assert_eq!((-7i64).to_toon_value(), Value::Number(Number::I64(-7)));
}

#[test]
fn test_number_exact_conversions() {
    assert_eq!(Number::I64(-3).as_i64(), Some(-3));
    assert_eq!(Number::U64(7).as_i64(), Some(7));
    assert_eq!(Number::U64(u64::MAX).as_i64(), None);
    assert_eq!(Number::I64(-1).as_u64(), None);
    assert_eq!(Number::U64(9).as_u64(), Some(9));
    assert_eq!(Number::F64(2.5f64.to_bits()).as_i64(), None);
}

#[test]
fn test_object_insert_overwrites() {
    let mut map = ValueMap::new();
    map.insert("k".to_string(), Value::from(1i64));
    map.insert("other".to_string(), Value::from(5i64));
    map.insert("k".to_string(), Value::from(2i64));
    assert_eq!(map.len(), 2);
    assert_eq!(map.get("k"), Some(&Value::Number(Number::I64(2))));
}

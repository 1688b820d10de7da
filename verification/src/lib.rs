//! A schema-driven codec between sequences of uniformly-shaped records and a
//! compact columnar table value.
//!
//! A table value is an object with two keys: `columns`, an array of column
//! names, and `rows`, an array of row arrays. Encoding writes one row per
//! record, with cells in schema order; decoding resolves columns by name,
//! falls back to defaults where a column is configured for that, and converts
//! each cell back to its field's scalar type.

pub mod cell;
pub mod convert;
pub mod error;
pub mod proofs;
pub mod schema;
pub mod table;
pub mod text;
pub mod value;

pub use crate::cell::Cell;
pub use crate::convert::{FromToonValue, IntoToonValue, IntoValue, ToonTable};
pub use crate::error::Error;
pub use crate::schema::{CellType, FieldAttrs, FieldDef, Schema};
pub use crate::table::{
    decode_table, encode_table, extract_columns, extract_rows, get_cell, get_row, Record,
};
pub use crate::value::{Number, Value, ValueMap};

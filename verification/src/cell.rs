//! The cell conversion protocol: typed scalar cells, written to values on
//! encode and read back from values on decode.

use vstd::prelude::*;

use crate::error::{Error, ErrorV};
use crate::schema::CellType;
use crate::value::{kind_of, Number, VData, Value};

verus! {

/// One typed scalar cell of a record. An optional field holds `Null` when
/// absent, else its scalar value. A double is carried as its IEEE-754 bit
/// pattern.
#[derive(Debug, PartialEq)]
pub enum Cell {
    Bool(bool),
    I64(i64),
    U64(u64),
    F64(u64),
    Str(String),
    Null,
}

/// The mathematical model of a `Cell`.
#[verifier::ext_equal]
pub enum CellV {
    Bool(bool),
    I64(i64),
    U64(u64),
    F64(u64),
    Str(Seq<char>),
    Null,
}

impl View for Cell {
    type V = CellV;

    open spec fn view(&self) -> CellV {
        match self {
            Cell::Bool(b) => CellV::Bool(*b),
            Cell::I64(i) => CellV::I64(*i),
            Cell::U64(u) => CellV::U64(*u),
            Cell::F64(bits) => CellV::F64(*bits),
            Cell::Str(s) => CellV::Str(s@),
            Cell::Null => CellV::Null,
        }
    }
}

/// Whether a cell has the shape its column's type asks for.
pub open spec fn cell_matches(c: CellV, t: CellType) -> bool {
    match t {
        CellType::Bool => c is Bool,
        CellType::I64 => c is I64,
        CellType::U64 => c is U64,
        CellType::F64 => c is F64,
        CellType::Str => c is Str,
        CellType::OptBool => c is Null || c is Bool,
        CellType::OptI64 => c is Null || c is I64,
        CellType::OptU64 => c is Null || c is U64,
        CellType::OptF64 => c is Null || c is F64,
        CellType::OptStr => c is Null || c is Str,
    }
}

/// The zero value of a cell type: false, zero, the empty string, or absent
/// for an optional field.
pub open spec fn default_cell_v(t: CellType) -> CellV {
    match t {
        CellType::Bool => CellV::Bool(false),
        CellType::I64 => CellV::I64(0),
        CellType::U64 => CellV::U64(0),
        CellType::F64 => CellV::F64(0),
        CellType::Str => CellV::Str(Seq::empty()),
        CellType::OptBool => CellV::Null,
        CellType::OptI64 => CellV::Null,
        CellType::OptU64 => CellV::Null,
        CellType::OptF64 => CellV::Null,
        CellType::OptStr => CellV::Null,
    }
}

/// Makes the zero cell of a type.
pub fn default_cell(t: CellType) -> (r: Cell)
    ensures
        r@ == default_cell_v(t),
{
    match t {
        CellType::Bool => Cell::Bool(false),
        CellType::I64 => Cell::I64(0),
        CellType::U64 => Cell::U64(0),
        CellType::F64 => Cell::F64(0),
        CellType::Str => Cell::Str(String::new()),
        CellType::OptBool => Cell::Null,
        CellType::OptI64 => Cell::Null,
        CellType::OptU64 => Cell::Null,
        CellType::OptF64 => Cell::Null,
        CellType::OptStr => Cell::Null,
    }
}

/// The default cell always matches its type.
pub proof fn lemma_default_matches(t: CellType)
    ensures
        cell_matches(default_cell_v(t), t),
{
}

/// The write capability: the value a cell appears as in an encoded row.
pub open spec fn cell_to_vdata(c: CellV) -> VData {
    match c {
        CellV::Bool(b) => VData::Bool(b),
        CellV::I64(i) => VData::Number(Number::I64(i)),
        CellV::U64(u) => VData::Number(Number::U64(u)),
        CellV::F64(bits) => VData::Number(Number::F64(bits)),
        CellV::Str(s) => VData::String(s),
        CellV::Null => VData::Null,
    }
}

/// Writes a cell out as a value.
pub fn cell_value(c: &Cell) -> (r: Value)
    ensures
        r@ == cell_to_vdata(c@),
{
    match c {
        Cell::Bool(b) => Value::Bool(*b),
        Cell::I64(i) => Value::Number(Number::I64(*i)),
        Cell::U64(u) => Value::Number(Number::U64(*u)),
        Cell::F64(bits) => Value::Number(Number::F64(*bits)),
        Cell::Str(s) => Value::String(s.clone()),
        Cell::Null => Value::Null,
    }
}

/// Whether a cell type is the optional form of a scalar.
pub open spec fn is_optional(t: CellType) -> bool {
    match t {
        CellType::OptBool => true,
        CellType::OptI64 => true,
        CellType::OptU64 => true,
        CellType::OptF64 => true,
        CellType::OptStr => true,
        _ => false,
    }
}

/// The scalar a cell type reads through: an optional type reads its scalar,
/// a scalar reads itself.
pub open spec fn scalar_of(t: CellType) -> CellType {
    match t {
        CellType::OptBool => CellType::Bool,
        CellType::OptI64 => CellType::I64,
        CellType::OptU64 => CellType::U64,
        CellType::OptF64 => CellType::F64,
        CellType::OptStr => CellType::Str,
        _ => t,
    }
}

/// The name a type-mismatch error reports as expected.
pub open spec fn expected_name(t: CellType) -> Seq<char> {
    match scalar_of(t) {
        CellType::Bool => "bool"@,
        CellType::I64 => "i64"@,
        CellType::U64 => "u64"@,
        CellType::F64 => "f64"@,
        _ => "string"@,
    }
}

/// The read capability for a scalar type: which values convert, to what, and
/// the error when they do not. A string field reads `Null` as the empty
/// string; an integer field requires a number whose stored representation
/// converts exactly; a double field requires a stored double; a boolean field
/// requires a boolean.
pub open spec fn read_scalar_v(t: CellType, v: VData) -> Result<CellV, ErrorV> {
    match t {
        CellType::Str => match v {
            VData::String(s) => Ok(CellV::Str(s)),
            VData::Null => Ok(CellV::Str(Seq::empty())),
            _ => Err(ErrorV::InvalidType { expected: "string"@, got: kind_of(v) }),
        },
        CellType::I64 => match v {
            VData::Number(n) => match n.spec_as_i64() {
                Some(i) => Ok(CellV::I64(i)),
                None => Err(ErrorV::ConversionError("number is not an i64"@)),
            },
            _ => Err(ErrorV::InvalidType { expected: "i64"@, got: kind_of(v) }),
        },
        CellType::U64 => match v {
            VData::Number(n) => match n.spec_as_u64() {
                Some(u) => Ok(CellV::U64(u)),
                None => Err(ErrorV::ConversionError("number is not a u64"@)),
            },
            _ => Err(ErrorV::InvalidType { expected: "u64"@, got: kind_of(v) }),
        },
        CellType::F64 => match v {
            VData::Number(n) => match n {
                Number::F64(bits) => Ok(CellV::F64(bits)),
                _ => Err(ErrorV::ConversionError("number is not a double"@)),
            },
            _ => Err(ErrorV::InvalidType { expected: "f64"@, got: kind_of(v) }),
        },
        _ => match v {
            VData::Bool(b) => Ok(CellV::Bool(b)),
            _ => Err(ErrorV::InvalidType { expected: "bool"@, got: kind_of(v) }),
        },
    }
}

/// The read capability: an optional type reads `Null` as absent and anything
/// else through its scalar; a scalar type reads directly.
pub open spec fn read_cell_v(t: CellType, v: VData) -> Result<CellV, ErrorV> {
    if is_optional(t) {
        if v is Null {
            Ok(CellV::Null)
        } else {
            read_scalar_v(scalar_of(t), v)
        }
    } else {
        read_scalar_v(t, v)
    }
}

/// Reads one cell of a row back into its field's type.
pub fn read_cell(t: CellType, v: &Value) -> (r: Result<Cell, Error>)
    ensures
        match r {
            Ok(c) => read_cell_v(t, v@) == Ok::<CellV, ErrorV>(c@),
            Err(e) => read_cell_v(t, v@) == Err::<CellV, ErrorV>(e@),
        },
{
    match t {
        CellType::OptBool | CellType::OptI64 | CellType::OptU64 | CellType::OptF64
        | CellType::OptStr => {
            if let Value::Null = v {
                Ok(Cell::Null)
            } else {
                read_scalar(scalar_exec(t), v)
            }
        },
        _ => read_scalar(t, v),
    }
}

/// The scalar a cell type reads through.
fn scalar_exec(t: CellType) -> (r: CellType)
    ensures
        r == scalar_of(t),
{
    match t {
        CellType::OptBool => CellType::Bool,
        CellType::OptI64 => CellType::I64,
        CellType::OptU64 => CellType::U64,
        CellType::OptF64 => CellType::F64,
        CellType::OptStr => CellType::Str,
        _ => t,
    }
}

/// Reads a value as a scalar.
fn read_scalar(t: CellType, v: &Value) -> (r: Result<Cell, Error>)
    requires
        !is_optional(t),
    ensures
        match r {
            Ok(c) => read_scalar_v(t, v@) == Ok::<CellV, ErrorV>(c@),
            Err(e) => read_scalar_v(t, v@) == Err::<CellV, ErrorV>(e@),
        },
{
    match t {
        CellType::Str => match v {
            Value::String(s) => Ok(Cell::Str(s.clone())),
            Value::Null => Ok(Cell::Str(String::new())),
            _ => Err(Error::invalid_type("string", v)),
        },
        CellType::I64 => match v {
            Value::Number(n) => match n.as_i64() {
                Some(i) => Ok(Cell::I64(i)),
                None => Err(Error::conversion("number is not an i64")),
            },
            _ => Err(Error::invalid_type("i64", v)),
        },
        CellType::U64 => match v {
            Value::Number(n) => match n.as_u64() {
                Some(u) => Ok(Cell::U64(u)),
                None => Err(Error::conversion("number is not a u64")),
            },
            _ => Err(Error::invalid_type("u64", v)),
        },
        CellType::F64 => match v {
            Value::Number(n) => match n {
                Number::F64(bits) => Ok(Cell::F64(*bits)),
                _ => Err(Error::conversion("number is not a double")),
            },
            _ => Err(Error::invalid_type("f64", v)),
        },
        _ => match v {
            Value::Bool(b) => Ok(Cell::Bool(*b)),
            _ => Err(Error::invalid_type("bool", v)),
        },
    }
}

/// Writing a cell that matches its type and reading it back gives the cell
/// again, exactly.
pub proof fn lemma_cell_round_trip(c: CellV, t: CellType)
    requires
        cell_matches(c, t),
    ensures
        read_cell_v(t, cell_to_vdata(c)) == Ok::<CellV, ErrorV>(c),
{
}

/// Whether a value's variant is one the type's read accepts at all: the
/// matching scalar variant, `Null` where string leniency or an optional field
/// admits it, or any number where a numeric width is asked.
pub open spec fn variant_accepted(t: CellType, v: VData) -> bool {
    if is_optional(t) && v is Null {
        true
    } else {
        match scalar_of(t) {
            CellType::Str => v is String || v is Null,
            CellType::Bool => v is Bool,
            _ => v is Number,
        }
    }
}

/// A cell whose variant disagrees with the target type reads as an
/// invalid-type error naming the expected type and the variant found — never
/// a silent coercion.
pub proof fn lemma_read_type_mismatch(t: CellType, v: VData)
    requires
        !variant_accepted(t, v),
    ensures
        read_cell_v(t, v) == Err::<CellV, ErrorV>(
            ErrorV::InvalidType { expected: expected_name(t), got: kind_of(v) },
        ),
{
}

} // verus!

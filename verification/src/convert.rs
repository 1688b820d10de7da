//! The typed conversion surface: per-type read and write capabilities over
//! the cell protocol, and the trait record types implement to use the codec.

use vstd::prelude::*;

use crate::cell::{cell_to_vdata, read_cell_v, CellV};
use crate::error::{Error, ErrorV};
use crate::schema::CellType;
use crate::value::{Number, VData, Value};

verus! {

/// The optional form of a cell type; an already-optional type stays itself.
pub open spec fn opt_of(t: CellType) -> CellType {
    match t {
        CellType::Bool => CellType::OptBool,
        CellType::I64 => CellType::OptI64,
        CellType::U64 => CellType::OptU64,
        CellType::F64 => CellType::OptF64,
        CellType::Str => CellType::OptStr,
        _ => t,
    }
}

/// An optional read accepts `Null` as absent and otherwise reads exactly as
/// the underlying type does.
pub proof fn lemma_read_opt(t: CellType, v: VData)
    ensures
        v is Null ==> read_cell_v(opt_of(t), v) == Ok::<CellV, ErrorV>(CellV::Null),
        !(v is Null) ==> read_cell_v(opt_of(t), v) == read_cell_v(t, v),
{
}

/// A type a cell can be read into: the read capability of the cell
/// conversion protocol.
pub trait FromToonValue: Sized {
    /// The cell type this implementation reads as.
    spec fn cell_type() -> CellType;

    /// The cell a converted value stands for.
    spec fn as_cell(&self) -> CellV;

    /// Converts a value to this type, exactly as the protocol's read
    /// capability for this cell type prescribes.
    fn from_toon_value(value: &Value) -> (r: Result<Self, Error>)
        ensures
            match r {
                Ok(x) => read_cell_v(Self::cell_type(), value@) == Ok::<CellV, ErrorV>(
                    x.as_cell(),
                ),
                Err(e) => read_cell_v(Self::cell_type(), value@) == Err::<CellV, ErrorV>(e@),
            },
    ;
}

impl FromToonValue for String {
    open spec fn cell_type() -> CellType {
        CellType::Str
    }

    open spec fn as_cell(&self) -> CellV {
        CellV::Str(self@)
    }

    /// A string cell copies; a null cell reads as the empty string.
    fn from_toon_value(value: &Value) -> (r: Result<String, Error>)
        ensures
            match r {
                Ok(x) => read_cell_v(Self::cell_type(), value@) == Ok::<CellV, ErrorV>(
                    x.as_cell(),
                ),
                Err(e) => read_cell_v(Self::cell_type(), value@) == Err::<CellV, ErrorV>(e@),
            },
    {
        match value {
            Value::String(s) => Ok(s.clone()),
            Value::Null => Ok(String::new()),
            _ => Err(Error::invalid_type("string", value)),
        }
    }
}

impl FromToonValue for i64 {
    open spec fn cell_type() -> CellType {
        CellType::I64
    }

    open spec fn as_cell(&self) -> CellV {
        CellV::I64(*self)
    }

    /// A number cell whose stored representation converts exactly.
    fn from_toon_value(value: &Value) -> (r: Result<i64, Error>)
        ensures
            match r {
                Ok(x) => read_cell_v(Self::cell_type(), value@) == Ok::<CellV, ErrorV>(
                    x.as_cell(),
                ),
                Err(e) => read_cell_v(Self::cell_type(), value@) == Err::<CellV, ErrorV>(e@),
            },
    {
        match value {
            Value::Number(n) => match n.as_i64() {
                Some(i) => Ok(i),
                None => Err(Error::conversion("number is not an i64")),
            },
            _ => Err(Error::invalid_type("i64", value)),
        }
    }
}

impl FromToonValue for u64 {
    open spec fn cell_type() -> CellType {
        CellType::U64
    }

    open spec fn as_cell(&self) -> CellV {
        CellV::U64(*self)
    }

    /// A number cell whose stored representation converts exactly.
    fn from_toon_value(value: &Value) -> (r: Result<u64, Error>)
        ensures
            match r {
                Ok(x) => read_cell_v(Self::cell_type(), value@) == Ok::<CellV, ErrorV>(
                    x.as_cell(),
                ),
                Err(e) => read_cell_v(Self::cell_type(), value@) == Err::<CellV, ErrorV>(e@),
            },
    {
        match value {
            Value::Number(n) => match n.as_u64() {
                Some(u) => Ok(u),
                None => Err(Error::conversion("number is not a u64")),
            },
            _ => Err(Error::invalid_type("u64", value)),
        }
    }
}

impl FromToonValue for bool {
    open spec fn cell_type() -> CellType {
        CellType::Bool
    }

    open spec fn as_cell(&self) -> CellV {
        CellV::Bool(*self)
    }

    /// A boolean cell exactly.
    fn from_toon_value(value: &Value) -> (r: Result<bool, Error>)
        ensures
            match r {
                Ok(x) => read_cell_v(Self::cell_type(), value@) == Ok::<CellV, ErrorV>(
                    x.as_cell(),
                ),
                Err(e) => read_cell_v(Self::cell_type(), value@) == Err::<CellV, ErrorV>(e@),
            },
    {
        match value {
            Value::Bool(b) => Ok(*b),
            _ => Err(Error::invalid_type("bool", value)),
        }
    }
}

impl<T: FromToonValue> FromToonValue for Option<T> {
    open spec fn cell_type() -> CellType {
        opt_of(T::cell_type())
    }

    open spec fn as_cell(&self) -> CellV {
        match self {
            Some(x) => x.as_cell(),
            None => CellV::Null,
        }
    }

    /// A null cell reads as absent; anything else reads through the
    /// underlying type.
    fn from_toon_value(value: &Value) -> (r: Result<Option<T>, Error>)
        ensures
            match r {
                Ok(x) => read_cell_v(Self::cell_type(), value@) == Ok::<CellV, ErrorV>(
                    x.as_cell(),
                ),
                Err(e) => read_cell_v(Self::cell_type(), value@) == Err::<CellV, ErrorV>(e@),
            },
    {
        proof {
            lemma_read_opt(T::cell_type(), value@);
        }
        match value {
            Value::Null => Ok(None),
            _ => match T::from_toon_value(value) {
                Ok(x) => Ok(Some(x)),
                Err(e) => Err(e),
            },
        }
    }
}

/// A type that can be written out as a cell value: the write capability of
/// the cell conversion protocol.
pub trait IntoToonValue {
    /// The cell this value stands for.
    spec fn to_cell(&self) -> CellV;

    /// Writes this value out as a cell value.
    fn to_toon_value(&self) -> (r: Value)
        ensures
            r@ == cell_to_vdata(self.to_cell()),
    ;
}

impl IntoToonValue for String {
    open spec fn to_cell(&self) -> CellV {
        CellV::Str(self@)
    }

    fn to_toon_value(&self) -> (r: Value)
        ensures
            r@ == cell_to_vdata(self.to_cell()),
    {
        Value::String(self.clone())
    }
}

impl IntoToonValue for &str {
    open spec fn to_cell(&self) -> CellV {
        CellV::Str((*self)@)
    }

    fn to_toon_value(&self) -> (r: Value)
        ensures
            r@ == cell_to_vdata(self.to_cell()),
    {
        Value::String((*self).to_owned())
    }
}

impl IntoToonValue for i64 {
    open spec fn to_cell(&self) -> CellV {
        CellV::I64(*self)
    }

    fn to_toon_value(&self) -> (r: Value)
        ensures
            r@ == cell_to_vdata(self.to_cell()),
    {
        Value::Number(Number::I64(*self))
    }
}

impl IntoToonValue for u64 {
    open spec fn to_cell(&self) -> CellV {
        CellV::U64(*self)
    }

    fn to_toon_value(&self) -> (r: Value)
        ensures
            r@ == cell_to_vdata(self.to_cell()),
    {
        Value::Number(Number::U64(*self))
    }
}

impl IntoToonValue for i32 {
    /// A narrower signed integer promotes to the widest signed width.
    open spec fn to_cell(&self) -> CellV {
        CellV::I64(*self as i64)
    }

    fn to_toon_value(&self) -> (r: Value)
        ensures
            r@ == cell_to_vdata(self.to_cell()),
    {
        Value::Number(Number::I64(*self as i64))
    }
}

impl IntoToonValue for u32 {
    /// A narrower unsigned integer promotes to the widest unsigned width.
    open spec fn to_cell(&self) -> CellV {
        CellV::U64(*self as u64)
    }

    fn to_toon_value(&self) -> (r: Value)
        ensures
            r@ == cell_to_vdata(self.to_cell()),
    {
        Value::Number(Number::U64(*self as u64))
    }
}

impl IntoToonValue for bool {
    open spec fn to_cell(&self) -> CellV {
        CellV::Bool(*self)
    }

    fn to_toon_value(&self) -> (r: Value)
        ensures
            r@ == cell_to_vdata(self.to_cell()),
    {
        Value::Bool(*self)
    }
}

impl<T: IntoToonValue> IntoToonValue for Option<T> {
    /// An absent value writes `Null`; a present one writes as its type does.
    open spec fn to_cell(&self) -> CellV {
        match self {
            Some(x) => x.to_cell(),
            None => CellV::Null,
        }
    }

    fn to_toon_value(&self) -> (r: Value)
        ensures
            r@ == cell_to_vdata(self.to_cell()),
    {
        match self {
            Some(x) => x.to_toon_value(),
            None => Value::Null,
        }
    }
}

/// A type that converts into a whole value, for building values in code:
/// narrower integers promote to the widest width of their signedness.
pub trait IntoValue {
    /// The value this converts to.
    spec fn value_model(&self) -> VData;

    /// Converts this into a value.
    fn into_value(self) -> (r: Value)
        ensures
            r@ == self.value_model(),
    ;
}

impl IntoValue for i64 {
    open spec fn value_model(&self) -> VData {
        VData::Number(Number::I64(*self))
    }

    fn into_value(self) -> (r: Value)
        ensures
            r@ == self.value_model(),
    {
        Value::Number(Number::I64(self))
    }
}

impl IntoValue for u64 {
    open spec fn value_model(&self) -> VData {
        VData::Number(Number::U64(*self))
    }

    fn into_value(self) -> (r: Value)
        ensures
            r@ == self.value_model(),
    {
        Value::Number(Number::U64(self))
    }
}

impl IntoValue for i8 {
    open spec fn value_model(&self) -> VData {
        VData::Number(Number::I64(*self as i64))
    }

    fn into_value(self) -> (r: Value)
        ensures
            r@ == self.value_model(),
    {
        Value::Number(Number::I64(self as i64))
    }
}

impl IntoValue for i16 {
    open spec fn value_model(&self) -> VData {
        VData::Number(Number::I64(*self as i64))
    }

    fn into_value(self) -> (r: Value)
        ensures
            r@ == self.value_model(),
    {
        Value::Number(Number::I64(self as i64))
    }
}

impl IntoValue for i32 {
    open spec fn value_model(&self) -> VData {
        VData::Number(Number::I64(*self as i64))
    }

    fn into_value(self) -> (r: Value)
        ensures
            r@ == self.value_model(),
    {
        Value::Number(Number::I64(self as i64))
    }
}

impl IntoValue for isize {
    open spec fn value_model(&self) -> VData {
        VData::Number(Number::I64(*self as i64))
    }

    fn into_value(self) -> (r: Value)
        ensures
            r@ == self.value_model(),
    {
        Value::Number(Number::I64(self as i64))
    }
}

impl IntoValue for u8 {
    open spec fn value_model(&self) -> VData {
        VData::Number(Number::U64(*self as u64))
    }

    fn into_value(self) -> (r: Value)
        ensures
            r@ == self.value_model(),
    {
        Value::Number(Number::U64(self as u64))
    }
}

impl IntoValue for u16 {
    open spec fn value_model(&self) -> VData {
        VData::Number(Number::U64(*self as u64))
    }

    fn into_value(self) -> (r: Value)
        ensures
            r@ == self.value_model(),
    {
        Value::Number(Number::U64(self as u64))
    }
}

impl IntoValue for u32 {
    open spec fn value_model(&self) -> VData {
        VData::Number(Number::U64(*self as u64))
    }

    fn into_value(self) -> (r: Value)
        ensures
            r@ == self.value_model(),
    {
        Value::Number(Number::U64(self as u64))
    }
}

impl IntoValue for usize {
    open spec fn value_model(&self) -> VData {
        VData::Number(Number::U64(*self as u64))
    }

    fn into_value(self) -> (r: Value)
        ensures
            r@ == self.value_model(),
    {
        Value::Number(Number::U64(self as u64))
    }
}

impl<T: IntoValue> IntoValue for Option<T> {
    open spec fn value_model(&self) -> VData {
        match self {
            Some(x) => x.value_model(),
            None => VData::Null,
        }
    }

    fn into_value(self) -> (r: Value)
        ensures
            r@ == self.value_model(),
    {
        match self {
            Some(x) => x.into_value(),
            None => Value::Null,
        }
    }
}

/// A record type that encodes as a table. Implementations hold a schema for
/// the type — built once with `Schema::new` — and delegate to `encode_table`,
/// `decode_table` and `get_row`, converting between the type's fields and
/// record cell lists.
pub trait ToonTable: Sized {
    /// The column names of this type's table, in schema order.
    fn columns() -> Vec<String>;

    /// Encodes a slice of records as a table value.
    fn to_toon_table(rows: &[Self]) -> Value;

    /// Decodes a table value back into records.
    fn from_toon_table(value: &Value) -> Result<Vec<Self>, Error>;

    /// Decodes a table and selects one record by position; an index at or
    /// past the decoded length reports the index and the decoded length.
    fn get_row(value: &Value, index: usize) -> Result<Self, Error> {
        let mut rows = match Self::from_toon_table(value) {
            Ok(rows) => rows,
            Err(e) => {
                return Err(e);
            },
        };
        let len = rows.len();
        if index < len {
            Ok(rows.remove(index))
        } else {
            Err(Error::RowOutOfBounds { index, len })
        }
    }
}

} // verus!

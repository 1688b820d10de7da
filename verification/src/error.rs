//! The unified error type that encoding and decoding surface.

use vstd::prelude::*;
use vstd::string::StringExecFns;

verus! {

/// An error from parsing, printing, or table encoding and decoding.
///
/// Every variant carries structured context — names, indices, lengths — so a
/// caller can tell a schema problem from bad data or a bounds problem without
/// matching on display text.
#[derive(Debug, PartialEq)]
pub enum Error {
    /// An error while writing values out to text.
    Serialize(String),
    /// An error while reading values in from text.
    Deserialize(String),
    /// The value is not shaped like a table.
    InvalidTable(String),
    /// A schema column is absent from the table and has no default configured.
    MissingColumn(String),
    /// A cell holds the right variant but its value cannot be represented in
    /// the target type.
    ConversionError(String),
    /// A cell's variant does not match what the target type requires.
    InvalidType { expected: String, got: String },
    /// A row index at or beyond the decoded length.
    RowOutOfBounds { index: usize, len: usize },
    /// A cell index at or beyond a row's length.
    ColumnOutOfBounds { index: usize, len: usize },
}

/// The mathematical model of an `Error`.
#[verifier::ext_equal]
pub enum ErrorV {
    Serialize(Seq<char>),
    Deserialize(Seq<char>),
    InvalidTable(Seq<char>),
    MissingColumn(Seq<char>),
    ConversionError(Seq<char>),
    InvalidType { expected: Seq<char>, got: Seq<char> },
    RowOutOfBounds { index: usize, len: usize },
    ColumnOutOfBounds { index: usize, len: usize },
}

impl View for Error {
    type V = ErrorV;

    open spec fn view(&self) -> ErrorV {
        match self {
            Error::Serialize(m) => ErrorV::Serialize(m@),
            Error::Deserialize(m) => ErrorV::Deserialize(m@),
            Error::InvalidTable(m) => ErrorV::InvalidTable(m@),
            Error::MissingColumn(m) => ErrorV::MissingColumn(m@),
            Error::ConversionError(m) => ErrorV::ConversionError(m@),
            Error::InvalidType { expected, got } => ErrorV::InvalidType {
                expected: expected@,
                got: got@,
            },
            Error::RowOutOfBounds { index, len } => ErrorV::RowOutOfBounds {
                index: *index,
                len: *len,
            },
            Error::ColumnOutOfBounds { index, len } => ErrorV::ColumnOutOfBounds {
                index: *index,
                len: *len,
            },
        }
    }
}

impl Error {
    /// Makes a serialization error from a message.
    pub fn serialize(msg: &str) -> (r: Error)
        ensures
            r@ == ErrorV::Serialize(msg@),
    {
        Error::Serialize(String::from_str(msg))
    }

    /// Makes a deserialization error from a message.
    pub fn deserialize(msg: &str) -> (r: Error)
        ensures
            r@ == ErrorV::Deserialize(msg@),
    {
        Error::Deserialize(String::from_str(msg))
    }

    /// Makes an invalid-table error from a message.
    pub fn invalid_table(msg: &str) -> (r: Error)
        ensures
            r@ == ErrorV::InvalidTable(msg@),
    {
        Error::InvalidTable(String::from_str(msg))
    }

    /// Makes a missing-column error from the column's name.
    pub fn missing_column(name: &str) -> (r: Error)
        ensures
            r@ == ErrorV::MissingColumn(name@),
    {
        Error::MissingColumn(String::from_str(name))
    }

    /// Makes a conversion error from a message.
    pub fn conversion(msg: &str) -> (r: Error)
        ensures
            r@ == ErrorV::ConversionError(msg@),
    {
        Error::ConversionError(String::from_str(msg))
    }

    /// Makes an invalid-type error from the expected type's name and the
    /// value that was found instead.
    pub fn invalid_type(expected: &str, got: &crate::value::Value) -> (r: Error)
        ensures
            r@ == (ErrorV::InvalidType { expected: expected@, got: got.spec_kind_name() }),
    {
        Error::InvalidType {
            expected: String::from_str(expected),
            got: String::from_str(got.kind_name()),
        }
    }
}

/// The decimal digits of `n`, most significant first.
pub open spec fn spec_dec(n: nat) -> Seq<char>
    decreases n,
{
    if n < 10 {
        spec_digit(n)
    } else {
        spec_dec(n / 10) + spec_digit(n % 10)
    }
}

/// The character for one decimal digit.
pub open spec fn spec_digit(d: nat) -> Seq<char> {
    if d == 0 {
        "0"@
    } else if d == 1 {
        "1"@
    } else if d == 2 {
        "2"@
    } else if d == 3 {
        "3"@
    } else if d == 4 {
        "4"@
    } else if d == 5 {
        "5"@
    } else if d == 6 {
        "6"@
    } else if d == 7 {
        "7"@
    } else if d == 8 {
        "8"@
    } else {
        "9"@
    }
}

/// Writes a number in decimal.
pub fn dec_string(n: usize) -> (r: String)
    ensures
        r@ == spec_dec(n as nat),
    decreases n,
{
    let d = n % 10;
    let digit: &'static str = if d == 0 {
        "0"
    } else if d == 1 {
        "1"
    } else if d == 2 {
        "2"
    } else if d == 3 {
        "3"
    } else if d == 4 {
        "4"
    } else if d == 5 {
        "5"
    } else if d == 6 {
        "6"
    } else if d == 7 {
        "7"
    } else if d == 8 {
        "8"
    } else {
        "9"
    };
    if n < 10 {
        String::from_str(digit)
    } else {
        dec_string(n / 10).concat(digit)
    }
}

impl Error {
    /// The message this error displays.
    pub open spec fn spec_message(&self) -> Seq<char> {
        match self@ {
            ErrorV::Serialize(m) => "TOON serialization error: "@ + m,
            ErrorV::Deserialize(m) => "TOON deserialization error: "@ + m,
            ErrorV::InvalidTable(m) => "Invalid TOON table: "@ + m,
            ErrorV::MissingColumn(m) => "Missing required column: "@ + m,
            ErrorV::ConversionError(m) => "Conversion error: "@ + m,
            ErrorV::InvalidType { expected, got } => "Invalid value type: expected "@ + expected
                + ", got "@ + got,
            ErrorV::RowOutOfBounds { index, len } => "Row index "@ + spec_dec(index as nat)
                + " out of bounds (table has "@ + spec_dec(len as nat) + " rows)"@,
            ErrorV::ColumnOutOfBounds { index, len } => "Column index "@ + spec_dec(index as nat)
                + " out of bounds (table has "@ + spec_dec(len as nat) + " columns)"@,
        }
    }

    /// Renders the error as display text.
    pub fn message(&self) -> (r: String)
        ensures
            r@ == self.spec_message(),
    {
        match self {
            Error::Serialize(m) => String::from_str("TOON serialization error: ").concat(
                m.as_str(),
            ),
            Error::Deserialize(m) => String::from_str("TOON deserialization error: ").concat(
                m.as_str(),
            ),
            Error::InvalidTable(m) => String::from_str("Invalid TOON table: ").concat(m.as_str()),
            Error::MissingColumn(m) => String::from_str("Missing required column: ").concat(
                m.as_str(),
            ),
            Error::ConversionError(m) => String::from_str("Conversion error: ").concat(m.as_str()),
            Error::InvalidType { expected, got } => String::from_str(
                "Invalid value type: expected ",
            ).concat(expected.as_str()).concat(", got ").concat(got.as_str()),
            Error::RowOutOfBounds { index, len } => String::from_str("Row index ").concat(
                dec_string(*index).as_str(),
            ).concat(" out of bounds (table has ").concat(dec_string(*len).as_str()).concat(
                " rows)",
            ),
            Error::ColumnOutOfBounds { index, len } => String::from_str("Column index ").concat(
                dec_string(*index).as_str(),
            ).concat(" out of bounds (table has ").concat(dec_string(*len).as_str()).concat(
                " columns)",
            ),
        }
    }
}

} // verus!

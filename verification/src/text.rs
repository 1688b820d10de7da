//! Bridging the outside textual reader and printer's error type into the
//! library's error taxonomy.

use vstd::prelude::*;
use vstd::string::StrSliceExecFns;

use crate::error::{Error, ErrorV};
use serde_toon2::Error as TextCodecError;

verus! {

/// The outside text codec's error type, carried opaquely.
#[verifier::external_type_specification]
#[verifier::external_body]
pub struct ExTextCodecError(TextCodecError);

/// Relies on the `Display` impl of `serde_toon2::Error` to render its
/// message; nothing is assumed of the text that comes back.
#[verifier::external_body]
fn toon_error_message(err: &TextCodecError) -> (r: String) {
    err.to_string()
}

/// Whether `p` occurs in `s` as a contiguous run.
pub open spec fn spec_contains(s: Seq<char>, p: Seq<char>) -> bool {
    exists|i: int| 0 <= i && i + p.len() <= s.len() && #[trigger] s.subrange(i, i + p.len()) == p
}

/// Whether the pattern matches `s` starting at position `i`.
fn matches_at(s: &str, p: &str, i: usize, n: usize, m: usize) -> (r: bool)
    requires
        n == s@.len(),
        m == p@.len(),
        i + m <= n,
    ensures
        r == (s@.subrange(i as int, i as int + m as int) == p@),
{
    let mut j: usize = 0;
    while j < m
        invariant
            n == s@.len(),
            m == p@.len(),
            i + m <= n,
            0 <= j <= m,
            forall|q: int| 0 <= q < j ==> s@[i + q] == p@[q],
        decreases m - j,
    {
        if s.get_char(i + j) != p.get_char(j) {
            proof {
                assert(s@.subrange(i as int, i as int + m as int)[j as int] != p@[j as int]);
            }
            return false;
        }
        j = j + 1;
    }
    proof {
        assert(s@.subrange(i as int, i as int + m as int) =~= p@);
    }
    true
}

/// Whether the pattern occurs anywhere in `s`.
#[verifier::loop_isolation(false)]
pub fn str_contains(s: &str, p: &str) -> (r: bool)
    ensures
        r == spec_contains(s@, p@),
{
    let n = s.unicode_len();
    let m = p.unicode_len();
    if m == 0 {
        proof {
            assert(s@.subrange(0, 0 + p@.len() as int) =~= p@);
            assert(spec_contains(s@, p@));
        }
        return true;
    }
    if m > n {
        return false;
    }
    let mut i: usize = 0;
    while i <= n - m
        invariant
            1 <= m <= n,
            0 <= i <= n - m + 1,
            forall|q: int| 0 <= q < i ==> #[trigger] s@.subrange(q, q + m as int) != p@,
        decreases n - m - i + 1,
    {
        if matches_at(s, p, i, n, m) {
            proof {
                assert(spec_contains(s@, p@));
            }
            return true;
        }
        i = i + 1;
    }
    proof {
        if spec_contains(s@, p@) {
            let q = choose|q: int|
                0 <= q && q + p@.len() <= s@.len() && #[trigger] s@.subrange(q, q + p@.len())
                    == p@;
            assert(s@.subrange(q, q + m as int) != p@);
        }
    }
    false
}

/// Sorts a text codec error message into the serialization or the
/// deserialization variant: messages that speak of serializing, in either
/// case, become `Serialize`, all others `Deserialize`.
pub fn classify_text_error(msg: String) -> (r: Error)
    ensures
        (spec_contains(msg@, "serialize"@) || spec_contains(msg@, "Serialize"@)) ==> r@
            == ErrorV::Serialize(msg@),
        !(spec_contains(msg@, "serialize"@) || spec_contains(msg@, "Serialize"@)) ==> r@
            == ErrorV::Deserialize(msg@),
{
    if str_contains(msg.as_str(), "serialize") || str_contains(msg.as_str(), "Serialize") {
        Error::Serialize(msg)
    } else {
        Error::Deserialize(msg)
    }
}

impl From<TextCodecError> for Error {
    /// Renders the outside error's message and sorts it into the library's
    /// taxonomy. The message's content comes from the outside crate, so no
    /// exact value can be promised of the result here; the sorting itself is
    /// the contract of `classify_text_error`.
    fn from(err: TextCodecError) -> (r: Error) {
        classify_text_error(toon_error_message(&err))
    }
}

impl vstd::std_specs::convert::FromSpecImpl<TextCodecError> for Error {
    open spec fn obeys_from_spec() -> bool {
        false
    }

    open spec fn from_spec(err: TextCodecError) -> Error {
        Error::Serialize(vstd::pervasive::arbitrary())
    }
}

} // verus!

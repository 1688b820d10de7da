//! The structured value type that encoded tables take, and its model.

use vstd::prelude::*;

verus! {

broadcast use {vstd::std_specs::vec::axiom_vec_decreases_to_view, vstd::seq::axiom_seq_index_decreases};

/// A numeric scalar: a signed integer, an unsigned integer, or a
/// double-precision value carried as its IEEE-754 bit pattern.
#[derive(Clone, Copy, PartialEq, Eq, Structural, Debug)]
pub enum Number {
    I64(i64),
    U64(u64),
    F64(u64),
}

impl Number {
    /// The signed integer this number denotes exactly, if any.
    pub open spec fn spec_as_i64(self) -> Option<i64> {
        match self {
            Number::I64(i) => Some(i),
            Number::U64(u) => if u <= i64::MAX as u64 {
                Some(u as i64)
            } else {
                None
            },
            Number::F64(_) => None,
        }
    }

    /// The unsigned integer this number denotes exactly, if any.
    pub open spec fn spec_as_u64(self) -> Option<u64> {
        match self {
            Number::I64(i) => if i >= 0 {
                Some(i as u64)
            } else {
                None
            },
            Number::U64(u) => Some(u),
            Number::F64(_) => None,
        }
    }

    /// Converts to a signed integer when the stored representation denotes
    /// one exactly; a stored double never does.
    pub fn as_i64(&self) -> (r: Option<i64>)
        ensures
            r == self.spec_as_i64(),
    {
        match self {
            Number::I64(i) => Some(*i),
            Number::U64(u) => {
                if *u <= i64::MAX as u64 {
                    Some(*u as i64)
                } else {
                    None
                }
            },
            Number::F64(_) => None,
        }
    }

    /// Converts to an unsigned integer when the stored representation
    /// denotes one exactly.
    pub fn as_u64(&self) -> (r: Option<u64>)
        ensures
            r == self.spec_as_u64(),
    {
        match self {
            Number::I64(i) => {
                if *i >= 0 {
                    Some(*i as u64)
                } else {
                    None
                }
            },
            Number::U64(u) => Some(*u),
            Number::F64(_) => None,
        }
    }
}

/// A structured value: null, boolean, number, string, array, or an object
/// holding named entries.
#[derive(Debug, PartialEq)]
pub enum Value {
    Null,
    Bool(bool),
    Number(Number),
    String(String),
    Array(Vec<Value>),
    Object(ValueMap),
}

/// An object's entries: insertion-ordered named values, where inserting an
/// existing key overwrites its value in place.
#[derive(Debug, PartialEq)]
pub struct ValueMap {
    entries: Vec<(String, Value)>,
}

/// The mathematical model of a `Value`.
#[verifier::ext_equal]
pub enum VData {
    Null,
    Bool(bool),
    Number(Number),
    String(Seq<char>),
    Array(Seq<VData>),
    Object(Seq<(Seq<char>, VData)>),
}

impl Value {
    pub open spec fn model(&self) -> VData
        decreases self,
        via Self::model_decreases
    {
        match self {
            Value::Null => VData::Null,
            Value::Bool(b) => VData::Bool(*b),
            Value::Number(n) => VData::Number(*n),
            Value::String(s) => VData::String(s@),
            Value::Array(a) => VData::Array(
                Seq::new(
                    a@.len(),
                    |i: int|
                        if 0 <= i < a@.len() {
                            a@[i].model()
                        } else {
                            VData::Null
                        },
                ),
            ),
            Value::Object(m) => VData::Object(m.model()),
        }
    }

    #[via_fn]
    proof fn model_decreases(&self) {
        match self {
            Value::Array(a) => {
                assert(decreases_to!(*self => *a));
                assert(decreases_to!(*a => a@));
            },
            Value::Object(m) => {
                assert(decreases_to!(*self => *m));
            },
            _ => {},
        }
    }

    /// A short name for the variant this value holds, used in error reports.
    pub open spec fn spec_kind_name(&self) -> Seq<char> {
        kind_of(self.model())
    }

    /// A short name for the variant this value holds.
    pub fn kind_name(&self) -> (r: &'static str)
        ensures
            r@ == self.spec_kind_name(),
    {
        match self {
            Value::Null => "null",
            Value::Bool(_) => "boolean",
            Value::Number(_) => "number",
            Value::String(_) => "string",
            Value::Array(_) => "array",
            Value::Object(_) => "object",
        }
    }
}

impl View for Value {
    type V = VData;

    open spec fn view(&self) -> VData {
        self.model()
    }
}

/// A short name for the variant a value holds, used in error reports.
pub open spec fn kind_of(v: VData) -> Seq<char> {
    match v {
        VData::Null => "null"@,
        VData::Bool(_) => "boolean"@,
        VData::Number(_) => "number"@,
        VData::String(_) => "string"@,
        VData::Array(_) => "array"@,
        VData::Object(_) => "object"@,
    }
}

/// Whether position `i` holds the first entry with key `k` in `s`.
pub open spec fn first_key_at(s: Seq<(Seq<char>, VData)>, k: Seq<char>, i: int) -> bool {
    &&& 0 <= i < s.len()
    &&& s[i].0 == k
    &&& forall|j: int| 0 <= j < i ==> s[j].0 != k
}

/// Whether any entry in `s` has key `k`.
pub open spec fn has_key(s: Seq<(Seq<char>, VData)>, k: Seq<char>) -> bool {
    exists|i: int| 0 <= i < s.len() && s[i].0 == k
}

/// The value of the first entry with key `k` in `s`, if any.
pub open spec fn map_get(s: Seq<(Seq<char>, VData)>, k: Seq<char>) -> Option<VData>
    decreases s.len(),
{
    if s.len() == 0 {
        None
    } else if s[0].0 == k {
        Some(s[0].1)
    } else {
        map_get(s.drop_first(), k)
    }
}

/// `map_get` returns the value at the first matching position.
pub proof fn lemma_map_get_at(s: Seq<(Seq<char>, VData)>, k: Seq<char>, i: int)
    requires
        first_key_at(s, k, i),
    ensures
        map_get(s, k) == Some(s[i].1),
    decreases s.len(),
{
    if i > 0 {
        assert(first_key_at(s.drop_first(), k, i - 1));
        lemma_map_get_at(s.drop_first(), k, i - 1);
    }
}

/// `map_get` finds an entry exactly when some entry has the key.
pub proof fn lemma_map_get_has_key(s: Seq<(Seq<char>, VData)>, k: Seq<char>)
    ensures
        (map_get(s, k) is Some) <==> has_key(s, k),
    decreases s.len(),
{
    if s.len() == 0 {
    } else if s[0].0 == k {
        assert(has_key(s, k));
    } else {
        lemma_map_get_has_key(s.drop_first(), k);
        if has_key(s, k) {
            let i = choose|i: int| 0 <= i < s.len() && s[i].0 == k;
            assert(s.drop_first()[i - 1].0 == k);
            assert(has_key(s.drop_first(), k));
        }
        if has_key(s.drop_first(), k) {
            let i = choose|i: int|
                0 <= i < s.drop_first().len() && s.drop_first()[i].0 == k;
            assert(s[i + 1].0 == k);
            assert(has_key(s, k));
        }
    }
}

/// Compares two string slices character by character.
pub fn str_eq(a: &str, b: &str) -> (r: bool)
    ensures
        r == (a@ == b@),
{
    let alen = a.unicode_len();
    let blen = b.unicode_len();
    if alen != blen {
        return false;
    }
    let mut i: usize = 0;
    while i < alen
        invariant
            alen == a@.len(),
            alen == b@.len(),
            0 <= i <= alen,
            forall|j: int| 0 <= j < i ==> a@[j] == b@[j],
        decreases alen - i,
    {
        if a.get_char(i) != b.get_char(i) {
            return false;
        }
        i = i + 1;
    }
    proof {
        assert(a@ =~= b@);
    }
    true
}

impl ValueMap {
    pub closed spec fn model(&self) -> Seq<(Seq<char>, VData)>
        decreases self,
        via Self::model_decreases
    {
        Seq::new(
            self.entries@.len(),
            |i: int|
                if 0 <= i < self.entries@.len() {
                    (self.entries@[i].0@, self.entries@[i].1.model())
                } else {
                    (Seq::empty(), VData::Null)
                },
        )
    }

    #[via_fn]
    proof fn model_decreases(&self) {
        assert(decreases_to!(*self => self.entries));
        assert(decreases_to!(self.entries => self.entries@));
    }

    /// Makes an empty object.
    pub fn new() -> (r: ValueMap)
        ensures
            r.model() == Seq::<(Seq<char>, VData)>::empty(),
    {
        let r = ValueMap { entries: Vec::new() };
        proof {
            assert(r.model() =~= Seq::<(Seq<char>, VData)>::empty());
        }
        r
    }

    /// The entries in insertion order, for callers that walk the object.
    pub fn entries_list(&self) -> (r: &Vec<(String, Value)>)
        ensures
            r@.len() == self.model().len(),
            forall|j: int|
                0 <= j < r@.len() ==> (#[trigger] r@[j].0@, r@[j].1.model())
                    == self.model()[j],
    {
        &self.entries
    }

    /// The number of entries.
    pub fn len(&self) -> (r: usize)
        ensures
            r == self.model().len(),
    {
        self.entries.len()
    }

    /// Whether the object has no entries.
    pub fn is_empty(&self) -> (r: bool)
        ensures
            r == (self.model().len() == 0),
    {
        self.entries.len() == 0
    }

    /// The position of the first entry with this key, if any.
    fn index_of_key(&self, key: &str) -> (r: Option<usize>)
        ensures
            match r {
                Some(i) => first_key_at(self.model(), key@, i as int),
                None => !has_key(self.model(), key@),
            },
    {
        let ghost s = self.model();
        let n = self.entries.len();
        let mut i: usize = 0;
        while i < n
            invariant
                n == self.entries@.len(),
                s == self.model(),
                s.len() == n,
                0 <= i <= n,
                forall|j: int| 0 <= j < i ==> s[j].0 != key@,
        decreases n - i,
        {
            if str_eq(self.entries[i].0.as_str(), key) {
                proof {
                    assert(s[i as int].0 == key@);
                }
                return Some(i);
            }
            i = i + 1;
        }
        proof {
            if has_key(s, key@) {
                let j = choose|j: int| 0 <= j < s.len() && s[j].0 == key@;
                assert(s[j].0 != key@);
            }
        }
        None
    }

    /// Looks a key up, returning the first entry that carries it.
    pub fn get(&self, key: &str) -> (r: Option<&Value>)
        ensures
            match r {
                Some(v) => map_get(self.model(), key@) == Some(v.model()),
                None => map_get(self.model(), key@) is None,
            },
    {
        match self.index_of_key(key) {
            Some(i) => {
                proof {
                    lemma_map_get_at(self.model(), key@, i as int);
                }
                Some(&self.entries[i].1)
            },
            None => {
                proof {
                    lemma_map_get_has_key(self.model(), key@);
                }
                None
            },
        }
    }

    /// Whether the object has an entry with this key.
    pub fn contains_key(&self, key: &str) -> (r: bool)
        ensures
            r == has_key(self.model(), key@),
    {
        let r = self.get(key);
        proof {
            lemma_map_get_has_key(self.model(), key@);
        }
        match r {
            Some(_) => true,
            None => false,
        }
    }

    /// Inserts an entry; an existing key keeps its position and its value is
    /// overwritten, a new key goes at the end.
    pub fn insert(&mut self, key: String, value: Value)
        ensures
            has_key(old(self).model(), key@) ==> exists|i: int|
                first_key_at(old(self).model(), key@, i) && final(self).model()
                    == old(self).model().update(i, (key@, value.model())),
            !has_key(old(self).model(), key@) ==> final(self).model() == old(self).model().push(
                (key@, value.model()),
            ),
    {
        let ghost s = self.model();
        let ghost pair = (key@, value.model());
        let ghost es = self.entries@;
        let found = self.index_of_key(key.as_str());
        let kv = (key, value);
        let ghost gkv = kv;
        proof {
            assert(gkv.0@ == pair.0);
            assert(gkv.1.model() == pair.1);
        }
        match found {
            Some(i) => {
                self.entries.remove(i);
                self.entries.insert(i, kv);
                proof {
                    let ne = self.entries@[i as int];
                    assert(ne == gkv);
                    assert(self.entries@ =~= es.update(i as int, ne));
                    assert(self.model() =~= s.update(i as int, pair));
                    assert(has_key(s, key@));
                }
            },
            None => {
                self.entries.push(kv);
                proof {
                    assert(self.entries@.last() == gkv);
                    assert(self.model() =~= s.push(pair));
                }
            },
        }
    }
}

impl From<bool> for Value {
    /// Wraps a boolean.
    fn from(b: bool) -> (r: Value) {
        Value::Bool(b)
    }
}

impl vstd::std_specs::convert::FromSpecImpl<bool> for Value {
    open spec fn obeys_from_spec() -> bool {
        true
    }

    open spec fn from_spec(b: bool) -> Value {
        Value::Bool(b)
    }
}

impl From<i64> for Value {
    /// Wraps a signed integer.
    fn from(i: i64) -> (r: Value) {
        Value::Number(Number::I64(i))
    }
}

impl vstd::std_specs::convert::FromSpecImpl<i64> for Value {
    open spec fn obeys_from_spec() -> bool {
        true
    }

    open spec fn from_spec(i: i64) -> Value {
        Value::Number(Number::I64(i))
    }
}

impl From<u64> for Value {
    /// Wraps an unsigned integer.
    fn from(u: u64) -> (r: Value) {
        Value::Number(Number::U64(u))
    }
}

impl vstd::std_specs::convert::FromSpecImpl<u64> for Value {
    open spec fn obeys_from_spec() -> bool {
        true
    }

    open spec fn from_spec(u: u64) -> Value {
        Value::Number(Number::U64(u))
    }
}

impl From<String> for Value {
    /// Wraps an owned string.
    fn from(s: String) -> (r: Value) {
        Value::String(s)
    }
}

impl vstd::std_specs::convert::FromSpecImpl<String> for Value {
    open spec fn obeys_from_spec() -> bool {
        true
    }

    open spec fn from_spec(s: String) -> Value {
        Value::String(s)
    }
}

impl From<&str> for Value {
    /// Copies a string slice. The copy is a fresh string, so no exact spec
    /// value can name it here; contracts go through `Value::String` instead.
    fn from(s: &str) -> (r: Value) {
        Value::String(s.to_owned())
    }
}

impl vstd::std_specs::convert::FromSpecImpl<&str> for Value {
    open spec fn obeys_from_spec() -> bool {
        false
    }

    open spec fn from_spec(s: &str) -> Value {
        Value::Null
    }
}

impl From<Vec<Value>> for Value {
    /// Wraps a list of values as an array.
    fn from(a: Vec<Value>) -> (r: Value) {
        Value::Array(a)
    }
}

impl vstd::std_specs::convert::FromSpecImpl<Vec<Value>> for Value {
    open spec fn obeys_from_spec() -> bool {
        true
    }

    open spec fn from_spec(a: Vec<Value>) -> Value {
        Value::Array(a)
    }
}

} // verus!

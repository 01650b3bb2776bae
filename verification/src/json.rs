//! A JSON document as the library holds it.
use vstd::prelude::*;
use vstd::string::*;
use crate::text::{str_eq, owned, concat3};

verus! {

/// A JSON number, as serde_json tells its three kinds apart. A fractional or
/// exponent number is kept by the bits of its IEEE-754 encoding.
#[derive(Debug, Clone)]
pub enum JsonNumber {
    PosInt(u64),
    NegInt(i64),
    Float(u64),
}

/// A JSON value. An object keeps its members in order, each key with its value.
#[derive(Debug)]
pub enum JsonValue {
    Null,
    Bool(bool),
    Number(JsonNumber),
    String(String),
    Array(Vec<JsonValue>),
    Object(Vec<(String, JsonValue)>),
}

/// Position of the first member of `entries` whose key is `key`, or -1.
pub open spec fn first_key_index(entries: Seq<(String, JsonValue)>, key: Seq<char>) -> int
    decreases entries.len(),
{
    if entries.len() == 0 {
        -1
    } else if entries[0].0@ == key {
        0
    } else {
        let r = first_key_index(entries.drop_first(), key);
        if r < 0 { -1 } else { r + 1 }
    }
}

pub proof fn lemma_first_key_index(entries: Seq<(String, JsonValue)>, key: Seq<char>)
    ensures
        -1 <= first_key_index(entries, key) < entries.len(),
        first_key_index(entries, key) >= 0 ==> entries[first_key_index(entries, key)].0@ == key,
        forall|j: int| 0 <= j < entries.len() && (first_key_index(entries, key) < 0 || j < first_key_index(entries, key))
            ==> #[trigger] entries[j].0@ != key,
    decreases entries.len(),
{
    if entries.len() > 0 && entries[0].0@ != key {
        lemma_first_key_index(entries.drop_first(), key);
        assert forall|j: int| 0 <= j < entries.len() && (first_key_index(entries, key) < 0 || j < first_key_index(entries, key))
            implies #[trigger] entries[j].0@ != key by {
            if j > 0 {
                assert(entries[j] == entries.drop_first()[j - 1]);
            }
        }
    }
}

impl JsonValue {
    /// The member `key` of an object; `None` for a missing key or a value that is no object.
    pub open spec fn member(self, key: Seq<char>) -> Option<JsonValue> {
        match self {
            JsonValue::Object(entries) => {
                let i = first_key_index(entries@, key);
                if i < 0 { None } else { Some(entries@[i].1) }
            },
            _ => None,
        }
    }

    /// The text of a string value.
    pub open spec fn string_text(self) -> Option<Seq<char>> {
        match self {
            JsonValue::String(s) => Some(s@),
            _ => None,
        }
    }

    /// The member `key` as text, when it is present and a string.
    pub open spec fn member_text(self, key: Seq<char>) -> Option<Seq<char>> {
        match self.member(key) {
            Some(v) => v.string_text(),
            None => None,
        }
    }


    /// An integer that fits in an i64 or a u64.
    pub open spec fn is_integer_spec(self) -> bool {
        match self {
            JsonValue::Number(JsonNumber::Float(_)) => false,
            JsonValue::Number(_) => true,
            _ => false,
        }
    }

    /// The value of `key` in an object.
    pub fn get(&self, key: &str) -> (r: Option<&JsonValue>)
        ensures
            match r {
                Some(v) => self.member(key@) == Some(*v),
                None => self.member(key@) is None,
            },
    {
        match self {
            JsonValue::Object(entries) => {
                let mut i: usize = 0;
                proof { lemma_first_key_index(entries@, key@); }
                while i < entries.len()
                    invariant
                        *self == JsonValue::Object(*entries),
                        i <= entries@.len(),
                        forall|j: int| 0 <= j < i ==> #[trigger] entries@[j].0@ != key@,
                        -1 <= first_key_index(entries@, key@) < entries@.len(),
                        first_key_index(entries@, key@) >= 0 ==> entries@[first_key_index(entries@, key@)].0@ == key@,
                        forall|j: int| 0 <= j < entries@.len() && (first_key_index(entries@, key@) < 0 || j < first_key_index(entries@, key@))
                            ==> #[trigger] entries@[j].0@ != key@,
                    decreases entries@.len() - i,
                {
                    if str_eq(entries[i].0.as_str(), key) {
                        assert(entries@[i as int].0@ == key@);
                        assert(first_key_index(entries@, key@) == i as int);
                        assert(self.member(key@) == Some(entries@[i as int].1));
                        return Some(&entries[i].1);
                    }
                    i = i + 1;
                }
                None
            },
            _ => None,
        }
    }

    /// The text of a string value.
    pub fn as_str(&self) -> (r: Option<&str>)
        ensures
            match r {
                Some(s) => self.string_text() == Some(s@),
                None => self.string_text() is None,
            },
    {
        match self {
            JsonValue::String(s) => Some(s.as_str()),
            _ => None,
        }
    }

    pub fn as_array(&self) -> (r: Option<&Vec<JsonValue>>)
        ensures
            match r {
                Some(items) => *self == JsonValue::Array(*items),
                None => !(self is Array),
            },
    {
        match self {
            JsonValue::Array(items) => Some(items),
            _ => None,
        }
    }

    pub fn as_object(&self) -> (r: Option<&Vec<(String, JsonValue)>>)
        ensures
            match r {
                Some(entries) => *self == JsonValue::Object(*entries),
                None => !(self is Object),
            },
    {
        match self {
            JsonValue::Object(entries) => Some(entries),
            _ => None,
        }
    }

    pub fn is_null(&self) -> (r: bool)
        ensures r == (self is Null),
    {
        match self { JsonValue::Null => true, _ => false }
    }

    pub fn is_boolean(&self) -> (r: bool)
        ensures r == (self is Bool),
    {
        match self { JsonValue::Bool(_) => true, _ => false }
    }

    pub fn is_string(&self) -> (r: bool)
        ensures r == (self is String),
    {
        match self { JsonValue::String(_) => true, _ => false }
    }

    pub fn is_number(&self) -> (r: bool)
        ensures r == (self is Number),
    {
        match self { JsonValue::Number(_) => true, _ => false }
    }

    pub fn is_object(&self) -> (r: bool)
        ensures r == (self is Object),
    {
        match self { JsonValue::Object(_) => true, _ => false }
    }

    pub fn is_array(&self) -> (r: bool)
        ensures r == (self is Array),
    {
        match self { JsonValue::Array(_) => true, _ => false }
    }

    /// The number is an integer, as serde_json's `is_i64() || is_u64()`.
    pub fn is_integer(&self) -> (r: bool)
        ensures r == self.is_integer_spec(),
    {
        match self {
            JsonValue::Number(JsonNumber::Float(_)) => false,
            JsonValue::Number(_) => true,
            _ => false,
        }
    }
}


impl JsonValue {
    /// The member `key` when it is present and not null.
    pub open spec fn present(self, key: Seq<char>) -> Option<JsonValue> {
        match self.member(key) {
            Some(JsonValue::Null) => None,
            other => other,
        }
    }

    /// The member `key` as a boolean.
    pub open spec fn member_bool(self, key: Seq<char>) -> Option<bool> {
        match self.member(key) {
            Some(JsonValue::Bool(b)) => Some(b),
            _ => None,
        }
    }

    /// The member `key` as an integer that fits in an i64.
    pub open spec fn member_i64(self, key: Seq<char>) -> Option<int> {
        match self.member(key) {
            Some(JsonValue::Number(JsonNumber::PosInt(u))) => if u <= i64::MAX { Some(u as int) } else { None },
            Some(JsonValue::Number(JsonNumber::NegInt(i))) => Some(i as int),
            _ => None,
        }
    }

    /// The member `key` is missing, null, or a string.
    pub open spec fn optional_text_ok(self, key: Seq<char>) -> bool {
        match self.present(key) {
            None => true,
            Some(v) => v is String,
        }
    }
}

/// The message for a missing member.
pub open spec fn missing_message(key: Seq<char>) -> Seq<char> {
    "missing field `"@ + key + "`"@
}

/// The message for a member of the wrong kind.
pub open spec fn wrong_kind_message(key: Seq<char>) -> Seq<char> {
    "invalid type for field `"@ + key + "`"@
}

/// The message for member `key` of `v`, missing or of the wrong kind.
pub open spec fn field_message(v: JsonValue, key: Seq<char>) -> Seq<char> {
    if v.member(key) is None { missing_message(key) } else { wrong_kind_message(key) }
}

/// A missing member, or one of the wrong kind.
fn field_error(v: &JsonValue, key: &str) -> (r: String)
    ensures
        r@ == field_message(*v, key@),
{
    match v.get(key) {
        None => concat3("missing field `", key, "`"),
        Some(_) => concat3("invalid type for field `", key, "`"),
    }
}

/// The message for a value that should be an object.
pub fn not_an_object() -> (r: String)
    ensures
        r@ == "invalid type: expected an object"@,
{
    owned("invalid type: expected an object")
}

/// The member `key` as text.
pub fn required_text<'a>(v: &'a JsonValue, key: &str) -> (r: Result<&'a str, String>)
    ensures
        r is Ok <==> v.member_text(key@) is Some,
        r matches Ok(s) ==> v.member_text(key@) == Some(s@),
        r matches Err(m) ==> m@ == field_message(*v, key@),
{
    match v.get(key) {
        Some(x) => match x.as_str() {
            Some(s) => Ok(s),
            None => Err(field_error(v, key)),
        },
        None => Err(field_error(v, key)),
    }
}

/// The member `key` as text, owned.
pub fn required_string(v: &JsonValue, key: &str) -> (r: Result<String, String>)
    ensures
        r is Ok <==> v.member_text(key@) is Some,
        r matches Ok(s) ==> v.member_text(key@) == Some(s@),
        r matches Err(m) ==> m@ == field_message(*v, key@),
{
    match required_text(v, key) {
        Ok(s) => Ok(owned(s)),
        Err(m) => Err(m),
    }
}

/// The member `key` as optional text: missing and null give `None`.
pub fn optional_string(v: &JsonValue, key: &str) -> (r: Result<Option<String>, String>)
    ensures
        r is Ok <==> v.optional_text_ok(key@),
        r matches Ok(o) ==> crate::error::opt_text(o) == v.member_text(key@),
        r matches Err(m) ==> m@ == field_message(*v, key@),
{
    match v.get(key) {
        None => Ok(None),
        Some(x) => match x {
            JsonValue::Null => Ok(None),
            JsonValue::String(s) => Ok(Some(s.clone())),
            _ => Err(field_error(v, key)),
        },
    }
}

/// The member `key` as a boolean.
pub fn required_bool(v: &JsonValue, key: &str) -> (r: Result<bool, String>)
    ensures
        r is Ok <==> v.member_bool(key@) is Some,
        r matches Ok(b) ==> v.member_bool(key@) == Some(b),
        r matches Err(m) ==> m@ == field_message(*v, key@),
{
    match v.get(key) {
        Some(JsonValue::Bool(b)) => Ok(*b),
        _ => Err(field_error(v, key)),
    }
}

/// The member `key` as an i64.
pub fn required_i64(v: &JsonValue, key: &str) -> (r: Result<i64, String>)
    ensures
        r is Ok <==> v.member_i64(key@) is Some,
        r matches Ok(i) ==> v.member_i64(key@) == Some(i as int),
        r matches Err(m) ==> m@ == field_message(*v, key@),
{
    match v.get(key) {
        Some(JsonValue::Number(JsonNumber::PosInt(u))) => {
            if *u <= 9223372036854775807u64 {
                Ok(*u as i64)
            } else {
                Err(field_error(v, key))
            }
        },
        Some(JsonValue::Number(JsonNumber::NegInt(i))) => Ok(*i),
        _ => Err(field_error(v, key)),
    }
}

/// The member `key` when it is present and not null.
pub fn present_member<'a>(v: &'a JsonValue, key: &str) -> (r: Option<&'a JsonValue>)
    ensures
        match r {
            Some(x) => v.present(key@) == Some(*x),
            None => v.present(key@) is None,
        },
{
    match v.get(key) {
        Some(x) => if x.is_null() { None } else { Some(x) },
        None => None,
    }
}

/// The first member with key `key` is at `k` (or there is none, for -1) when
/// `key` is at `k` and at no earlier member.
pub proof fn lemma_first_key_index_is(entries: Seq<(String, JsonValue)>, key: Seq<char>, k: int)
    requires
        -1 <= k < entries.len(),
        k >= 0 ==> entries[k].0@ == key,
        forall|j: int| 0 <= j < entries.len() && (k < 0 || j < k) ==> #[trigger] entries[j].0@ != key,
    ensures
        first_key_index(entries, key) == k,
{
    lemma_first_key_index(entries, key);
    let f = first_key_index(entries, key);
    if f >= 0 && k >= 0 && f != k {
        if f < k {
            assert(entries[f].0@ != key);
        } else {
            assert(entries[k].0@ != key);
        }
    }
    if f >= 0 && k < 0 {
        assert(entries[f].0@ != key);
    }
    if f < 0 && k >= 0 {
        assert(entries[k].0@ != key);
    }
}

/// A member of an object is smaller than the object.
pub proof fn lemma_member_smaller(obj: JsonValue, key: Seq<char>)
    requires
        obj.member(key) is Some,
    ensures
        decreases_to!(obj => obj.member(key)->0),
{
    match obj {
        JsonValue::Object(entries) => {
            let i = first_key_index(entries@, key);
            lemma_first_key_index(entries@, key);
            assert(decreases_to!(obj => entries));
            assert(decreases_to!(entries => entries@));
            assert(decreases_to!(entries@ => entries@[i]));
            assert(decreases_to!(entries@[i] => entries@[i].1));
        },
        _ => {},
    }
}

/// An item of an array is smaller than the array.
pub proof fn lemma_item_smaller(arr: JsonValue, k: int)
    requires
        arr matches JsonValue::Array(items) && 0 <= k < items@.len(),
    ensures
        arr matches JsonValue::Array(items) && decreases_to!(arr => items@[k]),
{
    match arr {
        JsonValue::Array(items) => {
            assert(decreases_to!(arr => items));
            assert(decreases_to!(items => items@));
            assert(decreases_to!(items@ => items@[k]));
        },
        _ => {},
    }
}

} // verus!

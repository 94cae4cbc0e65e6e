//! JSON values as the plugin reads and writes them.
use vstd::prelude::*;

verus! {

#[verifier::external_type_specification]
#[verifier::external_body]
pub struct ExValue(serde_json::Value);

#[verifier::external_type_specification]
#[verifier::external_body]
pub struct ExNumber(serde_json::Number);

#[verifier::external_type_specification]
#[verifier::external_body]
pub struct ExJsonError(serde_json::Error);

/// A JSON value. The keys of an object that was parsed are in ascending order.
#[derive(Debug, PartialEq)]
pub enum Json {
    Null,
    Bool(bool),
    Number(serde_json::Number),
    Str(String),
    Array(Vec<Json>),
    Object(Vec<(String, Json)>),
}

/// What a `serde_json::Value` holds.
pub uninterp spec fn held(value: serde_json::Value) -> Json;

/// What `serde_json` parses from a text; none if it is no JSON.
pub uninterp spec fn parsed(text: Seq<char>) -> Option<Json>;

/// What `serde_json` prints for a value.
pub uninterp spec fn printed(json: Json) -> Seq<char>;

/// `a` comes before `b` in the order of texts.
pub open spec fn text_before(a: Seq<char>, b: Seq<char>) -> bool {
    exists|i: int| #[trigger]
        common_up_to(a, b, i) && i < b.len() && (i == a.len() || (i < a.len() && a[i] < b[i]))
}

/// The first `i` characters of `a` and of `b` are there, and are the same.
pub open spec fn common_up_to(a: Seq<char>, b: Seq<char>, i: int) -> bool {
    0 <= i <= a.len() && i <= b.len() && a.take(i) == b.take(i)
}

/// Every object in `json` lists its keys in ascending order, none twice.
pub open spec fn keys_ascend(json: Json) -> bool
    decreases json,
{
    match json {
        Json::Array(items) => forall|i: int|
            0 <= i < items@.len() ==> keys_ascend(#[trigger] items@[i]),
        Json::Object(fields) => {
            &&& forall|i: int| 0 <= i < fields@.len() ==> keys_ascend((#[trigger] fields@[i]).1)
            &&& forall|i: int, j: int|
                0 <= i < j < fields@.len() ==> text_before(
                    (#[trigger] fields@[i]).0@,
                    (#[trigger] fields@[j]).0@,
                )
        },
        _ => true,
    }
}

/// `serde_json::from_str` to a `serde_json::Value`.
#[verifier::external_body]
fn parse_value(text: &str) -> (res: Result<serde_json::Value, serde_json::Error>)
    ensures
        match res {
            Ok(value) => parsed(text@) == Some(held(value)),
            Err(_) => parsed(text@) is None,
        },
{
    serde_json::from_str(text)
}

/// What the value holds, variant by variant. `serde_json::Map` iterates over
/// its keys in ascending order.
#[verifier::external_body]
fn json_of(value: &serde_json::Value) -> (json: Json)
    ensures
        json == held(*value),
        keys_ascend(json),
{
    match value {
        serde_json::Value::Null => Json::Null,
        serde_json::Value::Bool(b) => Json::Bool(*b),
        serde_json::Value::Number(n) => Json::Number(n.clone()),
        serde_json::Value::String(s) => Json::Str(s.clone()),
        serde_json::Value::Array(v) => Json::Array(v.iter().map(json_of).collect()),
        serde_json::Value::Object(m) => {
            Json::Object(m.iter().map(|(k, v)| (k.clone(), json_of(v))).collect())
        },
    }
}

/// The value that holds `json`, variant by variant.
#[verifier::external_body]
fn value_of(json: &Json) -> (value: serde_json::Value)
    requires
        keys_ascend(*json),
    ensures
        held(value) == *json,
{
    match json {
        Json::Null => serde_json::Value::Null,
        Json::Bool(b) => serde_json::Value::Bool(*b),
        Json::Number(n) => serde_json::Value::Number(n.clone()),
        Json::Str(s) => serde_json::Value::String(s.clone()),
        Json::Array(v) => serde_json::Value::Array(v.iter().map(value_of).collect()),
        Json::Object(m) => {
            serde_json::Value::Object(m.iter().map(|(k, v)| (k.clone(), value_of(v))).collect())
        },
    }
}

/// `to_string` of a `serde_json::Value`.
#[verifier::external_body]
fn print_value(value: &serde_json::Value) -> (text: String)
    ensures
        text@ == printed(held(*value)),
{
    value.to_string()
}

/// The value of `key` in `json`, if that is an object and has the key.
pub open spec fn field(json: Json, key: Seq<char>) -> Option<Json> {
    match json {
        Json::Object(fields) => field_in(fields@, key),
        _ => None,
    }
}

/// The value of `key` in a list of keys and values.
pub open spec fn field_in(fields: Seq<(String, Json)>, key: Seq<char>) -> Option<Json>
    decreases fields.len(),
{
    if fields.len() == 0 {
        None
    } else if fields[0].0@ == key {
        Some(fields[0].1)
    } else {
        field_in(fields.skip(1), key)
    }
}

/// The text that `json` is, if it is one.
pub open spec fn text_in(json: Json) -> Option<Seq<char>> {
    match json {
        Json::Str(s) => Some(s@),
        _ => None,
    }
}

/// The text in the field `key`, if there is one.
pub open spec fn text_field(json: Json, key: Seq<char>) -> Option<Seq<char>> {
    match field(json, key) {
        Some(value) => text_in(value),
        None => None,
    }
}

impl Json {
    /// Parses `text`.
    pub fn parse(text: &str) -> (res: Result<Json, serde_json::Error>)
        ensures
            match res {
                Ok(json) => parsed(text@) == Some(json) && keys_ascend(json),
                Err(_) => parsed(text@) is None,
            },
    {
        match parse_value(text) {
            Ok(value) => Ok(json_of(&value)),
            Err(e) => Err(e),
        }
    }

    /// Prints the value on one line.
    pub fn print(&self) -> (text: String)
        requires
            keys_ascend(*self),
        ensures
            text@ == printed(*self),
    {
        let value = value_of(self);
        print_value(&value)
    }

    /// The value of `key`, if this is an object and has the key.
    pub fn get(&self, key: &str) -> (r: Option<&Json>)
        ensures
            match r {
                Some(value) => field(*self, key@) == Some(*value),
                None => field(*self, key@) is None,
            },
    {
        let name = key.to_owned();
        match self {
            Json::Object(fields) => {
                let mut i: usize = 0;
                assert(fields@.skip(0) =~= fields@);
                while i < fields.len()
                    invariant
                        name@ == key@,
                        *self == Json::Object(*fields),
                        i <= fields@.len(),
                        field(*self, key@) == field_in(fields@.skip(i as int), key@),
                    decreases fields@.len() - i,
                {
                    assert(fields@.skip(i as int).skip(1) =~= fields@.skip(i + 1));
                    if fields[i].0 == name {
                        return Some(&fields[i].1);
                    }
                    i += 1;
                }
                None
            },
            _ => None,
        }
    }

    /// The text that this is, if it is one.
    pub fn as_text(&self) -> (r: Option<&String>)
        ensures
            match r {
                Some(s) => text_in(*self) == Some(s@),
                None => text_in(*self) is None,
            },
    {
        match self {
            Json::Str(s) => Some(s),
            _ => None,
        }
    }
}

} // verus!

//! A plain JSON value type that the verified logic reads, with exact
//! accessors, plus the JSON text parser and printers of `serde_json`.

use vstd::prelude::*;
use crate::text::{chars_of, decimal, decimal_exec, same_text, string_from};

verus! {

/// `serde_json::Value`, carried opaquely through the trusted conversions.
#[verifier::external_type_specification]
#[verifier::external_body]
pub struct ExJsonValue(serde_json::Value);

/// A JSON number: its printed text and, where it is one, its value as a `u64`.
#[derive(Debug)]
pub struct JsonNumber {
    pub text: String,
    pub as_u64: Option<u64>,
}

/// A JSON value.  Object members keep their order; a key is looked up by
/// its first occurrence.
#[derive(Debug)]
pub enum Json {
    Null,
    Bool(bool),
    Number(JsonNumber),
    Str(String),
    Array(Vec<Json>),
    Object(Vec<(String, Json)>),
}

/// The value of the first member named `key`.
pub open spec fn assoc_get<V>(fields: Seq<(String, V)>, key: Seq<char>) -> Option<V>
    decreases fields.len(),
{
    if fields.len() == 0 {
        None
    } else if fields[0].0@ == key {
        Some(fields[0].1)
    } else {
        assoc_get(fields.drop_first(), key)
    }
}

/// Position of the first member named `key`.
pub fn assoc_index<V>(fields: &Vec<(String, V)>, key: &str) -> (r: Option<usize>)
    ensures
        match r {
            Some(i) => i < fields@.len() && fields@[i as int].0@ == key@ && assoc_get(fields@, key@)
                == Some(fields@[i as int].1),
            None => assoc_get(fields@, key@) == None::<V>,
        },
{
    let mut i: usize = 0;
    assert(fields@.subrange(0, fields@.len() as int) =~= fields@);
    while i < fields.len()
        invariant
            i <= fields@.len(),
            assoc_get(fields@, key@) == assoc_get(fields@.subrange(i as int, fields@.len() as int), key@),
        decreases fields@.len() - i,
    {
        let ghost sub = fields@.subrange(i as int, fields@.len() as int);
        assert(sub[0] == fields@[i as int]);
        if same_text(fields[i].0.as_str(), key) {
            return Some(i);
        }
        assert(sub.drop_first() =~= fields@.subrange(i + 1, fields@.len() as int));
        i = i + 1;
    }
    None
}

/// In a member list whose names are pairwise distinct, each member is the
/// one found under its name.
pub proof fn lemma_assoc_get_distinct<V>(fields: Seq<(String, V)>)
    requires
        forall|a: int, b: int| 0 <= a < b < fields.len() ==> fields[a].0@ != fields[b].0@,
    ensures
        forall|i: int| 0 <= i < fields.len() ==> #[trigger] assoc_get(fields, fields[i].0@) == Some(fields[i].1),
    decreases fields.len(),
{
    if fields.len() > 0 {
        let rest = fields.drop_first();
        assert forall|a: int, b: int| 0 <= a < b < rest.len() implies rest[a].0@ != rest[b].0@ by {
            assert(rest[a] == fields[a + 1]);
            assert(rest[b] == fields[b + 1]);
        }
        lemma_assoc_get_distinct(rest);
        assert forall|i: int| 0 <= i < fields.len() implies #[trigger] assoc_get(fields, fields[i].0@) == Some(fields[i].1) by {
            if i > 0 {
                assert(rest[i - 1] == fields[i]);
                assert(fields[0].0@ != fields[i].0@);
                assert(assoc_get(rest, rest[i - 1].0@) == Some(rest[i - 1].1));
            }
        }
    }
}

/// A name that no member bears is found nowhere.
pub proof fn lemma_assoc_get_absent<V>(fields: Seq<(String, V)>, key: Seq<char>)
    requires
        forall|i: int| 0 <= i < fields.len() ==> #[trigger] fields[i].0@ != key,
    ensures
        assoc_get(fields, key) == None::<V>,
    decreases fields.len(),
{
    if fields.len() > 0 {
        let rest = fields.drop_first();
        assert forall|i: int| 0 <= i < rest.len() implies #[trigger] rest[i].0@ != key by {
            assert(rest[i] == fields[i + 1]);
        }
        lemma_assoc_get_absent(rest, key);
    }
}

/// `Value::get(key)`: the member of an object, `None` for anything else.
pub open spec fn json_get(j: Json, key: Seq<char>) -> Option<Json> {
    match j {
        Json::Object(fields) => assoc_get(fields@, key),
        _ => None,
    }
}

/// `Value::as_str`.
pub open spec fn json_as_str(j: Json) -> Option<Seq<char>> {
    match j {
        Json::Str(s) => Some(s@),
        _ => None,
    }
}

/// `Value::as_array`.
pub open spec fn json_as_array(j: Json) -> Option<Seq<Json>> {
    match j {
        Json::Array(v) => Some(v@),
        _ => None,
    }
}

/// `Value::as_bool`.
pub open spec fn json_as_bool(j: Json) -> Option<bool> {
    match j {
        Json::Bool(b) => Some(b),
        _ => None,
    }
}

/// `Value::as_u64`.
pub open spec fn json_as_u64(j: Json) -> Option<u64> {
    match j {
        Json::Number(n) => n.as_u64,
        _ => None,
    }
}

/// The member names of an object, in order (empty for anything else).
pub open spec fn json_keys(j: Json) -> Seq<Seq<char>> {
    match j {
        Json::Object(fields) => fields@.map_values(|f: (String, Json)| f.0@),
        _ => Seq::empty(),
    }
}

/// The string found under `key`, if the member exists and is a string.
pub open spec fn json_get_str(j: Json, key: Seq<char>) -> Option<Seq<char>> {
    match json_get(j, key) {
        Some(v) => json_as_str(v),
        None => None,
    }
}

/// The `i`-th member of an object is `key` with the string `value`.
pub open spec fn json_str_at(j: Json, i: int, key: Seq<char>, value: Seq<char>) -> bool {
    &&& j is Object
    &&& 0 <= i < j->Object_0@.len()
    &&& j->Object_0@[i].0@ == key
    &&& json_as_str(j->Object_0@[i].1) == Some(value)
}

/// The `i`-th member of an object is `key` with the unsigned number `n`.
pub open spec fn json_u64_at(j: Json, i: int, key: Seq<char>, n: u64) -> bool {
    &&& j is Object
    &&& 0 <= i < j->Object_0@.len()
    &&& j->Object_0@[i].0@ == key
    &&& j->Object_0@[i].1 is Number
    &&& j->Object_0@[i].1->Number_0.as_u64 == Some(n)
    &&& j->Object_0@[i].1->Number_0.text@ == decimal(n as nat)
}

/// The `i`-th member of an object is `key` with the value `v`.
pub open spec fn json_member_is(j: Json, i: int, key: Seq<char>, v: Json) -> bool {
    &&& j is Object
    &&& 0 <= i < j->Object_0@.len()
    &&& j->Object_0@[i].0@ == key
    &&& j->Object_0@[i].1 == v
}

/// `Value::is_null`.
pub open spec fn json_is_null(j: Json) -> bool {
    j is Null
}

/// What `serde_json` parses from a JSON text, as a `Json` (`None` when the
/// text is not JSON).
pub uninterp spec fn json_parse(text: Seq<char>) -> Option<Json>;

/// The text `serde_json::to_string_pretty` prints for a value.
pub uninterp spec fn json_pretty_text(j: Json) -> Seq<char>;

/// The text `Display` (compact JSON) prints for a value.
pub uninterp spec fn json_compact_text(j: Json) -> Seq<char>;

impl Json {
    /// `Value::get(key)`.
    pub fn get(&self, key: &str) -> (r: Option<&Json>)
        ensures
            match r {
                Some(v) => json_get(*self, key@) == Some(*v),
                None => json_get(*self, key@) == None::<Json>,
            },
    {
        match self {
            Json::Object(fields) => {
                match assoc_index(fields, key) {
                    Some(i) => Some(&fields[i].1),
                    None => None,
                }
            },
            _ => None,
        }
    }

    /// `Value::as_str`.
    pub fn as_str(&self) -> (r: Option<&String>)
        ensures
            match r {
                Some(s) => json_as_str(*self) == Some(s@),
                None => json_as_str(*self) == None::<Seq<char>>,
            },
    {
        match self {
            Json::Str(s) => Some(s),
            _ => None,
        }
    }

    /// `Value::as_array`.
    pub fn as_array(&self) -> (r: Option<&Vec<Json>>)
        ensures
            match r {
                Some(v) => json_as_array(*self) == Some(v@),
                None => json_as_array(*self) == None::<Seq<Json>>,
            },
    {
        match self {
            Json::Array(v) => Some(v),
            _ => None,
        }
    }

    /// `Value::as_bool`.
    pub fn as_bool(&self) -> (r: Option<bool>)
        ensures
            r == json_as_bool(*self),
    {
        match self {
            Json::Bool(b) => Some(*b),
            _ => None,
        }
    }

    /// `Value::as_u64`.
    pub fn as_u64(&self) -> (r: Option<u64>)
        ensures
            r == json_as_u64(*self),
    {
        match self {
            Json::Number(n) => n.as_u64,
            _ => None,
        }
    }

    /// `Value::is_null`.
    pub fn is_null(&self) -> (r: bool)
        ensures
            r == json_is_null(*self),
    {
        match self {
            Json::Null => true,
            _ => false,
        }
    }

    /// The string under `key`, when there is one.
    pub fn get_str(&self, key: &str) -> (r: Option<&String>)
        ensures
            match r {
                Some(s) => json_get_str(*self, key@) == Some(s@),
                None => json_get_str(*self, key@) == None::<Seq<char>>,
            },
    {
        match self.get(key) {
            Some(v) => v.as_str(),
            None => None,
        }
    }

    /// A JSON string.
    pub fn string(s: &str) -> (r: Json)
        ensures
            r == Json::Str(r->Str_0),
            r->Str_0@ == s@,
    {
        Json::Str(string_from(chars_of(s).as_slice()))
    }

    /// A JSON number holding an unsigned integer.
    pub fn number(n: u64) -> (r: Json)
        ensures
            r == Json::Number(r->Number_0),
            r->Number_0.text@ == decimal(n as nat),
            r->Number_0.as_u64 == Some(n),
    {
        let t = decimal_exec(n);
        Json::Number(JsonNumber { text: string_from(t.as_slice()), as_u64: Some(n) })
    }
}

/// Parses JSON text with `serde_json::from_str` (`None` when it is not JSON).
pub fn parse_json(text: &str) -> (r: Option<Json>)
    ensures
        r == json_parse(text@),
{
    parse_value(text)
}

/// `serde_json::from_str::<Value>`, keeping only success, converted to
/// `Json` variant by variant (object members in the map's order, numbers
/// with their printed text).
#[verifier::external_body]
fn parse_value(text: &str) -> (r: Option<Json>)
    ensures
        r == json_parse(text@),
{
    serde_json::from_str::<serde_json::Value>(text).ok().map(json_of_value)
}

/// Converts a `serde_json::Value` into a `Json`, variant by variant.
#[verifier::external_body]
fn json_of_value(v: serde_json::Value) -> Json {
    match v {
        serde_json::Value::Null => Json::Null,
        serde_json::Value::Bool(b) => Json::Bool(b),
        serde_json::Value::Number(n) => Json::Number(JsonNumber { text: n.to_string(), as_u64: n.as_u64() }),
        serde_json::Value::String(s) => Json::Str(s),
        serde_json::Value::Array(a) => Json::Array(a.into_iter().map(json_of_value).collect()),
        serde_json::Value::Object(m) => Json::Object(m.into_iter().map(|(k, x)| (k, json_of_value(x))).collect()),
    }
}

/// Converts a `Json` back into a `serde_json::Value`, variant by variant.
#[verifier::external_body]
fn value_of_json(j: &Json) -> serde_json::Value {
    match j {
        Json::Null => serde_json::Value::Null,
        Json::Bool(b) => serde_json::Value::Bool(*b),
        Json::Number(n) => n.text.parse::<serde_json::Number>().map(serde_json::Value::Number).unwrap_or(serde_json::Value::Null),
        Json::Str(s) => serde_json::Value::String(s.clone()),
        Json::Array(a) => serde_json::Value::Array(a.iter().map(value_of_json).collect()),
        Json::Object(m) => serde_json::Value::Object(m.iter().map(|(k, x)| (k.clone(), value_of_json(x))).collect()),
    }
}

/// `serde_json::to_string_pretty` of the value (empty on failure, which
/// does not occur for a `Value`).
#[verifier::external_body]
pub(crate) fn json_pretty(j: &Json) -> (r: String)
    ensures
        r@ == json_pretty_text(*j),
{
    serde_json::to_string_pretty(&value_of_json(j)).unwrap_or_default()
}

/// The compact JSON text of the value (`Display` of `serde_json::Value`).
#[verifier::external_body]
pub(crate) fn json_compact(j: &Json) -> (r: String)
    ensures
        r@ == json_compact_text(*j),
{
    value_of_json(j).to_string()
}

} // verus!

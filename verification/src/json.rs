//! JSON values as plain data, read from text by `serde_json`.

use vstd::prelude::*;

verus! {

/// A JSON number, classified as `serde_json` classifies it: a non-negative
/// integer, a negative integer, or a floating number held by its IEEE-754 bit
/// pattern.
#[derive(Clone, Copy, Debug, PartialEq, Eq, Structural)]
pub enum JsonNumber {
    PosInt(u64),
    NegInt(i64),
    Float(u64),
}

/// A JSON value. An object keeps its members in the order they were given. An
/// array keeps each element together with the element's compact JSON text,
/// which is what folding an array into one string reads.
#[derive(Debug, PartialEq, Eq)]
pub enum JsonValue {
    Null,
    Bool(bool),
    Number(JsonNumber),
    String(String),
    Array(Vec<(JsonValue, String)>),
    Object(Vec<(String, JsonValue)>),
}

/// The mathematical value of a [`JsonValue`].
pub enum Json {
    Null,
    Bool(bool),
    Number(JsonNumber),
    Text(Seq<char>),
    Array(Seq<(Json, Seq<char>)>),
    Object(Seq<(Seq<char>, Json)>),
}

/// The value that a [`JsonValue`] stands for.
pub open spec fn json_of(value: JsonValue) -> Json
    decreases value,
{
    match value {
        JsonValue::Null => Json::Null,
        JsonValue::Bool(b) => Json::Bool(b),
        JsonValue::Number(n) => Json::Number(n),
        JsonValue::String(s) => Json::Text(s@),
        JsonValue::Array(items) => Json::Array(
            Seq::new(
                items@.len(),
                |i: int|
                    if 0 <= i < items@.len() {
                        (json_of(items@[i].0), items@[i].1@)
                    } else {
                        (Json::Null, Seq::empty())
                    },
            ),
        ),
        JsonValue::Object(members) => Json::Object(
            Seq::new(
                members@.len(),
                |i: int|
                    if 0 <= i < members@.len() {
                        (members@[i].0@, json_of(members@[i].1))
                    } else {
                        (Seq::empty(), Json::Null)
                    },
            ),
        ),
    }
}

impl View for JsonValue {
    type V = Json;

    open spec fn view(&self) -> Json {
        json_of(*self)
    }
}

/// `serde_json::Value`, of which nothing is known here: it is read from text
/// and moved into a [`JsonValue`] at once.
#[verifier::external_type_specification]
#[verifier::external_body]
pub struct ExValue(serde_json::Value);

/// `serde_json::Number`, of which nothing is known here.
#[verifier::external_type_specification]
#[verifier::external_body]
pub struct ExNumber(serde_json::Number);

/// What `serde_json::from_str` makes of a text: the value it parses to, each
/// array element with the text that `serde_json` prints for it, or `None`
/// where the parser reports an error.
pub uninterp spec fn parsed_json(text: Seq<char>) -> Option<Json>;

/// Reads a `serde_json::Number` through `as_u64`, `as_i64` and `as_f64`, in
/// that order, and keeps the first that answers. Nothing is claimed of the
/// result.
#[verifier::external_body]
fn number_from_outside(n: &serde_json::Number) -> JsonNumber {
    if let Some(u) = n.as_u64() {
        JsonNumber::PosInt(u)
    } else if let Some(i) = n.as_i64() {
        JsonNumber::NegInt(i)
    } else {
        JsonNumber::Float(n.as_f64().map_or(0, |x| x.to_bits()))
    }
}

/// Moves a `serde_json::Value` into a [`JsonValue`], variant by variant, and
/// pairs each array element with what `to_string` prints for it. Nothing is
/// claimed of the result.
#[verifier::external_body]
fn from_outside(v: serde_json::Value) -> JsonValue {
    match v {
        serde_json::Value::Null => JsonValue::Null,
        serde_json::Value::Bool(b) => JsonValue::Bool(b),
        serde_json::Value::Number(n) => JsonValue::Number(number_from_outside(&n)),
        serde_json::Value::String(s) => JsonValue::String(s),
        serde_json::Value::Array(a) => JsonValue::Array(
            a.into_iter().map(|e| (e.to_string(), e)).map(|(t, e)| (from_outside(e), t)).collect(),
        ),
        serde_json::Value::Object(m) => JsonValue::Object(
            m.into_iter().map(|(k, e)| (k, from_outside(e))).collect(),
        ),
    }
}

/// Calls `serde_json::from_str` for a `serde_json::Value`. The contract names
/// the outcome [`parsed_json`]: the parser reads nothing but the text.
#[verifier::external_body]
fn read_json(text: &str) -> (r: Option<JsonValue>)
    ensures
        r.is_some() == parsed_json(text@).is_some(),
        r.is_some() ==> r.unwrap()@ == parsed_json(text@).unwrap(),
{
    serde_json::from_str::<serde_json::Value>(text).ok().map(from_outside)
}

impl JsonValue {
    /// Parses a JSON text; `None` where the text is not JSON.
    pub fn parse(text: &str) -> (r: Option<JsonValue>)
        ensures
            r.is_some() == parsed_json(text@).is_some(),
            r.is_some() ==> r.unwrap()@ == parsed_json(text@).unwrap(),
    {
        read_json(text)
    }
}

/// The members that an object's list stands for.
pub open spec fn members_of(members: Vec<(String, JsonValue)>) -> Seq<(Seq<char>, Json)> {
    json_of(JsonValue::Object(members))->Object_0
}

/// The elements that an array's list stands for, each with its text.
pub open spec fn items_of(items: Vec<(JsonValue, String)>) -> Seq<(Json, Seq<char>)> {
    json_of(JsonValue::Array(items))->Array_0
}

/// The value that stands first under the given name in a list of named
/// values, if there is one.
pub open spec fn lookup<V>(members: Seq<(Seq<char>, V)>, name: Seq<char>) -> Option<V>
    decreases members.len(),
{
    if members.len() == 0 {
        None
    } else if members[0].0 == name {
        Some(members[0].1)
    } else {
        lookup(members.skip(1), name)
    }
}

/// Finds the first member of an object with the given name.
pub fn find_member<'a>(members: &'a Vec<(String, JsonValue)>, name: &str) -> (r: Option<&'a JsonValue>)
    ensures
        match r {
            Some(v) => lookup(members_of(*members), name@) == Some(v@),
            None => lookup(members_of(*members), name@) is None,
        },
{
    let ghost all = members_of(*members);
    let wanted = String::from_str(name);
    let mut i: usize = 0;
    proof {
        assert(all.skip(0) =~= all);
    }
    while i < members.len()
        invariant
            i <= members.len(),
            all == members_of(*members),
            all.len() == members@.len(),
            forall|k: int| 0 <= k < all.len() ==> all[k] == (members@[k].0@, members@[k].1@),
            wanted@ == name@,
            lookup(all, name@) == lookup(all.skip(i as int), name@),
        decreases members.len() - i,
    {
        proof {
            assert(all.skip(i as int).skip(1) =~= all.skip(i as int + 1));
            assert(all.skip(i as int)[0] == all[i as int]);
        }
        if members[i].0 == wanted {
            return Some(&members[i].1);
        }
        i += 1;
    }
    None
}

} // verus!

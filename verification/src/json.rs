//! JSON documents, as `serde_json` reads, holds and writes them.
//!
//! `serde_json::Value` is the document type. What a value holds is described by
//! [`Json`], and the functions below are the only places where a value is built,
//! opened, parsed or written.
use serde_json::Value;
use vstd::prelude::*;

verus! {

/// What a JSON value holds.
pub enum Json {
    Null,
    Bool(bool),
    /// A number that is a nonnegative integer of 64 bits.
    Unsigned(u64),
    /// A number that is a negative integer of 64 bits.
    Negative(i64),
    /// Any other number, by the bit pattern of its binary64 value.
    Fraction(u64),
    Text(Seq<char>),
    List(Seq<Json>),
    Object(Map<Seq<char>, Json>),
}

/// `serde_json::Value`: a document, of which nothing is known but what [`held`] says.
#[verifier::external_type_specification]
#[verifier::external_body]
pub struct ExValue(serde_json::Value);

/// `serde_json::Error`: why a text is no document. Nothing is claimed of it.
#[verifier::external_type_specification]
#[verifier::external_body]
pub struct ExJsonError(serde_json::Error);

/// `serde_json::Map`: the members of an object, of which nothing is known but what
/// [`members_of`] says.
#[verifier::external_type_specification]
#[verifier::external_body]
#[verifier::reject_recursive_types(K)]
#[verifier::reject_recursive_types(V)]
pub struct ExMap<K, V>(serde_json::Map<K, V>);

/// What a `serde_json::Value` holds, down to its leaves.
pub uninterp spec fn held(value: Value) -> Json;

/// The members that a `serde_json::Map` holds, down to their leaves.
pub uninterp spec fn members_of(map: serde_json::Map<String, Value>) -> Map<Seq<char>, Json>;

/// The document that `serde_json::from_slice` reads from a text, where it reads one.
pub uninterp spec fn parsed(text: Seq<u8>) -> Option<Json>;

/// The text that `serde_json::to_vec` writes for a document.
pub uninterp spec fn written(document: Json) -> Seq<u8>;

/// Whether lists and objects are nested at most `depth` deep.
pub open spec fn nested_within(document: Json, depth: nat) -> bool
    decreases depth,
{
    match document {
        Json::List(items) => depth > 0 && forall|i: int|
            0 <= i < items.len() ==> nested_within(#[trigger] items[i], (depth - 1) as nat),
        Json::Object(members) => depth > 0 && forall|key: Seq<char>|
            members.dom().contains(key) ==> nested_within(
                #[trigger] members[key],
                (depth - 1) as nat,
            ),
        _ => true,
    }
}

/// The documents that a list of values holds.
pub open spec fn held_all(values: Seq<Value>) -> Seq<Json> {
    values.map_values(|value: Value| held(value))
}

/// `serde_json::from_slice` into a `Value`: the text alone decides whether a document
/// is read, and which.
#[verifier::external_body]
pub(crate) fn parse(text: &[u8]) -> (value: Result<Value, serde_json::Error>)
    ensures
        value is Ok <==> parsed(text@) is Some,
        value matches Ok(v) ==> parsed(text@) == Some(held(v)),
{
    serde_json::from_slice(text)
}

/// `serde_json::to_vec` of a `Value`: it succeeds, and what the value holds alone
/// decides the text. It recurses into nested values, so their depth is bounded.
#[verifier::external_body]
pub(crate) fn write(value: &Value) -> (text: Result<Vec<u8>, serde_json::Error>)
    requires
        nested_within(held(*value), 128),
    ensures
        text is Ok,
        text->Ok_0@ == written(held(*value)),
{
    serde_json::to_vec(value)
}

/// `Value::Null`: the JSON null.
#[verifier::external_body]
pub(crate) fn null() -> (value: Value)
    ensures
        held(value) == Json::Null,
{
    Value::Null
}

/// `Value::Bool`: a JSON truth value.
#[verifier::external_body]
pub(crate) fn boolean(b: bool) -> (value: Value)
    ensures
        held(value) == Json::Bool(b),
{
    Value::Bool(b)
}

/// `Value::from(u64)`: a JSON number that is a nonnegative integer.
#[verifier::external_body]
pub(crate) fn unsigned(n: u64) -> (value: Value)
    ensures
        held(value) == Json::Unsigned(n),
{
    Value::from(n)
}

/// `Value::String`: a JSON string of the given characters.
#[verifier::external_body]
pub(crate) fn string(text: String) -> (value: Value)
    ensures
        held(value) == Json::Text(text@),
{
    Value::String(text)
}

/// `Value::Array`: a JSON array of the given values, in their order.
#[verifier::external_body]
pub(crate) fn list(values: Vec<Value>) -> (value: Value)
    ensures
        held(value) == Json::List(held_all(values@)),
{
    Value::Array(values)
}

/// `serde_json::Map::new`: no members.
#[verifier::external_body]
pub(crate) fn no_members() -> (members: serde_json::Map<String, Value>)
    ensures
        (members_of(members) == Map::<Seq<char>, Json>::empty()),
{
    serde_json::Map::new()
}

/// `serde_json::Map::insert`: puts a member in, in place of an earlier one of its name.
#[verifier::external_body]
pub(crate) fn insert_member(
    members: &mut serde_json::Map<String, Value>,
    name: String,
    value: Value,
)
    ensures
        members_of(*final(members)) == members_of(*old(members)).insert(name@, held(value)),
{
    members.insert(name, value);
}

/// `Value::Object`: a JSON object with the given members.
#[verifier::external_body]
pub(crate) fn object(members: serde_json::Map<String, Value>) -> (value: Value)
    ensures
        held(value) == Json::Object(members_of(members)),
{
    Value::Object(members)
}

/// Whether a name is among some.
pub open spec fn listed(names: Seq<String>, name: Seq<char>) -> bool {
    exists|i: int| 0 <= i < names.len() && (#[trigger] names[i])@ == name
}

/// `Value::as_object` and `Map::keys`: the member names of an object, and nothing for
/// any other value.
#[verifier::external_body]
pub(crate) fn names(value: &Value) -> (names: Option<Vec<String>>)
    ensures
        names is Some <==> held(*value) is Object,
        names matches Some(list) ==> forall|name: Seq<char>| #[trigger]
            held(*value)->Object_0.dom().contains(name) <==> listed(list@, name),
{
    value.as_object().map(|members| members.keys().cloned().collect())
}

/// `Value::get` with a name: the member of that name, if the value is an object that
/// has one.
#[verifier::external_body]
pub(crate) fn member<'a>(value: &'a Value, name: &str) -> (found: Option<&'a Value>)
    ensures
        found is Some <==> (held(*value) is Object && held(*value)->Object_0.dom().contains(
            name@,
        )),
        found matches Some(v) ==> held(*v) == held(*value)->Object_0[name@],
{
    value.get(name)
}

/// `Value::as_str`: the characters of a string, and nothing for any other value.
pub assume_specification[ Value::as_str ](value: &Value) -> (text: Option<&str>)
    ensures
        text is Some <==> held(*value) is Text,
        text matches Some(s) ==> held(*value) == Json::Text(s@),
;

/// `Value::as_u64`: the number, if it is a nonnegative integer of 64 bits.
pub assume_specification[ Value::as_u64 ](value: &Value) -> (number: Option<u64>)
    ensures
        number is Some <==> held(*value) is Unsigned,
        number matches Some(n) ==> held(*value) == Json::Unsigned(n),
;

/// `Value::is_null`: whether the value is the JSON null.
pub assume_specification[ Value::is_null ](value: &Value) -> (yes: bool)
    ensures
        yes == (held(*value) is Null),
;

/// The members of an object that is being put together.
pub(crate) struct Members {
    map: serde_json::Map<String, Value>,
}

impl View for Members {
    type V = Map<Seq<char>, Json>;

    closed spec fn view(&self) -> Map<Seq<char>, Json> {
        members_of(self.map)
    }
}

impl Members {
    pub(crate) fn new() -> (members: Members)
        ensures
            members@ == Map::<Seq<char>, Json>::empty(),
    {
        Members { map: no_members() }
    }

    pub(crate) fn put(&mut self, name: &str, value: Value)
        ensures
            final(self)@ == old(self)@.insert(name@, held(value)),
    {
        insert_member(&mut self.map, name.to_owned(), value);
    }

    pub(crate) fn text(&mut self, name: &str, text: &str)
        ensures
            final(self)@ == old(self)@.insert(name@, Json::Text(text@)),
    {
        self.put(name, string(text.to_owned()));
    }

    pub(crate) fn finish(self) -> (value: Value)
        ensures
            held(value) == Json::Object(self@),
    {
        object(self.map)
    }
}

/// A text, or null where there is none.
pub open spec fn optional_text(text: Option<Seq<char>>) -> Json {
    match text {
        Some(text) => Json::Text(text),
        None => Json::Null,
    }
}

/// A text, or null where there is none.
pub(crate) fn optional_string(text: &Option<String>) -> (value: Value)
    ensures
        held(value) == optional_text(crate::sensor::words(*text)),
{
    match text {
        Some(text) => string(text.clone()),
        None => null(),
    }
}

/// An object stays as shallow with one more shallow member.
pub(crate) broadcast proof fn lemma_member_nested(
    members: Map<Seq<char>, Json>,
    name: Seq<char>,
    value: Json,
    depth: nat,
)
    requires
        nested_within(Json::Object(members), depth),
        depth > 0,
        nested_within(value, (depth - 1) as nat),
    ensures
        #[trigger] nested_within(Json::Object(members.insert(name, value)), depth),
{
    let after = members.insert(name, value);
    let doc = Json::Object(members);
    assert(nested_within(doc, depth));
    assert(doc->Object_0 == members);
    assert(forall|key: Seq<char>|
            doc->Object_0.dom().contains(key) ==> nested_within(
                #[trigger] doc->Object_0[key],
                (depth - 1) as nat,
            ));
    assert forall|key: Seq<char>| after.dom().contains(key) implies nested_within(
        #[trigger] after[key],
        (depth - 1) as nat,
    ) by {
        if key != name {
            assert(members.dom().contains(key));
            assert(after[key] == members[key]);
            assert(nested_within(members[key], (depth - 1) as nat));
        }
    }
}

/// The text that is written for a document that is not nested too deeply.
pub(crate) fn body(value: &Value) -> (text: Vec<u8>)
    requires
        nested_within(held(*value), 128),
    ensures
        text@ == written(held(*value)),
{
    match write(value) {
        Ok(text) => text,
        Err(_) => Vec::new(),
    }
}

} // verus!

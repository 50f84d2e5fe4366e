//! Payloads that records carry without looking inside: JSON values, JSON
//! schemas and named parameter examples.

use vstd::prelude::*;

use okapi::openapi3::Example;
use schemars::gen::{SchemaGenerator, SchemaSettings};
use schemars::schema::{InstanceType, SchemaObject, SingleOrVec};
use serde_json::Value;

verus! {

/// `serde_json::Value`, any JSON value. Nothing of its contents is visible here.
#[verifier::external_type_specification]
#[verifier::external_body]
pub struct ExValue(Value);

/// `schemars::schema::SchemaObject`, a JSON schema. Nothing of its contents is
/// visible here.
#[verifier::external_type_specification]
#[verifier::external_body]
pub struct ExSchemaObject(SchemaObject);

/// `okapi::openapi3::Example`, one named example of a parameter. Nothing of
/// its contents is visible here.
#[verifier::external_type_specification]
#[verifier::external_body]
pub struct ExExample(Example);

/// `Value::clone` (derived) returns a copy that is the same JSON value.
pub assume_specification[ <Value as Clone>::clone ](v: &Value) -> (r: Value)
    ensures
        r == *v,
;

/// `SchemaObject::clone` (derived) returns a copy that is the same schema.
pub assume_specification[ <SchemaObject as Clone>::clone ](s: &SchemaObject) -> (r: SchemaObject)
    ensures
        r == *s,
;

/// `Example::clone` (derived) returns a copy that is the same example.
pub assume_specification[ <Example as Clone>::clone ](e: &Example) -> (r: Example)
    ensures
        r == *e,
;

/// The JSON string whose text is `s`.
pub uninterp spec fn json_string_value(s: Seq<char>) -> Value;

/// Wraps `s` as a JSON string: the variant `Value::String` of `serde_json`.
#[verifier::external_body]
pub(crate) fn json_string(s: String) -> (v: Value)
    ensures
        v == json_string_value(s@),
{
    Value::String(s)
}

/// The JSON array of `items`, in their order.
pub uninterp spec fn json_array_value(items: Seq<Value>) -> Value;

/// Wraps `items` as a JSON array: the variant `Value::Array` of `serde_json`.
#[verifier::external_body]
pub(crate) fn json_array(items: Vec<Value>) -> (v: Value)
    ensures
        v == json_array_value(items@),
{
    Value::Array(items)
}

/// The schema that `schemars` gives for `String` under its OpenAPI 3
/// settings, with the options to add a null type and to mark schemas
/// nullable as given.
pub uninterp spec fn string_schema_value(add_null_type: bool, nullable: bool) -> SchemaObject;

/// The schema of the keys of a path: that of `String`, asked of `schemars`
/// as the builder asks for every schema, with neither option set.
pub open spec fn string_key_schema() -> SchemaObject {
    string_schema_value(false, false)
}

/// `SchemaGenerator::subschema_for::<String>` of `schemars`, on a generator
/// made of `SchemaSettings::openapi3()` with `option_add_null_type` and
/// `option_nullable` as given: what it returns depends on these two alone.
#[verifier::external_body]
pub(crate) fn string_schema(add_null_type: bool, nullable: bool) -> (s: SchemaObject)
    ensures
        s == string_schema_value(add_null_type, nullable),
{
    let mut settings = SchemaSettings::openapi3();
    settings.option_add_null_type = add_null_type;
    settings.option_nullable = nullable;
    SchemaGenerator::new(settings).subschema_for::<String>().into_object()
}

/// One of the types that a JSON schema can declare.
#[derive(Clone, Copy, Debug, PartialEq, Eq, Structural)]
pub enum InstanceKind {
    Null,
    Boolean,
    Object,
    Array,
    Number,
    String,
    Integer,
}

/// What a JSON schema says of the type of its instances: nothing, one type,
/// or a list of types.
#[derive(Clone, Copy, Debug, PartialEq, Eq, Structural)]
pub enum DeclaredType {
    Unspecified,
    Single(InstanceKind),
    Several,
}

/// `SchemaObject::instance_type` of `schema`, variant by variant. Nothing is
/// claimed of which one comes back.
#[verifier::external_body]
pub(crate) fn declared_type(schema: &SchemaObject) -> DeclaredType {
    match &schema.instance_type {
        None => DeclaredType::Unspecified,
        Some(SingleOrVec::Vec(_)) => DeclaredType::Several,
        Some(SingleOrVec::Single(t)) => DeclaredType::Single(match **t {
            InstanceType::Null => InstanceKind::Null,
            InstanceType::Boolean => InstanceKind::Boolean,
            InstanceType::Object => InstanceKind::Object,
            InstanceType::Array => InstanceKind::Array,
            InstanceType::Number => InstanceKind::Number,
            InstanceType::String => InstanceKind::String,
            InstanceType::Integer => InstanceKind::Integer,
        }),
    }
}

/// The views of named entries: each name by its characters, the payload as it is.
pub open spec fn named<V>(entries: Seq<(String, V)>) -> Seq<(Seq<char>, V)> {
    entries.map_values(|e: (String, V)| (e.0@, e.1))
}

/// The characters of an optional text.
pub open spec fn text_opt(o: Option<String>) -> Option<Seq<char>> {
    match o {
        Some(s) => Some(s@),
        None => None,
    }
}

/// A copy of an optional text.
pub fn clone_text_opt(o: &Option<String>) -> (r: Option<String>)
    ensures
        text_opt(r) == text_opt(*o),
{
    match o {
        Some(s) => Some(s.clone()),
        None => None,
    }
}

/// A copy of an optional JSON value.
pub fn clone_value_opt(o: &Option<Value>) -> (r: Option<Value>)
    ensures
        r == *o,
{
    match o {
        Some(v) => Some(v.clone()),
        None => None,
    }
}

/// A copy of a list of named JSON values.
pub fn clone_named_values(entries: &Vec<(String, Value)>) -> (r: Vec<(String, Value)>)
    ensures
        named(r@) == named(entries@),
{
    let mut r: Vec<(String, Value)> = Vec::new();
    let mut i: usize = 0;
    while i < entries.len()
        invariant
            i <= entries.len(),
            r.len() == i,
            forall|j: int| 0 <= j < i ==> r@[j].0@ == entries@[j].0@ && r@[j].1 == entries@[j].1,
        decreases entries.len() - i,
    {
        let e = &entries[i];
        r.push((e.0.clone(), e.1.clone()));
        i += 1;
    }
    proof {
        assert(named(r@) =~= named(entries@));
    }
    r
}

/// A copy of a list of named examples.
pub fn clone_named_examples(entries: &Vec<(String, Example)>) -> (r: Vec<(String, Example)>)
    ensures
        named(r@) == named(entries@),
{
    let mut r: Vec<(String, Example)> = Vec::new();
    let mut i: usize = 0;
    while i < entries.len()
        invariant
            i <= entries.len(),
            r.len() == i,
            forall|j: int| 0 <= j < i ==> r@[j].0@ == entries@[j].0@ && r@[j].1 == entries@[j].1,
        decreases entries.len() - i,
    {
        let e = &entries[i];
        r.push((e.0.clone(), e.1.clone()));
        i += 1;
    }
    proof {
        assert(named(r@) =~= named(entries@));
    }
    r
}

} // verus!

use oas_gen::{ParameterStyle, QueryParamBuilder};
use okapi::openapi3::{Example, ExampleValue};
use schemars::gen::SchemaGenerator;
use schemars::schema::SchemaObject;
use serde_json::Value;

fn u64_schema() -> SchemaObject {
    SchemaGenerator::default().subschema_for::<u64>().into_object()
}

fn an_example(text: &str) -> Example {
    Example {
        summary: None,
        description: None,
        value: ExampleValue::Value(Value::String(text.to_owned())),
        extensions: Default::default(),
    }
}

#[test]
fn a_fresh_builder_declares_a_plain_query_parameter() {
    let example = Value::from(u64::MAX);
    let p = QueryParamBuilder::new("limit".to_owned(), u64_schema(), Some(example.clone())).build();
    assert_eq!("limit", p.name);
    assert_eq!("query", p.location);
    assert_eq!(None, p.description);
    assert!(!p.required);
    assert!(!p.deprecated);
    assert!(!p.allow_empty_value);
    assert_eq!(None, p.style);
    assert_eq!(None, p.explode);
    assert!(!p.allow_reserved);
    assert_eq!(u64_schema(), p.schema);
    assert_eq!(Some(example), p.example);
    assert_eq!(None, p.examples);
    assert!(p.extensions.is_empty());
}

#[test]
fn explode_survives_required() {
    let b = QueryParamBuilder::new("categories".to_owned(), u64_schema(), None);
    let p = b.explode(false).required(true).build();
    assert_eq!(Some(false), p.explode);
    assert!(p.required);
}

#[test]
fn steps_commute() {
    let b = QueryParamBuilder::new("categories".to_owned(), u64_schema(), None);
    let one = b.explode(true).required(true).build();
    let other = b.required(true).explode(true).build();
    assert_eq!(one, other);
}

#[test]
fn a_step_leaves_the_builder_as_it_was() {
    let b = QueryParamBuilder::new("limit".to_owned(), u64_schema(), None);
    let before = b.build();
    let _changed = b.required(true).deprecated(true).description("how many".to_owned());
    assert_eq!(before, b.build());
}

#[test]
fn build_can_be_repeated() {
    let b = QueryParamBuilder::new("limit".to_owned(), u64_schema(), None).required(true);
    assert_eq!(b.build(), b.build());
    assert_eq!(b.build(), b.clone().build());
}

#[test]
fn each_step_sets_its_own_field() {
    let b = QueryParamBuilder::new("limit".to_owned(), u64_schema(), None);
    let base = b.build();

    let p = b.description("how many".to_owned()).build();
    assert_eq!(Some("how many".to_owned()), p.description);
    assert_eq!(base.required, p.required);
    assert_eq!(base.schema, p.schema);

    let p = b.required(true).build();
    assert!(p.required);
    assert_eq!(base.deprecated, p.deprecated);

    let p = b.deprecated(true).build();
    assert!(p.deprecated);
    assert_eq!(base.required, p.required);

    let p = b.allow_empty_value(true).build();
    assert!(p.allow_empty_value);

    let p = b.style(ParameterStyle::SpaceDelimited).build();
    assert_eq!(Some(ParameterStyle::SpaceDelimited), p.style);
    assert_eq!(None, p.explode);

    let p = b.explode(true).build();
    assert_eq!(Some(true), p.explode);
    assert_eq!(None, p.style);

    let p = b.allow_reserved(true).build();
    assert!(p.allow_reserved);

    let p = b.example(Value::from(7)).build();
    assert_eq!(Some(Value::from(7)), p.example);
    assert_eq!("limit", p.name);
    assert_eq!("query", p.location);
}

#[test]
fn a_later_value_replaces_an_earlier_one() {
    let b = QueryParamBuilder::new("limit".to_owned(), u64_schema(), Some(Value::from(1)));
    let p = b.example(Value::from(2)).explode(true).explode(false).build();
    assert_eq!(Some(Value::from(2)), p.example);
    assert_eq!(Some(false), p.explode);
}

#[test]
fn empty_examples_are_none() {
    let b = QueryParamBuilder::new("limit".to_owned(), u64_schema(), None);
    let with = b.examples(vec![("small".to_owned(), an_example("1"))]);
    assert_eq!(Some(vec![("small".to_owned(), an_example("1"))]), with.build().examples);
    let without = with.examples(vec![]);
    assert_eq!(None, without.build().examples);
    assert_eq!(None, b.examples(vec![]).build().examples);
}

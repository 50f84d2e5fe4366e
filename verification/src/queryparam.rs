//! A fluent builder of query-parameter declarations. Every step returns a
//! new builder and leaves the one it was called on as it was.

use vstd::prelude::*;

use crate::payload::named;
use crate::record::{Parameter, ParameterStyle, ParameterView};
use okapi::openapi3::Example;
use schemars::schema::SchemaObject;
use serde_json::Value;

verus! {

/// The declaration that a fresh builder holds for `name`: a query parameter,
/// not required, not deprecated, with nothing else set.
pub open spec fn query_parameter(
    name: Seq<char>,
    schema: SchemaObject,
    example: Option<Value>,
) -> ParameterView {
    ParameterView {
        name,
        location: "query"@,
        description: None,
        required: false,
        deprecated: false,
        allow_empty_value: false,
        style: None,
        explode: None,
        allow_reserved: false,
        schema,
        example,
        examples: None,
        extensions: Seq::empty(),
    }
}

/// The declaration with `description` as its description.
pub open spec fn with_description(p: ParameterView, description: Seq<char>) -> ParameterView {
    ParameterView { description: Some(description), ..p }
}

/// The declaration with `required` as its flag of being required.
pub open spec fn with_required(p: ParameterView, required: bool) -> ParameterView {
    ParameterView { required, ..p }
}

/// The declaration with `deprecated` as its flag of being deprecated.
pub open spec fn with_deprecated(p: ParameterView, deprecated: bool) -> ParameterView {
    ParameterView { deprecated, ..p }
}

/// The declaration with `allow_empty_value` as its flag of allowing an empty value.
pub open spec fn with_allow_empty_value(p: ParameterView, allow_empty_value: bool) -> ParameterView {
    ParameterView { allow_empty_value, ..p }
}

/// The declaration with `style` as its style of serialization.
pub open spec fn with_style(p: ParameterView, style: ParameterStyle) -> ParameterView {
    ParameterView { style: Some(style), ..p }
}

/// The declaration with `explode` as its flag of exploding lists and objects.
pub open spec fn with_explode(p: ParameterView, explode: bool) -> ParameterView {
    ParameterView { explode: Some(explode), ..p }
}

/// The declaration with `allow_reserved` as its flag of allowing reserved characters.
pub open spec fn with_allow_reserved(p: ParameterView, allow_reserved: bool) -> ParameterView {
    ParameterView { allow_reserved, ..p }
}

/// The declaration with `example` as its example.
pub open spec fn with_example(p: ParameterView, example: Value) -> ParameterView {
    ParameterView { example: Some(example), ..p }
}

/// Named examples replace the ones set before; an empty list sets none.
pub open spec fn with_examples(p: ParameterView, examples: Seq<(Seq<char>, Example)>) -> ParameterView {
    ParameterView { examples: if examples.len() == 0 { None } else { Some(examples) }, ..p }
}

/// Builds the declaration of one query parameter step by step.
#[derive(Debug)]
pub struct QueryParamBuilder {
    param: Parameter,
}

impl View for QueryParamBuilder {
    type V = ParameterView;

    closed spec fn view(&self) -> ParameterView {
        self.param@
    }
}

impl QueryParamBuilder {
    /// A builder for the query parameter `name`, whose values follow `schema`.
    #[must_use]
    pub fn new(name: String, schema: SchemaObject, example: Option<Value>) -> (r: Self)
        ensures
            r@ == query_parameter(name@, schema, example),
    {
        let param = Parameter {
            name,
            location: String::from_str("query"),
            description: None,
            required: false,
            deprecated: false,
            allow_empty_value: false,
            style: None,
            explode: None,
            allow_reserved: false,
            schema,
            example,
            examples: None,
            extensions: Vec::new(),
        };
        proof {
            assert(named(param.extensions@) =~= Seq::empty());
        }
        QueryParamBuilder { param }
    }

    /// The declaration as it stands. The builder can be used again.
    #[must_use]
    pub fn build(&self) -> (p: Parameter)
        ensures
            p@ == self@,
    {
        self.param.clone()
    }

    /// A builder whose declaration has `description` as its description.
    #[must_use]
    pub fn description(&self, description: String) -> (r: Self)
        ensures
            r@ == with_description(self@, description@),
    {
        let mut param = self.param.clone();
        param.description = Some(description);
        QueryParamBuilder { param }
    }

    /// A builder whose declaration is required or not, as `required` says.
    #[must_use]
    pub fn required(&self, required: bool) -> (r: Self)
        ensures
            r@ == with_required(self@, required),
    {
        let mut param = self.param.clone();
        param.required = required;
        QueryParamBuilder { param }
    }

    /// A builder whose declaration is deprecated or not, as `deprecated` says.
    #[must_use]
    pub fn deprecated(&self, deprecated: bool) -> (r: Self)
        ensures
            r@ == with_deprecated(self@, deprecated),
    {
        let mut param = self.param.clone();
        param.deprecated = deprecated;
        QueryParamBuilder { param }
    }

    /// A builder whose declaration allows an empty value or not.
    #[must_use]
    pub fn allow_empty_value(&self, allow_empty_value: bool) -> (r: Self)
        ensures
            r@ == with_allow_empty_value(self@, allow_empty_value),
    {
        let mut param = self.param.clone();
        param.allow_empty_value = allow_empty_value;
        QueryParamBuilder { param }
    }

    /// A builder whose declaration is serialized in the style `style`.
    #[must_use]
    pub fn style(&self, style: ParameterStyle) -> (r: Self)
        ensures
            r@ == with_style(self@, style),
    {
        let mut param = self.param.clone();
        param.style = Some(style);
        QueryParamBuilder { param }
    }

    /// A builder whose declaration explodes lists and objects or not.
    #[must_use]
    pub fn explode(&self, explode: bool) -> (r: Self)
        ensures
            r@ == with_explode(self@, explode),
    {
        let mut param = self.param.clone();
        param.explode = Some(explode);
        QueryParamBuilder { param }
    }

    /// A builder whose declaration allows reserved characters unescaped or not.
    #[must_use]
    pub fn allow_reserved(&self, allow_reserved: bool) -> (r: Self)
        ensures
            r@ == with_allow_reserved(self@, allow_reserved),
    {
        let mut param = self.param.clone();
        param.allow_reserved = allow_reserved;
        QueryParamBuilder { param }
    }

    /// A builder whose declaration has `example` as its example.
    #[must_use]
    pub fn example(&self, example: Value) -> (r: Self)
        ensures
            r@ == with_example(self@, example),
    {
        let mut param = self.param.clone();
        param.example = Some(example);
        QueryParamBuilder { param }
    }

    /// A builder whose declaration has `examples` as its named examples,
    /// or none if the list is empty.
    #[must_use]
    pub fn examples(&self, examples: Vec<(String, Example)>) -> (r: Self)
        ensures
            r@ == with_examples(self@, named(examples@)),
    {
        let mut param = self.param.clone();
        param.examples = if examples.len() == 0 {
            None
        } else {
            Some(examples)
        };
        QueryParamBuilder { param }
    }
}

impl Clone for QueryParamBuilder {
    fn clone(&self) -> (r: Self)
        ensures
            r@ == self@,
    {
        QueryParamBuilder { param: self.param.clone() }
    }
}

/// One step of a builder, with the value that it sets.
pub enum Step {
    WithDescription(Seq<char>),
    WithRequired(bool),
    WithDeprecated(bool),
    WithAllowEmptyValue(bool),
    WithStyle(ParameterStyle),
    WithExplode(bool),
    WithAllowReserved(bool),
    WithExample(Value),
    WithExamples(Seq<(Seq<char>, Example)>),
}

/// The declaration after the step was taken.
pub open spec fn apply(p: ParameterView, step: Step) -> ParameterView {
    match step {
        Step::WithDescription(d) => with_description(p, d),
        Step::WithRequired(b) => with_required(p, b),
        Step::WithDeprecated(b) => with_deprecated(p, b),
        Step::WithAllowEmptyValue(b) => with_allow_empty_value(p, b),
        Step::WithStyle(s) => with_style(p, s),
        Step::WithExplode(b) => with_explode(p, b),
        Step::WithAllowReserved(b) => with_allow_reserved(p, b),
        Step::WithExample(v) => with_example(p, v),
        Step::WithExamples(e) => with_examples(p, e),
    }
}

/// The two steps set the same field.
pub open spec fn same_field(a: Step, b: Step) -> bool {
    match a {
        Step::WithDescription(_) => b is WithDescription,
        Step::WithRequired(_) => b is WithRequired,
        Step::WithDeprecated(_) => b is WithDeprecated,
        Step::WithAllowEmptyValue(_) => b is WithAllowEmptyValue,
        Step::WithStyle(_) => b is WithStyle,
        Step::WithExplode(_) => b is WithExplode,
        Step::WithAllowReserved(_) => b is WithAllowReserved,
        Step::WithExample(_) => b is WithExample,
        Step::WithExamples(_) => b is WithExamples,
    }
}

/// Two steps that set different fields can be taken in either order: the
/// later one loses nothing of what the earlier one set.
pub proof fn lemma_steps_commute(p: ParameterView, a: Step, b: Step)
    requires
        !same_field(a, b),
    ensures
        apply(apply(p, a), b) == apply(apply(p, b), a),
{
}

/// Of two steps that set the same field the later one counts.
pub proof fn lemma_later_step_counts(p: ParameterView, a: Step, b: Step)
    requires
        same_field(a, b),
    ensures
        apply(apply(p, a), b) == apply(p, b),
{
}

/// A step changes nothing but its own field: the name, the location, the
/// schema and the extensions of a declaration are never touched.
pub proof fn lemma_step_keeps_identity(p: ParameterView, a: Step)
    ensures
        apply(p, a).name == p.name,
        apply(p, a).location == p.location,
        apply(p, a).schema == p.schema,
        apply(p, a).extensions == p.extensions,
{
}

/// `explode` followed by `required` keeps what `explode` set.
pub proof fn lemma_explode_survives_required(p: ParameterView, explode: bool, required: bool)
    ensures
        with_required(with_explode(p, explode), required).explode == Some(explode),
        with_required(with_explode(p, explode), required).required == required,
{
}

} // verus!

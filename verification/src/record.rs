//! The records of a route description: parameters, responses, request
//! bodies, operations and the per-path table of method slots, each with its
//! mathematical view.

use vstd::prelude::*;

use crate::payload::{
    clone_named_examples, clone_named_values, clone_text_opt, clone_value_opt, named, text_opt,
};
use crate::text::same_text;
use okapi::openapi3::Example;
use schemars::schema::SchemaObject;
use serde_json::Value;

verus! {

/// An HTTP verb under which an operation can be registered.
#[derive(Clone, Copy, Debug, PartialEq, Eq, Hash, Structural)]
pub enum HttpMethod {
    Get,
    Put,
    Post,
    Delete,
    Options,
    Head,
    Patch,
    Trace,
    Connect,
}

impl HttpMethod {
    /// Whether a path's table has a slot for this verb: every verb but CONNECT.
    pub open spec fn has_slot(self) -> bool {
        self != HttpMethod::Connect
    }

    /// Whether a path's table has a slot for this verb.
    pub fn is_supported(&self) -> (b: bool)
        ensures
            b == self.has_slot(),
    {
        match self {
            HttpMethod::Connect => false,
            _ => true,
        }
    }

    /// The verb as HTTP writes it.
    pub open spec fn name(self) -> Seq<char> {
        match self {
            HttpMethod::Get => "GET"@,
            HttpMethod::Put => "PUT"@,
            HttpMethod::Post => "POST"@,
            HttpMethod::Delete => "DELETE"@,
            HttpMethod::Options => "OPTIONS"@,
            HttpMethod::Head => "HEAD"@,
            HttpMethod::Patch => "PATCH"@,
            HttpMethod::Trace => "TRACE"@,
            HttpMethod::Connect => "CONNECT"@,
        }
    }

    /// The verb as HTTP writes it.
    pub fn as_str(&self) -> (s: &'static str)
        ensures
            s@ == self.name(),
    {
        match self {
            HttpMethod::Get => "GET",
            HttpMethod::Put => "PUT",
            HttpMethod::Post => "POST",
            HttpMethod::Delete => "DELETE",
            HttpMethod::Options => "OPTIONS",
            HttpMethod::Head => "HEAD",
            HttpMethod::Patch => "PATCH",
            HttpMethod::Trace => "TRACE",
            HttpMethod::Connect => "CONNECT",
        }
    }

    /// The verb that HTTP writes as `name`, if there is one.
    pub fn from_name(name: &str) -> (r: Option<HttpMethod>)
        ensures
            match r {
                Some(m) => name@ == m.name(),
                None => forall|m: HttpMethod| name@ != m.name(),
            },
    {
        if same_text(name, "GET") {
            Some(HttpMethod::Get)
        } else if same_text(name, "PUT") {
            Some(HttpMethod::Put)
        } else if same_text(name, "POST") {
            Some(HttpMethod::Post)
        } else if same_text(name, "DELETE") {
            Some(HttpMethod::Delete)
        } else if same_text(name, "OPTIONS") {
            Some(HttpMethod::Options)
        } else if same_text(name, "HEAD") {
            Some(HttpMethod::Head)
        } else if same_text(name, "PATCH") {
            Some(HttpMethod::Patch)
        } else if same_text(name, "TRACE") {
            Some(HttpMethod::Trace)
        } else if same_text(name, "CONNECT") {
            Some(HttpMethod::Connect)
        } else {
            None
        }
    }
}

/// Different verbs are written differently.
pub proof fn lemma_names_differ(a: HttpMethod, b: HttpMethod)
    requires
        a != b,
    ensures
        a.name() != b.name(),
{
    reveal_strlit("GET");
    reveal_strlit("PUT");
    reveal_strlit("POST");
    reveal_strlit("DELETE");
    reveal_strlit("OPTIONS");
    reveal_strlit("HEAD");
    reveal_strlit("PATCH");
    reveal_strlit("TRACE");
    reveal_strlit("CONNECT");
    if a.name().len() == b.name().len() {
        assert(a.name()[1] != b.name()[1]);
    }
}

/// How a parameter's value is serialized.
#[derive(Clone, Copy, Debug, PartialEq, Eq, Structural)]
pub enum ParameterStyle {
    Matrix,
    Label,
    Form,
    Simple,
    SpaceDelimited,
    PipeDelimited,
    DeepObject,
}

/// Either a reference to a definition elsewhere in the document, or the
/// object itself.
#[derive(Debug, PartialEq)]
pub enum RefOr<T> {
    Ref(String),
    Object(T),
}

/// The view of a `RefOr`.
pub enum RefOrView<V> {
    Ref(Seq<char>),
    Object(V),
}

impl<T: View> View for RefOr<T> {
    type V = RefOrView<T::V>;

    open spec fn view(&self) -> RefOrView<T::V> {
        match *self {
            RefOr::Ref(r) => RefOrView::Ref(r@),
            RefOr::Object(o) => RefOrView::Object(o@),
        }
    }
}

/// The declaration of one parameter of an operation.
#[derive(Debug, PartialEq)]
pub struct Parameter {
    pub name: String,
    /// Where the parameter is found: `"path"` or `"query"`.
    pub location: String,
    pub description: Option<String>,
    pub required: bool,
    pub deprecated: bool,
    pub allow_empty_value: bool,
    pub style: Option<ParameterStyle>,
    pub explode: Option<bool>,
    pub allow_reserved: bool,
    pub schema: SchemaObject,
    pub example: Option<Value>,
    pub examples: Option<Vec<(String, Example)>>,
    pub extensions: Vec<(String, Value)>,
}

/// What a `Parameter` holds.
pub struct ParameterView {
    pub name: Seq<char>,
    pub location: Seq<char>,
    pub description: Option<Seq<char>>,
    pub required: bool,
    pub deprecated: bool,
    pub allow_empty_value: bool,
    pub style: Option<ParameterStyle>,
    pub explode: Option<bool>,
    pub allow_reserved: bool,
    pub schema: SchemaObject,
    pub example: Option<Value>,
    pub examples: Option<Seq<(Seq<char>, Example)>>,
    pub extensions: Seq<(Seq<char>, Value)>,
}

/// The view of an optional list of named examples.
pub open spec fn examples_view(o: Option<Vec<(String, Example)>>) -> Option<
    Seq<(Seq<char>, Example)>,
> {
    match o {
        Some(v) => Some(named(v@)),
        None => None,
    }
}

impl View for Parameter {
    type V = ParameterView;

    open spec fn view(&self) -> ParameterView {
        ParameterView {
            name: self.name@,
            location: self.location@,
            description: text_opt(self.description),
            required: self.required,
            deprecated: self.deprecated,
            allow_empty_value: self.allow_empty_value,
            style: self.style,
            explode: self.explode,
            allow_reserved: self.allow_reserved,
            schema: self.schema,
            example: self.example,
            examples: examples_view(self.examples),
            extensions: named(self.extensions@),
        }
    }
}

impl Clone for Parameter {
    fn clone(&self) -> (r: Self)
        ensures
            r@ == self@,
    {
        let examples = match &self.examples {
            Some(v) => Some(clone_named_examples(v)),
            None => None,
        };
        Parameter {
            name: self.name.clone(),
            location: self.location.clone(),
            description: clone_text_opt(&self.description),
            required: self.required,
            deprecated: self.deprecated,
            allow_empty_value: self.allow_empty_value,
            style: self.style,
            explode: self.explode,
            allow_reserved: self.allow_reserved,
            schema: self.schema.clone(),
            example: clone_value_opt(&self.example),
            examples,
            extensions: clone_named_values(&self.extensions),
        }
    }
}

/// The views of a list of parameters, in order.
pub open spec fn parameters_view(ps: Seq<Parameter>) -> Seq<ParameterView> {
    ps.map_values(|p: Parameter| p@)
}

/// A copy of a list of parameters.
pub fn clone_parameters(ps: &Vec<Parameter>) -> (r: Vec<Parameter>)
    ensures
        parameters_view(r@) == parameters_view(ps@),
{
    let mut r: Vec<Parameter> = Vec::new();
    let mut i: usize = 0;
    while i < ps.len()
        invariant
            i <= ps.len(),
            r.len() == i,
            forall|j: int| 0 <= j < i ==> r@[j]@ == ps@[j]@,
        decreases ps.len() - i,
    {
        r.push(ps[i].clone());
        i += 1;
    }
    proof {
        assert(parameters_view(r@) =~= parameters_view(ps@));
    }
    r
}

/// The view of an optional record.
pub open spec fn opt_view<T: View>(o: Option<T>) -> Option<T::V> {
    match o {
        Some(t) => Some(t@),
        None => None,
    }
}

/// The views of a list of records, in order.
pub open spec fn views<T: View>(s: Seq<T>) -> Seq<T::V> {
    s.map_values(|t: T| t@)
}

/// The views of named records: each name by its characters, each record by its view.
pub open spec fn named_views<T: View>(entries: Seq<(String, T)>) -> Seq<(Seq<char>, T::V)> {
    entries.map_values(|e: (String, T)| (e.0@, e.1@))
}

/// What a body of one content type looks like.
#[derive(Debug, PartialEq)]
pub struct MediaType {
    pub schema: Option<SchemaObject>,
}

/// One response of an operation.
#[derive(Debug, PartialEq)]
pub struct Response {
    pub description: String,
    /// The body, by content type. Empty where the response has no body.
    pub content: Vec<(String, MediaType)>,
}

/// What a `Response` holds.
pub struct ResponseView {
    pub description: Seq<char>,
    pub content: Seq<(Seq<char>, MediaType)>,
}

impl View for Response {
    type V = ResponseView;

    open spec fn view(&self) -> ResponseView {
        ResponseView { description: self.description@, content: named(self.content@) }
    }
}

/// The responses of an operation, by status code.
#[derive(Debug, PartialEq)]
pub struct Responses {
    pub responses: Vec<(String, RefOr<Response>)>,
    pub extensions: Vec<(String, Value)>,
}

/// What a `Responses` holds.
pub struct ResponsesView {
    pub responses: Seq<(Seq<char>, RefOrView<ResponseView>)>,
    pub extensions: Seq<(Seq<char>, Value)>,
}

impl View for Responses {
    type V = ResponsesView;

    open spec fn view(&self) -> ResponsesView {
        ResponsesView {
            responses: named_views(self.responses@),
            extensions: named(self.extensions@),
        }
    }
}

/// The body that an operation takes.
#[derive(Debug, PartialEq)]
pub struct RequestBody {
    pub description: Option<String>,
    /// The body, by content type.
    pub content: Vec<(String, MediaType)>,
    pub required: bool,
}

/// What a `RequestBody` holds.
pub struct RequestBodyView {
    pub description: Option<Seq<char>>,
    pub content: Seq<(Seq<char>, MediaType)>,
    pub required: bool,
}

impl View for RequestBody {
    type V = RequestBodyView;

    open spec fn view(&self) -> RequestBodyView {
        RequestBodyView {
            description: text_opt(self.description),
            content: named(self.content@),
            required: self.required,
        }
    }
}

/// One operation: what can be asked of one path with one verb.
#[derive(Debug, PartialEq)]
pub struct Operation {
    pub operation_id: Option<String>,
    pub description: Option<String>,
    pub responses: Responses,
    pub request_body: Option<RefOr<RequestBody>>,
    /// The parameters: those of the path in its order, then those of the query.
    pub parameters: Vec<RefOr<Parameter>>,
    pub extensions: Vec<(String, Value)>,
}

/// What an `Operation` holds.
pub struct OperationView {
    pub operation_id: Option<Seq<char>>,
    pub description: Option<Seq<char>>,
    pub responses: ResponsesView,
    pub request_body: Option<RefOrView<RequestBodyView>>,
    pub parameters: Seq<RefOrView<ParameterView>>,
    pub extensions: Seq<(Seq<char>, Value)>,
}

impl View for Operation {
    type V = OperationView;

    open spec fn view(&self) -> OperationView {
        OperationView {
            operation_id: text_opt(self.operation_id),
            description: text_opt(self.description),
            responses: self.responses@,
            request_body: opt_view(self.request_body),
            parameters: views(self.parameters@),
            extensions: named(self.extensions@),
        }
    }
}

/// The operations of one path: one slot for each verb that has one.
#[derive(Debug, PartialEq)]
pub struct PathItem {
    pub get: Option<Operation>,
    pub put: Option<Operation>,
    pub post: Option<Operation>,
    pub delete: Option<Operation>,
    pub options: Option<Operation>,
    pub head: Option<Operation>,
    pub patch: Option<Operation>,
    pub trace: Option<Operation>,
}

/// What a `PathItem` holds.
pub struct PathItemView {
    pub get: Option<OperationView>,
    pub put: Option<OperationView>,
    pub post: Option<OperationView>,
    pub delete: Option<OperationView>,
    pub options: Option<OperationView>,
    pub head: Option<OperationView>,
    pub patch: Option<OperationView>,
    pub trace: Option<OperationView>,
}

impl PathItemView {
    /// The table with every slot unset.
    pub open spec fn empty() -> PathItemView {
        PathItemView {
            get: None,
            put: None,
            post: None,
            delete: None,
            options: None,
            head: None,
            patch: None,
            trace: None,
        }
    }

    /// What the slot of `method` holds. CONNECT has no slot.
    pub open spec fn slot(self, method: HttpMethod) -> Option<OperationView> {
        match method {
            HttpMethod::Get => self.get,
            HttpMethod::Put => self.put,
            HttpMethod::Post => self.post,
            HttpMethod::Delete => self.delete,
            HttpMethod::Options => self.options,
            HttpMethod::Head => self.head,
            HttpMethod::Patch => self.patch,
            HttpMethod::Trace => self.trace,
            HttpMethod::Connect => None,
        }
    }

    /// The table with the slot of `method` set to `op`. For CONNECT, the table as it is.
    pub open spec fn with_slot(self, method: HttpMethod, op: OperationView) -> PathItemView {
        match method {
            HttpMethod::Get => PathItemView { get: Some(op), ..self },
            HttpMethod::Put => PathItemView { put: Some(op), ..self },
            HttpMethod::Post => PathItemView { post: Some(op), ..self },
            HttpMethod::Delete => PathItemView { delete: Some(op), ..self },
            HttpMethod::Options => PathItemView { options: Some(op), ..self },
            HttpMethod::Head => PathItemView { head: Some(op), ..self },
            HttpMethod::Patch => PathItemView { patch: Some(op), ..self },
            HttpMethod::Trace => PathItemView { trace: Some(op), ..self },
            HttpMethod::Connect => self,
        }
    }
}

impl View for PathItem {
    type V = PathItemView;

    open spec fn view(&self) -> PathItemView {
        PathItemView {
            get: opt_view(self.get),
            put: opt_view(self.put),
            post: opt_view(self.post),
            delete: opt_view(self.delete),
            options: opt_view(self.options),
            head: opt_view(self.head),
            patch: opt_view(self.patch),
            trace: opt_view(self.trace),
        }
    }
}

impl Default for PathItem {
    fn default() -> (item: Self)
        ensures
            item@ == PathItemView::empty(),
    {
        PathItem {
            get: None,
            put: None,
            post: None,
            delete: None,
            options: None,
            head: None,
            patch: None,
            trace: None,
        }
    }
}

/// `i` is the first place at which `key` stands in `entries`.
pub open spec fn is_first<V>(entries: Seq<(Seq<char>, V)>, key: Seq<char>, i: int) -> bool {
    &&& 0 <= i < entries.len()
    &&& entries[i].0 == key
    &&& forall|j: int| 0 <= j < i ==> (#[trigger] entries[j]).0 != key
}

/// `entries` with `value` under `key`: in place of the first entry of that
/// key, or at the end if there is none.
pub open spec fn put<V>(entries: Seq<(Seq<char>, V)>, key: Seq<char>, value: V) -> Seq<
    (Seq<char>, V),
> {
    if exists|i: int| is_first(entries, key, i) {
        entries.update(choose|i: int| is_first(entries, key, i), (key, value))
    } else {
        entries.push((key, value))
    }
}

/// Puts `response` under `status` into the table of responses.
pub fn put_response(
    responses: &mut Vec<(String, RefOr<Response>)>,
    status: String,
    response: RefOr<Response>,
)
    ensures
        named_views(final(responses)@) == put(named_views(old(responses)@), status@, response@),
{
    let ghost before = named_views(responses@);
    let mut i: usize = 0;
    while i < responses.len()
        invariant
            i <= responses.len(),
            before == named_views(responses@),
            responses@ == old(responses)@,
            forall|j: int| 0 <= j < i ==> (#[trigger] before[j]).0 != status@,
        decreases responses.len() - i,
    {
        if responses[i].0 == status {
            proof {
                assert(before[i as int].0 == status@);
                assert(is_first(before, status@, i as int));
                let c = choose|c: int| is_first(before, status@, c);
                assert(c == i) by {
                    if c < i {
                        assert(before[c].0 != status@);
                    }
                    if i < c {
                        assert(before[i as int].0 != status@);
                    }
                }
            }
            responses.set(i, (status, response));
            proof {
                assert(named_views(responses@) =~= before.update(i as int, (status@, response@)));
            }
            return ;
        }
        i += 1;
    }
    proof {
        assert forall|c: int| !is_first(before, status@, c) by {
            if 0 <= c < before.len() {
                assert(before[c].0 != status@);
            }
        }
    }
    responses.push((status, response));
    proof {
        assert(named_views(responses@) =~= before.push((status@, response@)));
    }
}

} // verus!

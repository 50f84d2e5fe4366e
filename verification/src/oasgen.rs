//! The builder of a route description: it derives the parameters of a path,
//! puts together the responses and the request body of an operation, and
//! registers the operation under its path and verb.

use vstd::prelude::*;

use crate::apipath::{ids_view, render_path, valid_key, ApiId, ApiPath, PathView};
use crate::casing::{to_camel_case, upper_camel_case};
use crate::generator::{
    normalized, render_table, settled_table, table_view, OpenApi, OpenApiGenerator, OperationInfo,
    Passthrough, Registered, SecurityRequirement,
};
use crate::payload::{
    declared_type, json_array, json_array_value, json_string, json_string_value, named,
    string_key_schema, string_schema, text_opt, DeclaredType, InstanceKind,
};
use crate::record::{
    clone_parameters, parameters_view, put, put_response, views, HttpMethod,
    MediaType, Operation, OperationView, Parameter, ParameterView, RefOr, RefOrView, RequestBody,
    RequestBodyView, Response, ResponseView, Responses, ResponsesView,
};
use crate::securityscheme::SecurityScheme;
use crate::text::{ends_with, trim_end, trim_end_char, trim_start, trim_start_char};
use schemars::schema::SchemaObject;
use serde_json::Value;

verus! {

/// How an identifier that is not the target of its path is described:
/// the collection in title case with the key in brackets.
pub open spec fn generic_description(title: Seq<char>, key: Seq<char>) -> Seq<char> {
    title + "("@ + key + ")"@
}

/// How the last identifier of a path without token is described.
pub open spec fn terminal_description(title: Seq<char>, key: Seq<char>) -> Seq<char> {
    "The "@ + title + " document is identified by the "@ + key + " key at the end of this url."@
}

/// Whether the identifier at `i` is the target of the path: the last one of
/// a path that has no token.
pub open spec fn is_terminal(p: PathView, i: int) -> bool {
    p.token is None && i == p.ids.len() - 1
}

/// The description of the parameter of the identifier at `i`.
pub open spec fn description_of(p: PathView, i: int) -> Seq<char> {
    if is_terminal(p, i) {
        terminal_description(upper_camel_case(p.ids[i].document), p.ids[i].key)
    } else {
        generic_description(upper_camel_case(p.ids[i].document), p.ids[i].key)
    }
}

/// The name of the parameter of a key: the key without its leading `{` and
/// its trailing `}`.
pub open spec fn parameter_name(key: Seq<char>) -> Seq<char> {
    trim_end(trim_start(key, '{'), '}')
}

/// The declaration of the path parameter `name`.
pub open spec fn path_parameter(
    name: Seq<char>,
    description: Seq<char>,
    schema: SchemaObject,
) -> ParameterView {
    ParameterView {
        name,
        location: "path"@,
        description: Some(description),
        required: true,
        deprecated: false,
        allow_empty_value: false,
        style: None,
        explode: None,
        allow_reserved: false,
        schema,
        example: Some(json_string_value("84742"@)),
        examples: None,
        extensions: Seq::empty(),
    }
}

/// The declarations of the path parameters of `p`, one for each identifier
/// in the order of the path, all with the schema `schema`.
pub open spec fn path_parameters(p: PathView, schema: SchemaObject) -> Seq<
    RefOrView<ParameterView>,
> {
    Seq::new(
        p.ids.len(),
        |i: int|
            RefOrView::Object(
                path_parameter(parameter_name(p.ids[i].key), description_of(p, i), schema),
            ),
    )
}

/// The declarations as the objects of a parameter list.
pub open spec fn as_objects(ps: Seq<ParameterView>) -> Seq<RefOrView<ParameterView>> {
    ps.map_values(|p: ParameterView| RefOrView::Object(p))
}

/// The description `Title(key)`.
pub fn describe_generic(title: &str, key: &str) -> (s: String)
    ensures
        s@ == generic_description(title@, key@),
{
    let mut s = String::from_str(title);
    s.append("(");
    s.append(key);
    s.append(")");
    s
}

/// The description that names the key as the one that identifies the document.
pub fn describe_terminal(title: &str, key: &str) -> (s: String)
    ensures
        s@ == terminal_description(title@, key@),
{
    let mut s = String::from_str("The ");
    s.append(title);
    s.append(" document is identified by the ");
    s.append(key);
    s.append(" key at the end of this url.");
    s
}

/// The description of the parameter of `id`, which is the target of its
/// path or not.
pub fn describe(id: &ApiId, terminal: bool) -> (s: String)
    ensures
        s@ == if terminal {
            terminal_description(upper_camel_case(id@.document), id@.key)
        } else {
            generic_description(upper_camel_case(id@.document), id@.key)
        },
{
    let title = to_camel_case(id.document());
    if terminal {
        describe_terminal(title.as_str(), id.key())
    } else {
        describe_generic(title.as_str(), id.key())
    }
}

/// The name of the parameter of `key`.
pub fn parameter_name_of(key: &str) -> (s: String)
    ensures
        s@ == parameter_name(key@),
{
    let front = trim_start_char(key, '{');
    trim_end_char(front.as_str(), '}')
}

/// The declaration of the path parameter of the placeholder `param_name`.
pub fn path_parameter_of(param_name: &str, description: String, schema: SchemaObject) -> (p:
    Parameter)
    requires
        valid_key(param_name@),
    ensures
        p@ == path_parameter(parameter_name(param_name@), description@, schema),
{
    let p = Parameter {
        name: parameter_name_of(param_name),
        location: String::from_str("path"),
        description: Some(description),
        required: true,
        deprecated: false,
        allow_empty_value: false,
        style: None,
        explode: None,
        allow_reserved: false,
        schema,
        example: Some(json_string(String::from_str("84742"))),
        examples: None,
        extensions: Vec::new(),
    };
    proof {
        assert(named(p.extensions@) =~= Seq::empty());
    }
    p
}

/// A generic description ends with `)` and a terminal one with `.`: the
/// two are never the same text.
pub proof fn lemma_descriptions_differ(
    title: Seq<char>,
    key: Seq<char>,
    other_title: Seq<char>,
    other_key: Seq<char>,
)
    ensures
        generic_description(title, key) != terminal_description(other_title, other_key),
{
    reveal_strlit(")");
    reveal_strlit(" key at the end of this url.");
    let g = generic_description(title, key);
    let t = terminal_description(other_title, other_key);
    let tail = " key at the end of this url."@;
    assert(g[g.len() - 1] == ')');
    assert(t[t.len() - 1] == tail[tail.len() - 1]);
    assert(tail[tail.len() - 1] == '.');
}

/// In a path without token the last identifier is described as the key of
/// the document, and every identifier before it in the generic way: the
/// description of the last differs from that of every other.
pub proof fn lemma_last_is_terminal(p: PathView, i: int)
    requires
        p.token is None,
        0 <= i < p.ids.len(),
    ensures
        description_of(p, p.ids.len() - 1) == terminal_description(
            upper_camel_case(p.ids[p.ids.len() - 1].document),
            p.ids[p.ids.len() - 1].key,
        ),
        i < p.ids.len() - 1 ==> description_of(p, i) == generic_description(
            upper_camel_case(p.ids[i].document),
            p.ids[i].key,
        ),
        i < p.ids.len() - 1 ==> description_of(p, i) != description_of(p, p.ids.len() - 1),
{
    let last = p.ids.len() - 1;
    lemma_descriptions_differ(
        upper_camel_case(p.ids[i].document),
        p.ids[i].key,
        upper_camel_case(p.ids[last].document),
        p.ids[last].key,
    );
}

/// In a path with a token every identifier is described in the generic way.
pub proof fn lemma_token_makes_all_generic(p: PathView, i: int)
    requires
        p.token is Some,
        0 <= i < p.ids.len(),
    ensures
        description_of(p, i) == generic_description(
            upper_camel_case(p.ids[i].document),
            p.ids[i].key,
        ),
{
}

/// The schema of the body of a response, with the type that it declares.
#[derive(Debug, PartialEq)]
pub struct ResponseSchema {
    pub schema: SchemaObject,
    pub declared: DeclaredType,
}

impl ResponseSchema {
    /// A response of this schema has no body: the schema declares the single
    /// type `null`.
    pub open spec fn no_content(self) -> bool {
        self.declared == DeclaredType::Single(InstanceKind::Null)
    }

    /// Whether a response of this schema has no body.
    pub fn has_no_content(&self) -> (b: bool)
        ensures
            b == self.no_content(),
    {
        match self.declared {
            DeclaredType::Single(InstanceKind::Null) => true,
            _ => false,
        }
    }

    /// `schema` with the type that it declares, as `schemars` holds it.
    pub fn of(schema: SchemaObject) -> (r: Self)
        ensures
            r.schema == schema,
    {
        let declared = declared_type(&schema);
        ResponseSchema { schema, declared }
    }
}

impl Clone for ResponseSchema {
    fn clone(&self) -> (r: Self)
        ensures
            r == *self,
    {
        ResponseSchema { schema: self.schema.clone(), declared: self.declared }
    }
}

/// A JSON body that follows `schema`.
pub open spec fn json_content(schema: SchemaObject) -> Seq<(Seq<char>, MediaType)> {
    seq![("application/json; charset=utf-8"@, MediaType { schema: Some(schema) })]
}

/// The response with `description`, and with a JSON body unless the schema
/// says that there is none.
pub open spec fn response_of(description: Seq<char>, body: ResponseSchema) -> ResponseView {
    ResponseView {
        description,
        content: if body.no_content() {
            Seq::empty()
        } else {
            json_content(body.schema)
        },
    }
}

/// The required JSON request body that follows `schema`.
pub open spec fn request_body_of(schema: SchemaObject) -> RequestBodyView {
    RequestBodyView { description: None, content: json_content(schema), required: true }
}

/// The response `description` with the body `body`, as an entry of a table.
pub open spec fn response_entry(description: Seq<char>, body: ResponseSchema) -> RefOrView<
    ResponseView,
> {
    RefOrView::Object(response_of(description, body))
}

/// A table of responses with the standard error responses put in: 400, 401,
/// 418 if `teapot` is set, and 500, all with the body `error`.
pub open spec fn with_error_responses(
    responses: Seq<(Seq<char>, RefOrView<ResponseView>)>,
    error: ResponseSchema,
    teapot: bool,
) -> Seq<(Seq<char>, RefOrView<ResponseView>)> {
    let r400 = put(responses, "400"@, response_entry("Bad Request"@, error));
    let r401 = put(r400, "401"@, response_entry("Unauthorized"@, error));
    let r418 = if teapot {
        put(r401, "418"@, response_entry("I'm a teapot"@, error))
    } else {
        r401
    };
    put(r418, "500"@, response_entry("Internal Server Error"@, error))
}

/// What is known of an operation before it is put together.
pub struct OperationPlan {
    pub operation_id: Seq<char>,
    pub description: Option<Seq<char>>,
    /// The status of the response on success.
    pub status: Seq<char>,
    /// The name of the document, which describes the response on success.
    pub document_name: Seq<char>,
    pub output: ResponseSchema,
    pub error: ResponseSchema,
    /// The schema of the request body, where the operation takes one.
    pub input: Option<SchemaObject>,
    /// The test fixtures to attach, where any are attached.
    pub fixtures: Option<Seq<Value>>,
}

/// The operation that the builder puts together for `path` from `plan`.
pub open spec fn planned_operation(
    path: PathView,
    key_schema: SchemaObject,
    teapot: bool,
    plan: OperationPlan,
) -> OperationView {
    OperationView {
        operation_id: Some(plan.operation_id),
        description: plan.description,
        responses: ResponsesView {
            responses: with_error_responses(
                seq![(plan.status, response_entry(plan.document_name, plan.output))],
                plan.error,
                teapot,
            ),
            extensions: Seq::empty(),
        },
        request_body: match plan.input {
            Some(schema) => Some(RefOrView::Object(request_body_of(schema))),
            None => None,
        },
        parameters: path_parameters(path, key_schema) + as_objects(path.query_params),
        extensions: match plan.fixtures {
            Some(fixtures) => seq![("x-tests"@, json_array_value(fixtures))],
            None => Seq::empty(),
        },
    }
}

/// The identifier of the operation that lists documents named `name`:
/// `list`, the name, and an `s` unless the name ends with one.
pub open spec fn list_operation_id(name: Seq<char>) -> Seq<char> {
    if ends_with(name, 's') {
        "list"@ + name
    } else {
        "list"@ + name + "s"@
    }
}

/// The fixtures that an operation carries when they are attached only if
/// there are any.
pub open spec fn fixtures_if_any(tests: Seq<Value>) -> Option<Seq<Value>> {
    if tests.len() == 0 {
        None
    } else {
        Some(tests)
    }
}

/// The builder of a document.
#[derive(Debug)]
pub struct Oas3Builder {
    generator: OpenApiGenerator,
    key_schema: SchemaObject,
    teapot: bool,
}

impl View for Oas3Builder {
    type V = Registered;

    closed spec fn view(&self) -> Registered {
        self.generator@
    }
}

impl Oas3Builder {
    /// The schema that every path parameter gets.
    pub closed spec fn key_schema(&self) -> SchemaObject {
        self.key_schema
    }

    /// Whether the response 418 is among the standard error responses.
    pub closed spec fn teapot(&self) -> bool {
        self.teapot
    }

    /// The named schema definitions that the builder holds.
    pub closed spec fn definitions(&self) -> Map<Seq<char>, SchemaObject> {
        self.generator.definitions()
    }

    /// What the builder hands on to the document as it is.
    pub closed spec fn rest(&self) -> Passthrough {
        self.generator.rest()
    }

    /// A builder without operations, whose error responses are 400, 401 and 500.
    #[must_use]
    pub fn new() -> (b: Self)
        ensures
            b@ == Registered::empty(),
            b.definitions() == Map::<Seq<char>, SchemaObject>::empty(),
            b.rest().info.version@ == Seq::<char>::empty(),
            b.rest().security_schemes@.len() == 0,
            b.rest().security@.len() == 0,
            b.key_schema() == string_key_schema(),
            !b.teapot(),
    {
        Oas3Builder {
            generator: OpenApiGenerator::new(),
            key_schema: string_schema(false, false),
            teapot: false,
        }
    }

    /// As `new`, with the response 418 among the error responses.
    #[must_use]
    pub fn with_teapot() -> (b: Self)
        ensures
            b@ == Registered::empty(),
            b.definitions() == Map::<Seq<char>, SchemaObject>::empty(),
            b.rest().info.version@ == Seq::<char>::empty(),
            b.rest().security_schemes@.len() == 0,
            b.rest().security@.len() == 0,
            b.key_schema() == string_key_schema(),
            b.teapot(),
    {
        Oas3Builder {
            generator: OpenApiGenerator::new(),
            key_schema: string_schema(false, false),
            teapot: true,
        }
    }

    /// A builder that goes on from what `generator` holds.
    #[must_use]
    pub fn from_generator(generator: OpenApiGenerator) -> (b: Self)
        ensures
            b@ == generator@,
            b.definitions() == generator.definitions(),
            b.rest() == generator.rest(),
            b.key_schema() == string_key_schema(),
            !b.teapot(),
    {
        Oas3Builder { generator, key_schema: string_schema(false, false), teapot: false }
    }

    /// Whether an operation can still be registered for `web_path` and `method`.
    pub fn is_free(&self, web_path: &ApiPath, method: HttpMethod) -> (b: bool)
        ensures
            b == !self@.contains_key((render_path(web_path@), method)),
    {
        let path = web_path.to_string();
        !self.generator.contains(path.as_str(), method)
    }

    /// Keeps `schema` under `name` among the schema definitions.
    pub fn add_definition(&mut self, name: String, schema: SchemaObject)
        ensures
            final(self)@ == old(self)@,
            final(self).definitions() == old(self).definitions().insert(name@, schema),
            final(self).key_schema() == old(self).key_schema(),
            final(self).teapot() == old(self).teapot(),
            final(self).rest() == old(self).rest(),
    {
        self.generator.add_definition(name, schema);
    }

    /// The document of what was registered, with `version` as its version.
    #[must_use]
    pub fn build(self, version: String) -> (doc: OpenApi)
        ensures
            doc.openapi@ == "3.0.0"@,
            table_view(doc.paths@) == render_table(self@),
            settled_table(table_view(doc.paths@)),
            doc.schemas@ == self.definitions(),
            doc.rest.info.version@ == version@,
            doc.rest.security_schemes == self.rest().security_schemes,
            doc.rest.security == self.rest().security,
    {
        let mut doc = self.generator.into_openapi();
        doc.rest.info.version = version;
        doc
    }

    /// As `build`, with `security_schemes` as the security schemes of the
    /// document, and with one more security requirement: the scheme
    /// `bearerAuth`, without scopes.
    #[must_use]
    pub fn build_with_security(
        self,
        version: String,
        security_schemes: Vec<(String, RefOr<SecurityScheme>)>,
    ) -> (doc: OpenApi)
        ensures
            doc.openapi@ == "3.0.0"@,
            table_view(doc.paths@) == render_table(self@),
            settled_table(table_view(doc.paths@)),
            doc.schemas@ == self.definitions(),
            doc.rest.info.version@ == version@,
            doc.rest.security_schemes == security_schemes,
            doc.rest.security@.len() == self.rest().security@.len() + 1,
            doc.rest.security@.drop_last() == self.rest().security@,
            doc.rest.security@.last()@.len() == 1,
            doc.rest.security@.last()@[0].0@ == "bearerAuth"@,
            doc.rest.security@.last()@[0].1@.len() == 0,
    {
        let mut requirement: SecurityRequirement = Vec::new();
        requirement.push((String::from_str("bearerAuth"), Vec::new()));
        let mut doc = self.build(version);
        doc.rest.security_schemes = security_schemes;
        doc.rest.security.push(requirement);
        proof {
            assert(doc.rest.security@.drop_last() =~= self.rest().security@);
        }
        doc
    }

    /// The response with `description` and the body `body`.
    pub fn create_response(description: String, body: ResponseSchema) -> (r: Response)
        ensures
            r@ == response_of(description@, body),
    {
        let mut content: Vec<(String, MediaType)> = Vec::new();
        if !body.has_no_content() {
            content.push(
                (
                    String::from_str("application/json; charset=utf-8"),
                    MediaType { schema: Some(body.schema) },
                ),
            );
        }
        let r = Response { description, content };
        proof {
            assert(r@.content =~= response_of(description@, body).content);
        }
        r
    }

    /// The required JSON request body that follows `schema`.
    pub fn create_request_body(schema: SchemaObject) -> (b: RequestBody)
        ensures
            b@ == request_body_of(schema),
    {
        let mut content: Vec<(String, MediaType)> = Vec::new();
        content.push(
            (String::from_str("application/json; charset=utf-8"), MediaType { schema: Some(schema) }),
        );
        let b = RequestBody { description: None, content, required: true };
        proof {
            assert(b@.content =~= json_content(schema));
        }
        b
    }

    /// Puts the standard error responses into `responses`, all with the
    /// body `error`.
    pub fn add_error_responses(&self, responses: &mut Responses, error: &ResponseSchema)
        ensures
            final(responses)@.responses == with_error_responses(
                old(responses)@.responses,
                *error,
                self.teapot(),
            ),
            final(responses)@.extensions == old(responses)@.extensions,
    {
        let resp = Self::create_response(String::from_str("Bad Request"), error.clone());
        put_response(&mut responses.responses, String::from_str("400"), RefOr::Object(resp));
        let resp = Self::create_response(String::from_str("Unauthorized"), error.clone());
        put_response(&mut responses.responses, String::from_str("401"), RefOr::Object(resp));
        if self.teapot {
            let resp = Self::create_response(String::from_str("I'm a teapot"), error.clone());
            put_response(&mut responses.responses, String::from_str("418"), RefOr::Object(resp));
        }
        let resp = Self::create_response(String::from_str("Internal Server Error"), error.clone());
        put_response(&mut responses.responses, String::from_str("500"), RefOr::Object(resp));
    }

    /// Puts the declaration of the path parameter of the placeholder
    /// `param_name` at the end of `parameters`.
    pub fn add_path_param(
        &self,
        param_name: String,
        parameters: &mut Vec<RefOr<Parameter>>,
        description: String,
    )
        requires
            valid_key(param_name@),
        ensures
            views(final(parameters)@) == views(old(parameters)@).push(
                RefOrView::Object(
                    path_parameter(parameter_name(param_name@), description@, self.key_schema()),
                ),
            ),
    {
        let p = path_parameter_of(param_name.as_str(), description, self.key_schema.clone());
        parameters.push(RefOr::Object(p));
        proof {
            assert(views(parameters@) =~= views(old(parameters)@).push(
                RefOrView::Object(
                    path_parameter(parameter_name(param_name@), description@, self.key_schema()),
                ),
            ));
        }
    }

    /// Puts the parameters of `api_path` at the end of `parameters`: one for
    /// each identifier in the order of the path, then the query parameters.
    pub fn add_path_params(&self, api_path: ApiPath, parameters: &mut Vec<RefOr<Parameter>>)
        requires
            api_path.wf(),
        ensures
            views(final(parameters)@) == views(old(parameters)@) + path_parameters(
                api_path@,
                self.key_schema(),
            ) + as_objects(api_path@.query_params),
    {
        let ghost before = views(parameters@);
        let ghost target = path_parameters(api_path@, self.key_schema());
        let ids = api_path.ids();
        let has_token = api_path.token().is_some();
        let n = ids.len();
        let mut i: usize = 0;
        proof {
            assert(views(parameters@) =~= before + target.take(0));
        }
        while i < n
            invariant
                i <= n,
                n == ids.len(),
                ids_view(ids@) == api_path@.ids,
                api_path.wf(),
                has_token == (api_path@.token is Some),
                target == path_parameters(api_path@, self.key_schema()),
                views(parameters@) == before + target.take(i as int),
            decreases n - i,
        {
            let id = &ids[i];
            let terminal = !has_token && i == n - 1;
            proof {
                assert(ids_view(ids@)[i as int] == id@);
                assert(valid_key(api_path@.ids[i as int].key));
            }
            let description = describe(id, terminal);
            self.add_path_param(String::from_str(id.key()), parameters, description);
            proof {
                assert(target.take(i + 1) =~= target.take(i as int).push(target[i as int]));
                assert(views(parameters@) =~= before + target.take(i + 1));
            }
            i += 1;
        }
        let queries = clone_parameters(api_path.query_params());
        let ghost built = views(parameters@);
        proof {
            assert(target.take(n as int) =~= target);
        }
        for q in it: queries
            invariant
                parameters_view(it.seq()) == api_path@.query_params,
                views(parameters@) == built + as_objects(api_path@.query_params).take(
                    it.index() as int,
                ),
        {
            let ghost k = it.index() as int;
            let ghost all = as_objects(api_path@.query_params);
            let ghost prev = views(parameters@);
            let ghost added = RefOrView::Object(q@);
            proof {
                assert(parameters_view(it.seq())[k] == q@);
                assert(all.take(k + 1) =~= all.take(k).push(added));
            }
            parameters.push(RefOr::Object(q));
            proof {
                assert(views(parameters@) =~= prev.push(added));
                assert(prev.push(added) =~= built + all.take(k + 1));
            }
        }
        proof {
            let all = as_objects(api_path@.query_params);
            assert(all.take(all.len() as int) =~= all);
        }
    }
}

impl Default for Oas3Builder {
    fn default() -> (b: Self)
        ensures
            b@ == Registered::empty(),
            b.definitions() == Map::<Seq<char>, SchemaObject>::empty(),
            b.rest().info.version@ == Seq::<char>::empty(),
            b.rest().security_schemes@.len() == 0,
            b.rest().security@.len() == 0,
            b.key_schema() == string_key_schema(),
            !b.teapot(),
    {
        Oas3Builder::new()
    }
}

/// What a helper for one kind of operation hands to the builder.
#[derive(Debug)]
pub struct OperationParts {
    pub operation_id: String,
    pub description: Option<String>,
    /// The status of the response on success.
    pub status: String,
    /// The name of the document, which describes the response on success.
    pub document_name: String,
    pub output: ResponseSchema,
    pub error: ResponseSchema,
    /// The schema of the request body, where the operation takes one.
    pub input: Option<SchemaObject>,
    /// The test fixtures to attach, where any are attached.
    pub fixtures: Option<Vec<Value>>,
}

impl View for OperationParts {
    type V = OperationPlan;

    open spec fn view(&self) -> OperationPlan {
        OperationPlan {
            operation_id: self.operation_id@,
            description: text_opt(self.description),
            status: self.status@,
            document_name: self.document_name@,
            output: self.output,
            error: self.error,
            input: self.input,
            fixtures: match self.fixtures {
                Some(f) => Some(f@),
                None => None,
            },
        }
    }
}

impl Oas3Builder {
    /// Puts the operation of `parts` together and registers it for
    /// `web_path` and `method`, which must be free: its response on success
    /// and the standard error responses, its request body if it takes one,
    /// the parameters of the path, and the fixtures if any are attached.
    pub fn register(&mut self, web_path: &ApiPath, method: HttpMethod, parts: OperationParts)
        requires
            web_path.wf(),
            !old(self)@.contains_key((render_path(web_path@), method)),
        ensures
            final(self)@ == old(self)@.insert(
                (render_path(web_path@), method),
                normalized(
                    planned_operation(
                        web_path@,
                        old(self).key_schema(),
                        old(self).teapot(),
                        parts@,
                    ),
                ),
            ),
            final(self).definitions() == old(self).definitions(),
            final(self).key_schema() == old(self).key_schema(),
            final(self).teapot() == old(self).teapot(),
            final(self).rest() == old(self).rest(),
    {
        let OperationParts {
            operation_id,
            description,
            status,
            document_name,
            output,
            error,
            input,
            fixtures,
        } = parts;
        let mut by_status: Vec<(String, RefOr<Response>)> = Vec::new();
        let resp = Self::create_response(document_name, output);
        by_status.push((status, RefOr::Object(resp)));
        let mut resps = Responses { responses: by_status, extensions: Vec::new() };
        proof {
            assert(resps@.responses =~= seq![
                (parts@.status, response_entry(parts@.document_name, parts@.output)),
            ]);
            assert(resps@.extensions =~= Seq::empty());
        }
        self.add_error_responses(&mut resps, &error);
        let request_body = match input {
            Some(schema) => Some(RefOr::Object(Self::create_request_body(schema))),
            None => None,
        };
        let mut parameters: Vec<RefOr<Parameter>> = Vec::new();
        proof {
            assert(views(parameters@) =~= Seq::empty());
        }
        self.add_path_params(web_path.clone(), &mut parameters);
        proof {
            assert(views(parameters@) =~= path_parameters(web_path@, self.key_schema())
                + as_objects(web_path@.query_params));
        }
        let mut extensions: Vec<(String, Value)> = Vec::new();
        if let Some(tests) = fixtures {
            extensions.push((String::from_str("x-tests"), json_array(tests)));
        }
        proof {
            assert(named(extensions@) =~= match parts@.fixtures {
                Some(f) => seq![("x-tests"@, json_array_value(f))],
                None => Seq::empty(),
            });
        }
        let operation = Operation {
            operation_id: Some(operation_id),
            description,
            responses: resps,
            request_body,
            parameters,
            extensions,
        };
        let path = web_path.to_string();
        self.generator.add_operation(OperationInfo { path, method, operation });
    }
}

} // verus!

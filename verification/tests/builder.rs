use oas_gen::oasgen::{
    describe, describe_generic, describe_terminal, parameter_name_of, path_parameter_of,
};
use oas_gen::payload::{DeclaredType, InstanceKind};
use oas_gen::record::{MediaType, Responses};
use oas_gen::securityscheme::{OAuthFlow, OAuthFlows, SecuritySchemeData};
use oas_gen::{
    ApiId, ApiPath, HttpMethod, Oas3Builder, OpenApiGenerator, Operation, Parameter,
    QueryParamBuilder, RefOr, ResponseSchema,
};
use schemars::gen::{SchemaGenerator, SchemaSettings};
use schemars::schema::{InstanceType, SchemaObject, SingleOrVec};
use serde_json::Value;

fn schema_of_unit() -> SchemaObject {
    SchemaGenerator::new(SchemaSettings::openapi3()).subschema_for::<()>().into_object()
}

fn schema_of_string() -> SchemaObject {
    SchemaGenerator::new(SchemaSettings::openapi3()).subschema_for::<String>().into_object()
}

fn schema_of_number() -> SchemaObject {
    SchemaGenerator::new(SchemaSettings::openapi3()).subschema_for::<u64>().into_object()
}

fn okapi_response(resp: oas_gen::record::Response) -> okapi::openapi3::Response {
    let mut out = okapi::openapi3::Response::default();
    out.description = resp.description;
    for (content_type, media) in resp.content {
        let mut m = okapi::openapi3::MediaType::default();
        m.schema = media.schema;
        out.content.insert(content_type, m);
    }
    out
}

fn path_parameter(name: &str, description: &str) -> RefOr<Parameter> {
    RefOr::Object(Parameter {
        name: name.to_owned(),
        location: "path".to_owned(),
        description: Some(description.to_owned()),
        required: true,
        deprecated: false,
        allow_empty_value: false,
        style: None,
        explode: None,
        allow_reserved: false,
        schema: schema_of_string(),
        example: Some(Value::String("84742".to_owned())),
        examples: None,
        extensions: vec![],
    })
}

fn registered(builder: Oas3Builder, path: &str, method: HttpMethod) -> Operation {
    let mut doc = builder.build("1.0.0".to_owned());
    let item = doc.paths.remove(&path.to_owned()).unwrap();
    let slot = match method {
        HttpMethod::Get => item.get,
        HttpMethod::Put => item.put,
        HttpMethod::Post => item.post,
        HttpMethod::Delete => item.delete,
        HttpMethod::Options => item.options,
        HttpMethod::Head => item.head,
        HttpMethod::Patch => item.patch,
        HttpMethod::Trace => item.trace,
        HttpMethod::Connect => None,
    };
    slot.unwrap()
}

fn statuses(op: &Operation) -> Vec<&str> {
    op.responses.responses.iter().map(|r| r.0.as_str()).collect()
}

fn events_path() -> ApiPath {
    ApiPath::new(
        Some("api".to_owned()),
        vec![ApiId::new("organizers", "{oid}"), ApiId::new("events", "{eid}")],
        None,
    )
}

#[test]
fn test_create_response_empty() {
    let resp = Oas3Builder::create_response(
        "Empty response is invalid in oas 3.0.".to_owned(),
        ResponseSchema::of(schema_of_unit()),
    );

    let got = serde_json::to_value(okapi_response(resp)).unwrap();
    let mut expect = serde_json::Map::new();
    expect.insert(
        "description".to_owned(),
        Value::String("Empty response is invalid in oas 3.0.".to_owned()),
    );
    assert_eq!(Value::Object(expect), got);
}

#[test]
fn a_response_of_a_document_has_a_json_body() {
    let body = ResponseSchema::of(schema_of_number());
    assert!(!body.has_no_content());
    assert_eq!(schema_of_number(), body.schema);
    let resp = Oas3Builder::create_response("Events".to_owned(), body);
    assert_eq!("Events", resp.description);
    assert_eq!(
        vec![(
            "application/json; charset=utf-8".to_owned(),
            MediaType { schema: Some(schema_of_number()) }
        )],
        resp.content
    );
}

#[test]
fn the_schema_of_nothing_means_no_content() {
    let unit = ResponseSchema::of(schema_of_unit());
    assert_eq!(DeclaredType::Single(InstanceKind::Null), unit.declared);
    assert!(unit.has_no_content());
    let text = ResponseSchema::of(schema_of_string());
    assert_eq!(DeclaredType::Single(InstanceKind::String), text.declared);
    assert!(!text.has_no_content());
    let number = ResponseSchema::of(schema_of_number());
    assert_eq!(DeclaredType::Single(InstanceKind::Integer), number.declared);
    let any = ResponseSchema::of(SchemaObject::default());
    assert_eq!(DeclaredType::Unspecified, any.declared);
    assert!(!any.has_no_content());
    let mut either = SchemaObject::default();
    either.instance_type = Some(SingleOrVec::Vec(vec![InstanceType::Null]));
    let either = ResponseSchema::of(either);
    assert_eq!(DeclaredType::Several, either.declared);
    assert!(!either.has_no_content());
}

#[test]
fn only_the_single_type_null_means_no_content() {
    let with = |declared| ResponseSchema { schema: SchemaObject::default(), declared };
    assert!(with(DeclaredType::Single(InstanceKind::Null)).has_no_content());
    assert!(!with(DeclaredType::Single(InstanceKind::Boolean)).has_no_content());
    assert!(!with(DeclaredType::Single(InstanceKind::Object)).has_no_content());
    assert!(!with(DeclaredType::Single(InstanceKind::Array)).has_no_content());
    assert!(!with(DeclaredType::Single(InstanceKind::Number)).has_no_content());
    assert!(!with(DeclaredType::Single(InstanceKind::String)).has_no_content());
    assert!(!with(DeclaredType::Single(InstanceKind::Integer)).has_no_content());
    assert!(!with(DeclaredType::Several).has_no_content());
    assert!(!with(DeclaredType::Unspecified).has_no_content());
    let resp = Oas3Builder::create_response(
        "Nothing".to_owned(),
        with(DeclaredType::Single(InstanceKind::Null)),
    );
    assert!(resp.content.is_empty());
}

#[test]
fn a_request_body_is_required_json() {
    let body = Oas3Builder::create_request_body(schema_of_number());
    assert!(body.required);
    assert_eq!(None, body.description);
    assert_eq!(
        vec![(
            "application/json; charset=utf-8".to_owned(),
            MediaType { schema: Some(schema_of_number()) }
        )],
        body.content
    );
}

#[test]
fn the_standard_error_responses() {
    let error = ResponseSchema::of(schema_of_string());
    let mut resps = Responses { responses: vec![], extensions: vec![] };
    Oas3Builder::new().add_error_responses(&mut resps, &error);
    let got: Vec<(&str, String)> = resps
        .responses
        .iter()
        .map(|r| match &r.1 {
            RefOr::Object(resp) => (r.0.as_str(), resp.description.clone()),
            RefOr::Ref(_) => (r.0.as_str(), String::new()),
        })
        .collect();
    assert_eq!(
        vec![
            ("400", "Bad Request".to_owned()),
            ("401", "Unauthorized".to_owned()),
            ("500", "Internal Server Error".to_owned()),
        ],
        got
    );
    assert!(resps.extensions.is_empty());
}

#[test]
fn the_error_responses_with_teapot() {
    let error = ResponseSchema::of(schema_of_string());
    let mut resps = Responses { responses: vec![], extensions: vec![] };
    Oas3Builder::with_teapot().add_error_responses(&mut resps, &error);
    let got: Vec<&str> = resps.responses.iter().map(|r| r.0.as_str()).collect();
    assert_eq!(vec!["400", "401", "418", "500"], got);
    match &resps.responses[2].1 {
        RefOr::Object(resp) => assert_eq!("I'm a teapot", resp.description),
        RefOr::Ref(_) => panic!("a reference where a response was put"),
    }
}

#[test]
fn the_name_of_a_path_parameter_is_the_key_without_braces() {
    assert_eq!("oid", parameter_name_of("{oid}"));
    assert_eq!("a", parameter_name_of("{{a}}"));
    assert_eq!("a{b}c", parameter_name_of("{a{b}c}"));
    assert_eq!("", parameter_name_of("{{}"));
}

#[test]
fn descriptions_of_path_parameters() {
    assert_eq!("Events({eid})", describe_generic("Events", "{eid}"));
    assert_eq!(
        "The Events document is identified by the {eid} key at the end of this url.",
        describe_terminal("Events", "{eid}")
    );
    let id = ApiId::new("work_safety trainings", "{tid}");
    assert_eq!("WorkSafetyTrainings({tid})", describe(&id, false));
    assert_eq!(
        "The WorkSafetyTrainings document is identified by the {tid} key at the end of this url.",
        describe(&id, true)
    );
    assert_ne!(describe(&id, false), describe(&id, true));
}

#[test]
fn a_path_parameter_is_required_and_has_the_fixed_example() {
    let p = path_parameter_of("{oid}", "Organizers({oid})".to_owned(), schema_of_string());
    assert_eq!(path_parameter("oid", "Organizers({oid})"), RefOr::Object(p));
}

#[test]
fn add_path_param_appends_one_parameter() {
    let mut parameters = vec![path_parameter("first", "First({first})")];
    Oas3Builder::new().add_path_param(
        "{oid}".to_owned(),
        &mut parameters,
        "Organizers({oid})".to_owned(),
    );
    assert_eq!(
        vec![path_parameter("first", "First({first})"), path_parameter("oid", "Organizers({oid})")],
        parameters
    );
}

#[test]
fn without_token_the_last_identifier_is_the_document() {
    let mut parameters = vec![];
    Oas3Builder::new().add_path_params(events_path(), &mut parameters);
    assert_eq!(
        vec![
            path_parameter("oid", "Organizers({oid})"),
            path_parameter(
                "eid",
                "The Events document is identified by the {eid} key at the end of this url."
            ),
        ],
        parameters
    );
}

#[test]
fn with_a_token_every_identifier_is_described_alike() {
    let path = ApiPath::new(
        Some("api".to_owned()),
        vec![ApiId::new("organizers", "{oid}"), ApiId::new("events", "{eid}")],
        Some("find".to_owned()),
    );
    let mut parameters = vec![];
    Oas3Builder::new().add_path_params(path, &mut parameters);
    assert_eq!(
        vec![path_parameter("oid", "Organizers({oid})"), path_parameter("eid", "Events({eid})")],
        parameters
    );
}

#[test]
fn a_single_identifier_without_token_is_the_document() {
    let path = ApiPath::new(None, vec![ApiId::new("events", "{eid}")], None);
    let mut parameters = vec![];
    Oas3Builder::new().add_path_params(path, &mut parameters);
    assert_eq!(
        vec![path_parameter(
            "eid",
            "The Events document is identified by the {eid} key at the end of this url."
        )],
        parameters
    );
}

#[test]
fn query_parameters_follow_the_path_parameters() {
    let limit = QueryParamBuilder::new("limit".to_owned(), schema_of_number(), None);
    let title = QueryParamBuilder::new("title".to_owned(), schema_of_string(), None).required(true);
    let path = ApiPath::with_queries(
        None,
        vec![ApiId::new("organizers", "{oid}")],
        Some("events".to_owned()),
        vec![limit.clone(), title.clone()],
    );
    let mut parameters = vec![];
    Oas3Builder::new().add_path_params(path, &mut parameters);
    assert_eq!(
        vec![
            path_parameter("oid", "Organizers({oid})"),
            RefOr::Object(limit.build()),
            RefOr::Object(title.build()),
        ],
        parameters
    );
}

#[test]
fn a_path_without_identifiers_has_only_its_query_parameters() {
    let limit = QueryParamBuilder::new("limit".to_owned(), schema_of_number(), None);
    let path = ApiPath::with_queries(Some("api".to_owned()), vec![], None, vec![limit.clone()]);
    let mut parameters = vec![];
    Oas3Builder::new().add_path_params(path, &mut parameters);
    assert_eq!(vec![RefOr::Object(limit.build())], parameters);
}

#[test]
fn fetch_registers_a_get_that_answers_201() {
    let mut b = Oas3Builder::new();
    assert!(b.is_free(&events_path(), HttpMethod::Get));
    b.fetch(
        &events_path(),
        "Events".to_owned(),
        Some("One event".to_owned()),
        ResponseSchema::of(schema_of_number()),
        ResponseSchema::of(schema_of_string()),
    );
    assert!(!b.is_free(&events_path(), HttpMethod::Get));
    assert!(b.is_free(&events_path(), HttpMethod::Patch));
    let op = registered(b, "/api/organizers/{oid}/events/{eid}", HttpMethod::Get);
    assert_eq!(Some("fetchEvents".to_owned()), op.operation_id);
    assert_eq!(Some("One event".to_owned()), op.description);
    assert_eq!(vec!["201", "400", "401", "500"], statuses(&op));
    assert_eq!(None, op.request_body);
    assert_eq!(2, op.parameters.len());
    assert!(op.extensions.is_empty());
    match &op.responses.responses[0].1 {
        RefOr::Object(resp) => {
            assert_eq!("Events", resp.description);
            assert_eq!(1, resp.content.len());
        }
        RefOr::Ref(_) => panic!("a reference where a response was put"),
    }
}

#[test]
fn fetch_attaches_fixtures_only_if_there_are_any() {
    let mut b = Oas3Builder::new();
    b.fetch_with_tests(
        &events_path(),
        "Events".to_owned(),
        None,
        ResponseSchema::of(schema_of_number()),
        ResponseSchema::of(schema_of_string()),
        vec![Value::from(1), Value::from(2)],
    );
    let op = registered(b, "/api/organizers/{oid}/events/{eid}", HttpMethod::Get);
    assert_eq!(
        vec![("x-tests".to_owned(), Value::Array(vec![Value::from(1), Value::from(2)]))],
        op.extensions
    );
}

#[test]
fn list_names_the_operation_in_the_plural() {
    let path = ApiPath::new(None, vec![], Some("events".to_owned()));
    let mut b = Oas3Builder::new();
    b.list(
        &path,
        "Events".to_owned(),
        None,
        ResponseSchema::of(schema_of_number()),
        ResponseSchema::of(schema_of_string()),
    );
    let op = registered(b, "/events", HttpMethod::Get);
    assert_eq!(Some("listEvents".to_owned()), op.operation_id);
    assert_eq!(vec!["201", "400", "401", "500"], statuses(&op));
    assert_eq!(None, op.request_body);
    assert_eq!(vec![("x-tests".to_owned(), Value::Array(vec![]))], op.extensions);

    let mut b = Oas3Builder::new();
    b.list_with_tests(
        &path,
        "Event".to_owned(),
        None,
        ResponseSchema::of(schema_of_number()),
        ResponseSchema::of(schema_of_string()),
        vec![Value::Bool(true)],
    );
    let op = registered(b, "/events", HttpMethod::Get);
    assert_eq!(Some("listEvents".to_owned()), op.operation_id);
    assert_eq!(vec![("x-tests".to_owned(), Value::Array(vec![Value::Bool(true)]))], op.extensions);
}

#[test]
fn update_registers_a_patch_with_a_body() {
    let mut b = Oas3Builder::new();
    b.update(
        &events_path(),
        "Events".to_owned(),
        None,
        schema_of_string(),
        ResponseSchema::of(schema_of_number()),
        ResponseSchema::of(schema_of_string()),
    );
    let op = registered(b, "/api/organizers/{oid}/events/{eid}", HttpMethod::Patch);
    assert_eq!(Some("updateEvents".to_owned()), op.operation_id);
    assert_eq!(vec!["201", "400", "401", "500"], statuses(&op));
    assert_eq!(
        Some(RefOr::Object(Oas3Builder::create_request_body(schema_of_string()))),
        op.request_body
    );
    assert_eq!(vec![("x-tests".to_owned(), Value::Array(vec![]))], op.extensions);
}

#[test]
fn update_with_tests_attaches_them() {
    let mut b = Oas3Builder::new();
    b.update_with_tests(
        &events_path(),
        "Events".to_owned(),
        None,
        schema_of_string(),
        ResponseSchema::of(schema_of_number()),
        ResponseSchema::of(schema_of_string()),
        vec![Value::Null],
    );
    let op = registered(b, "/api/organizers/{oid}/events/{eid}", HttpMethod::Patch);
    assert_eq!(vec![("x-tests".to_owned(), Value::Array(vec![Value::Null]))], op.extensions);
}

#[test]
fn any_registers_under_the_given_verb_and_answers_200() {
    let title = QueryParamBuilder::new("title".to_owned(), schema_of_string(), None);
    let path = ApiPath::with_queries(
        Some("api".to_owned()),
        vec![ApiId::new("organizers", "{oid}")],
        Some("events/find".to_owned()),
        vec![title.clone()],
    );
    let mut b = Oas3Builder::new();
    b.any(
        &path,
        HttpMethod::Post,
        "Events".to_owned(),
        "Find",
        Some("Find and event by it's title".to_owned()),
        schema_of_unit(),
        ResponseSchema::of(schema_of_number()),
        ResponseSchema::of(schema_of_string()),
    );
    let op = registered(b, "/api/organizers/{oid}/events/find", HttpMethod::Post);
    assert_eq!(Some("FindEvents".to_owned()), op.operation_id);
    assert_eq!(Some("Find and event by it's title".to_owned()), op.description);
    assert_eq!(vec!["200", "400", "401", "500"], statuses(&op));
    assert_eq!(
        Some(RefOr::Object(Oas3Builder::create_request_body(schema_of_unit()))),
        op.request_body
    );
    assert_eq!(
        vec![path_parameter("oid", "Organizers({oid})"), RefOr::Object(title.build())],
        op.parameters
    );
    assert!(op.extensions.is_empty());
}

#[test]
fn any_with_tests_attaches_fixtures_only_if_there_are_any() {
    let path = ApiPath::new(None, vec![], Some("find".to_owned()));
    let mut b = Oas3Builder::new();
    b.any_with_tests(
        &path,
        HttpMethod::Get,
        "Events".to_owned(),
        "my::Find",
        None,
        schema_of_unit(),
        ResponseSchema::of(schema_of_number()),
        ResponseSchema::of(schema_of_string()),
        vec![Value::from("a")],
    );
    b.any_with_tests(
        &path,
        HttpMethod::Put,
        "Events".to_owned(),
        "Find",
        None,
        schema_of_unit(),
        ResponseSchema::of(schema_of_number()),
        ResponseSchema::of(schema_of_string()),
        vec![],
    );
    let mut doc = b.build("1.0.0".to_owned());
    let item = doc.paths.remove(&"/find".to_owned()).unwrap();
    let get = item.get.unwrap();
    assert_eq!(Some("my_FindEvents".to_owned()), get.operation_id);
    assert_eq!(vec![("x-tests".to_owned(), Value::Array(vec![Value::from("a")]))], get.extensions);
    assert!(item.put.unwrap().extensions.is_empty());
}

#[test]
fn teapot_adds_the_response_418_to_every_operation() {
    let mut b = Oas3Builder::with_teapot();
    b.fetch(
        &events_path(),
        "Events".to_owned(),
        None,
        ResponseSchema::of(schema_of_number()),
        ResponseSchema::of(schema_of_string()),
    );
    let op = registered(b, "/api/organizers/{oid}/events/{eid}", HttpMethod::Get);
    assert_eq!(vec!["201", "400", "401", "418", "500"], statuses(&op));
}

#[test]
fn build_sets_the_version_and_hands_on_the_definitions() {
    let mut b = Oas3Builder::new();
    b.add_definition("Event".to_owned(), schema_of_number());
    let doc = b.build("1.0.1".to_owned());
    assert_eq!("3.0.0", doc.openapi);
    assert_eq!("1.0.1", doc.rest.info.version);
    assert_eq!(Some(&schema_of_number()), doc.schemas.get(&"Event".to_owned()));
    assert!(doc.paths.is_empty());
    assert!(doc.rest.security.is_empty());
}

#[test]
fn build_with_security_asks_for_bearer_auth() {
    let schemes = vec![("bearerAuth".to_owned(), RefOr::Object(Oas3Builder::create_bearer_scheme()))];
    let doc = Oas3Builder::new().build_with_security("2.0.0".to_owned(), schemes);
    assert_eq!("2.0.0", doc.rest.info.version);
    assert_eq!(
        vec![("bearerAuth".to_owned(), RefOr::Object(Oas3Builder::create_bearer_scheme()))],
        doc.rest.security_schemes
    );
    assert_eq!(vec![vec![("bearerAuth".to_owned(), Vec::<String>::new())]], doc.rest.security);
}

#[test]
fn a_builder_goes_on_from_a_registry() {
    let mut first = Oas3Builder::new();
    first.fetch(
        &events_path(),
        "Events".to_owned(),
        None,
        ResponseSchema::of(schema_of_number()),
        ResponseSchema::of(schema_of_string()),
    );
    let doc = first.build("1.0.0".to_owned());
    let mut b = Oas3Builder::from_generator(OpenApiGenerator::from_openapi(doc));
    assert!(!b.is_free(&events_path(), HttpMethod::Get));
    let more = ApiPath::new(
        Some("api".to_owned()),
        vec![ApiId::new("z_data", "{lid}")],
        Some("data".to_owned()),
    );
    b.update(
        &more,
        "Data".to_owned(),
        None,
        schema_of_string(),
        ResponseSchema::of(schema_of_number()),
        ResponseSchema::of(schema_of_string()),
    );
    let doc = b.build("1.0.1".to_owned());
    assert_eq!(2, doc.paths.len());
    assert_eq!("1.0.1", doc.rest.info.version);
}

#[test]
fn the_security_schemes() {
    let bearer = Oas3Builder::create_bearer_scheme();
    assert_eq!("http", bearer.schema_type);
    assert_eq!(None, bearer.description);
    assert_eq!(
        SecuritySchemeData::Http {
            scheme: "bearer".to_owned(),
            bearer_format: Some("JWT".to_owned())
        },
        bearer.data
    );

    let basic = Oas3Builder::create_basic_scheme();
    assert_eq!("http", basic.schema_type);
    assert_eq!(
        SecuritySchemeData::Http { scheme: "basic".to_owned(), bearer_format: None },
        basic.data
    );

    let key = Oas3Builder::create_apikey_scheme("X-Key".to_owned());
    assert_eq!("apiKey", key.schema_type);
    assert_eq!(
        SecuritySchemeData::ApiKey { name: "X-Key".to_owned(), location: "header".to_owned() },
        key.data
    );

    let openid = Oas3Builder::create_openid_scheme("https://id.example/.well-known".to_owned());
    assert_eq!("openIdConnect", openid.schema_type);
    assert_eq!(
        SecuritySchemeData::OpenIdConnect {
            open_id_connect_url: "https://id.example/.well-known".to_owned()
        },
        openid.data
    );

    let scopes = vec![("read".to_owned(), "read events".to_owned())];
    let oauth = Oas3Builder::create_oauth2_scheme(
        "https://id.example/auth".to_owned(),
        "https://id.example/token".to_owned(),
        None,
        scopes.clone(),
    );
    assert_eq!("openIdConnect", oauth.schema_type);
    assert_eq!(
        SecuritySchemeData::OAuth2 {
            flows: OAuthFlows {
                authorization_code: Some(OAuthFlow {
                    authorization_url: "https://id.example/auth".to_owned(),
                    token_url: "https://id.example/token".to_owned(),
                    refresh_url: None,
                    scopes,
                }),
            }
        },
        oauth.data
    );
}

#[test]
fn the_default_builder_is_the_new_one() {
    let mut b = Oas3Builder::default();
    assert!(b.is_free(&events_path(), HttpMethod::Get));
    b.fetch(
        &events_path(),
        "Events".to_owned(),
        None,
        ResponseSchema::of(schema_of_number()),
        ResponseSchema::of(schema_of_string()),
    );
    let op = registered(b, "/api/organizers/{oid}/events/{eid}", HttpMethod::Get);
    assert_eq!(vec!["201", "400", "401", "500"], statuses(&op));
}

#[test]
fn a_document_of_several_operations() {
    let limit = QueryParamBuilder::new(
        "limit".to_owned(),
        schema_of_number(),
        Some(Value::from(u64::MAX)),
    );
    let categories =
        QueryParamBuilder::new("categories".to_owned(), schema_of_string(), None).explode(false);
    let list_path = ApiPath::with_queries(
        Some("api".to_owned()),
        vec![ApiId::new("organizers", "{oid}")],
        Some("events".to_owned()),
        vec![limit, categories],
    );
    let fetch_path = events_path();
    let title = QueryParamBuilder::new(
        "title".to_owned(),
        schema_of_string(),
        Some(Value::from("Hackaton 2020 01 23")),
    );
    let find_path = ApiPath::with_queries(
        Some("api".to_owned()),
        vec![ApiId::new("organizers", "{oid}")],
        Some("events/find".to_owned()),
        vec![title],
    );

    let mut b = Oas3Builder::new();
    let out = || ResponseSchema::of(schema_of_number());
    let err = || ResponseSchema::of(schema_of_string());
    b.list(&list_path, "Events".to_owned(), None, out(), err());
    b.fetch(&fetch_path, "Events".to_owned(), None, out(), err());
    b.update(&fetch_path, "Events".to_owned(), None, schema_of_string(), out(), err());
    b.any(
        &find_path,
        HttpMethod::Get,
        "Events".to_owned(),
        "Find",
        Some("Find and event by it's title".to_owned()),
        schema_of_unit(),
        out(),
        err(),
    );
    assert!(!b.is_free(&list_path, HttpMethod::Get));
    assert!(!b.is_free(&fetch_path, HttpMethod::Get));
    assert!(!b.is_free(&fetch_path, HttpMethod::Patch));
    assert!(!b.is_free(&find_path, HttpMethod::Get));
    assert!(b.is_free(&find_path, HttpMethod::Post));

    let doc = b.build("1.0.0".to_owned());
    assert_eq!("1.0.0", doc.rest.info.version);
    assert_eq!(3, doc.paths.len());
    let events = doc.paths.get(&"/api/organizers/{oid}/events".to_owned()).unwrap();
    let list = events.get.as_ref().unwrap();
    assert_eq!(Some("listEvents".to_owned()), list.operation_id);
    assert_eq!(3, list.parameters.len());
    let one = doc.paths.get(&"/api/organizers/{oid}/events/{eid}".to_owned()).unwrap();
    assert_eq!(Some("fetchEvents".to_owned()), one.get.as_ref().unwrap().operation_id);
    assert_eq!(Some("updateEvents".to_owned()), one.patch.as_ref().unwrap().operation_id);
    assert_eq!(None, one.put);
    let find = doc.paths.get(&"/api/organizers/{oid}/events/find".to_owned()).unwrap();
    assert_eq!(Some("FindEvents".to_owned()), find.get.as_ref().unwrap().operation_id);
}

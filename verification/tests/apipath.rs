use oas_gen::apipath::{is_valid_document, is_valid_key, is_valid_literal};
use oas_gen::text::{
    collapse_pairs_char, contains_char, ends_with_char, from_chars, starts_with_char, to_chars,
    trim_end_char, trim_start_char,
};
use oas_gen::{ApiId, ApiPath, PathError, QueryParamBuilder};
use schemars::schema::SchemaObject;

#[test]
fn test_api_path() {
    let test_path = ApiPath::new(Some("api".to_owned()), vec![], Some("testdoc".to_owned()));
    let test_str = test_path.to_string();
    assert_eq!("/api/testdoc", test_str.as_str());

    let test_path = ApiPath::new(Some("api/testdoc".to_owned()), vec![], None);
    let test_str = test_path.to_string();
    assert_eq!("/api/testdoc", test_str.as_str());

    let test_path = ApiPath::new(
        Some("api".to_owned()),
        vec![ApiId::new("parents", "{pid}")],
        Some("testdoc".to_owned()),
    );
    let test_str = test_path.to_string();
    assert_eq!("/api/parents/{pid}/testdoc", test_str.as_str());
}

#[test]
fn api_id_renders_collection_slash_key() {
    let id = ApiId::new("organizers", "{oid}");
    assert_eq!("organizers/{oid}", id.to_string());
    assert_eq!("organizers", id.document());
    assert_eq!("{oid}", id.key());
}

#[test]
fn api_id_try_new_accepts_what_new_takes() {
    let id = ApiId::try_new("organizers", "{oid}").unwrap();
    assert_eq!(ApiId::new("organizers", "{oid}"), id);
}

#[test]
fn api_id_refuses_a_slash_in_the_collection() {
    assert_eq!(Err(PathError::DocumentHasSlash), ApiId::try_new("a/b", "{k}"));
    assert_eq!(Err(PathError::DocumentHasSlash), ApiId::try_new("/", "no key"));
}

#[test]
fn api_id_refuses_a_key_that_is_no_placeholder() {
    assert_eq!(Err(PathError::KeyNotPlaceholder), ApiId::try_new("a", "k"));
    assert_eq!(Err(PathError::KeyNotPlaceholder), ApiId::try_new("a", "{k"));
    assert_eq!(Err(PathError::KeyNotPlaceholder), ApiId::try_new("a", "k}"));
    assert_eq!(Err(PathError::KeyNotPlaceholder), ApiId::try_new("a", "{}"));
    assert_eq!(Err(PathError::KeyNotPlaceholder), ApiId::try_new("a", ""));
    assert!(ApiId::try_new("a", "{k}").is_ok());
}

#[test]
fn degenerate_path_renders_as_root() {
    let p = ApiPath::new(None, vec![], None);
    assert_eq!("/", p.to_string());
}

#[test]
fn path_of_identifiers_only() {
    let p = ApiPath::new(
        None,
        vec![ApiId::new("organizers", "{oid}"), ApiId::new("events", "{eid}")],
        None,
    );
    assert_eq!("/organizers/{oid}/events/{eid}", p.to_string());
}

#[test]
fn path_with_everything() {
    let p = ApiPath::new(
        Some("api".to_owned()),
        vec![ApiId::new("organizers", "{oid}"), ApiId::new("events", "{eid}")],
        Some("find".to_owned()),
    );
    let s = p.to_string();
    assert_eq!("/api/organizers/{oid}/events/{eid}/find", s);
    assert!(s.starts_with('/'));
    assert!(!s.contains("//"));
}

#[test]
fn path_of_token_only() {
    let p = ApiPath::new(None, vec![], Some("find".to_owned()));
    assert_eq!("/find", p.to_string());
}

#[test]
fn empty_prefix_before_a_token_doubles_the_slash() {
    let p = ApiPath::try_new(Some(String::new()), vec![], Some("x".to_owned())).unwrap();
    assert_eq!("//x", p.to_string());
}

#[test]
fn empty_token_leaves_a_single_trailing_slash() {
    let p = ApiPath::try_new(Some("api".to_owned()), vec![], Some(String::new())).unwrap();
    assert_eq!("/api/", p.to_string());
}

#[test]
fn path_refuses_a_prefix_with_a_leading_slash() {
    let r = ApiPath::try_new(Some("/api".to_owned()), vec![], None);
    assert_eq!(Some(PathError::PrefixLeadingSlash), r.err());
    let r = ApiPath::try_new(Some("/a{".to_owned()), vec![], Some("/t".to_owned()));
    assert_eq!(Some(PathError::PrefixLeadingSlash), r.err());
}

#[test]
fn path_refuses_a_prefix_with_a_brace() {
    let r = ApiPath::try_new(Some("a{b".to_owned()), vec![], None);
    assert_eq!(Some(PathError::PrefixHasBrace), r.err());
    let r = ApiPath::try_new(Some("ab}".to_owned()), vec![], None);
    assert_eq!(Some(PathError::PrefixHasBrace), r.err());
}

#[test]
fn path_refuses_a_token_with_a_leading_slash() {
    let r = ApiPath::try_new(Some("api".to_owned()), vec![], Some("/find".to_owned()));
    assert_eq!(Some(PathError::TokenLeadingSlash), r.err());
}

#[test]
fn path_refuses_a_token_with_a_brace() {
    let r = ApiPath::try_new(None, vec![], Some("{id}".to_owned()));
    assert_eq!(Some(PathError::TokenHasBrace), r.err());
    let r = ApiPath::try_new(None, vec![], Some("id}".to_owned()));
    assert_eq!(Some(PathError::TokenHasBrace), r.err());
}

#[test]
fn try_with_queries_checks_as_try_new_does() {
    let r = ApiPath::try_with_queries(Some("/api".to_owned()), vec![], None, vec![]);
    assert_eq!(Some(PathError::PrefixLeadingSlash), r.err());
    let r = ApiPath::try_with_queries(Some("api".to_owned()), vec![], None, vec![]);
    assert_eq!("/api", r.unwrap().to_string());
}

#[test]
fn with_queries_keeps_the_parameters_in_order() {
    let limit = QueryParamBuilder::new("limit".to_owned(), SchemaObject::default(), None);
    let title = QueryParamBuilder::new("title".to_owned(), SchemaObject::default(), None);
    let p = ApiPath::with_queries(
        Some("api".to_owned()),
        vec![ApiId::new("organizers", "{oid}")],
        Some("events".to_owned()),
        vec![limit, title],
    );
    assert_eq!("/api/organizers/{oid}/events", p.to_string());
    let names: Vec<&str> = p.query_params().iter().map(|q| q.name.as_str()).collect();
    assert_eq!(vec!["limit", "title"], names);
    assert_eq!(&Some("api".to_owned()), p.prefix());
    assert_eq!(&Some("events".to_owned()), p.token());
    assert_eq!(1, p.ids().len());
}

#[test]
fn new_has_no_query_parameters() {
    let p = ApiPath::new(Some("api".to_owned()), vec![], None);
    assert!(p.query_params().is_empty());
}

#[test]
fn a_cloned_path_renders_the_same() {
    let limit = QueryParamBuilder::new("limit".to_owned(), SchemaObject::default(), None);
    let p = ApiPath::with_queries(
        Some("api".to_owned()),
        vec![ApiId::new("organizers", "{oid}")],
        None,
        vec![limit],
    );
    let q = p.clone();
    assert_eq!(p.to_string(), q.to_string());
    assert_eq!(p.query_params(), q.query_params());
    assert_eq!(p.ids(), q.ids());
}

#[test]
fn rendering_is_deterministic() {
    let make = || {
        ApiPath::new(
            Some("api".to_owned()),
            vec![ApiId::new("parents", "{pid}")],
            Some("testdoc".to_owned()),
        )
    };
    assert_eq!(make().to_string(), make().to_string());
}

#[test]
fn validity_checks() {
    assert!(is_valid_document("organizers"));
    assert!(is_valid_document(""));
    assert!(!is_valid_document("a/b"));
    assert!(is_valid_key("{oid}"));
    assert!(!is_valid_key("{}"));
    assert!(!is_valid_key("oid"));
    assert!(is_valid_literal("api/v1"));
    assert!(is_valid_literal(""));
    assert!(!is_valid_literal("/api"));
    assert!(!is_valid_literal("a{"));
    assert!(!is_valid_literal("a}"));
}

#[test]
fn character_helpers() {
    assert!(contains_char("a/b", '/'));
    assert!(!contains_char("ab", '/'));
    assert!(!contains_char("", '/'));
    assert!(starts_with_char("{a", '{'));
    assert!(!starts_with_char("a{", '{'));
    assert!(!starts_with_char("", '{'));
    assert!(ends_with_char("a}", '}'));
    assert!(!ends_with_char("}a", '}'));
    assert!(!ends_with_char("", '}'));
    assert_eq!(vec!['a', 'é', 'b'], to_chars("aéb"));
    assert_eq!("éb", from_chars(&vec!['a', 'é', 'b'], 1, 3));
    assert_eq!("", from_chars(&vec!['a'], 1, 1));
}

#[test]
fn trimming_and_collapsing() {
    assert_eq!("a{", trim_start_char("{{a{", '{'));
    assert_eq!("", trim_start_char("{{", '{'));
    assert_eq!("a", trim_start_char("a", '{'));
    assert_eq!("}a", trim_end_char("}a}}", '}'));
    assert_eq!("", trim_end_char("}", '}'));
    assert_eq!("a_b", collapse_pairs_char("a::b", ':', '_'));
    assert_eq!("a_:b", collapse_pairs_char("a:::b", ':', '_'));
    assert_eq!("a__b", collapse_pairs_char("a::::b", ':', '_'));
    assert_eq!("a:b", collapse_pairs_char("a:b", ':', '_'));
    assert_eq!(":", collapse_pairs_char(":", ':', '_'));
    assert_eq!("", collapse_pairs_char("", ':', '_'));
}

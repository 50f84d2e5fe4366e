//! Security schemes of a document: how a client proves who it is.
//!
//! - `http`: Basic, Bearer and other HTTP authentication schemes
//! - `apiKey`: a key in a header
//! - `openIdConnect`: OpenID Connect discovery
//! - `oauth2`: OAuth 2

use vstd::prelude::*;

use crate::oasgen::Oas3Builder;
use crate::payload::{named, text_opt};

verus! {

/// One OAuth 2 flow.
#[derive(Debug, PartialEq, Eq)]
pub struct OAuthFlow {
    pub authorization_url: String,
    pub token_url: String,
    pub refresh_url: Option<String>,
    /// The scopes by name, each with its description.
    pub scopes: Vec<(String, String)>,
}

/// The OAuth 2 flows of a scheme. Only the authorization code flow is kept.
#[derive(Debug, PartialEq, Eq)]
pub struct OAuthFlows {
    pub authorization_code: Option<OAuthFlow>,
}

/// What a security scheme asks for, by its kind.
#[derive(Debug, PartialEq, Eq)]
pub enum SecuritySchemeData {
    ApiKey { name: String, location: String },
    Http { scheme: String, bearer_format: Option<String> },
    OAuth2 { flows: OAuthFlows },
    OpenIdConnect { open_id_connect_url: String },
}

/// A security scheme.
#[derive(Debug, PartialEq, Eq)]
pub struct SecurityScheme {
    pub schema_type: String,
    pub description: Option<String>,
    pub data: SecuritySchemeData,
}

/// The views of named texts.
pub open spec fn named_texts(entries: Seq<(String, String)>) -> Seq<(Seq<char>, Seq<char>)> {
    entries.map_values(|e: (String, String)| (e.0@, e.1@))
}

impl Oas3Builder {
    /// The scheme of HTTP bearer authentication with a JWT.
    #[must_use]
    pub fn create_bearer_scheme() -> (s: SecurityScheme)
        ensures
            s.schema_type@ == "http"@,
            s.description is None,
            s.data matches SecuritySchemeData::Http { scheme, bearer_format } && scheme@
                == "bearer"@ && text_opt(bearer_format) == Some("JWT"@),
    {
        SecurityScheme {
            data: SecuritySchemeData::Http {
                scheme: String::from_str("bearer"),
                bearer_format: Some(String::from_str("JWT")),
            },
            description: None,
            schema_type: String::from_str("http"),
        }
    }

    /// The scheme of HTTP basic authentication.
    #[must_use]
    pub fn create_basic_scheme() -> (s: SecurityScheme)
        ensures
            s.schema_type@ == "http"@,
            s.description is None,
            s.data matches SecuritySchemeData::Http { scheme, bearer_format } && scheme@
                == "basic"@ && bearer_format is None,
    {
        SecurityScheme {
            data: SecuritySchemeData::Http {
                scheme: String::from_str("basic"),
                bearer_format: None,
            },
            description: None,
            schema_type: String::from_str("http"),
        }
    }

    /// The scheme of an API key sent in the header `apikey_header`.
    #[must_use]
    pub fn create_apikey_scheme(apikey_header: String) -> (s: SecurityScheme)
        ensures
            s.schema_type@ == "apiKey"@,
            s.description is None,
            s.data matches SecuritySchemeData::ApiKey { name, location } && name@
                == apikey_header@ && location@ == "header"@,
    {
        SecurityScheme {
            data: SecuritySchemeData::ApiKey {
                location: String::from_str("header"),
                name: apikey_header,
            },
            description: None,
            schema_type: String::from_str("apiKey"),
        }
    }

    /// The scheme of OpenID Connect with the discovery URL `open_id_connect_url`.
    #[must_use]
    pub fn create_openid_scheme(open_id_connect_url: String) -> (s: SecurityScheme)
        ensures
            s.schema_type@ == "openIdConnect"@,
            s.description is None,
            s.data matches SecuritySchemeData::OpenIdConnect { open_id_connect_url: url } && url@
                == open_id_connect_url@,
    {
        SecurityScheme {
            data: SecuritySchemeData::OpenIdConnect { open_id_connect_url },
            description: None,
            schema_type: String::from_str("openIdConnect"),
        }
    }

    /// The scheme of OAuth 2 with the authorization code flow.
    #[must_use]
    pub fn create_oauth2_scheme(
        authorization_url: String,
        token_url: String,
        refresh_url: Option<String>,
        scopes: Vec<(String, String)>,
    ) -> (s: SecurityScheme)
        ensures
            s.schema_type@ == "openIdConnect"@,
            s.description is None,
            s.data matches SecuritySchemeData::OAuth2 { flows } && flows.authorization_code matches Some(
                flow,
            ) && flow.authorization_url@ == authorization_url@ && flow.token_url@ == token_url@
                && text_opt(flow.refresh_url) == text_opt(refresh_url) && named_texts(flow.scopes@)
                == named_texts(scopes@),
    {
        SecurityScheme {
            data: SecuritySchemeData::OAuth2 {
                flows: OAuthFlows {
                    authorization_code: Some(
                        OAuthFlow { authorization_url, token_url, refresh_url, scopes },
                    ),
                },
            },
            description: None,
            schema_type: String::from_str("openIdConnect"),
        }
    }
}

} // verus!

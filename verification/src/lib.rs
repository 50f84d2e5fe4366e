//! Builder for OpenAPI 3.0 route descriptions: path templates, parameter
//! declarations and a registry of operations keyed by path and method.
//!
//! A route is an [`ApiPath`]: an optional prefix, a chain of [`ApiId`]s and an
//! optional token, with the query parameters that a [`QueryParamBuilder`]
//! declares. An [`Oas3Builder`] puts the operation of a route together and
//! registers it in its [`OpenApiGenerator`], which takes one operation for
//! each pair of path and verb and renders what it holds as an [`OpenApi`]
//! document.
//!
//! Every function is verified against a contract over the views of its
//! arguments. What is true of all paths, registries and rendered tables is
//! proved in `slashes`, `rendering`, `queryparam` and `oasgen`. The few
//! things that are believed of `serde_json`, `schemars`, `okapi`, `heck` and
//! `String::push` stand in `payload`, `casing` and `text`.

pub mod any;
pub mod apipath;
pub mod casing;
pub mod fetch;
pub mod generator;
pub mod ingest;
pub mod keyed;
pub mod list;
pub mod oasgen;
pub mod payload;
pub mod queryparam;
pub mod record;
pub mod rendering;
pub mod securityscheme;
pub mod slashes;
pub mod text;
pub mod update;

pub use apipath::{ApiId, ApiPath, PathError};
pub use generator::{Collision, OpenApi, OpenApiGenerator, OperationInfo};
pub use oasgen::{Oas3Builder, ResponseSchema};
pub use queryparam::QueryParamBuilder;
pub use record::{HttpMethod, Operation, Parameter, ParameterStyle, PathItem, RefOr};

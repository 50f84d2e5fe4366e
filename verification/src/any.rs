//! Operations of any verb.

use vstd::prelude::*;

use crate::apipath::{render_path, ApiPath};
use crate::generator::normalized;
use crate::oasgen::{
    fixtures_if_any, planned_operation, Oas3Builder, OperationParts, OperationPlan, ResponseSchema,
};
use crate::payload::text_opt;
use crate::record::HttpMethod;
use schemars::schema::SchemaObject;
use serde_json::Value;

verus! {

/// What `any_with_tests` registers: the operation named by `operation_name`
/// and `document_name`, which answers 200, takes a body, and carries the
/// fixtures if there are any.
pub open spec fn any_plan(
    document_name: Seq<char>,
    operation_name: Seq<char>,
    operation_description: Option<Seq<char>>,
    input: SchemaObject,
    output: ResponseSchema,
    error: ResponseSchema,
    tests: Seq<Value>,
) -> OperationPlan {
    OperationPlan {
        operation_id: operation_name + document_name,
        description: operation_description,
        status: "200"@,
        document_name,
        output,
        error,
        input: Some(input),
        fixtures: fixtures_if_any(tests),
    }
}

impl Oas3Builder {
    /// Registers an operation of the verb `method` on `web_path`, without
    /// test fixtures. The path and the verb must be free.
    pub fn any(
        &mut self,
        web_path: &ApiPath,
        method: HttpMethod,
        document_name: String,
        operation_name: &str,
        operation_description: Option<String>,
        input: SchemaObject,
        output: ResponseSchema,
        error: ResponseSchema,
    )
        requires
            web_path.wf(),
            !old(self)@.contains_key((render_path(web_path@), method)),
        ensures
            final(self)@ == old(self)@.insert(
                (render_path(web_path@), method),
                normalized(
                    planned_operation(
                        web_path@,
                        old(self).key_schema(),
                        old(self).teapot(),
                        any_plan(
                            document_name@,
                            operation_name@,
                            text_opt(operation_description),
                            input,
                            output,
                            error,
                            Seq::empty(),
                        ),
                    ),
                ),
            ),
            final(self).definitions() == old(self).definitions(),
            final(self).key_schema() == old(self).key_schema(),
            final(self).teapot() == old(self).teapot(),
            final(self).rest() == old(self).rest(),
    {
        self.any_with_tests(
            web_path,
            method,
            document_name,
            operation_name,
            operation_description,
            input,
            output,
            error,
            Vec::new(),
        );
    }

    /// Registers an operation of the verb `method` on `web_path`, with the
    /// test fixtures `tests` if there are any. The path and the verb must be
    /// free.
    pub fn any_with_tests(
        &mut self,
        web_path: &ApiPath,
        method: HttpMethod,
        document_name: String,
        operation_name: &str,
        operation_description: Option<String>,
        input: SchemaObject,
        output: ResponseSchema,
        error: ResponseSchema,
        tests: Vec<Value>,
    )
        requires
            web_path.wf(),
            !old(self)@.contains_key((render_path(web_path@), method)),
        ensures
            final(self)@ == old(self)@.insert(
                (render_path(web_path@), method),
                normalized(
                    planned_operation(
                        web_path@,
                        old(self).key_schema(),
                        old(self).teapot(),
                        any_plan(
                            document_name@,
                            operation_name@,
                            text_opt(operation_description),
                            input,
                            output,
                            error,
                            tests@,
                        ),
                    ),
                ),
            ),
            final(self).definitions() == old(self).definitions(),
            final(self).key_schema() == old(self).key_schema(),
            final(self).teapot() == old(self).teapot(),
            final(self).rest() == old(self).rest(),
    {
        let mut operation_id = String::from_str(operation_name);
        operation_id.append(document_name.as_str());
        let fixtures = if tests.len() == 0 {
            None
        } else {
            Some(tests)
        };
        self.register(
            web_path,
            method,
            OperationParts {
                operation_id,
                description: operation_description,
                status: String::from_str("200"),
                document_name,
                output,
                error,
                input: Some(input),
                fixtures,
            },
        );
    }
}

} // verus!

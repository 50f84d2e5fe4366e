//! Updating one document.

use vstd::prelude::*;

use crate::apipath::{render_path, ApiPath};
use crate::generator::normalized;
use crate::oasgen::{planned_operation, Oas3Builder, OperationParts, OperationPlan, ResponseSchema};
use crate::payload::text_opt;
use crate::record::HttpMethod;
use schemars::schema::SchemaObject;
use serde_json::Value;

verus! {

/// What `update_with_tests` registers: the operation `update` of the
/// document, which answers 201, takes a body, and always carries the list of
/// its fixtures, be it empty.
pub open spec fn update_plan(
    document_name: Seq<char>,
    operation_description: Option<Seq<char>>,
    input: SchemaObject,
    output: ResponseSchema,
    error: ResponseSchema,
    tests: Seq<Value>,
) -> OperationPlan {
    OperationPlan {
        operation_id: "update"@ + document_name,
        description: operation_description,
        status: "201"@,
        document_name,
        output,
        error,
        input: Some(input),
        fixtures: Some(tests),
    }
}

impl Oas3Builder {
    /// Registers the PATCH that updates the document of `web_path`, with an
    /// empty list of test fixtures. The path must be free for PATCH.
    pub fn update(
        &mut self,
        web_path: &ApiPath,
        document_name: String,
        operation_description: Option<String>,
        input: SchemaObject,
        output: ResponseSchema,
        error: ResponseSchema,
    )
        requires
            web_path.wf(),
            !old(self)@.contains_key((render_path(web_path@), HttpMethod::Patch)),
        ensures
            final(self)@ == old(self)@.insert(
                (render_path(web_path@), HttpMethod::Patch),
                normalized(
                    planned_operation(
                        web_path@,
                        old(self).key_schema(),
                        old(self).teapot(),
                        update_plan(
                            document_name@,
                            text_opt(operation_description),
                            input,
                            output,
                            error,
                            Seq::empty(),
                        ),
                    ),
                ),
            ),
            final(self).definitions() == old(self).definitions(),
            final(self).key_schema() == old(self).key_schema(),
            final(self).teapot() == old(self).teapot(),
            final(self).rest() == old(self).rest(),
    {
        self.update_with_tests(
            web_path,
            document_name,
            operation_description,
            input,
            output,
            error,
            Vec::new(),
        )
    }

    /// Registers the PATCH that updates the document of `web_path`, with the
    /// test fixtures `tests`. The path must be free for PATCH.
    pub fn update_with_tests(
        &mut self,
        web_path: &ApiPath,
        document_name: String,
        operation_description: Option<String>,
        input: SchemaObject,
        output: ResponseSchema,
        error: ResponseSchema,
        tests: Vec<Value>,
    )
        requires
            web_path.wf(),
            !old(self)@.contains_key((render_path(web_path@), HttpMethod::Patch)),
        ensures
            final(self)@ == old(self)@.insert(
                (render_path(web_path@), HttpMethod::Patch),
                normalized(
                    planned_operation(
                        web_path@,
                        old(self).key_schema(),
                        old(self).teapot(),
                        update_plan(
                            document_name@,
                            text_opt(operation_description),
                            input,
                            output,
                            error,
                            tests@,
                        ),
                    ),
                ),
            ),
            final(self).definitions() == old(self).definitions(),
            final(self).key_schema() == old(self).key_schema(),
            final(self).teapot() == old(self).teapot(),
            final(self).rest() == old(self).rest(),
    {
        let mut operation_id = String::from_str("update");
        operation_id.append(document_name.as_str());
        self.register(
            web_path,
            HttpMethod::Patch,
            OperationParts {
                operation_id,
                description: operation_description,
                status: String::from_str("201"),
                document_name,
                output,
                error,
                input: Some(input),
                fixtures: Some(tests),
            },
        )
    }
}

} // verus!

//! Listing the documents of a collection.

use vstd::prelude::*;

use crate::apipath::{render_path, ApiPath};
use crate::generator::normalized;
use crate::oasgen::{
    list_operation_id, planned_operation, Oas3Builder, OperationParts, OperationPlan,
    ResponseSchema,
};
use crate::payload::text_opt;
use crate::record::HttpMethod;
use crate::text::ends_with_char;
use serde_json::Value;

verus! {

/// What `list_with_tests` registers: the operation that lists the documents,
/// which answers 201, takes no body, and always carries the list of its
/// fixtures, be it empty.
pub open spec fn list_plan(
    document_name: Seq<char>,
    operation_description: Option<Seq<char>>,
    output: ResponseSchema,
    error: ResponseSchema,
    tests: Seq<Value>,
) -> OperationPlan {
    OperationPlan {
        operation_id: list_operation_id(document_name),
        description: operation_description,
        status: "201"@,
        document_name,
        output,
        error,
        input: None,
        fixtures: Some(tests),
    }
}

impl Oas3Builder {
    /// Registers the GET that lists the documents of `web_path`, with an
    /// empty list of test fixtures. The path must be free for GET.
    pub fn list(
        &mut self,
        web_path: &ApiPath,
        document_name: String,
        operation_description: Option<String>,
        output: ResponseSchema,
        error: ResponseSchema,
    )
        requires
            web_path.wf(),
            !old(self)@.contains_key((render_path(web_path@), HttpMethod::Get)),
        ensures
            final(self)@ == old(self)@.insert(
                (render_path(web_path@), HttpMethod::Get),
                normalized(
                    planned_operation(
                        web_path@,
                        old(self).key_schema(),
                        old(self).teapot(),
                        list_plan(
                            document_name@,
                            text_opt(operation_description),
                            output,
                            error,
                            Seq::empty(),
                        ),
                    ),
                ),
            ),
            final(self).definitions() == old(self).definitions(),
            final(self).key_schema() == old(self).key_schema(),
            final(self).teapot() == old(self).teapot(),
            final(self).rest() == old(self).rest(),
    {
        self.list_with_tests(
            web_path,
            document_name,
            operation_description,
            output,
            error,
            Vec::new(),
        )
    }

    /// Registers the GET that lists the documents of `web_path`, with the
    /// test fixtures `tests`. The path must be free for GET.
    pub fn list_with_tests(
        &mut self,
        web_path: &ApiPath,
        document_name: String,
        operation_description: Option<String>,
        output: ResponseSchema,
        error: ResponseSchema,
        tests: Vec<Value>,
    )
        requires
            web_path.wf(),
            !old(self)@.contains_key((render_path(web_path@), HttpMethod::Get)),
        ensures
            final(self)@ == old(self)@.insert(
                (render_path(web_path@), HttpMethod::Get),
                normalized(
                    planned_operation(
                        web_path@,
                        old(self).key_schema(),
                        old(self).teapot(),
                        list_plan(
                            document_name@,
                            text_opt(operation_description),
                            output,
                            error,
                            tests@,
                        ),
                    ),
                ),
            ),
            final(self).definitions() == old(self).definitions(),
            final(self).key_schema() == old(self).key_schema(),
            final(self).teapot() == old(self).teapot(),
            final(self).rest() == old(self).rest(),
    {
        let mut operation_id = String::from_str("list");
        operation_id.append(document_name.as_str());
        if !ends_with_char(document_name.as_str(), 's') {
            operation_id.append("s");
        }
        self.register(
            web_path,
            HttpMethod::Get,
            OperationParts {
                operation_id,
                description: operation_description,
                status: String::from_str("201"),
                document_name,
                output,
                error,
                input: None,
                fixtures: Some(tests),
            },
        )
    }
}

} // verus!

//! JSON Schemas of tool arguments. Their diagnostics never cross the client boundary.

use vstd::prelude::*;
use vstd::string::*;
use crate::json::{Json, JsonView};
use crate::serde_value;

verus! {

/// Whether a value is a JSON Schema that stands on its own.
pub uninterp spec fn schema_compiles(schema: JsonView) -> bool;

/// Whether a value conforms to a JSON Schema.
pub uninterp spec fn schema_accepts(schema: JsonView, instance: JsonView) -> bool;

/// `jsonschema::options().offline().build`: whether the value is a valid schema. References to
/// other documents are refused.
#[verifier::external_body]
fn schema_builds(schema: &serde_json::Value) -> (r: bool)
    ensures
        r == schema_compiles(serde_value::value_json(*schema)),
{
    jsonschema::options().offline().build(schema).is_ok()
}

/// `jsonschema::Validator::is_valid`, of the validator that the schema builds: whether the value
/// conforms to it. A value conforms to no schema that does not build.
#[verifier::external_body]
fn schema_validates(schema: &serde_json::Value, instance: &serde_json::Value) -> (r: bool)
    ensures
        r == schema_accepts(
            serde_value::value_json(*schema),
            serde_value::value_json(*instance),
        ),
{
    jsonschema::options().offline().build(schema).is_ok_and(|v| v.is_valid(instance))
}

/// A JSON Schema that is known to be one.
pub struct ArgumentSchema {
    source: Json,
}

impl ArgumentSchema {
    pub closed spec fn view(&self) -> JsonView {
        self.source@
    }

    /// Takes a schema over, where it is one.
    pub fn compile(schema: &Json) -> (r: Option<ArgumentSchema>)
        ensures
            r is Some <==> schema_compiles(schema@),
            r is Some ==> r->0@ == schema@,
    {
        if schema_builds(&serde_value::to_value(schema)) {
            Some(ArgumentSchema { source: schema.clone() })
        } else {
            None
        }
    }

    /// Whether arguments conform to the schema.
    pub fn is_valid(&self, instance: &Json) -> (r: bool)
        ensures
            r == schema_accepts(self@, instance@),
    {
        schema_validates(&serde_value::to_value(&self.source), &serde_value::to_value(instance))
    }
}

impl Clone for ArgumentSchema {
    fn clone(&self) -> (r: Self)
        ensures
            r@ == self@,
    {
        ArgumentSchema { source: self.source.clone() }
    }
}

/// The schema of an object with one required string.
pub open spec fn one_string(key: Seq<char>) -> JsonView {
    JsonView::empty().with("type"@, JsonView::Text("object"@)).with(
        "properties"@,
        JsonView::empty().with(
            key,
            JsonView::empty().with("type"@, JsonView::Text("string"@)),
        ),
    ).with("required"@, JsonView::Array(seq![JsonView::Text(key)])).with(
        "additionalProperties"@,
        JsonView::Bool(false),
    )
}

pub fn one_string_schema(key: &str) -> (r: Json)
    ensures
        r@ == one_string(key@),
{
    let required = vec![Json::text(key)];
    assert(crate::json::views(required@) =~= seq![JsonView::Text(key@)]);
    let property = Json::object().having("type", Json::text("string"));
    Json::object().having("type", Json::text("object")).having(
        "properties",
        Json::object().having(key, property),
    ).having("required", Json::array(required)).having("additionalProperties", Json::Bool(false))
}

pub fn web_search_parameters() -> (r: Json)
    ensures
        r@ == one_string("query"@),
{
    one_string_schema("query")
}

pub fn code_interpreter_parameters() -> (r: Json)
    ensures
        r@ == one_string("code"@),
{
    one_string_schema("code")
}

} // verus!

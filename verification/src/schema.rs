//! JSON Schemas: of the arguments of each operation, and of the envelope.

use vstd::prelude::*;

use crate::config::EsOperation;
use crate::json::{Json, JsonView};

verus! {

/// A value of a type.
pub open spec fn typed(kind: Seq<char>) -> JsonView {
    JsonView::object().with("type"@, JsonView::Text(kind))
}

fn of_type(kind: &str) -> (r: Json)
    ensures
        r@ == typed(kind@),
        r@.wf(),
{
    Json::object().with("type", Json::text(kind))
}

/// A schema with a description.
pub open spec fn described(schema: JsonView, about: Seq<char>) -> JsonView {
    schema.with("description"@, JsonView::Text(about))
}

fn describe(schema: Json, about: &str) -> (r: Json)
    ensures
        r@ == described(schema@, about@),
        schema@.wf() ==> r@.wf(),
{
    schema.with("description", Json::text(about))
}

/// A natural number.
pub open spec fn natural() -> JsonView {
    typed("integer"@).with("minimum"@, JsonView::number(0))
}

fn natural_number() -> (r: Json)
    ensures
        r@ == natural(),
        r@.wf(),
{
    of_type("integer").with("minimum", Json::number(0))
}

/// The index argument.
pub open spec fn index_schema() -> JsonView {
    described(
        typed("string"@),
        "Target index (must be in the binding allowlist; defaults to default_index)"@,
    )
}

fn index_argument() -> (r: Json)
    ensures
        r@ == index_schema(),
        r@.wf(),
{
    describe(
        of_type("string"),
        "Target index (must be in the binding allowlist; defaults to default_index)",
    )
}

/// The query argument.
pub open spec fn query_schema() -> JsonView {
    described(typed("object"@), "Elasticsearch query DSL"@)
}

fn query_argument() -> (r: Json)
    ensures
        r@ == query_schema(),
        r@.wf(),
{
    describe(of_type("object"), "Elasticsearch query DSL")
}

/// The argument that picks the fields of a document.
pub open spec fn source_schema() -> JsonView {
    described(JsonView::object(), "_source filtering: array of fields or boolean"@)
}

fn source_argument() -> (r: Json)
    ensures
        r@ == source_schema(),
        r@.wf(),
{
    describe(Json::object(), "_source filtering: array of fields or boolean")
}

/// The refresh argument.
pub open spec fn refresh_schema() -> JsonView {
    typed("string"@).with(
        "enum"@,
        JsonView::list().item(JsonView::Text("true"@)).item(JsonView::Text("false"@)).item(
            JsonView::Text("wait_for"@),
        ),
    )
}

fn refresh_argument() -> (r: Json)
    ensures
        r@ == refresh_schema(),
        r@.wf(),
{
    of_type("string").with(
        "enum",
        Json::list().item(Json::text("true")).item(Json::text("false")).item(
            Json::text("wait_for"),
        ),
    )
}

/// An object with some properties.
pub open spec fn object_with(properties: JsonView) -> JsonView {
    typed("object"@).with("properties"@, properties)
}

fn object_of(properties: Json) -> (r: Json)
    ensures
        r@ == object_with(properties@),
        properties@.wf() ==> r@.wf(),
{
    of_type("object").with("properties", properties)
}

/// A schema with one required property.
pub open spec fn requiring(schema: JsonView, key: Seq<char>) -> JsonView {
    schema.with("required"@, JsonView::list().item(JsonView::Text(key)))
}

fn require_key(schema: Json, key: &str) -> (r: Json)
    ensures
        r@ == requiring(schema@, key@),
        schema@.wf() ==> r@.wf(),
{
    schema.with("required", Json::list().item(Json::text(key)))
}

/// The arguments of an operation.
pub open spec fn input_properties(op: EsOperation) -> JsonView {
    let none = JsonView::object();
    let index = none.with("index"@, index_schema());
    match op {
        EsOperation::Search => index.with("query"@, query_schema()).with("size"@, natural()).with(
            "from"@,
            natural(),
        ).with("sort"@, typed("array"@)).with("source"@, source_schema()).with(
            "aggs"@,
            typed("object"@),
        ),
        EsOperation::Count => index.with("query"@, query_schema()),
        EsOperation::Get => index.with("id"@, typed("string"@)).with("source"@, source_schema()),
        EsOperation::Index => index.with("id"@, typed("string"@)).with(
            "document"@,
            typed("object"@),
        ).with("refresh"@, refresh_schema()).with(
            "op_type"@,
            typed("string"@).with(
                "enum"@,
                JsonView::list().item(JsonView::Text("index"@)).item(JsonView::Text("create"@)),
            ),
        ),
        EsOperation::Delete => index.with("id"@, typed("string"@)).with(
            "refresh"@,
            refresh_schema(),
        ),
        EsOperation::Bulk => index.with(
            "operations"@,
            described(
                typed("array"@),
                "Sequence of bulk action/source objects (NDJSON lines)"@,
            ),
        ).with("refresh"@, refresh_schema()),
        EsOperation::Msearch => none.with(
            "searches"@,
            described(
                typed("array"@),
                "Per-search { index?, query, size?, from? } objects"@,
            ).with("items"@, typed("object"@)),
        ),
        EsOperation::Knn => index.with(
            "query_vector"@,
            described(
                typed("array"@).with("items"@, typed("number"@)),
                "Query embedding (array of numbers) for the dense_vector kNN search; falls back to the binding's literal knn.query_vector when omitted"@,
            ),
        ).with("source"@, source_schema()),
    }
}

/// The argument that an operation cannot do without.
pub open spec fn required_argument(op: EsOperation) -> Option<Seq<char>> {
    match op {
        EsOperation::Get => Some("id"@),
        EsOperation::Index => Some("document"@),
        EsOperation::Delete => Some("id"@),
        EsOperation::Bulk => Some("operations"@),
        EsOperation::Msearch => Some("searches"@),
        _ => None,
    }
}

/// The schema of the arguments of an operation.
pub open spec fn input_schema(op: EsOperation) -> JsonView {
    let schema = object_with(input_properties(op));
    match required_argument(op) {
        Some(key) => requiring(schema, key),
        None => schema,
    }
}

fn properties_of(op: EsOperation) -> (r: Json)
    ensures
        r@ == input_properties(op),
        r@.wf(),
{
    let none = Json::object();
    let index = Json::object().with("index", index_argument());
    match op {
        EsOperation::Search => index.with("query", query_argument()).with(
            "size",
            natural_number(),
        ).with("from", natural_number()).with("sort", of_type("array")).with(
            "source",
            source_argument(),
        ).with("aggs", of_type("object")),
        EsOperation::Count => index.with("query", query_argument()),
        EsOperation::Get => index.with("id", of_type("string")).with("source", source_argument()),
        EsOperation::Index => index.with("id", of_type("string")).with(
            "document",
            of_type("object"),
        ).with("refresh", refresh_argument()).with(
            "op_type",
            of_type("string").with(
                "enum",
                Json::list().item(Json::text("index")).item(Json::text("create")),
            ),
        ),
        EsOperation::Delete => index.with("id", of_type("string")).with(
            "refresh",
            refresh_argument(),
        ),
        EsOperation::Bulk => index.with(
            "operations",
            describe(of_type("array"), "Sequence of bulk action/source objects (NDJSON lines)"),
        ).with("refresh", refresh_argument()),
        EsOperation::Msearch => none.with(
            "searches",
            describe(
                of_type("array"),
                "Per-search { index?, query, size?, from? } objects",
            ).with("items", of_type("object")),
        ),
        EsOperation::Knn => index.with(
            "query_vector",
            describe(
                of_type("array").with("items", of_type("number")),
                "Query embedding (array of numbers) for the dense_vector kNN search; falls back to the binding's literal knn.query_vector when omitted",
            ),
        ).with("source", source_argument()),
    }
}

/// The schema of the arguments of an operation.
pub fn op_input_schema(op: EsOperation) -> (r: Json)
    ensures
        r@ == input_schema(op),
        r@.wf(),
{
    let schema = object_of(properties_of(op));
    match op {
        EsOperation::Get => require_key(schema, "id"),
        EsOperation::Index => require_key(schema, "document"),
        EsOperation::Delete => require_key(schema, "id"),
        EsOperation::Bulk => require_key(schema, "operations"),
        EsOperation::Msearch => require_key(schema, "searches"),
        _ => schema,
    }
}

/// An object or null.
pub open spec fn object_or_null() -> JsonView {
    JsonView::object().with(
        "type"@,
        JsonView::list().item(JsonView::Text("object"@)).item(JsonView::Text("null"@)),
    )
}

/// The members of the envelope.
pub open spec fn envelope_properties() -> JsonView {
    JsonView::object().with("operation"@, typed("string"@)).with("method"@, typed("string"@)).with(
        "path"@,
        typed("string"@),
    ).with("statusCode"@, typed("integer"@)).with("ok"@, typed("boolean"@)).with(
        "truncated"@,
        typed("boolean"@),
    ).with("response"@, JsonView::object()).with("responseText"@, typed("string"@)).with(
        "downstreamError"@,
        object_or_null(),
    ).with("__mcpg_verbatim_result"@, typed("object"@))
}

/// The schema of the envelope.
pub open spec fn envelope_schema() -> JsonView {
    JsonView::object().with(
        "$schema"@,
        JsonView::Text("https://json-schema.org/draft/2020-12/schema"@),
    ).with("type"@, JsonView::Text("object"@)).with("properties"@, envelope_properties()).with(
        "additionalProperties"@,
        JsonView::Bool(true),
    )
}

/// The schema of the envelope.
pub fn result_envelope_schema() -> (r: Json)
    ensures
        r@ == envelope_schema(),
        r@.wf(),
{
    let properties = Json::object().with("operation", of_type("string")).with(
        "method",
        of_type("string"),
    ).with("path", of_type("string")).with("statusCode", of_type("integer")).with(
        "ok",
        of_type("boolean"),
    ).with("truncated", of_type("boolean")).with("response", Json::object()).with(
        "responseText",
        of_type("string"),
    ).with(
        "downstreamError",
        Json::object().with(
            "type",
            Json::list().item(Json::text("object")).item(Json::text("null")),
        ),
    ).with("__mcpg_verbatim_result", of_type("object"));
    Json::object().with(
        "$schema",
        Json::text("https://json-schema.org/draft/2020-12/schema"),
    ).with("type", Json::text("object")).with("properties", properties).with(
        "additionalProperties",
        Json::Bool(true),
    )
}

/// Whether a value is of the type with a name. An integer is one in its integer
/// form.
pub open spec fn of_kind(v: JsonView, kind: Seq<char>) -> bool {
    ||| kind == "null"@ && v is Null
    ||| kind == "boolean"@ && v is Bool
    ||| kind == "integer"@ && v is Number && !(v->Number_0 is Float)
    ||| kind == "number"@ && v is Number
    ||| kind == "string"@ && v is Text
    ||| kind == "array"@ && v is Array
    ||| kind == "object"@ && v is Object
}

/// Whether a value is of a type that a schema asks for: its one type, or one of
/// its list of types. A schema without a type takes any value.
pub open spec fn fits_type(v: JsonView, schema: JsonView) -> bool {
    match schema.get("type"@) {
        Some(JsonView::Text(kind)) => of_kind(v, kind),
        Some(JsonView::Array(kinds)) => exists|i: int|
            0 <= i < kinds.len() && (#[trigger] kinds[i]) is Text && of_kind(v, kinds[i]->Text_0),
        Some(_) => false,
        None => true,
    }
}

/// The members of an envelope have names that differ.
proof fn lemma_envelope_keys()
    ensures
        "operation"@.len() == 9 && "operation"@[0] == 'o' && "method"@.len() == 6,
        "path"@.len() == 4 && "statusCode"@.len() == 10 && "ok"@.len() == 2,
        "truncated"@.len() == 9 && "truncated"@[0] == 't' && "response"@.len() == 8,
        "responseText"@.len() == 12 && "downstreamError"@.len() == 15,
        "__mcpg_verbatim_result"@.len() == 22,
{
    reveal_strlit("operation");
    reveal_strlit("method");
    reveal_strlit("path");
    reveal_strlit("statusCode");
    reveal_strlit("ok");
    reveal_strlit("truncated");
    reveal_strlit("response");
    reveal_strlit("responseText");
    reveal_strlit("downstreamError");
    reveal_strlit("__mcpg_verbatim_result");
}

/// The properties of the envelope's schema, one by one.
proof fn lemma_envelope_properties()
    ensures
        envelope_properties().get("operation"@) == Some(typed("string"@)),
        envelope_properties().get("method"@) == Some(typed("string"@)),
        envelope_properties().get("path"@) == Some(typed("string"@)),
        envelope_properties().get("statusCode"@) == Some(typed("integer"@)),
        envelope_properties().get("ok"@) == Some(typed("boolean"@)),
        envelope_properties().get("truncated"@) == Some(typed("boolean"@)),
        envelope_properties().get("response"@) == Some(JsonView::object()),
        envelope_properties().get("responseText"@) == Some(typed("string"@)),
        envelope_properties().get("downstreamError"@) == Some(object_or_null()),
{
    broadcast use crate::json::lemma_get_with;

    lemma_envelope_keys();
}

/// A value of a type fits the schema of that type.
proof fn lemma_fits_typed(v: JsonView, kind: Seq<char>)
    requires
        of_kind(v, kind),
    ensures
        fits_type(v, typed(kind)),
{
    broadcast use crate::json::lemma_get_with;

}

/// An object fits the schema of an object or null.
proof fn lemma_fits_object_or_null(v: JsonView)
    requires
        v is Object,
    ensures
        fits_type(v, object_or_null()),
{
    broadcast use crate::json::lemma_get_with;

    let kinds = JsonView::list().item(JsonView::Text("object"@)).item(JsonView::Text("null"@));
    assert(object_or_null().get("type"@) == Some(kinds));
    assert(kinds->Array_0[0] == JsonView::Text("object"@));
}

/// An envelope has no members but these.
proof fn lemma_envelope_members(
    call: crate::call::CallView,
    res: crate::response::ResultView,
    key: Seq<char>,
)
    requires
        crate::response::envelope(call, res).get(key) is Some,
    ensures
        key == "operation"@ || key == "method"@ || key == "path"@ || key == "statusCode"@ || key
            == "ok"@ || key == "truncated"@ || key == "response"@ || key == "responseText"@ || key
            == "downstreamError"@,
{
    broadcast use crate::json::lemma_get_with;

}

/// Every member of an envelope is one that the schema knows, and of a type that
/// the schema asks for there.
pub proof fn law_schema_covers_envelope(
    call: crate::call::CallView,
    res: crate::response::ResultView,
    key: Seq<char>,
)
    ensures
        crate::response::envelope(call, res).get(key) matches Some(v) ==> (
        envelope_properties().get(key) matches Some(schema) && fits_type(v, schema)),
{
    lemma_envelope_properties();
    if let Some(v) = crate::response::envelope(call, res).get(key) {
        law_envelope_member_types(call, res);
        lemma_envelope_members(call, res, key);
        if key == "operation"@ || key == "method"@ || key == "path"@ || key == "responseText"@ {
            lemma_fits_typed(v, "string"@);
        } else if key == "statusCode"@ {
            lemma_fits_typed(v, "integer"@);
        } else if key == "ok"@ || key == "truncated"@ {
            lemma_fits_typed(v, "boolean"@);
        } else if key == "downstreamError"@ {
            lemma_fits_object_or_null(v);
        }
    }
}

/// The call in an envelope is told in texts, the status is an integer, the flags
/// are booleans, a response that is no JSON is a text, and an error is an object.
pub proof fn law_envelope_member_types(
    call: crate::call::CallView,
    res: crate::response::ResultView,
)
    ensures
        ({
            let env = crate::response::envelope(call, res);
            &&& env is Object
            &&& env.get("operation"@) matches Some(JsonView::Text(_))
            &&& env.get("method"@) matches Some(JsonView::Text(_))
            &&& env.get("path"@) matches Some(JsonView::Text(_))
            &&& env.get("statusCode"@) == Some(JsonView::number(res.status as u64))
            &&& env.get("ok"@) matches Some(JsonView::Bool(_))
            &&& env.get("truncated"@) matches Some(JsonView::Bool(_))
            &&& env.get("responseText"@) matches Some(v) ==> v is Text
            &&& env.get("downstreamError"@) matches Some(v) ==> v is Object
        }),
{
    broadcast use crate::json::lemma_get_with;

    lemma_envelope_keys();
}

/// An envelope holds the response as JSON or as text, never both, and an error
/// exactly where the server reports no success.
pub proof fn law_envelope_holds_one_body(
    call: crate::call::CallView,
    res: crate::response::ResultView,
)
    ensures
        crate::response::envelope(call, res).get("response"@) == res.json,
        crate::response::envelope(call, res).get("responseText"@) == (if res.json is None {
            Some(JsonView::Text(res.raw_body))
        } else {
            None
        }),
        crate::response::envelope(call, res).get("downstreamError"@) is Some
            <==> !res.succeeded(),
        crate::response::envelope(call, res).get("ok"@) == Some(JsonView::Bool(res.succeeded())),
        crate::response::envelope(call, res).get_u64("statusCode"@) == Some(res.status as u64),
{
    broadcast use crate::json::lemma_get_with;

    lemma_envelope_keys();
}

/// An argument that the schema of an operation requires is one that the operation cannot
/// do without: where it is missing no call is planned.
pub proof fn law_required_arguments_are_needed(
    spec: crate::config::ElasticsearchBackendSpec,
    args: JsonView,
    key: Seq<char>,
)
    requires
        input_schema(spec.operation).get("required"@) == Some(
            JsonView::Array(seq![JsonView::Text(key)]),
        ),
        args.get(key) is None,
    ensures
        crate::call::planned(spec, args) is Err,
{
    broadcast use crate::json::lemma_get_with;

    reveal_strlit("type");
    reveal_strlit("properties");
    reveal_strlit("required");
    assert("type"@.len() == 4 && "properties"@.len() == 10 && "required"@.len() == 8);
    if let Some(own) = required_argument(spec.operation) {
        let list = JsonView::list().item(JsonView::Text(own));
        assert(input_schema(spec.operation).get("required"@) == Some(list));
        assert(list->Array_0[0] == JsonView::Text(own));
        assert(seq![JsonView::Text(key)][0] == JsonView::Text(key));
        assert(own == key);
    } else {
        assert(input_schema(spec.operation).get("required"@) is None);
    }
}

/// The argument that an operation requires: the id of the document that is read or
/// deleted, the document that is written, the operations of a bulk write and the searches
/// of a multi-search. A search, a count and a vector search require none.
pub proof fn law_arguments_that_are_required(op: EsOperation)
    ensures
        ({
            let required = input_schema(op).get("required"@);
            match op {
                EsOperation::Get | EsOperation::Delete => required == Some(
                    JsonView::Array(seq![JsonView::Text("id"@)]),
                ),
                EsOperation::Index => required == Some(
                    JsonView::Array(seq![JsonView::Text("document"@)]),
                ),
                EsOperation::Bulk => required == Some(
                    JsonView::Array(seq![JsonView::Text("operations"@)]),
                ),
                EsOperation::Msearch => required == Some(
                    JsonView::Array(seq![JsonView::Text("searches"@)]),
                ),
                _ => required is None,
            }
        }),
        input_schema(op).get("type"@) == Some(JsonView::Text("object"@)),
        input_schema(op).get("properties"@) == Some(input_properties(op)),
{
    broadcast use crate::json::lemma_get_with;

    reveal_strlit("type");
    reveal_strlit("properties");
    reveal_strlit("required");
    assert("type"@.len() == 4 && "properties"@.len() == 10 && "required"@.len() == 8);
    if let Some(own) = required_argument(op) {
        assert(Seq::<JsonView>::empty().push(JsonView::Text(own)) =~= seq![JsonView::Text(own)]);
    }
}

/// The names of arguments differ.
proof fn lemma_argument_names()
    ensures
        "index"@.len() == 5 && "query"@.len() == 5 && "index"@[0] == 'i' && "query"@[0] == 'q',
        "size"@.len() == 4 && "from"@.len() == 4 && "sort"@.len() == 4 && "aggs"@.len() == 4,
        "size"@[0] == 's' && "size"@[1] == 'i' && "from"@[0] == 'f' && "sort"@[0] == 's',
        "sort"@[1] == 'o' && "aggs"@[0] == 'a' && "source"@.len() == 6 && "id"@.len() == 2,
        "document"@.len() == 8 && "refresh"@.len() == 7 && "op_type"@.len() == 7,
        "refresh"@[0] == 'r' && "op_type"@[0] == 'o' && "operations"@.len() == 10,
        "searches"@.len() == 8 && "query_vector"@.len() == 12,
{
    reveal_strlit("index");
    reveal_strlit("query");
    reveal_strlit("size");
    reveal_strlit("from");
    reveal_strlit("sort");
    reveal_strlit("aggs");
    reveal_strlit("source");
    reveal_strlit("id");
    reveal_strlit("document");
    reveal_strlit("refresh");
    reveal_strlit("op_type");
    reveal_strlit("operations");
    reveal_strlit("searches");
    reveal_strlit("query_vector");
}

/// Every operation but a multi-search takes an index. What else it takes: a search the
/// query, the page, the order, the fields and the aggregations; a count the query; a read
/// the id and the fields; a write the document, the id, the refresh setting and the kind;
/// a deletion the id and the refresh setting; a bulk write its operations and the refresh
/// setting; a vector search the vector and the fields; a multi-search its searches.
pub proof fn law_arguments_of_an_operation(op: EsOperation, key: Seq<char>)
    ensures
        input_properties(op).get(key) is Some <==> {
            ||| key == "index"@ && !(op is Msearch)
            ||| key == "query"@ && (op is Search || op is Count)
            ||| (key == "size"@ || key == "from"@ || key == "sort"@ || key == "aggs"@) && op is Search
            ||| key == "source"@ && (op is Search || op is Get || op is Knn)
            ||| key == "id"@ && (op is Get || op is Index || op is Delete)
            ||| (key == "document"@ || key == "op_type"@) && op is Index
            ||| key == "refresh"@ && (op is Index || op is Delete || op is Bulk)
            ||| key == "operations"@ && op is Bulk
            ||| key == "searches"@ && op is Msearch
            ||| key == "query_vector"@ && op is Knn
        },
{
    broadcast use crate::json::lemma_get_with;

    lemma_argument_names();
}

} // verus!

use elasticsearch_binding::call::{
    build_call, build_completion_call, build_list_call, plan_call, refresh_param, source_query,
    within_cap, EsRestCall, Method, Payload,
};
use elasticsearch_binding::config::{
    ElasticsearchBackendSpec, EsAuth, EsCompletionConfig, EsOperation, KnnConfig, ListQueryConfig,
    VectorElement,
};
use elasticsearch_binding::encode::{b64, checked_doc_id, encode_path_segment, hex_upper};
use elasticsearch_binding::json::Json;
use elasticsearch_binding::ndjson::{assemble_bulk_ndjson, assemble_msearch_ndjson};
use elasticsearch_binding::response::{
    build_envelope, result_of, search_hits, shape_response, source_string, EsResult,
};
use elasticsearch_binding::schema::{op_input_schema, result_envelope_schema};
use elasticsearch_binding::scripting::{find_scripting_key, is_scripting_key};
use elasticsearch_binding::transport::{auth_header, request_url};

const NDJSON_CT: &str = "application/x-ndjson";

fn json(text: &str) -> Json {
    Json::decode(text.as_bytes()).unwrap()
}

fn base(operation: EsOperation) -> ElasticsearchBackendSpec {
    let mut s = ElasticsearchBackendSpec::minimal(vec!["https://es:9200".to_string()], operation);
    s.index_allowlist = vec!["logs-*".to_string(), "events".to_string()];
    s.default_index = Some("events".to_string());
    s.allow_writes = true;
    s
}

fn checked(s: ElasticsearchBackendSpec) -> ElasticsearchBackendSpec {
    ElasticsearchBackendSpec::parse(Ok(s)).ok().unwrap()
}

fn spec(operation: EsOperation) -> ElasticsearchBackendSpec {
    checked(base(operation))
}

fn body_of(call: &EsRestCall) -> Json {
    Json::decode(call.body.as_deref().unwrap()).unwrap()
}

fn text_of(call: &EsRestCall) -> String {
    String::from_utf8(call.body.clone().unwrap()).unwrap()
}

fn at<'a>(j: &'a Json, path: &[&str]) -> Option<&'a Json> {
    let mut cur = j;
    for key in path {
        cur = cur.get(key)?;
    }
    Some(cur)
}

#[test]
fn build_list_call_targets_search_with_pagination() {
    let s = spec(EsOperation::Search);
    let list = ListQueryConfig {
        index: Some("events".into()),
        query: Some(json(r#"{ "term": { "kind": "doc" } }"#)),
        uri_field: "uri".into(),
        name_field: Some("title".into()),
        description_field: None,
        page_size: 25,
    };
    let call = build_list_call(&s, &list, 50).unwrap();
    assert_eq!(call.path, "/events/_search");
    let body = body_of(&call);
    assert_eq!(body.get_u64("from"), Some(50));
    assert_eq!(body.get_u64("size"), Some(25));
    assert_eq!(body.get("query"), Some(&json(r#"{ "term": { "kind": "doc" } }"#)));
    assert_eq!(body.get("_source"), Some(&json(r#"["uri", "title"]"#)));
}

#[test]
fn list_call_defaults_and_guards() {
    let s = spec(EsOperation::Search);
    let mut list = ListQueryConfig {
        index: None,
        query: None,
        uri_field: "uri".into(),
        name_field: None,
        description_field: Some("about".into()),
        page_size: 10,
    };
    let call = build_list_call(&s, &list, 0).unwrap();
    assert_eq!(
        text_of(&call),
        r#"{"_source":["uri","about"],"from":0,"query":{"match_all":{}},"size":10}"#
    );
    list.query = Some(json(r#"{ "script": {} }"#));
    assert!(build_list_call(&s, &list, 0).unwrap_err().contains("`script`"));
    list.index = Some("secrets".into());
    assert!(build_list_call(&s, &list, 0).unwrap_err().contains("allowlist"));
}

#[test]
fn build_completion_call_binds_prefix_as_value() {
    let s = spec(EsOperation::Search);
    let cc = EsCompletionConfig {
        index: Some("events".into()),
        field: "name.keyword".into(),
        filter: Some(json(r#"[{ "term": { "owner": "acme" } }]"#)),
        max_results: Some(10),
    };
    let call = build_completion_call(&s, &cc, "ab\"}}],\"x\":1", 10).unwrap();
    assert_eq!(call.path, "/events/_search");
    let body = body_of(&call);
    let must = at(&body, &["query", "bool", "must"]).unwrap().as_array().unwrap();
    assert_eq!(
        at(&must[0], &["prefix", "name.keyword"]).unwrap().as_str(),
        Some("ab\"}}],\"x\":1")
    );
    assert_eq!(
        at(&body, &["query", "bool", "filter"]),
        Some(&json(r#"[{ "term": { "owner": "acme" } }]"#))
    );
    assert_eq!(body.get("_source"), Some(&json(r#"["name.keyword"]"#)));
    assert_eq!(body.get_u64("size"), Some(10));
}

#[test]
fn completion_call_guards() {
    let s = spec(EsOperation::Search);
    let cc = EsCompletionConfig {
        index: None,
        field: "name".into(),
        filter: Some(json(r#"{ "runtime_mappings": {} }"#)),
        max_results: None,
    };
    let err = build_completion_call(&s, &cc, "a", 5).unwrap_err();
    assert!(err.contains("runtime_mappings"), "{err}");
}

#[test]
fn search_hits_and_source_string_extract() {
    let body = json(
        r#"{
            "hits": { "hits": [
                { "_source": { "uri": "es://a", "meta": { "title": "A" } } },
                { "_source": { "uri": "es://b" } }
            ]}
        }"#,
    );
    let hits = search_hits(&body);
    assert_eq!(hits.len(), 2);
    assert_eq!(source_string(&hits[0], "uri").as_deref(), Some("es://a"));
    assert_eq!(source_string(&hits[0], "meta.title").as_deref(), Some("A"));
    assert!(source_string(&hits[1], "meta.title").is_none());
    assert!(search_hits(&json("{}")).is_empty());
    assert!(search_hits(&json(r#"{ "hits": [] }"#)).is_empty());
    assert!(search_hits(&json("null")).is_empty());
}

fn result(status: u16, body: &str) -> EsResult {
    EsResult { status, json: Some(json(body)), raw_body: String::new(), truncated: false }
}

#[test]
fn output_schema_covers_envelope_keys() {
    let schema = result_envelope_schema();
    assert_eq!(schema.get_str("type"), Some("object"));
    let s = spec(EsOperation::Search);
    let call =
        build_call(&s, &json(r#"{ "index": "events", "query": { "match_all": {} } }"#)).unwrap();
    let res = result(200, r#"{ "hits": { "total": { "value": 0 } } }"#);
    let env = build_envelope(&s, &call, &res);
    let props = schema.get("properties").expect("properties object");
    match &env {
        Json::Object(fields) => {
            for (key, _) in fields {
                assert!(props.get(key).is_some(), "schema missing key `{key}`");
            }
        }
        _ => panic!("envelope object"),
    }
    assert_eq!(at(&schema, &["properties", "response"]), Some(&json("{}")));
}

fn has_type(value: &Json, kind: &str) -> bool {
    match value {
        Json::Null => kind == "null",
        Json::Bool(_) => kind == "boolean",
        Json::Number(_) => kind == "integer" && value.as_u64().is_some(),
        Json::Text(_) => kind == "string",
        Json::Array(_) => kind == "array",
        Json::Object(_) => kind == "object",
    }
}

#[test]
fn members_of_the_envelope_have_the_types_of_the_schema() {
    let schema = result_envelope_schema();
    let s = spec(EsOperation::Get);
    let call = build_call(&s, &json(r#"{ "id": "x" }"#)).unwrap();
    let results =
        [result(200, "[1]"), result(404, "{}"), shape_response(502, b"bad gateway", 3)];
    for res in &results {
        let env = build_envelope(&s, &call, res);
        for key in ["operation", "method", "path"] {
            assert!(has_type(env.get(key).unwrap(), "string"), "{key}");
        }
        assert!(has_type(env.get("statusCode").unwrap(), "integer"));
        assert!(has_type(env.get("ok").unwrap(), "boolean"));
        assert!(has_type(env.get("truncated").unwrap(), "boolean"));
        match &env {
            Json::Object(fields) => {
                for (key, value) in fields {
                    match at(&schema, &["properties", key.as_str(), "type"]) {
                        Some(Json::Text(kind)) => assert!(has_type(value, kind), "{key}"),
                        Some(Json::Array(kinds)) => {
                            assert!(kinds.contains(&Json::text("null")));
                            assert!(kinds.contains(&Json::text("object")));
                            assert!(has_type(value, "object"), "{key}");
                        }
                        Some(_) => panic!("type of {key}"),
                        None => assert_eq!(key, "response"),
                    }
                }
            }
            _ => panic!("envelope object"),
        }
    }
}

#[test]
fn output_schema_is_exact() {
    assert_eq!(
        result_envelope_schema(),
        json(
            r#"{
                "$schema": "https://json-schema.org/draft/2020-12/schema",
                "type": "object",
                "properties": {
                    "operation": { "type": "string" },
                    "method": { "type": "string" },
                    "path": { "type": "string" },
                    "statusCode": { "type": "integer" },
                    "ok": { "type": "boolean" },
                    "truncated": { "type": "boolean" },
                    "response": {},
                    "responseText": { "type": "string" },
                    "downstreamError": { "type": ["object", "null"] },
                    "__mcpg_verbatim_result": { "type": "object" }
                },
                "additionalProperties": true
            }"#
        )
    );
}

#[test]
fn input_schemas_are_exact() {
    assert_eq!(
        op_input_schema(EsOperation::Index),
        json(
            r#"{
                "type": "object",
                "properties": {
                    "index": {
                        "type": "string",
                        "description": "Target index (must be in the binding allowlist; defaults to default_index)"
                    },
                    "id": { "type": "string" },
                    "document": { "type": "object" },
                    "refresh": { "type": "string", "enum": ["true", "false", "wait_for"] },
                    "op_type": { "type": "string", "enum": ["index", "create"] }
                },
                "required": ["document"]
            }"#
        )
    );
    assert_eq!(
        op_input_schema(EsOperation::Msearch),
        json(
            r#"{
                "type": "object",
                "properties": {
                    "searches": {
                        "type": "array",
                        "description": "Per-search { index?, query, size?, from? } objects",
                        "items": { "type": "object" }
                    }
                },
                "required": ["searches"]
            }"#
        )
    );
    assert_eq!(
        op_input_schema(EsOperation::Count),
        json(
            r#"{
                "type": "object",
                "properties": {
                    "index": {
                        "type": "string",
                        "description": "Target index (must be in the binding allowlist; defaults to default_index)"
                    },
                    "query": { "type": "object", "description": "Elasticsearch query DSL" }
                }
            }"#
        )
    );
    for (op, key) in [
        (EsOperation::Get, "id"),
        (EsOperation::Delete, "id"),
        (EsOperation::Bulk, "operations"),
    ] {
        let schema = op_input_schema(op);
        assert_eq!(schema.get_array("required").unwrap()[0].as_str(), Some(key));
        assert!(at(&schema, &["properties", key]).is_some());
    }
}

#[test]
fn base64_basic_auth_matches_reference() {
    assert_eq!(b64(b"elastic:changeme"), "ZWxhc3RpYzpjaGFuZ2VtZQ==");
    assert_eq!(b64(b"f"), "Zg==");
    assert_eq!(b64(b"fo"), "Zm8=");
    assert_eq!(b64(b"foo"), "Zm9v");
    assert_eq!(b64(b"foob"), "Zm9vYg==");
    assert_eq!(b64(b""), "");
    assert_eq!(b64(&[0xfb, 0xff, 0xfe]), "+//+");
}

#[test]
fn auth_header_formats() {
    let mut s = base(EsOperation::Search);
    s.auth = EsAuth::ApiKey { api_key: "AbC123".into() };
    assert_eq!(auth_header(&checked(s)), Some(("Authorization", "ApiKey AbC123".into())));
    let mut s = base(EsOperation::Search);
    s.auth = EsAuth::Bearer { token: "tok".into() };
    assert_eq!(auth_header(&checked(s)), Some(("Authorization", "Bearer tok".into())));
    let mut s = base(EsOperation::Search);
    s.auth = EsAuth::Basic { username: "u".into(), password: "p".into() };
    assert_eq!(
        auth_header(&checked(s)),
        Some(("Authorization", format!("Basic {}", b64(b"u:p"))))
    );
    assert_eq!(auth_header(&spec(EsOperation::Search)), None);
}

#[test]
fn search_clamps_size_and_from() {
    let mut s = base(EsOperation::Search);
    s.max_size = 50;
    s.max_from = 100;
    let s = checked(s);
    let call = build_call(
        &s,
        &json(
            r#"{ "index": "events", "query": { "match_all": {} }, "size": 99999, "from": 500 }"#,
        ),
    )
    .unwrap();
    let body = body_of(&call);
    assert_eq!(body.get_u64("size"), Some(50));
    assert_eq!(body.get_u64("from"), Some(100));
    assert_eq!(call.path, "/events/_search");
    assert_eq!(call.method, Method::Post);
}

#[test]
fn search_body_carries_its_parts() {
    let s = spec(EsOperation::Search);
    let call = build_call(
        &s,
        &json(
            r#"{ "query": { "a": 1 }, "sort": ["x"], "source": false, "aggs": { "b": {} },
                 "size": 7, "from": -1, "other": true }"#,
        ),
    )
    .unwrap();
    assert_eq!(
        text_of(&call),
        r#"{"_source":false,"aggs":{"b":{}},"query":{"a":1},"size":7,"sort":["x"]}"#
    );
    assert_eq!(call.content_type, "application/json");
    assert_eq!(call.operation, EsOperation::Search);
    assert_eq!(call.query, None);
    assert_eq!(call.display_path, "/events/_search");
}

#[test]
fn scripting_guard_rejects_script_by_default() {
    let s = spec(EsOperation::Search);
    let err = build_call(
        &s,
        &json(r#"{ "index": "events", "query": { "script": { "source": "1" } } }"#),
    )
    .unwrap_err();
    assert!(err.contains("script"), "{err}");
    assert_eq!(
        err,
        "query body contains `script` (scripting disabled; set allow_scripting to enable)"
    );
}

#[test]
fn scripting_guard_catches_scripted_metric_aggregation() {
    let s = spec(EsOperation::Search);
    let err = build_call(
        &s,
        &json(
            r#"{
                "index": "events",
                "aggs": {
                    "profit": {
                        "scripted_metric": {
                            "init_script": "state.t = []",
                            "map_script": "state.t.add(1)",
                            "combine_script": "return 1",
                            "reduce_script": "return 1"
                        }
                    }
                }
            }"#,
        ),
    )
    .unwrap_err();
    assert!(err.contains("scripting"), "got: {err}");
}

#[test]
fn scripting_key_predicate_covers_the_shapes() {
    for bad in [
        "script",
        "script_score",
        "scripted_metric",
        "runtime_mappings",
        "script_fields",
        "init_script",
        "map_script",
        "combine_script",
        "reduce_script",
    ] {
        assert!(is_scripting_key(bad), "{bad} must be refused");
    }
    for ok in ["query", "aggs", "description", "scripts", "transcript"] {
        assert!(!is_scripting_key(ok), "{ok} must be allowed");
    }
}

#[test]
fn scripting_key_is_found_at_any_depth() {
    let v = json(r#"{ "a": [ 1, [ { "b": { "c": { "x_script": 0 } } } ] ] }"#);
    assert_eq!(find_scripting_key(&v).as_deref(), Some("x_script"));
    assert_eq!(find_scripting_key(&json(r#"{ "a": ["script"] }"#)), None);
}

#[test]
fn scripting_guard_detects_nested_runtime_mappings() {
    let s = spec(EsOperation::Search);
    let err = build_call(
        &s,
        &json(
            r#"{ "index": "events", "query": { "bool": { "must": [ { "runtime_mappings": {} } ] } } }"#,
        ),
    )
    .unwrap_err();
    assert!(err.contains("runtime_mappings"), "{err}");
}

#[test]
fn scripting_allowed_when_opted_in() {
    let mut s = base(EsOperation::Search);
    s.allow_scripting = true;
    let call = build_call(
        &checked(s),
        &json(r#"{ "index": "events", "query": { "script_score": { "script": "x" } } }"#),
    );
    assert!(call.is_ok());
}

#[test]
fn get_encodes_doc_id_path() {
    let s = spec(EsOperation::Get);
    let call = build_call(&s, &json(r#"{ "index": "events", "id": "a b/c" }"#)).unwrap();
    assert_eq!(call.method, Method::Get);
    assert!(call.path.starts_with("/events/_doc/"));
    let suffix = call.path.strip_prefix("/events/_doc/").unwrap();
    assert!(!suffix.contains('/'), "doc id slash not encoded: {suffix}");
    assert!(!suffix.contains(' '));
    assert_eq!(suffix, "a%20b%2Fc");
    assert_eq!(call.display_path, "/events/_doc/a b/c");
    assert!(call.body.is_none());
}

#[test]
fn percent_encoding_of_segments() {
    assert_eq!(encode_path_segment("AZaz09-._~"), "AZaz09-._~");
    assert_eq!(encode_path_segment("é%"), "%C3%A9%25");
    assert_eq!(hex_upper(9), '9');
    assert_eq!(hex_upper(15), 'F');
    assert_eq!(checked_doc_id("").unwrap_err(), "`id` must be 1..=512 bytes");
    assert_eq!(checked_doc_id(&"x".repeat(513)).unwrap_err(), "`id` must be 1..=512 bytes");
    assert!(checked_doc_id(&"x".repeat(512)).is_ok());
}

#[test]
fn source_of_a_get() {
    assert_eq!(source_query(&json(r#"{ "source": true }"#)).as_deref(), Some("_source=true"));
    assert_eq!(source_query(&json(r#"{ "source": false }"#)).as_deref(), Some("_source=false"));
    assert_eq!(
        source_query(&json(r#"{ "source": ["a", 1, "b c"] }"#)).as_deref(),
        Some("_source=a,b%20c")
    );
    assert_eq!(source_query(&json(r#"{ "source": [1] }"#)), None);
    assert_eq!(source_query(&json(r#"{ "source": "a" }"#)), None);
    assert_eq!(source_query(&json("{}")), None);
}

#[test]
fn index_with_id_is_put_without_is_post() {
    let s = spec(EsOperation::Index);
    let with_id =
        build_call(&s, &json(r#"{ "index": "events", "id": "1", "document": { "a": 1 } }"#))
            .unwrap();
    assert_eq!(with_id.method, Method::Put);
    assert_eq!(with_id.path, "/events/_doc/1");
    let no_id =
        build_call(&s, &json(r#"{ "index": "events", "document": { "a": 1 } }"#)).unwrap();
    assert_eq!(no_id.method, Method::Post);
    assert_eq!(no_id.path, "/events/_doc");
    assert_eq!(text_of(&no_id), r#"{"a":1}"#);
}

#[test]
fn index_refresh_in_query() {
    let s = spec(EsOperation::Index);
    let call = build_call(
        &s,
        &json(r#"{ "index": "events", "document": { "a": 1 }, "refresh": "wait_for" }"#),
    )
    .unwrap();
    assert_eq!(call.query.as_deref(), Some("refresh=wait_for"));
}

#[test]
fn index_op_type_in_query() {
    let s = spec(EsOperation::Index);
    let call =
        build_call(&s, &json(r#"{ "document": {}, "refresh": "true", "op_type": "create" }"#))
            .unwrap();
    assert_eq!(call.query.as_deref(), Some("refresh=true&op_type=create"));
    let call = build_call(&s, &json(r#"{ "document": {}, "op_type": "index" }"#)).unwrap();
    assert_eq!(call.query.as_deref(), Some("op_type=index"));
    let err = build_call(&s, &json(r#"{ "document": {}, "op_type": "update" }"#)).unwrap_err();
    assert_eq!(err, "`op_type` must be `index` or `create`");
}

#[test]
fn index_rejects_bad_refresh() {
    let s = spec(EsOperation::Index);
    let err =
        build_call(&s, &json(r#"{ "index": "events", "document": {}, "refresh": "soon" }"#))
            .unwrap_err();
    assert!(err.contains("refresh"), "{err}");
    assert_eq!(refresh_param(&json(r#"{ "refresh": 1 }"#)).unwrap_err(), "`refresh` must be a string");
    assert_eq!(refresh_param(&json("{}")), Ok(None));
    assert_eq!(refresh_param(&json(r#"{ "refresh": "false" }"#)), Ok(Some("false")));
}

#[test]
fn delete_builds_delete_method() {
    let s = spec(EsOperation::Delete);
    let call = build_call(&s, &json(r#"{ "index": "events", "id": "42" }"#)).unwrap();
    assert_eq!(call.method, Method::Delete);
    assert_eq!(call.path, "/events/_doc/42");
}

#[test]
fn bulk_assembles_ndjson_with_trailing_newline() {
    let s = spec(EsOperation::Bulk);
    let call = build_call(
        &s,
        &json(
            r#"{
                "index": "events",
                "operations": [
                    { "index": { "_id": "1" } },
                    { "field": "value" }
                ]
            }"#,
        ),
    )
    .unwrap();
    assert_eq!(call.content_type, NDJSON_CT);
    let body = text_of(&call);
    assert_eq!(body.lines().count(), 2);
    assert!(body.ends_with('\n'));
    assert!(body.contains("\"_id\":\"1\""));
    assert!(body.contains("\"_index\":\"events\""));
}

#[test]
fn bulk_actions_follow_the_index_of_the_call() {
    let s = spec(EsOperation::Bulk);
    let args = json(
        r#"{ "index": "logs-app", "operations": [ { "index": { "_id": "1" } }, { "field": "value" } ] }"#,
    );
    let call = build_call(&s, &args).unwrap();
    assert_eq!(call.path, "/logs-app/_bulk");
    assert_eq!(
        text_of(&call),
        "{\"index\":{\"_id\":\"1\",\"_index\":\"logs-app\"}}\n{\"field\":\"value\"}\n"
    );

    let mut no_default = base(EsOperation::Bulk);
    no_default.default_index = None;
    assert_eq!(build_call(&checked(no_default), &args).unwrap().body, call.body);

    let named = json(
        r#"{ "index": "logs-app", "operations": [ { "delete": { "_index": "events" } } ] }"#,
    );
    assert_eq!(
        text_of(&build_call(&s, &named).unwrap()),
        "{\"delete\":{\"_index\":\"events\"}}\n"
    );
}

#[test]
fn bulk_body_is_exact() {
    let s = spec(EsOperation::Bulk);
    let operations = json(
        r#"[
            { "delete": { "_id": "1" } },
            { "create": null },
            { "text": "line\nfeed" },
            { "update": { "_index": "logs-1" } },
            null
        ]"#,
    );
    let bytes = assemble_bulk_ndjson(&s, operations.as_array().unwrap()).unwrap();
    assert_eq!(
        String::from_utf8(bytes).unwrap(),
        "{\"delete\":{\"_id\":\"1\",\"_index\":\"events\"}}\n\
         {\"create\":null}\n\
         {\"text\":\"line\\nfeed\"}\n\
         {\"update\":{\"_index\":\"logs-1\"}}\n\
         null\n"
    );
}

#[test]
fn bulk_errors_name_their_place() {
    let s = spec(EsOperation::Bulk);
    let run = |text: &str| assemble_bulk_ndjson(&s, json(text).as_array().unwrap()).unwrap_err();
    assert_eq!(run("[1]"), "bulk operations[0] must be a JSON object");
    assert_eq!(run("[null]"), "bulk operations[0] must be an action object");
    assert_eq!(
        run(r#"[{ "index": {}, "create": {} }]"#),
        "bulk operations[0] must name exactly one action (index, create, update, delete)"
    );
    assert_eq!(
        run("[{}]"),
        "bulk operations[0] must name exactly one action (index, create, update, delete)"
    );
    assert_eq!(
        run(r#"[{ "delete": {} }, { "drop": {} }]"#),
        "bulk operations[1] action `drop` is not one of index, create, update, delete"
    );
    assert_eq!(
        run(r#"[{ "index": { "_index": "Bad" } }]"#),
        "bulk operations[0]: index `Bad` is not a valid index name"
    );
    assert_eq!(
        run(r#"[{ "index": {} }]"#),
        "bulk operations end with an action that has no source line"
    );
}

#[test]
fn dot_only_doc_id_is_refused() {
    for op in [EsOperation::Delete, EsOperation::Get] {
        let s = spec(op);
        for id in ["..", ".", "..."] {
            let args = json(&format!(r#"{{ "index": "events", "id": "{id}" }}"#));
            let err = build_call(&s, &args).unwrap_err();
            assert!(err.contains("dots"), "{op:?}/{id}: {err}");
        }
    }
    let s = spec(EsOperation::Get);
    let call = build_call(&s, &json(r#"{ "index": "events", "id": "a.b.c" }"#)).unwrap();
    assert_eq!(call.path, "/events/_doc/a.b.c");
}

#[test]
fn bulk_action_index_is_allowlist_checked() {
    let s = spec(EsOperation::Bulk);
    let err = build_call(
        &s,
        &json(
            r#"{
                "index": "events",
                "operations": [
                    { "index": { "_index": "secrets", "_id": "1" } },
                    { "field": "value" }
                ]
            }"#,
        ),
    )
    .unwrap_err();
    assert!(err.contains("allowlist"), "got: {err}");

    let call = build_call(
        &s,
        &json(
            r#"{
                "index": "events",
                "operations": [
                    { "index": { "_index": "logs-2026", "_id": "1" } },
                    { "field": "value" }
                ]
            }"#,
        ),
    )
    .unwrap();
    let body = text_of(&call);
    assert!(body.contains("\"_index\":\"logs-2026\""), "got: {body}");
}

#[test]
fn bulk_source_line_hits_the_scripting_guard() {
    let s = spec(EsOperation::Bulk);
    let err = build_call(
        &s,
        &json(
            r#"{
                "index": "events",
                "operations": [
                    { "update": { "_id": "1" } },
                    { "script": { "source": "ctx._source.x = 1" } }
                ]
            }"#,
        ),
    )
    .unwrap_err();
    assert!(err.contains("scripting"), "got: {err}");
}

#[test]
fn bulk_rejects_unknown_action_verb() {
    let s = spec(EsOperation::Bulk);
    let err = build_call(
        &s,
        &json(r#"{ "index": "events", "operations": [ { "drop_index": {} } ] }"#),
    )
    .unwrap_err();
    assert!(err.contains("not one of"), "got: {err}");
}

#[test]
fn msearch_assembles_header_and_body_lines() {
    let s = spec(EsOperation::Msearch);
    let call = build_call(
        &s,
        &json(
            r#"{
                "searches": [
                    { "index": "events", "query": { "match_all": {} }, "size": 5 },
                    { "index": "logs-app", "query": { "term": { "x": 1 } } }
                ]
            }"#,
        ),
    )
    .unwrap();
    assert_eq!(call.content_type, NDJSON_CT);
    assert_eq!(call.path, "/_msearch");
    let body = text_of(&call);
    assert_eq!(body.lines().count(), 4);
    let first = json(body.lines().next().unwrap());
    assert_eq!(first.get_str("index"), Some("events"));
}

#[test]
fn msearch_body_is_exact() {
    let s = spec(EsOperation::Msearch);
    let searches = json(r#"[{ "query": { "a": 1 }, "from": 3 }, { "index": "logs-x" }]"#);
    let bytes = assemble_msearch_ndjson(&s, searches.as_array().unwrap()).unwrap();
    assert_eq!(
        String::from_utf8(bytes).unwrap(),
        "{\"index\":\"events\"}\n{\"from\":3,\"query\":{\"a\":1}}\n{\"index\":\"logs-x\"}\n{}\n"
    );
    assert_eq!(
        build_call(&s, &json(r#"{ "searches": [] }"#)).unwrap_err(),
        "`searches` must not be empty"
    );
    assert_eq!(
        build_call(&s, &json(r#"{ "searches": [ {}, { "index": "x" } ] }"#)).unwrap_err(),
        "searches[1]: index `x` is not in the configured allowlist"
    );
}

#[test]
fn msearch_validates_each_search_index_against_allowlist() {
    let s = spec(EsOperation::Msearch);
    let err = build_call(
        &s,
        &json(r#"{ "searches": [ { "index": "secrets", "query": {} } ] }"#),
    )
    .unwrap_err();
    assert!(err.contains("allowlist") || err.contains("secrets"), "{err}");
}

#[test]
fn missing_required_arg_is_error() {
    let s = spec(EsOperation::Get);
    assert!(build_call(&s, &json(r#"{ "index": "events" }"#)).is_err());
    let s = spec(EsOperation::Index);
    assert!(build_call(&s, &json(r#"{ "index": "events" }"#)).is_err());
    let s = spec(EsOperation::Bulk);
    assert!(build_call(&s, &json(r#"{ "index": "events" }"#)).is_err());
    let s = spec(EsOperation::Delete);
    assert_eq!(build_call(&s, &json("{}")).unwrap_err(), "missing required `id` argument");
    let s = spec(EsOperation::Msearch);
    assert_eq!(
        build_call(&s, &json("{}")).unwrap_err(),
        "missing required `searches` array argument"
    );
}

#[test]
fn request_body_byte_cap_enforced() {
    let mut s = base(EsOperation::Index);
    s.max_request_bytes = 8;
    let err = build_call(
        &checked(s),
        &json(r#"{ "index": "events", "document": { "big": "xxxxxxxxxxxxxxxx" } }"#),
    )
    .unwrap_err();
    assert!(err.contains("max_request_bytes"), "{err}");
    assert_eq!(err, "request body 26 bytes exceeds max_request_bytes 8");
}

#[test]
fn cap_is_inclusive() {
    let s = spec(EsOperation::Index);
    let call = build_call(&s, &json(r#"{ "document": { "a": 1 } }"#)).unwrap();
    let n = call.body.as_ref().unwrap().len();
    let call = within_cap(call, n).unwrap();
    assert!(within_cap(call, n - 1).is_err());
}

#[test]
fn plans_hold_values() {
    let s = spec(EsOperation::Count);
    let plan = plan_call(&s, &json(r#"{ "query": { "a": 1 } }"#)).unwrap();
    assert_eq!(plan.payload, Payload::Value(json(r#"{ "query": { "a": 1 } }"#)));
    assert_eq!(plan.path, "/events/_count");
}

#[test]
fn envelope_shape_on_synthetic_search_response() {
    let s = spec(EsOperation::Search);
    let call =
        build_call(&s, &json(r#"{ "index": "events", "query": { "match_all": {} } }"#)).unwrap();
    let res = result(
        200,
        r#"{
            "took": 3,
            "timed_out": false,
            "hits": { "total": { "value": 1 }, "hits": [ { "_id": "1", "_source": { "a": 1 } } ] }
        }"#,
    );
    let env = build_envelope(&s, &call, &res);
    assert_eq!(env.get_str("operation"), Some("search"));
    assert_eq!(env.get_u64("statusCode"), Some(200));
    assert_eq!(env.get("ok"), Some(&Json::Bool(true)));
    assert_eq!(at(&env, &["response", "hits", "total", "value"]).unwrap().as_u64(), Some(1));
    assert!(env.get("downstreamError").is_none());
    assert_eq!(env.get_str("method"), Some("POST"));
    assert_eq!(env.get_str("path"), Some("/events/_search"));
    assert_eq!(env.get("truncated"), Some(&Json::Bool(false)));
    assert!(env.get("responseText").is_none());
}

#[test]
fn envelope_marks_4xx_as_downstream_error() {
    let s = spec(EsOperation::Get);
    let call = build_call(&s, &json(r#"{ "index": "events", "id": "missing" }"#)).unwrap();
    let res = result(404, r#"{ "found": false }"#);
    let env = build_envelope(&s, &call, &res);
    assert_eq!(env.get_u64("statusCode"), Some(404));
    assert_eq!(env.get("ok"), Some(&Json::Bool(false)));
    let error = env.get("downstreamError").unwrap();
    assert_eq!(error.get_u64("statusCode"), Some(404));
    assert_eq!(error.get("body"), Some(&json(r#"{ "found": false }"#)));
}

#[test]
fn envelope_marks_every_answer_but_success() {
    let s = spec(EsOperation::Get);
    let call = build_call(&s, &json(r#"{ "id": "x" }"#)).unwrap();
    for status in [199, 300, 301, 304, 399, 500] {
        let env = build_envelope(&s, &call, &result(status, r#"{ "a": 1 }"#));
        assert_eq!(env.get("ok"), Some(&Json::Bool(false)));
        let error = env.get("downstreamError").unwrap();
        assert_eq!(error.get_u64("statusCode"), Some(status as u64));
        assert_eq!(error.get("body"), Some(&json(r#"{ "a": 1 }"#)));
    }
    for status in [200, 204, 299] {
        let env = build_envelope(&s, &call, &result(status, "{}"));
        assert!(env.get("downstreamError").is_none());
    }
}

#[test]
fn envelope_of_a_body_that_is_no_json() {
    let s = spec(EsOperation::Get);
    let call = build_call(&s, &json(r#"{ "id": "x" }"#)).unwrap();
    let res = shape_response(502, b"bad gateway", 100);
    let env = build_envelope(&s, &call, &res);
    assert_eq!(env.get_str("responseText"), Some("bad gateway"));
    assert!(env.get("response").is_none());
    assert_eq!(env.get("downstreamError").unwrap().get_str("body"), Some("bad gateway"));
}

#[test]
fn responses_are_cut_at_the_cap() {
    let whole = shape_response(200, b"{\"a\":1}", 7);
    assert_eq!(whole.json, Some(json(r#"{"a":1}"#)));
    assert_eq!(whole.raw_body, "{\"a\":1}");
    assert!(!whole.truncated);
    let cut = shape_response(200, b"{\"a\":1}", 6);
    assert_eq!(cut.json, None);
    assert_eq!(cut.raw_body, "{\"a\":1");
    assert!(cut.truncated);
    let lossy = shape_response(200, &[b'a', 0xff], 9);
    assert_eq!(lossy.raw_body, "a\u{fffd}");
    assert_eq!(lossy.json, None);
}

#[test]
fn results_from_their_parts() {
    let whole = result_of(200, 5, 5, Some(Json::Null), "null ".to_string());
    assert_eq!(whole.json, Some(Json::Null));
    assert!(!whole.truncated);
    let cut = result_of(200, 6, 5, Some(Json::Null), "null ".to_string());
    assert_eq!(cut.json, None);
    assert!(cut.truncated);
}

#[test]
fn envelope_is_the_same_whatever_the_credentials() {
    let plain = spec(EsOperation::Search);
    let mut s = base(EsOperation::Search);
    s.auth = EsAuth::Bearer { token: "s3cr3t".into() };
    let secret = checked(s);
    let args = json(r#"{ "query": {} }"#);
    let a = build_call(&plain, &args).unwrap();
    let b = build_call(&secret, &args).unwrap();
    assert_eq!(a, b);
    let res = result(200, "{}");
    assert_eq!(build_envelope(&plain, &a, &res), build_envelope(&secret, &b, &res));
}

#[test]
fn request_urls() {
    let s = spec(EsOperation::Get);
    let call = build_call(&s, &json(r#"{ "id": "1", "source": true }"#)).unwrap();
    assert_eq!(
        request_url("https://es:9200", &call),
        "https://es:9200/events/_doc/1?_source=true"
    );
    let call = build_call(&s, &json(r#"{ "id": "1" }"#)).unwrap();
    assert_eq!(request_url("https://es:9200", &call), "https://es:9200/events/_doc/1");
}

fn vector(items: &[f64]) -> Vec<VectorElement> {
    items
        .iter()
        .map(|x| VectorElement::Finite(serde_json::Number::from_f64(*x).unwrap()))
        .collect()
}

fn knn_config() -> KnnConfig {
    KnnConfig {
        field: "embedding".into(),
        k: 5,
        num_candidates: Some(100),
        filter: None,
        query_vector: None,
    }
}

fn knn_spec(knn: KnnConfig) -> ElasticsearchBackendSpec {
    let mut s = base(EsOperation::Knn);
    s.knn = Some(knn);
    checked(s)
}

#[test]
fn knn_builds_search_with_knn_clause() {
    let s = knn_spec(knn_config());
    let call =
        build_call(&s, &json(r#"{ "index": "events", "query_vector": [0.1, 0.2, 0.3] }"#)).unwrap();
    assert_eq!(call.method, Method::Post);
    assert_eq!(call.path, "/events/_search");
    let body = body_of(&call);
    let knn = body.get("knn").unwrap();
    assert_eq!(knn.get_str("field"), Some("embedding"));
    assert_eq!(knn.get_u64("k"), Some(5));
    assert_eq!(knn.get_u64("num_candidates"), Some(100));
    assert_eq!(knn.get("query_vector"), Some(&json("[0.1, 0.2, 0.3]")));
    assert!(knn.get("filter").is_none());
}

#[test]
fn knn_vector_is_written_in_floating_point_form() {
    let s = knn_spec(knn_config());
    let call = build_call(&s, &json(r#"{ "query_vector": [1, -2, 0.5] }"#)).unwrap();
    assert_eq!(
        text_of(&call),
        r#"{"knn":{"field":"embedding","k":5,"num_candidates":100,"query_vector":[1.0,-2.0,0.5]}}"#
    );
}

#[test]
fn knn_clamps_num_candidates_up_to_k() {
    let s = knn_spec(KnnConfig { k: 50, num_candidates: Some(10), ..knn_config() });
    let call =
        build_call(&s, &json(r#"{ "index": "events", "query_vector": [1.0] }"#)).unwrap();
    let body = body_of(&call);
    assert_eq!(at(&body, &["knn", "k"]).unwrap().as_u64(), Some(50));
    assert_eq!(at(&body, &["knn", "num_candidates"]).unwrap().as_u64(), Some(50));
}

#[test]
fn knn_includes_filter_clause() {
    let s = knn_spec(KnnConfig {
        filter: Some(json(r#"{ "term": { "tenant": "acme" } }"#)),
        ..knn_config()
    });
    let call =
        build_call(&s, &json(r#"{ "index": "events", "query_vector": [1.0, 2.0] }"#)).unwrap();
    let body = body_of(&call);
    assert_eq!(
        at(&body, &["knn", "filter"]),
        Some(&json(r#"{ "term": { "tenant": "acme" } }"#))
    );
}

#[test]
fn knn_falls_back_to_literal_vector() {
    let s = knn_spec(KnnConfig { query_vector: Some(vector(&[9.0, 8.0, 7.0])), ..knn_config() });
    let call = build_call(&s, &json(r#"{ "index": "events" }"#)).unwrap();
    let body = body_of(&call);
    assert_eq!(at(&body, &["knn", "query_vector"]), Some(&json("[9.0, 8.0, 7.0]")));
}

#[test]
fn knn_call_arg_overrides_literal() {
    let s = knn_spec(KnnConfig { query_vector: Some(vector(&[9.0])), ..knn_config() });
    let call =
        build_call(&s, &json(r#"{ "index": "events", "query_vector": [1.0, 1.0] }"#)).unwrap();
    let body = body_of(&call);
    assert_eq!(at(&body, &["knn", "query_vector"]), Some(&json("[1.0, 1.0]")));
}

#[test]
fn knn_rejects_non_array_query_vector() {
    let s = knn_spec(knn_config());
    let err = build_call(&s, &json(r#"{ "index": "events", "query_vector": "not-an-array" }"#))
        .unwrap_err();
    assert!(err.contains("query_vector"), "{err}");
    assert_eq!(err, "`query_vector` must be an array of numbers");
}

#[test]
fn knn_rejects_non_numeric_vector_element() {
    let s = knn_spec(knn_config());
    let err = build_call(&s, &json(r#"{ "index": "events", "query_vector": [1.0, "x"] }"#))
        .unwrap_err();
    assert!(err.contains("query_vector[1]"), "{err}");
    assert_eq!(err, "`query_vector[1]` must be a finite number");
}

#[test]
fn knn_rejects_empty_query_vector() {
    let s = knn_spec(knn_config());
    let err =
        build_call(&s, &json(r#"{ "index": "events", "query_vector": [] }"#)).unwrap_err();
    assert!(err.contains("query_vector"), "{err}");
}

#[test]
fn knn_missing_vector_with_no_literal_is_error() {
    let s = knn_spec(knn_config());
    let err = build_call(&s, &json(r#"{ "index": "events" }"#)).unwrap_err();
    assert!(err.contains("query_vector"), "{err}");
}

#[test]
fn knn_filter_subject_to_scripting_guard() {
    let s = knn_spec(KnnConfig {
        filter: Some(json(r#"{ "script": { "source": "1" } }"#)),
        ..knn_config()
    });
    let err =
        build_call(&s, &json(r#"{ "index": "events", "query_vector": [1.0] }"#)).unwrap_err();
    assert!(err.contains("script"), "{err}");
}

#[test]
fn knn_off_allowlist_index_is_error() {
    let s = knn_spec(knn_config());
    let err =
        build_call(&s, &json(r#"{ "index": "secrets", "query_vector": [1.0] }"#)).unwrap_err();
    assert!(err.contains("allowlist") || err.contains("secrets"), "{err}");
}

#[test]
fn knn_without_a_configuration_is_error() {
    let s = base(EsOperation::Knn);
    assert_eq!(
        build_call(&s, &json(r#"{ "query_vector": [1.0] }"#)).unwrap_err(),
        "knn operation requires a `knn` config block"
    );
}

#[test]
fn count_omits_paging_fields() {
    let s = spec(EsOperation::Count);
    let call = build_call(
        &s,
        &json(r#"{ "index": "events", "query": { "match_all": {} }, "size": 99 }"#),
    )
    .unwrap();
    assert_eq!(call.path, "/events/_count");
    let body = body_of(&call);
    assert!(body.get("size").is_none(), "count must not carry size");
    assert!(body.get("query").is_some());
}

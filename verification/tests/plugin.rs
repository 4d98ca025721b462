use elasticsearch_binding::config::{
    ElasticsearchBackendSpec, EsCompletionConfig, EsOperation, KnnConfig, ListQueryConfig,
};
use elasticsearch_binding::json::Json;
use elasticsearch_binding::observe::{
    audit_action_for_outcome, audit_record, host_outcome_label_for_status,
    host_outcome_label_for_transport_error, observe, CallContext,
};
use elasticsearch_binding::plugin::{
    choose_body, finish_complete, finish_execute, finish_list, plan_registration, secret_refs_of,
    verbatim_error, BackendError, BodyChoice, CompleteStep, ElasticsearchBackendPlugin,
    ExecuteStep, ListStep,
};
use elasticsearch_binding::response::{shape_response, EsResult};
use elasticsearch_binding::surface::Surface;
use elasticsearch_binding::transport::{
    body_read_failure, first_action, guard_plan, guard_verdict, lookup_name,
    lookup_target, next_action, Action, Endpoint, Event,
};

const VERBATIM_RESULT_KEY: &str = "__mcpg_verbatim_result";

fn json(text: &str) -> Json {
    Json::decode(text.as_bytes()).unwrap()
}

fn register(
    p: &mut ElasticsearchBackendPlugin,
    name: &str,
    spec: ElasticsearchBackendSpec,
) -> Result<(), BackendError> {
    let profile = plan_registration(Ok(spec), &json("{}"))?;
    p.finish_registration(name, profile, Ok(()))
}

fn plugin_with(spec: ElasticsearchBackendSpec) -> ElasticsearchBackendPlugin {
    let mut p = ElasticsearchBackendPlugin::new();
    register(&mut p, "t", spec).unwrap();
    p
}

fn search_spec() -> ElasticsearchBackendSpec {
    let mut s = ElasticsearchBackendSpec::minimal(
        vec!["https://es.example.com:9200".to_string()],
        EsOperation::Search,
    );
    s.index_allowlist = vec!["logs".to_string()];
    s.default_index = Some("logs".to_string());
    s
}

fn list_config() -> ListQueryConfig {
    ListQueryConfig {
        index: None,
        query: None,
        uri_field: "uri".to_string(),
        name_field: None,
        description_field: None,
        page_size: 2,
    }
}

fn completion_config() -> EsCompletionConfig {
    EsCompletionConfig {
        index: None,
        field: "name.keyword".to_string(),
        filter: None,
        max_results: None,
    }
}

fn answered(step: ExecuteStep) -> Json {
    match step {
        ExecuteStep::Answer(a) => {
            assert!(!a.truncated);
            Json::decode(&a.payload).unwrap()
        }
        ExecuteStep::Send { .. } => panic!("nothing is to be sent"),
    }
}

fn error_flag(v: &Json) -> Option<&Json> {
    v.get(VERBATIM_RESULT_KEY)?.get("isError")
}

fn error_text(v: &Json) -> String {
    let content = v.get(VERBATIM_RESULT_KEY).unwrap().get_array("content").unwrap();
    content[0].get_str("text").unwrap().to_string()
}

#[test]
fn backend_kind() {
    assert_eq!(ElasticsearchBackendPlugin::new().kind(), "elasticsearch");
    assert!(ElasticsearchBackendPlugin::from_config_json("{}").profile("t").is_none());
    assert!(ElasticsearchBackendPlugin::default().profile("t").is_none());
}

#[test]
fn register_rejects_bad_spec() {
    let mut s = search_spec();
    s.urls = vec![];
    let mut p = ElasticsearchBackendPlugin::new();
    let err = register(&mut p, "t", s);
    assert!(matches!(err, Err(BackendError::InvalidSpec { .. })));
    assert_eq!(
        err.unwrap_err(),
        BackendError::InvalidSpec { message: "elasticsearch: urls must not be empty".to_string() }
    );
    let err = plan_registration(Err("missing field `operation`".to_string()), &json("{}"));
    assert!(matches!(err.err(), Some(BackendError::InvalidSpec { .. })));
}

#[test]
fn register_without_client_changes_nothing() {
    let mut p = ElasticsearchBackendPlugin::new();
    let profile = plan_registration(Ok(search_spec()), &json("{}")).ok().unwrap();
    let err = p.finish_registration("t", profile, Err("no roots".to_string())).unwrap_err();
    assert_eq!(
        err,
        BackendError::InvalidSpec { message: "elasticsearch client init: no roots".to_string() }
    );
    assert!(p.profile("t").is_none());
}

#[test]
fn registering_again_replaces_the_profile() {
    let mut p = plugin_with(search_spec());
    let mut other = search_spec();
    other.operation = EsOperation::Count;
    register(&mut p, "u", search_spec()).unwrap();
    register(&mut p, "t", other).unwrap();
    assert_eq!(p.profile("t").unwrap().spec.operation, EsOperation::Count);
    assert_eq!(p.profile("u").unwrap().spec.operation, EsOperation::Search);
    assert!(p.profile("v").is_none());
}

#[test]
fn secret_references_are_kept() {
    let raw = json(r#"{ "__mcpg_secret_refs": ["cred://es/key", 7, "cred://es/other"] }"#);
    assert_eq!(
        secret_refs_of(&raw),
        vec!["cred://es/key".to_string(), "cred://es/other".to_string()]
    );
    assert!(secret_refs_of(&json("{}")).is_empty());
    let mut s = search_spec();
    s.urls = vec!["https://es:9200/".to_string()];
    let profile = plan_registration(Ok(s), &raw).ok().unwrap();
    assert_eq!(profile.secret_refs.len(), 2);
    assert_eq!(profile.urls, vec!["https://es:9200".to_string()]);
}

#[test]
fn execute_unknown_profile_is_profile_not_found() {
    let p = ElasticsearchBackendPlugin::new();
    let err = p.plan_execute("missing", b"{}");
    assert!(matches!(err.err(), Some(BackendError::ProfileNotFound { .. })));
}

#[test]
fn list_resources_empty_when_unconfigured() {
    let p = plugin_with(search_spec());
    match p.plan_list_resources("t", None).ok().expect("list") {
        ListStep::Page(page) => {
            assert!(page.resources.is_empty());
            assert!(page.next_cursor.is_none());
        }
        ListStep::Send { .. } => panic!("nothing is to be sent"),
    }
}

#[test]
fn complete_template_variable_empty_when_unconfigured() {
    let p = plugin_with(search_spec());
    match p.plan_complete("t", "v", "x").ok().expect("complete") {
        CompleteStep::Values(got) => assert!(got.is_empty()),
        CompleteStep::Send { .. } => panic!("nothing is to be sent"),
    }
    assert!(p.plan_complete("missing", "v", "x").is_err());
}

#[test]
fn list_resources_unknown_profile_is_profile_not_found() {
    let p = ElasticsearchBackendPlugin::new();
    let err = p.plan_list_resources("missing", None);
    assert!(matches!(err.err(), Some(BackendError::ProfileNotFound { .. })));
}

#[test]
fn register_stores_list_query_and_completions() {
    let mut spec = search_spec();
    spec.surface = Surface::Resource;
    spec.list_query = Some(ListQueryConfig { page_size: 25, ..list_config() });
    spec.variable_completions = vec![("name".to_string(), completion_config())];
    let p = plugin_with(spec);
    let prof = p.profile("t").unwrap();
    assert!(prof.spec.list_query.is_some());
    assert!(prof.spec.variable_completions.iter().any(|c| c.0 == "name"));
}

#[test]
fn listing_plans_and_pages() {
    let mut spec = search_spec();
    spec.list_query = Some(list_config());
    let p = plugin_with(spec);
    let (from, call) = match p.plan_list_resources("t", Some("4")).ok().unwrap() {
        ListStep::Send { from, call } => (from, call),
        ListStep::Page(_) => panic!("a call is to be sent"),
    };
    assert_eq!(from, 4);
    assert_eq!(
        String::from_utf8(call.body.unwrap()).unwrap(),
        r#"{"_source":["uri"],"from":4,"query":{"match_all":{}},"size":2}"#
    );
    match p.plan_list_resources("t", Some("-1")).err().unwrap() {
        BackendError::InvalidSpec { message } => {
            assert_eq!(message, "list cursor '-1' is not a non-negative integer")
        }
        other => panic!("{other:?}"),
    }
    let body = br#"{"hits":{"hits":[{"_source":{"uri":"es://a"}},{"_source":{}}]}}"#;
    let list = list_config();
    let page = finish_list(&list, from, Ok(shape_response(200, body, 1000))).unwrap();
    assert_eq!(page.resources.len(), 1);
    assert_eq!(page.next_cursor.as_deref(), Some("6"));
    match p.plan_list_resources("t", page.next_cursor.as_deref()).ok().unwrap() {
        ListStep::Send { from, .. } => assert_eq!(from, 6),
        ListStep::Page(_) => panic!("a call is to be sent"),
    }
    assert_eq!(
        finish_list(&list, 0, Ok(shape_response(503, b"", 10))).unwrap_err(),
        BackendError::Transport {
            message: "elasticsearch list_query returned status 503".to_string()
        }
    );
    assert_eq!(
        finish_list(&list, 0, Err("timed out".to_string())).unwrap_err(),
        BackendError::Transport { message: "timed out".to_string() }
    );
    let none = finish_list(&list, 0, Ok(shape_response(200, b"no json", 10))).unwrap();
    assert!(none.resources.is_empty() && none.next_cursor.is_none());
}

#[test]
fn completion_plans_and_values() {
    let mut spec = search_spec();
    let limited = EsCompletionConfig { max_results: Some(1), ..completion_config() };
    spec.variable_completions =
        vec![("a".to_string(), completion_config()), ("b".to_string(), limited)];
    let p = plugin_with(spec);
    for (variable, size) in [("a", 100), ("b", 1)] {
        match p.plan_complete("t", variable, "x").ok().unwrap() {
            CompleteStep::Send { call } => {
                let body = Json::decode(&call.body.unwrap()).unwrap();
                assert_eq!(body.get_u64("size"), Some(size));
            }
            CompleteStep::Values(_) => panic!("a call is to be sent"),
        }
    }
    let body = br#"{"hits":{"hits":[{"_source":{"name":{"keyword":"x1"}}},
        {"_source":{"name":{"keyword":"x2"}}}]}}"#;
    let got = finish_complete(&completion_config(), Ok(shape_response(200, body, 1000))).unwrap();
    assert_eq!(got, vec!["x1".to_string(), "x2".to_string()]);
    let one = EsCompletionConfig { max_results: Some(1), ..completion_config() };
    let got = finish_complete(&one, Ok(shape_response(200, body, 1000))).unwrap();
    assert_eq!(got, vec!["x1".to_string()]);
    assert_eq!(
        finish_complete(&one, Ok(shape_response(404, b"{}", 10))).unwrap_err(),
        BackendError::Transport {
            message: "elasticsearch completion returned status 404".to_string()
        }
    );
}

#[test]
fn execute_non_json_payload_is_tool_error() {
    let p = plugin_with(search_spec());
    let v = answered(p.plan_execute("t", b"{ not json").ok().unwrap());
    assert_eq!(error_flag(&v), Some(&Json::Bool(true)));
    assert!(error_text(&v).starts_with("invalid tool arguments JSON: "));
}

#[test]
fn execute_off_allowlist_index_is_tool_error() {
    let p = plugin_with(search_spec());
    let v = answered(p.plan_execute("t", br#"{ "index": "secrets" }"#).ok().unwrap());
    assert_eq!(error_flag(&v), Some(&Json::Bool(true)));
    assert_eq!(error_text(&v), "index `secrets` is not in the configured allowlist");
}

#[test]
fn empty_payload_is_no_arguments() {
    let p = plugin_with(search_spec());
    match p.plan_execute("t", b"").ok().unwrap() {
        ExecuteStep::Send { args, call } => {
            assert_eq!(args, json("{}"));
            assert_eq!(call.path, "/logs/_search");
            assert_eq!(call.body.unwrap(), b"{}".to_vec());
        }
        ExecuteStep::Answer(_) => panic!("a call is to be sent"),
    }
}

#[test]
fn verbatim_errors_are_exact() {
    assert_eq!(
        String::from_utf8(verbatim_error("no")).unwrap(),
        r#"{"__mcpg_verbatim_result":{"content":[{"text":"no","type":"text"}],"isError":true}}"#
    );
}

fn sent(p: &ElasticsearchBackendPlugin, payload: &[u8]) -> (Json, elasticsearch_binding::call::EsRestCall) {
    match p.plan_execute("t", payload).ok().unwrap() {
        ExecuteStep::Send { args, call } => (args, call),
        ExecuteStep::Answer(_) => panic!("a call is to be sent"),
    }
}

fn finish(spec: ElasticsearchBackendSpec, payload: &[u8], outcome: Result<EsResult, String>) -> Result<(String, bool), BackendError> {
    let p = plugin_with(spec);
    let (args, call) = sent(&p, payload);
    finish_execute(&p.profile("t").unwrap().spec, &args, &call, outcome)
        .map(|r| (String::from_utf8(r.payload).unwrap(), r.truncated))
}

#[test]
fn tool_hands_out_the_envelope() {
    let got = finish(search_spec(), b"", Ok(shape_response(200, b"{\"took\":1}", 100))).unwrap();
    assert_eq!(
        got.0,
        r#"{"method":"POST","ok":true,"operation":"search","path":"/logs/_search","response":{"took":1},"statusCode":200,"truncated":false}"#
    );
    assert!(!got.1);
    let got = finish(search_spec(), b"", Ok(shape_response(200, b"{\"took\":1}", 4))).unwrap();
    assert!(got.1);
    assert!(got.0.contains("\"responseText\":\"{\\\"to\""));
}

#[test]
fn resource_and_prompt_wrap_a_success() {
    let mut s = search_spec();
    s.surface = Surface::Resource;
    let got = finish(
        s,
        br#"{ "uri": "es://x" }"#,
        Ok(shape_response(200, b"{\"took\":1}", 100)),
    )
    .unwrap();
    assert_eq!(
        got.0,
        r#"{"contents":[{"mimeType":"application/json","text":"{\"took\":1}","uri":"es://x"}]}"#
    );
    let mut s = search_spec();
    s.surface = Surface::Prompt;
    let got = finish(s, b"", Ok(shape_response(201, b"[]", 100))).unwrap();
    assert_eq!(
        got.0,
        r#"{"messages":[{"content":{"text":"[]","type":"text"},"role":"user"}]}"#
    );
    let mut s = search_spec();
    s.surface = Surface::Prompt;
    let got = finish(s, b"", Ok(shape_response(200, b"xyz", 1))).unwrap();
    assert!(!got.1);
    assert!(got.0.contains("responseText"));
}

#[test]
fn resource_without_uri_is_a_tool_error() {
    let mut s = search_spec();
    s.surface = Surface::Resource;
    let got = finish(s, b"", Ok(shape_response(200, b"{}", 100))).unwrap();
    let v = json(&got.0);
    assert!(error_text(&v).starts_with("resource surface requires a `uri`"));
}

#[test]
fn failure_of_the_server_keeps_the_envelope_on_every_surface() {
    for surface in [Surface::Tool, Surface::Resource, Surface::Prompt] {
        for status in [302, 404, 503] {
            let mut s = search_spec();
            s.surface = surface;
            let got = finish(s, b"", Ok(shape_response(status, b"{}", 100))).unwrap();
            let v = json(&got.0);
            assert!(v.get("downstreamError").is_some());
            assert_eq!(v.get("ok"), Some(&Json::Bool(false)));
            assert_eq!(v.get_u64("statusCode"), Some(status as u64));
        }
    }
}

#[test]
fn body_choices() {
    let mut s = search_spec();
    s.surface = Surface::Resource;
    s.uri = Some("es://fixed".to_string());
    let ok = shape_response(299, b"{}", 10);
    match choose_body(&s, &json(r#"{ "uri": "es://x" }"#), &ok) {
        BodyChoice::Resource(u) => assert_eq!(u, "es://fixed"),
        _ => panic!("a resource"),
    }
    let redirect = shape_response(300, b"{}", 10);
    assert!(matches!(choose_body(&s, &json("{}"), &redirect), BodyChoice::Envelope));
}

#[test]
fn transport_failures_are_told_apart() {
    assert_eq!(
        finish(search_spec(), b"", Err("operation Timed Out".to_string())).unwrap_err(),
        BackendError::Timeout { timeout_ms: 30_000 }
    );
    assert_eq!(
        finish(search_spec(), b"", Err("connection refused".to_string())).unwrap_err(),
        BackendError::Transport { message: "connection refused".to_string() }
    );
}

#[test]
fn audit_metadata_carries_op_and_mode() {
    let p = plugin_with(search_spec());
    let m = p.audit_metadata("t");
    assert_eq!(m.get_str("es.operation"), Some("search"));
    assert_eq!(m.get_str("es.index_mode"), Some("allowlist"));
    let mut s = search_spec();
    s.allow_any_index = true;
    let p = plugin_with(s);
    assert_eq!(p.audit_metadata("t").get_str("es.index_mode"), Some("any"));
    assert_eq!(p.audit_metadata("missing"), json("{}"));
}

#[test]
fn input_schema_search_has_query() {
    let p = plugin_with(search_spec());
    let schema = p.input_schema("t").unwrap();
    let properties = schema.get("properties").unwrap();
    assert!(properties.get("query").unwrap().is_object());
    assert!(properties.get("size").unwrap().is_object());
    assert!(p.input_schema("missing").is_none());
    assert!(p.output_schema("missing").is_some());
}

#[test]
fn input_schema_knn_has_query_vector() {
    let mut spec = ElasticsearchBackendSpec::minimal(
        vec!["https://es.example.com:9200".to_string()],
        EsOperation::Knn,
    );
    spec.index_allowlist = vec!["docs".to_string()];
    spec.default_index = Some("docs".to_string());
    spec.knn = Some(KnnConfig {
        field: "embedding".to_string(),
        k: 5,
        num_candidates: None,
        filter: None,
        query_vector: None,
    });
    let p = plugin_with(spec);
    let schema = p.input_schema("t").unwrap();
    let vector = schema.get("properties").unwrap().get("query_vector").unwrap();
    assert!(vector.is_object());
    assert_eq!(vector.get_str("type"), Some("array"));
    assert_eq!(p.audit_metadata("t").get_str("es.operation"), Some("knn"));
}

#[test]
fn outcome_labels() {
    for (status, label) in [(200, "ok"), (301, "ok"), (404, "es_4xx"), (500, "es_5xx"), (600, "ok")] {
        assert_eq!(host_outcome_label_for_status(status), label);
    }
    assert_eq!(host_outcome_label_for_transport_error("Request TIMEOUT"), "timeout");
    assert_eq!(host_outcome_label_for_transport_error("time out"), "transport");
    assert_eq!(
        audit_action_for_outcome("timeout"),
        Some("dev.mcpg.backend.elasticsearch.request_timeout")
    );
    assert_eq!(
        audit_action_for_outcome("transport"),
        Some("dev.mcpg.backend.elasticsearch.request_failed")
    );
    assert_eq!(
        audit_action_for_outcome("es_5xx"),
        Some("dev.mcpg.backend.elasticsearch.upstream_5xx")
    );
    assert_eq!(audit_action_for_outcome("ok"), None);
    assert_eq!(audit_action_for_outcome("es_4xx"), None);
}

#[test]
fn audit_records() {
    let ctx = CallContext {
        backend: "b",
        request_id: "r",
        alias: "gw",
        duration_ms: 12,
        duration_nanos: 12_345_678,
    };
    let seen = observe(&Ok(shape_response(503, b"", 10)));
    assert_eq!(seen.label, "es_5xx");
    assert_eq!(seen.reason.as_deref(), Some("upstream status 503"));
    let record = audit_record(&ctx, &seen).unwrap();
    assert_eq!(record.event_id, "es-r-12345678");
    assert_eq!(record.resource, "es-binding://b");
    assert_eq!(
        record.details,
        json(
            r#"{ "backend": "b", "duration_ms": 12, "outcome": "es_5xx", "alias": "gw",
                 "status_code": 503, "reason": "upstream status 503" }"#
        )
    );
    assert!(audit_record(&ctx, &observe(&Ok(shape_response(200, b"", 10)))).is_none());
    let failed = observe(&Err("refused".to_string()));
    assert_eq!(failed.status, None);
    let record = audit_record(&ctx, &failed).unwrap();
    assert_eq!(record.action, "dev.mcpg.backend.elasticsearch.request_failed");
    assert!(record.details.get("status_code").is_none());
}

#[test]
fn failover_moves_on_and_ends() {
    assert_eq!(first_action(0), Action::Done(Err("no reachable elasticsearch URL".to_string())));
    assert_eq!(first_action(2), Action::Attempt(0));
    assert_eq!(next_action(2, 0, Event::Failed("a".to_string()), 10), Action::Attempt(1));
    assert_eq!(
        next_action(2, 1, Event::Failed("b".to_string()), 10),
        Action::Done(Err("b".to_string()))
    );
    match next_action(2, 0, Event::Answered { status: 500, body: b"{}".to_vec() }, 10) {
        Action::Done(Ok(res)) => assert_eq!(res.status, 500),
        other => panic!("{other:?}"),
    }
    assert_eq!(body_read_failure("eof"), "response body read failed: eof");
}

#[test]
fn hosts_are_guarded() {
    assert_eq!(guard_plan("not a url", true), Ok(None));
    assert_eq!(guard_plan("not a url", false), Err("base URL failed to parse".to_string()));
    assert_eq!(guard_plan("data:text", false), Err("base URL has no host".to_string()));
    assert_eq!(guard_plan("foo://host", false), Err("base URL has no port".to_string()));
    assert_eq!(
        guard_plan("https://ES.example.com/x", false),
        Ok(Some(("es.example.com".to_string(), 443)))
    );
    assert_eq!(guard_plan("http://h:9200", false), Ok(Some(("h".to_string(), 9200))));
    assert_eq!(lookup_target(None), Err("base URL failed to parse".to_string()));
    assert_eq!(
        lookup_target(Some(Endpoint { host: Some("h".to_string()), port: Some(1) })),
        Ok(("h".to_string(), 1))
    );
    assert_eq!(lookup_name("h", 9200), "h:9200");
    assert_eq!(guard_verdict("h", Ok(vec![true, false])), Ok(()));
    assert_eq!(
        guard_verdict("h", Ok(vec![true, true])),
        Err("DNS rebinding guard: host 'h' resolved only to private addresses".to_string())
    );
    assert_eq!(
        guard_verdict("h", Ok(vec![])),
        Err("DNS resolution returned no addresses for h".to_string())
    );
    assert_eq!(
        guard_verdict("h", Err("nx".to_string())),
        Err("DNS resolution failed for h: nx".to_string())
    );
}

use elasticsearch_binding::config::EsAuth;
use elasticsearch_binding::json::Json;
use elasticsearch_binding::response::{dot_path, shape_response};
use elasticsearch_binding::watch::{
    client_failure, cursor_from_hit, newest_value, plan_watch, poll_outcome, runtime_failure, stringify_scalar,
    WatchError, WatchSpec, PLUGIN_ID, WATCH_KIND,
};

fn json(text: &str) -> Json {
    Json::decode(text.as_bytes()).unwrap()
}

fn watch(url: &str, index: &str, cursor_field: &str) -> WatchSpec {
    WatchSpec::minimal(vec![url.to_string()], index.to_string(), cursor_field.to_string())
}

fn refused(w: WatchSpec) -> WatchError {
    plan_watch(Ok(w)).err().expect("no watch")
}

#[test]
fn names_of_the_watch() {
    assert_eq!(PLUGIN_ID, "dev.mcpg.backend.elasticsearch");
    assert_eq!(WATCH_KIND, "elasticsearch_poll");
}

#[test]
fn spec_parses_with_defaults() {
    let parsed = watch("https://es.example.com:9200", "logs", "@timestamp");
    assert_eq!(parsed.interval_ms, 60_000);
    assert_eq!(parsed.timeout_ms, 10_000);
    assert_eq!(parsed.index, "logs");
    assert_eq!(parsed.cursor_field, "@timestamp");
    assert!(parsed.query.is_none());
    assert!(matches!(parsed.auth, EsAuth::Anonymous));
    assert!(!parsed.allow_private_backends);
}

#[test]
fn spec_parses_overrides() {
    let mut parsed = watch("https://es.example.com:9200", "events", "_seq_no");
    parsed.auth = EsAuth::Bearer { token: "tok".to_string() };
    parsed.query = Some(json(r#"{ "term": { "tenant": "acme" } }"#));
    parsed.interval_ms = 30_000;
    parsed.timeout_ms = 5_000;
    assert_eq!(parsed.cursor_field, "_seq_no");
    assert_eq!(parsed.interval_ms, 30_000);
    assert_eq!(parsed.timeout_ms, 5_000);
    assert!(matches!(parsed.auth, EsAuth::Bearer { .. }));
    assert!(parsed.query.is_some());
    let plan = plan_watch(Ok(parsed)).ok().unwrap();
    assert_eq!(plan.interval_ms, 30_000);
    assert_eq!(plan.spec.operation_timeout_ms, 5_000);
}

#[test]
fn plan_of_a_watch() {
    let mut w = watch("https://es.example.com:9200/", "events", "_seq_no");
    w.auth = EsAuth::Bearer { token: "tok".to_string() };
    w.query = Some(json(r#"{ "term": { "tenant": "acme" } }"#));
    w.interval_ms = 30_000;
    w.timeout_ms = 0;
    let plan = plan_watch(Ok(w)).ok().unwrap();
    assert_eq!(plan.urls, vec!["https://es.example.com:9200".to_string()]);
    assert_eq!(plan.interval_ms, 30_000);
    assert_eq!(plan.spec.operation_timeout_ms, 1);
    assert_eq!(plan.spec.connect_timeout_ms, 1);
    assert_eq!(plan.spec.default_index.as_deref(), Some("events"));
    assert_eq!(plan.spec.index_allowlist, vec!["events".to_string()]);
    assert_eq!(plan.call.path, "/events/_search");
    assert_eq!(plan.cursor_field, "_seq_no");
    assert_eq!(
        String::from_utf8(plan.call.body.unwrap()).unwrap(),
        r#"{"_source":["_seq_no"],"query":{"term":{"tenant":"acme"}},"size":1,"sort":[{"_seq_no":{"order":"desc"}}]}"#
    );
    let plan = plan_watch(Ok(watch("https://es:9200", "a", "f"))).ok().unwrap();
    assert_eq!(
        String::from_utf8(plan.call.body.unwrap()).unwrap(),
        r#"{"_source":["f"],"query":{"match_all":{}},"size":1,"sort":[{"f":{"order":"desc"}}]}"#
    );
}

#[test]
fn undecodable_watch_is_invalid_spec() {
    assert_eq!(
        plan_watch(Err("unknown field `bogus`".to_string())).err().unwrap(),
        WatchError::InvalidSpec {
            message: "invalid elasticsearch_poll watch spec: unknown field `bogus`".to_string()
        }
    );
}

#[test]
fn empty_index_is_invalid_spec() {
    let e = refused(watch("https://es:9200", "   ", "@timestamp"));
    assert!(matches!(e, WatchError::InvalidSpec { .. }));
    assert_eq!(e, WatchError::InvalidSpec { message: "index must not be empty".to_string() });
}

#[test]
fn empty_cursor_field_is_invalid_spec() {
    let e = refused(watch("https://es:9200", "logs", "  "));
    assert!(matches!(e, WatchError::InvalidSpec { .. }));
    assert_eq!(
        e,
        WatchError::InvalidSpec { message: "cursor_field must not be empty".to_string() }
    );
}

#[test]
fn bad_url_is_invalid_spec() {
    let e = refused(watch("http://es.evil.com:9200", "logs", "@timestamp"));
    assert!(matches!(e, WatchError::InvalidSpec { .. }));
}

#[test]
fn unsafe_index_is_invalid_spec() {
    for index in ["logs-*", "../x", "_all"] {
        assert_eq!(
            refused(watch("https://es:9200", index, "f")),
            WatchError::InvalidSpec {
                message: format!("elasticsearch: index token `{index}` is invalid")
            }
        );
    }
}

#[test]
fn failures_to_subscribe() {
    assert_eq!(
        client_failure("bad PEM"),
        WatchError::Subscribe { message: "elasticsearch_poll: client init: bad PEM".to_string() }
    );
    assert_eq!(
        runtime_failure("no threads"),
        WatchError::Subscribe {
            message: "elasticsearch_poll: tokio runtime init failed: no threads".to_string()
        }
    );
}

#[test]
fn cursor_from_hit_prefers_sort_value() {
    let body = json(
        r#"{
            "hits": {
                "total": { "value": 5 },
                "hits": [
                    {
                        "_id": "abc",
                        "_source": { "@timestamp": "2026-06-23T10:00:00Z" },
                        "sort": [ 1750673000000 ]
                    }
                ]
            }
        }"#,
    );
    assert_eq!(cursor_from_hit(&body, "@timestamp").as_deref(), Some("1750673000000"));
}

#[test]
fn cursor_from_hit_falls_back_to_source_leaf() {
    let body = json(r#"{ "hits": { "hits": [ { "_source": { "meta": { "seq": 42 } } } ] } }"#);
    assert_eq!(cursor_from_hit(&body, "meta.seq").as_deref(), Some("42"));

    let body = json(
        r#"{ "hits": { "hits": [ { "_source": { "@timestamp": "2026-06-23T10:00:00Z" } } ] } }"#,
    );
    assert_eq!(cursor_from_hit(&body, "@timestamp").as_deref(), Some("2026-06-23T10:00:00Z"));
}

#[test]
fn cursor_from_hit_none_on_zero_hits() {
    let body = json(r#"{ "hits": { "total": { "value": 0 }, "hits": [] } }"#);
    assert_eq!(cursor_from_hit(&body, "@timestamp"), None);

    let body = json(r#"{ "hits": { "hits": [ { "_source": {}, "sort": [ null ] } ] } }"#);
    assert_eq!(cursor_from_hit(&body, "@timestamp"), None);
}

#[test]
fn newest_values() {
    let body = json(r#"{ "hits": { "hits": [ { "sort": [], "_source": { "f": [1] } } ] } }"#);
    assert_eq!(newest_value(&body, "f"), Some(json("[1]")));
    assert_eq!(newest_value(&body, "g"), None);
    assert_eq!(newest_value(&json("{}"), "f"), None);
}

#[test]
fn scalars_as_cursors() {
    assert_eq!(stringify_scalar(&json("1.5")).as_deref(), Some("1.5"));
    assert_eq!(stringify_scalar(&json("-7")).as_deref(), Some("-7"));
    assert_eq!(stringify_scalar(&json("true")).as_deref(), Some("true"));
    assert_eq!(stringify_scalar(&json(r#"{ "a": [1] }"#)).as_deref(), Some(r#"{"a":[1]}"#));
    assert_eq!(stringify_scalar(&json(r#""x""#)).as_deref(), Some("x"));
    assert_eq!(stringify_scalar(&json("null")), None);
}

#[test]
fn paths_of_dots() {
    let v = json(r#"{ "a": { "b": { "": 1 } }, "x.y": 2 }"#);
    assert_eq!(dot_path(&v, "a.b."), Some(&json("1")));
    assert_eq!(dot_path(&v, "x.y"), None);
    assert_eq!(dot_path(&v, ""), None);
    assert_eq!(dot_path(&json("[1]"), "0"), None);
}

#[test]
fn polls() {
    let body = br#"{"hits":{"hits":[{"sort":["s"]}]}}"#;
    assert_eq!(poll_outcome(Ok(shape_response(200, body, 100)), "f"), Ok(Some("s".to_string())));
    assert_eq!(poll_outcome(Ok(shape_response(200, b"nothing", 100)), "f"), Ok(None));
    assert_eq!(
        poll_outcome(Ok(shape_response(429, b"{}", 100)), "f"),
        Err("elasticsearch _search returned status 429".to_string())
    );
    assert_eq!(poll_outcome(Err("x".to_string()), "f"), Err("x".to_string()));
}

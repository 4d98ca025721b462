use elasticsearch_binding::json::Json;
use elasticsearch_binding::surface::{
    contents_of, hits_to_completion_values, hits_to_resource_page, messages_of,
    prompt_messages_body, resolve_resource_uri, resource_contents_body, surface_truncated,
    ResourcePage, Surface,
};
use elasticsearch_binding::text::parse_unsigned;

fn json(text: &str) -> Json {
    Json::decode(text.as_bytes()).unwrap()
}

#[test]
fn surface_default_is_tool() {
    assert_eq!(Surface::default(), Surface::Tool);
}

#[test]
fn surfaces_have_names() {
    assert_eq!(Surface::Tool.as_str(), "tool");
    assert_eq!(Surface::Resource.as_str(), "resource");
    assert_eq!(Surface::Prompt.as_str(), "prompt");
}

#[test]
fn static_uri_wins_over_argument() {
    let args = json(r#"{ "uri": "es://from-arg" }"#);
    assert_eq!(resolve_resource_uri(Some("es://static"), &args), Some("es://static"));
}

#[test]
fn falls_back_to_argument_uri() {
    let args = json(r#"{ "uri": "es://orders/42" }"#);
    assert_eq!(resolve_resource_uri(None, &args), Some("es://orders/42"));
    assert_eq!(resolve_resource_uri(Some(" "), &args), Some("es://orders/42"));
}

#[test]
fn no_uri_available_returns_none() {
    assert_eq!(resolve_resource_uri(None, &json("{}")), None);
    assert_eq!(resolve_resource_uri(Some("  "), &json("{}")), None);
    assert_eq!(resolve_resource_uri(None, &json(r#"{ "uri": 7 }"#)), None);
    assert_eq!(resolve_resource_uri(None, &json(r#"{ "uri": " " }"#)), None);
}

#[test]
fn resource_body_satisfies_decoder_shape() {
    let result = json(r#"{ "item": { "order_id": { "S": "42" } } }"#);
    let body = resource_contents_body("es://orders/42", &result);
    let contents = body.get_array("contents").expect("contents array");
    assert_eq!(contents.len(), 1);
    assert_eq!(contents[0].get_str("uri"), Some("es://orders/42"));
    assert!(contents[0].get_str("text").is_some());
    assert!(contents[0].get("blob").is_none());
    assert_eq!(contents[0].get_str("mimeType"), Some("application/json"));
    let decoded = json(contents[0].get_str("text").unwrap());
    assert_eq!(decoded, result);
}

#[test]
fn prompt_body_satisfies_decoder_shape() {
    let result = json(r#"{ "items": [] }"#);
    let body = prompt_messages_body(&result);
    let messages = body.get_array("messages").expect("messages array");
    assert_eq!(messages.len(), 1);
    assert_eq!(messages[0].get_str("role"), Some("user"));
    let content = messages[0].get("content").unwrap();
    assert_eq!(content.get_str("type"), Some("text"));
    assert!(content.get_str("text").is_some());
    assert_eq!(content.get_str("text"), Some(r#"{"items":[]}"#));
}

#[test]
fn bodies_of_given_texts() {
    assert_eq!(
        contents_of("u", "t"),
        json(r#"{ "contents": [ { "uri": "u", "text": "t", "mimeType": "application/json" } ] }"#)
    );
    assert_eq!(
        messages_of("t"),
        json(r#"{ "messages": [ { "role": "user", "content": { "type": "text", "text": "t" } } ] }"#)
    );
}

fn three_hits() -> Vec<Json> {
    (0..3)
        .map(|i| {
            json(&format!(
                r#"{{ "_source": {{ "uri": "es://item/{i}", "title": "T{i}" }} }}"#
            ))
        })
        .collect()
}

#[test]
fn hits_map_to_resource_page_with_cursor() {
    let hits = three_hits();
    let page = hits_to_resource_page(&hits, "uri", Some("title"), None, 6, 3);
    assert_eq!(page.resources.len(), 3);
    assert_eq!(page.resources[0].uri, "es://item/0");
    assert_eq!(page.resources[0].name.as_deref(), Some("T0"));
    assert_eq!(page.next_cursor.as_deref(), Some("9"));

    let short = hits_to_resource_page(&hits, "uri", None, None, 0, 10);
    assert!(short.next_cursor.is_none());
}

#[test]
fn cursor_reads_as_start_of_next_page() {
    let hits = three_hits();
    let page = hits_to_resource_page(&hits, "uri", None, Some("title"), 10, 2);
    assert_eq!(parse_unsigned(&page.next_cursor.unwrap()), Some(13));
    assert_eq!(page.resources[2].description.as_deref(), Some("T2"));
    assert!(page.resources[2].mime_type.is_none());
}

#[test]
fn hits_without_uri_field_are_skipped() {
    let hits = vec![
        json(r#"{ "_source": { "other": "x" } }"#),
        json(r#"{ "_source": { "uri": "es://ok" } }"#),
    ];
    let page = hits_to_resource_page(&hits, "uri", None, None, 0, 10);
    assert_eq!(page.resources.len(), 1);
    assert_eq!(page.resources[0].uri, "es://ok");
}

#[test]
fn hits_map_to_completion_values() {
    let hits = vec![
        json(r#"{ "_source": { "name": "alpha" } }"#),
        json(r#"{ "_source": { "name": "alphabet" } }"#),
        json(r#"{ "_source": { "name": 99 } }"#),
    ];
    let got = hits_to_completion_values(&hits, "name", 10);
    assert_eq!(got, vec!["alpha".to_owned(), "alphabet".to_owned()]);
    assert_eq!(hits_to_completion_values(&hits, "name", 1), vec!["alpha".to_owned()]);
    assert!(hits_to_completion_values(&hits, "name", 0).is_empty());
}

#[test]
fn empty_page_has_no_cursor() {
    let page = ResourcePage::empty();
    assert!(page.resources.is_empty());
    assert!(page.next_cursor.is_none());
}

#[test]
fn resource_and_prompt_surfaces_never_truncate() {
    assert!(!surface_truncated(Surface::Resource, true));
    assert!(!surface_truncated(Surface::Prompt, true));
    assert!(surface_truncated(Surface::Tool, true));
    assert!(!surface_truncated(Surface::Tool, false));
}

use web_server::{encode_response, stringify_nested, Nested, NestedValue, Response, TextMap};

fn two_pairs() -> Nested {
    let mut body = Nested::new();
    body.insert_string("a".to_string(), "1".to_string());
    body.insert_string("b".to_string(), "2".to_string());
    body
}

#[test]
fn nested_renders_in_insertion_order() {
    assert_eq!(stringify_nested(&two_pairs()), r#"{ "a": "1", "b": "2" }"#);
}

#[test]
fn nested_rendering_is_repeatable() {
    let body = two_pairs();
    let first = stringify_nested(&body);
    let second = stringify_nested(&body);
    assert_eq!(first, second);
    assert_eq!(first, stringify_nested(&two_pairs()));
}

#[test]
fn nested_keeps_duplicate_keys() {
    let mut body = Nested::new();
    body.insert_string("k".to_string(), "x".to_string());
    body.insert_string("k".to_string(), "y".to_string());
    assert_eq!(body.len(), 2);
    assert_eq!(stringify_nested(&body), r#"{ "k": "x", "k": "y" }"#);
}

#[test]
fn nested_empty_and_unescaped() {
    assert_eq!(stringify_nested(&Nested::new()), "{  }");
    let mut body = Nested::new();
    body.insert_string("q".to_string(), "say \"hi\"".to_string());
    assert_eq!(stringify_nested(&body), r#"{ "q": "say "hi"" }"#);
}

#[test]
fn nested_iter_and_entry_follow_order() {
    let body = two_pairs();
    let keys: Vec<&str> = body.iter().map(|(k, _)| k.as_str()).collect();
    assert_eq!(keys, vec!["a", "b"]);
    let (k, v) = body.entry(1);
    assert_eq!(k, "b");
    assert!(matches!(v, NestedValue::Str(s) if s == "2"));
}

#[test]
fn json_overrides_content_type() {
    let mut headers = TextMap::new();
    headers.insert("Content-Type".to_string(), "text/html".to_string());
    headers.insert("X-Id".to_string(), "7".to_string());
    let response = Response::json(201, two_pairs(), Some(headers));
    assert_eq!(response.status, 201);
    assert_eq!(response.body, r#"{ "a": "1", "b": "2" }"#);
    assert_eq!(response.headers.get("Content-Type").unwrap(), "application/json");
    assert_eq!(response.headers.get("X-Id").unwrap(), "7");
    assert_eq!(response.headers.len(), 2);
}

#[test]
fn json_without_headers() {
    let response = Response::json(404, Nested::new(), None);
    assert_eq!(response.headers.len(), 1);
    assert_eq!(response.headers.get("Content-Type").unwrap(), "application/json");
}

#[test]
fn ok_sets_plain_text_only_when_absent() {
    let response = Response::ok("hello".to_string(), None);
    assert_eq!(response.status, 200);
    assert_eq!(response.body, "hello");
    assert_eq!(response.headers.get("Content-Type").unwrap(), "text/plain");

    let mut headers = TextMap::new();
    headers.insert("Content-Type".to_string(), "application/json".to_string());
    let response = Response::ok("{}".to_string(), Some(headers));
    assert_eq!(response.headers.get("Content-Type").unwrap(), "application/json");
    assert_eq!(response.headers.len(), 1);
}

#[test]
fn wire_text_has_status_headers_length_and_body() {
    let response = Response::json(200, two_pairs(), None);
    assert_eq!(
        encode_response(&response),
        "HTTP/1.1 200\r\nContent-Type: application/json\r\nContent-Length: 22\r\n\r\n{ \"a\": \"1\", \"b\": \"2\" }"
    );
}

#[test]
fn wire_length_counts_bytes() {
    let response = Response { status: 503, body: "é€".to_string(), headers: TextMap::new() };
    assert_eq!(encode_response(&response), "HTTP/1.1 503\r\nContent-Length: 5\r\n\r\né€");
    let empty = Response { status: 0, body: String::new(), headers: TextMap::new() };
    assert_eq!(encode_response(&empty), "HTTP/1.1 0\r\nContent-Length: 0\r\n\r\n");
}

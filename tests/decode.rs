use web_server::{content_length, decode_head, is_end_of_head, parse_header_line};

fn lines(items: &[&str]) -> Vec<String> {
    items.iter().map(|s| s.to_string()).collect()
}

#[test]
fn start_line_and_headers() {
    let request = decode_head(
        "post /projects/demo HTTP/1.1\r\n",
        &lines(&["Host: localhost:53500\r\n", "Content-Length:  7 \r\n"]),
    )
    .unwrap();
    assert_eq!(request.method, "POST");
    assert_eq!(request.path, "/projects/demo");
    assert_eq!(request.version, "HTTP/1.1");
    assert_eq!(request.headers.get("Host").unwrap(), "localhost:53500");
    assert_eq!(request.headers.get("Content-Length").unwrap(), "7");
    assert_eq!(request.body, "");
    assert!(request.queries.is_empty());
    assert!(request.params.is_empty());
    assert!(request.matches.is_empty());
    assert_eq!(content_length(&request), 7);
}

#[test]
fn start_line_needs_three_words() {
    assert!(decode_head("GET /\r\n", &Vec::new()).is_none());
    assert!(decode_head("", &Vec::new()).is_none());
    assert!(decode_head("GET / HTTP/1.1 extra", &Vec::new()).is_some());
}

#[test]
fn duplicate_header_last_wins_and_lines_without_colon_are_skipped() {
    let request = decode_head(
        "GET / HTTP/1.1",
        &lines(&["X-A: 1", "garbage line", "X-A: 2", "Key: a:b"]),
    )
    .unwrap();
    assert_eq!(request.headers.len(), 2);
    assert_eq!(request.headers.get("X-A").unwrap(), "2");
    assert_eq!(request.headers.get("Key").unwrap(), "a:b");
}

#[test]
fn header_line_split_at_first_colon() {
    assert_eq!(
        parse_header_line("  Accept : text/html \r\n"),
        Some(("Accept".to_string(), "text/html".to_string()))
    );
    assert_eq!(parse_header_line("no colon"), None);
    assert_eq!(parse_header_line(":"), Some((String::new(), String::new())));
}

#[test]
fn body_read_only_for_post_and_put() {
    let get = decode_head("GET / HTTP/1.1", &lines(&["Content-Length: 5"])).unwrap();
    assert_eq!(content_length(&get), 0);
    let put = decode_head("put / HTTP/1.1", &lines(&["Content-Length: 5"])).unwrap();
    assert_eq!(content_length(&put), 5);
    let bad = decode_head("POST / HTTP/1.1", &lines(&["Content-Length: five"])).unwrap();
    assert_eq!(content_length(&bad), 0);
    let none = decode_head("POST / HTTP/1.1", &Vec::new()).unwrap();
    assert_eq!(content_length(&none), 0);
    let lower = decode_head("POST / HTTP/1.1", &lines(&["content-length: 5"])).unwrap();
    assert_eq!(content_length(&lower), 0);
}

#[test]
fn blank_line_ends_head() {
    assert!(is_end_of_head("\r\n"));
    assert!(is_end_of_head(""));
    assert!(is_end_of_head(" \t\n"));
    assert!(!is_end_of_head("Host: x\r\n"));
}

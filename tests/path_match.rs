use web_server::{parse_request_path, request_path_from_captures, RequestPathPattern};

#[test]
fn params_is_not_none() {
    let result = parse_request_path(
        &RequestPathPattern::Exact(String::from("/projects/:name")),
        "/projects/my-project",
    );
    assert_eq!(result.unwrap().params.get("name").unwrap(), "my-project");
}

#[test]
fn params_is_none() {
    let result = parse_request_path(
        &RequestPathPattern::Exact(String::from("/projects/")),
        "/projects/",
    );
    assert!(result.unwrap().params.is_empty());
}

#[test]
fn request_path_does_not_match() {
    let result = parse_request_path(
        &RequestPathPattern::Exact(String::from("/projects/:name")),
        "/files/",
    );

    assert_eq!(result, None);
}

#[test]
fn exact_binds_every_parameter_segment() {
    let result = parse_request_path(
        &RequestPathPattern::Exact(String::from("/users/:user/posts/:post")),
        "/users/ada/posts/42",
    )
    .unwrap();
    assert_eq!(result.path, "/users/ada/posts/42");
    assert_eq!(result.params.len(), 2);
    assert_eq!(result.params.get("user").unwrap(), "ada");
    assert_eq!(result.params.get("post").unwrap(), "42");
    assert!(result.queries.is_empty());
    assert!(result.matches.is_empty());
}

#[test]
fn exact_literal_mismatch_is_no_match() {
    let pattern = RequestPathPattern::Exact(String::from("/users/:user/posts"));
    assert_eq!(parse_request_path(&pattern, "/users/ada/comments"), None);
    assert_eq!(parse_request_path(&pattern, "/Users/ada/posts"), None);
    assert!(parse_request_path(&pattern, "/users/ada/posts").is_some());
}

#[test]
fn exact_segment_count_mismatch_is_no_match() {
    let pattern = RequestPathPattern::Exact(String::from("/projects/:name"));
    assert_eq!(parse_request_path(&pattern, "/projects/a/b"), None);
    assert_eq!(parse_request_path(&pattern, "/projects"), None);
    assert_eq!(parse_request_path(&pattern, "/projects/a/"), None);
}

#[test]
fn exact_parameter_binds_empty_segment() {
    let pattern = RequestPathPattern::Exact(String::from("/projects/:name"));
    let result = parse_request_path(&pattern, "/projects/").unwrap();
    assert_eq!(result.params.get("name").unwrap(), "");
}

#[test]
fn exact_repeated_name_keeps_last_segment() {
    let pattern = RequestPathPattern::Exact(String::from("/:a/:a"));
    let result = parse_request_path(&pattern, "/x/y").unwrap();
    assert_eq!(result.params.len(), 1);
    assert_eq!(result.params.get("a").unwrap(), "y");
}

#[test]
fn regex_groups_in_order() {
    let pattern = RequestPathPattern::Match(String::from(r"^/projects/([^/]+)/([^?]+)"));
    let result = parse_request_path(&pattern, "/projects/demo/users/list").unwrap();
    assert_eq!(result.matches, vec![String::from("demo"), String::from("users/list")]);
    assert_eq!(result.path, "/projects/demo/users/list");
    assert!(result.params.is_empty());
}

#[test]
fn regex_search_is_not_anchored() {
    let pattern = RequestPathPattern::Match(String::from(r"(\d+)-(\d+)"));
    let result = parse_request_path(&pattern, "/range/10-20/x").unwrap();
    assert_eq!(result.matches, vec![String::from("10"), String::from("20")]);
}

#[test]
fn regex_without_groups_gives_empty_list() {
    let pattern = RequestPathPattern::Match(String::from("^/health"));
    let result = parse_request_path(&pattern, "/health").unwrap();
    assert!(result.matches.is_empty());
}

#[test]
fn regex_no_match_is_none() {
    let pattern = RequestPathPattern::Match(String::from(r"^/projects/([^/]+)/([^?]+)"));
    assert_eq!(parse_request_path(&pattern, "/projects/demo"), None);
}

#[test]
fn regex_group_not_taking_part_is_none() {
    let pattern = RequestPathPattern::Match(String::from(r"^/a(/b)?(/c)"));
    assert_eq!(parse_request_path(&pattern, "/a/c"), None);
    let result = parse_request_path(&pattern, "/a/b/c").unwrap();
    assert_eq!(result.matches, vec![String::from("/b"), String::from("/c")]);
}

#[test]
fn regex_invalid_pattern_is_none() {
    let pattern = RequestPathPattern::Match(String::from("(unclosed"));
    assert_eq!(parse_request_path(&pattern, "(unclosed"), None);
}

#[test]
fn captures_drop_whole_match() {
    let captures = Some(vec![
        Some(String::from("/p/x/y")),
        Some(String::from("x")),
        Some(String::from("y")),
    ]);
    let result = request_path_from_captures("/p/x/y", captures).unwrap();
    assert_eq!(result.matches, vec![String::from("x"), String::from("y")]);
    assert_eq!(result.path, "/p/x/y");
}

#[test]
fn captures_missing_group_or_none() {
    assert_eq!(request_path_from_captures("/p", None), None);
    assert_eq!(request_path_from_captures("/p", Some(vec![])), None);
    let captures = Some(vec![Some(String::from("/p")), None]);
    assert_eq!(request_path_from_captures("/p", captures), None);
}

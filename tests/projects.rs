use web_server::{
    find_mock, get_project_config_file_path, mock_not_implemented, mock_response, MockCondition,
    MockEndpoint, TextMap,
};

fn condition(method: &str, status: u64, body: &str) -> MockCondition {
    MockCondition {
        method: method.to_string(),
        delay: 0,
        status,
        body: body.to_string(),
        headers: TextMap::new(),
    }
}

fn endpoints() -> Vec<MockEndpoint> {
    vec![
        MockEndpoint { path: "users".to_string(), when: vec![condition("post", 201, "\"made\"")] },
        MockEndpoint {
            path: "users".to_string(),
            when: vec![condition("Put", 200, "\"put\""), condition("get", 200, "[1,2]")],
        },
        MockEndpoint { path: "users".to_string(), when: vec![condition("GET", 500, "\"late\"")] },
    ]
}

#[test]
fn config_path_of_project() {
    assert_eq!(get_project_config_file_path("demo"), "database/projects/demo.json");
}

#[test]
fn mock_first_fitting_condition_in_order() {
    let all = endpoints();
    assert_eq!(find_mock(&all, "users", "GET"), Some((1, 1)));
    assert_eq!(find_mock(&all, "users", "Post"), Some((0, 0)));
    assert_eq!(find_mock(&all, "users", "DELETE"), None);
    assert_eq!(find_mock(&all, "posts", "GET"), None);
}

#[test]
fn mock_response_takes_recorded_answer() {
    let mut headers = TextMap::new();
    headers.insert("X-Mock".to_string(), "\"yes\"".to_string());
    let recorded = MockCondition {
        method: "GET".to_string(),
        delay: 10,
        status: 65536 + 201,
        body: "{\"ok\":true}".to_string(),
        headers,
    };
    let response = mock_response(recorded);
    assert_eq!(response.status, 201);
    assert_eq!(response.body, "{\"ok\":true}");
    assert_eq!(response.headers.get("X-Mock").unwrap(), "\"yes\"");
}

#[test]
fn mock_without_answer() {
    let response = mock_not_implemented();
    assert_eq!(response.status, 400);
    assert_eq!(response.body, "Not implemented.");
    assert!(response.headers.is_empty());
}

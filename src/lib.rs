//! A small embeddable HTTP server core: a route table with exact and
//! regular-expression path patterns, a request decoder, and response
//! encoders for JSON and the wire, each with its behaviour stated and proved.
//! Sockets, threads and files stay with the caller.
pub mod decode;
pub mod path_match;
pub mod projects;
pub mod response;
pub mod server;
pub mod text;
pub mod text_map;
pub mod types;

pub use decode::{content_length, decode_head, is_end_of_head, parse_header_line};
pub use path_match::{match_exact, parse_request_path, request_path_from_captures};
pub use projects::{
    config_file_path_from_request, find_mock, get_project_config_file_path, mock_not_implemented,
    mock_response, project_missing, save_config_done, save_config_refusal, MockCondition,
    MockEndpoint,
};
pub use response::{encode_response, stringify_nested};
pub use server::{not_found, ConnectionHandler, Listener, Server, ServerConf};
pub use text_map::TextMap;
pub use types::{
    Method, Nested, NestedValue, Request, RequestOption, RequestPath, RequestPathPattern, Response,
};

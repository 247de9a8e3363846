use http_wire::config::Config;
use http_wire::headers::RequestHeaders;
use http_wire::request::Request;
use http_wire::response::Response;
use http_wire::router::{self, route, Action, Route};
use http_wire::wire::{Method, Version};

fn headers_of(pairs: &[(&str, &str)]) -> RequestHeaders {
    let mut headers = RequestHeaders::new();
    for (name, value) in pairs {
        headers.insert(name.to_string(), value.to_string());
    }
    headers
}

fn respond(request: &Request) -> Response {
    match router::process_request(request, &Config { directory: None }) {
        Action::Respond(response) => response,
        other => panic!("no response, but {other:?}"),
    }
}

#[test]
fn root_path() {
    let request = Request {
        method: Method::Get,
        path: "/".to_owned(),
        headers: RequestHeaders::new(),
        version: Version::Http1_1,
        body: None,
    };

    let response = respond(&request);
    let rs = response.to_string();

    assert_eq!(rs.as_bytes(), b"HTTP/1.1 200 OK\r\n\r\n")
}

#[test]
fn not_found() {
    let request = Request {
        method: Method::Get,
        path: "/bad".to_owned(),
        headers: RequestHeaders::new(),
        version: Version::Http1_1,
        body: None,
    };

    let response = respond(&request);
    let rs = response.to_string();

    assert_eq!(rs.as_bytes(), b"HTTP/1.1 404 NOT FOUND\r\n\r\n")
}

#[test]
fn echo() {
    let request = Request {
        method: Method::Get,
        path: "/echo/hello".to_owned(),
        headers: RequestHeaders::new(),
        version: Version::Http1_1,
        body: None,
    };

    let response = respond(&request);
    let rs = response.to_string();
    println!("actual: {rs}");

    let expected =
        "HTTP/1.1 200 OK\r\nContent-Type: text/plain\r\nContent-Length: 5\r\n\nhello\r\n\r\n";
    println!("expeted: {expected}");
    assert_eq!(rs.as_bytes(), expected.as_bytes())
}

#[test]
fn parse_header() {
    let request = Request {
        method: Method::Get,
        path: "/user-agent".to_owned(),
        headers: headers_of(&[
            ("User-Agent", "curl/7.64.1"),
            ("Host", "localhost:4221"),
            ("Accept-Encoding", "gzip"),
        ]),
        version: Version::Http1_1,
        body: None,
    };

    let response = respond(&request);
    let rs = response.to_string();
    println!("actual: {rs}");

    let expected =
        "HTTP/1.1 200 OK\r\nContent-Type: text/plain\r\nContent-Length: 11\r\n\ncurl/7.64.1\r\n\r\n";
    println!("expeted: {expected}");
    assert_eq!(rs.as_bytes(), expected.as_bytes())
}

fn get(path: &str) -> Request {
    Request {
        method: Method::Get,
        path: path.to_owned(),
        headers: RequestHeaders::new(),
        version: Version::Http1_1,
        body: None,
    }
}

fn post(path: &str, body: Option<&str>) -> Request {
    Request {
        method: Method::Post,
        path: path.to_owned(),
        headers: RequestHeaders::new(),
        version: Version::Http1_1,
        body: body.map(|b| b.to_owned()),
    }
}

fn in_directory(directory: &str) -> Config {
    Config { directory: Some(directory.to_owned()) }
}

fn text_of(action: Action) -> String {
    match action {
        Action::Respond(response) => response.to_string(),
        other => panic!("no response, but {other:?}"),
    }
}

const NOT_FOUND: &str = "HTTP/1.1 404 NOT FOUND\r\n\r\n";

#[test]
fn routes_in_order() {
    assert_eq!(route(&get("/")), Route::Root);
    assert_eq!(route(&get("/echo/abc")), Route::Echo);
    assert_eq!(route(&get("/user-agent")), Route::UserAgent);
    assert_eq!(route(&get("/files/a.txt")), Route::FileRead);
    assert_eq!(route(&post("/files/a.txt", None)), Route::FileWrite);
    assert_eq!(route(&get("/bad")), Route::NotFound);
    assert_eq!(route(&get("")), Route::NotFound);
    assert_eq!(route(&get("//")), Route::NotFound);
    assert_eq!(route(&get("/echo")), Route::NotFound);
    assert_eq!(route(&get("/files")), Route::NotFound);
    assert_eq!(route(&get("/user-agent/")), Route::NotFound);
    assert_eq!(route(&get("/User-Agent")), Route::NotFound);
    assert_eq!(route(&post("/", None)), Route::NotFound);
    assert_eq!(route(&post("/echo/abc", None)), Route::NotFound);
    assert_eq!(route(&post("/user-agent", None)), Route::NotFound);
}

#[test]
fn paths_are_matched_as_text() {
    assert_eq!(route(&get("/x/echo/y/files/z")), Route::Echo);
    assert_eq!(route(&get("/files/echo/")), Route::Echo);
    assert_eq!(route(&get("/a/b/files/c")), Route::FileRead);
    assert_eq!(route(&get("/user-agent/files/")), Route::FileRead);
    assert_eq!(route(&post("/x/echo/y/files/z", None)), Route::FileWrite);
    let rs = text_of(router::process_request(&get("/x/echo/y/files/z"), &in_directory("/tmp")));
    assert_eq!(
        rs,
        "HTTP/1.1 200 OK\r\nContent-Type: text/plain\r\nContent-Length: 9\r\n\ny/files/z\r\n\r\n"
    );
}

#[test]
fn other_methods_find_nothing() {
    for method in [Method::Put, Method::Delete, Method::Options] {
        for path in ["/", "/echo/a", "/user-agent", "/files/a", "/bad"] {
            let request = Request { method, ..get(path) };
            assert_eq!(route(&request), Route::NotFound);
            assert_eq!(text_of(router::process_request(&request, &in_directory("/d"))), NOT_FOUND);
        }
    }
}

#[test]
fn echo_takes_all_behind_the_first_match() {
    let response = router::get_echo(&get("/echo/a/echo/b"));
    assert_eq!(response.body, Some("a/echo/b".to_owned()));
    let response = router::get_echo(&get("/echo/"));
    assert_eq!(
        response.to_string(),
        "HTTP/1.1 200 OK\r\nContent-Type: text/plain\r\nContent-Length: 0\r\n\n\r\n\r\n"
    );
    let response = router::get_echo(&get("/nothing"));
    assert_eq!(response.to_string(), NOT_FOUND);
}

#[test]
fn content_length_counts_bytes() {
    let response = respond(&get("/echo/h\u{e9}llo"));
    assert_eq!(response.body, Some("h\u{e9}llo".to_owned()));
    assert_eq!(
        response.to_string(),
        "HTTP/1.1 200 OK\r\nContent-Type: text/plain\r\nContent-Length: 6\r\n\nh\u{e9}llo\r\n\r\n"
    );
    let response = respond(&get("/echo/\u{20ac}\u{1f600}"));
    assert_eq!(
        response.to_string(),
        "HTTP/1.1 200 OK\r\nContent-Type: text/plain\r\nContent-Length: 7\r\n\n\u{20ac}\u{1f600}\r\n\r\n"
    );
    let response = router::file_read_response(Some("\u{e4}\u{f6}\u{fc}".to_owned()));
    assert_eq!(
        response.to_string(),
        "HTTP/1.1 200 OK\r\nContent-Type: application/octet-stream\r\nContent-Length: 6\r\n\n\u{e4}\u{f6}\u{fc}\r\n\r\n"
    );
}

#[test]
fn user_agent_is_sent_back() {
    let mut request = get("/user-agent");
    request.headers.insert("User-Agent".to_owned(), "curl/7.64.1".to_owned());
    let response = router::get_user_agent(&request);
    assert_eq!(response.body, Some("curl/7.64.1".to_owned()));
    assert_eq!(
        response.to_string(),
        "HTTP/1.1 200 OK\r\nContent-Type: text/plain\r\nContent-Length: 11\r\n\ncurl/7.64.1\r\n\r\n"
    );
}

#[test]
fn user_agent_missing() {
    let mut request = get("/user-agent");
    assert_eq!(respond(&request).to_string(), NOT_FOUND);
    assert_eq!(router::get_user_agent(&request).to_string(), NOT_FOUND);
    request.headers.insert("user-agent".to_owned(), "curl".to_owned());
    assert_eq!(respond(&request).to_string(), NOT_FOUND);
    assert_eq!(router::get_user_agent(&request).to_string(), NOT_FOUND);
}

#[test]
fn user_agent_may_be_empty() {
    let mut request = get("/user-agent");
    request.headers.insert("User-Agent".to_owned(), String::new());
    assert_eq!(
        respond(&request).to_string(),
        "HTTP/1.1 200 OK\r\nContent-Type: text/plain\r\nContent-Length: 0\r\n\n\r\n\r\n"
    );
}

#[test]
fn file_read_is_planned() {
    let config = in_directory("/tmp/data");
    match router::process_request(&get("/files/a.txt"), &config) {
        Action::ReadFile { path } => assert_eq!(path, "/tmp/data/a.txt"),
        other => panic!("no read, but {other:?}"),
    }
    match router::get_file(&get("/x/files/a/files/b"), &config) {
        Action::ReadFile { path } => assert_eq!(path, "/tmp/data/a/files/b"),
        other => panic!("no read, but {other:?}"),
    }
    match router::get_file(&get("/files/"), &in_directory("")) {
        Action::ReadFile { path } => assert_eq!(path, "/"),
        other => panic!("no read, but {other:?}"),
    }
}

#[test]
fn file_read_without_directory_or_name() {
    let none = Config { directory: None };
    assert_eq!(text_of(router::process_request(&get("/files/a.txt"), &none)), NOT_FOUND);
    assert_eq!(text_of(router::get_file(&get("/files/a.txt"), &none)), NOT_FOUND);
    assert_eq!(text_of(router::get_file(&get("/a.txt"), &in_directory("/d"))), NOT_FOUND);
}

#[test]
fn file_write_is_planned() {
    let config = in_directory("/tmp/data");
    match router::process_request(&post("/files/a.txt", Some("hello")), &config) {
        Action::WriteFile { path, contents } => {
            assert_eq!(path, "/tmp/data/a.txt");
            assert_eq!(contents, "hello");
        },
        other => panic!("no write, but {other:?}"),
    }
    match router::post_file(&post("/files/a/files/b", Some("")), &config) {
        Action::WriteFile { path, contents } => {
            assert_eq!(path, "/tmp/data/a/files/b");
            assert_eq!(contents, "");
        },
        other => panic!("no write, but {other:?}"),
    }
}

#[test]
fn file_write_without_directory_body_or_name() {
    let config = in_directory("/tmp/data");
    let none = Config { directory: None };
    let with_body = post("/files/a.txt", Some("hello"));
    let without_body = post("/files/a.txt", None);
    assert_eq!(text_of(router::process_request(&with_body, &none)), NOT_FOUND);
    assert_eq!(text_of(router::process_request(&without_body, &config)), NOT_FOUND);
    assert_eq!(text_of(router::post_file(&without_body, &none)), NOT_FOUND);
    assert_eq!(text_of(router::post_file(&post("/a.txt", Some("hello")), &config)), NOT_FOUND);
}

#[test]
fn file_responses() {
    let response = router::file_read_response(Some("data\n".to_owned()));
    assert_eq!(
        response.to_string(),
        "HTTP/1.1 200 OK\r\nContent-Type: application/octet-stream\r\nContent-Length: 5\r\n\ndata\n\r\n\r\n"
    );
    assert_eq!(router::file_read_response(None).to_string(), NOT_FOUND);
    assert_eq!(router::file_write_response(true).to_string(), "HTTP/1.1 201 CREATED\r\n\r\n");
    assert_eq!(router::file_write_response(false).to_string(), NOT_FOUND);
    assert_eq!(router::not_found().to_string(), NOT_FOUND);
}

#[test]
fn what_is_written_is_read() {
    let config = in_directory("/srv");
    let contents = "first line\r\nsecond \u{2713}";
    let written = match router::process_request(&post("/files/name", Some(contents)), &config) {
        Action::WriteFile { path, contents } => (path, contents),
        other => panic!("no write, but {other:?}"),
    };
    let read = match router::process_request(&get("/files/name"), &config) {
        Action::ReadFile { path } => path,
        other => panic!("no read, but {other:?}"),
    };
    assert_eq!(written.0, read);
    assert_eq!(written.1, contents);
    let response = router::file_read_response(Some(written.1));
    assert_eq!(response.body, Some(contents.to_owned()));
    assert_eq!(
        response.to_string(),
        format!(
            "HTTP/1.1 200 OK\r\nContent-Type: application/octet-stream\r\nContent-Length: 22\r\n\n{contents}\r\n\r\n"
        )
    );
}

#[test]
fn same_request_same_bytes() {
    let config = in_directory("/srv");
    let mut agent = get("/user-agent");
    agent.headers.insert("User-Agent".to_owned(), "a/1".to_owned());
    for request in [get("/"), get("/echo/twice"), agent, get("/bad")] {
        let first = text_of(router::process_request(&request, &config));
        let second = text_of(router::process_request(&request, &config));
        assert_eq!(first.as_bytes(), second.as_bytes());
    }
    let first = router::process_request(&get("/files/f"), &config);
    let second = router::process_request(&get("/files/f"), &config);
    match (first, second) {
        (Action::ReadFile { path: a }, Action::ReadFile { path: b }) => assert_eq!(a, b),
        other => panic!("no reads, but {other:?}"),
    }
    let first = router::file_read_response(Some("x".to_owned())).encode();
    let second = router::file_read_response(Some("x".to_owned())).encode();
    assert_eq!(first, second);
}

#[test]
fn decode_route_encode() {
    let buffer = b"GET /echo/abc HTTP/1.1\r\nHost: localhost:4221\r\nUser-Agent: curl/7.64.1\r\n\r\n";
    let request = Request::try_from(&buffer[..]).unwrap();
    let bytes = match router::process_request(&request, &Config { directory: None }) {
        Action::Respond(response) => response.encode(),
        other => panic!("no response, but {other:?}"),
    };
    assert_eq!(
        bytes,
        b"HTTP/1.1 200 OK\r\nContent-Type: text/plain\r\nContent-Length: 3\r\n\nabc\r\n\r\n".to_vec()
    );
    let buffer = b"POST /files/up HTTP/1.1\r\nContent-Length: 4\r\n\r\ndata";
    let request = Request::try_from(&buffer[..]).unwrap();
    match router::process_request(&request, &in_directory("dir")) {
        Action::WriteFile { path, contents } => {
            assert_eq!(path, "dir/up");
            assert_eq!(contents, "data");
        },
        other => panic!("no write, but {other:?}"),
    }
}

#[test]
fn file_names_that_lead_out_are_refused() {
    let config = in_directory("/srv");
    for path in [
        "/files/..",
        "/files/../etc/passwd",
        "/files/a/../../b",
        "/files/a/..",
        "/files//../x",
        "/x/files/a/files/../b",
    ] {
        assert_eq!(text_of(router::process_request(&get(path), &config)), NOT_FOUND);
        assert_eq!(text_of(router::process_request(&post(path, Some("x")), &config)), NOT_FOUND);
        assert_eq!(text_of(router::get_file(&get(path), &config)), NOT_FOUND);
        assert_eq!(text_of(router::post_file(&post(path, Some("x")), &config)), NOT_FOUND);
    }
}

#[test]
fn file_names_with_dots_that_stay_inside() {
    let config = in_directory("/srv");
    for (path, file) in [
        ("/files/..a", "/srv/..a"),
        ("/files/a..", "/srv/a.."),
        ("/files/...", "/srv/..."),
        ("/files/.", "/srv/."),
        ("/files/a/./b", "/srv/a/./b"),
        ("/files//etc/passwd", "/srv//etc/passwd"),
        ("/../files/x", "/srv/x"),
        ("/files/a.b/c.d", "/srv/a.b/c.d"),
    ] {
        match router::process_request(&get(path), &config) {
            Action::ReadFile { path } => assert_eq!(path, file),
            other => panic!("no read, but {other:?}"),
        }
        match router::process_request(&post(path, Some("x")), &config) {
            Action::WriteFile { path, contents } => {
                assert_eq!(path, file);
                assert_eq!(contents, "x");
            },
            other => panic!("no write, but {other:?}"),
        }
    }
}

#[test]
fn steps_that_lead_out() {
    let escaping = |name: &str| -> bool {
        let chars: Vec<char> = name.chars().collect();
        router::is_escaping(&chars)
    };
    assert!(escaping(".."));
    assert!(escaping("../a"));
    assert!(escaping("a/.."));
    assert!(escaping("a/../b"));
    assert!(escaping("/.."));
    assert!(escaping("../.."));
    assert!(!escaping(""));
    assert!(!escaping("."));
    assert!(!escaping("..."));
    assert!(!escaping("a..b"));
    assert!(!escaping("..a/b.."));
    assert!(!escaping("a/b/c"));
    assert!(!escaping(". ."));
}

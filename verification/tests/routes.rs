use minihttp::handler::{
    file_read_response, post_outcome, route_request, Action,
};
use minihttp::parsing::ParsedRequest;

fn b(s: &str) -> Vec<u8> {
    s.as_bytes().to_vec()
}

fn req(method: &str, path: &str, headers: &str) -> ParsedRequest {
    ParsedRequest { method: b(method), path: b(path), headers: b(headers) }
}

fn reply_bytes(action: Action) -> Vec<u8> {
    match action {
        Action::Reply(m) => m.serialize(),
        _ => panic!("expected a complete reply"),
    }
}

#[test]
fn root_replies_bare_200() {
    let r = reply_bytes(route_request(&req("GET", "/", ""), &b("/tmp")));
    assert_eq!(r, b("HTTP/1.1 200 OK\r\n\r\n"));
}

#[test]
fn echo_replies_the_suffix_verbatim() {
    let r = reply_bytes(route_request(&req("GET", "/echo/abc", "host: x\r\n"), &b("/tmp")));
    assert_eq!(r, b("HTTP/1.1 200 OK\r\nContent-Type: text/plain\r\nContent-Length: 3\r\n\r\nabc"));
}

#[test]
fn echo_keeps_further_slashes() {
    let r = reply_bytes(route_request(&req("GET", "/echo/a/b/c", ""), &b("/tmp")));
    assert_eq!(
        r,
        b("HTTP/1.1 200 OK\r\nContent-Type: text/plain\r\nContent-Length: 5\r\n\r\na/b/c")
    );
}

#[test]
fn echo_without_separating_slash_echoes_the_whole_path() {
    let r = reply_bytes(route_request(&req("GET", "/echoxyz", ""), &b("/tmp")));
    assert_eq!(
        r,
        b("HTTP/1.1 200 OK\r\nContent-Type: text/plain\r\nContent-Length: 8\r\n\r\n/echoxyz")
    );
}

#[test]
fn echo_strips_one_prefix_only() {
    let r = reply_bytes(route_request(&req("GET", "/echo//echo/x", ""), &b("/tmp")));
    assert_eq!(
        r,
        b("HTTP/1.1 200 OK\r\nContent-Type: text/plain\r\nContent-Length: 7\r\n\r\n/echo/x")
    );
}

#[test]
fn identical_echo_requests_give_identical_bytes() {
    let first = reply_bytes(route_request(&req("GET", "/echo/x", "host: a\r\n"), &b("/tmp")));
    for _ in 0..5 {
        let again =
            reply_bytes(route_request(&req("GET", "/echo/x", "host: a\r\n"), &b("/tmp")));
        assert_eq!(again, first);
    }
}

#[test]
fn user_agent_is_reflected() {
    let r = reply_bytes(route_request(
        &req("GET", "/user-agent", "user-agent: test-agent/1.0\r\n"),
        &b("/tmp"),
    ));
    assert_eq!(
        r,
        b("HTTP/1.1 200 OK\r\nContent-Type: text/plain\r\nContent-Length: 14\r\n\r\ntest-agent/1.0")
    );
}

#[test]
fn missing_user_agent_is_a_bad_request() {
    let r = reply_bytes(route_request(&req("GET", "/user-agent", "host: x\r\n"), &b("/tmp")));
    assert_eq!(r, b("HTTP/1.1 400 Bad Request\r\n\r\n"));
}

#[test]
fn get_file_names_the_resolved_path() {
    match route_request(&req("GET", "/files/foo.txt", ""), &b("/srv/data")) {
        Action::ReadFile(p) => assert_eq!(p, b("/srv/data/foo.txt")),
        _ => panic!("expected a file read"),
    }
}

#[test]
fn post_file_names_the_same_resolved_path() {
    match route_request(&req("POST", "/files/foo.txt", "content-length: 3\r\n"), &b("/srv/data"))
    {
        Action::StoreFile(p) => assert_eq!(p, b("/srv/data/foo.txt")),
        _ => panic!("expected a file store"),
    }
}

#[test]
fn every_files_occurrence_is_removed_from_the_name() {
    match route_request(&req("GET", "/files/a/files/b", ""), &b("/d")) {
        Action::ReadFile(p) => assert_eq!(p, b("/d/ab")),
        _ => panic!("expected a file read"),
    }
}

#[test]
fn missing_file_is_a_404_with_empty_body() {
    let r = file_read_response(None).serialize();
    assert_eq!(r, b("HTTP/1.1 404 Not Found\r\n\r\n"));
}

#[test]
fn stored_bytes_read_back_unchanged() {
    // the round trip with the filesystem in between: POST resolves a path,
    // the body bytes go to it, a GET of the same name resolves the same
    // path, and the read bytes come back as the reply body
    let dir = b("/srv");
    let mut stored = b("hello");
    stored.push(0xff); // an opaque payload need not be text
    stored.extend_from_slice(b("world").as_slice());
    let posted = match route_request(
        &req("POST", "/files/foo.txt", "content-length: 11\r\n"),
        &dir,
    ) {
        Action::StoreFile(p) => p,
        _ => panic!("expected a file store"),
    };
    let fetched = match route_request(&req("GET", "/files/foo.txt", ""), &dir) {
        Action::ReadFile(p) => p,
        _ => panic!("expected a file read"),
    };
    assert_eq!(posted, fetched);
    let r = file_read_response(Some(stored.clone())).serialize();
    let mut expected = b("HTTP/1.1 200 OK\r\nContent-Type: application/octet-stream\r\nContent-Length: 11\r\n\r\n");
    expected.extend_from_slice(&stored);
    assert_eq!(r, expected);
}

#[test]
fn post_outcomes_map_to_the_right_statuses() {
    assert_eq!(post_outcome(false, false, false).serialize(), b("HTTP/1.1 500 Internal Server Error\r\n\r\n"));
    assert_eq!(post_outcome(true, false, false).serialize(), b("HTTP/1.1 400 Bad Request\r\n\r\n"));
    assert_eq!(post_outcome(true, true, false).serialize(), b("HTTP/1.1 500 Internal Server Error\r\n\r\n"));
    assert_eq!(post_outcome(true, true, true).serialize(), b("HTTP/1.1 201 Created\r\n\r\n"));
}

#[test]
fn unknown_routes_are_404() {
    let r = reply_bytes(route_request(&req("GET", "/nothing", ""), &b("/tmp")));
    assert_eq!(r, b("HTTP/1.1 404 Not Found\r\n\r\n"));
    let r = reply_bytes(route_request(&req("POST", "/echo/x", ""), &b("/tmp")));
    assert_eq!(r, b("HTTP/1.1 404 Not Found\r\n\r\n"));
    let r = reply_bytes(route_request(&req("DELETE", "/", ""), &b("/tmp")));
    assert_eq!(r, b("HTTP/1.1 404 Not Found\r\n\r\n"));
}

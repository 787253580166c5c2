use std::io::Read;

use minihttp::decimal::usize_to_decimal;
use minihttp::handler::{route_request, Action};
use minihttp::parsing::{parse_request, ParseResult, ParsedRequest};
use minihttp::pool::{worker_step, WorkerEvent, WorkerState};
use minihttp::response::{ContentType, ResponseMessage, Status};

fn b(s: &str) -> Vec<u8> {
    s.as_bytes().to_vec()
}

fn req(method: &str, path: &str, headers: &str) -> ParsedRequest {
    ParsedRequest { method: b(method), path: b(path), headers: b(headers) }
}

#[test]
fn decimal_rendering_is_exact() {
    assert_eq!(usize_to_decimal(0), b("0"));
    assert_eq!(usize_to_decimal(7), b("7"));
    assert_eq!(usize_to_decimal(10), b("10"));
    assert_eq!(usize_to_decimal(4096), b("4096"));
    assert_eq!(usize_to_decimal(usize::MAX), usize::MAX.to_string().into_bytes());
}

#[test]
fn header_order_is_encoding_then_type_then_length() {
    let m = ResponseMessage {
        status: Status::Ok200,
        gzip: true,
        content_type: Some(ContentType::TextPlain),
        body: Some(b("abcd")),
    };
    assert_eq!(
        m.serialize(),
        b("HTTP/1.1 200 OK\r\nContent-Encoding: gzip\r\nContent-Type: text/plain\r\nContent-Length: 4\r\n\r\nabcd")
    );
}

fn gzip_reply_parts(headers: &str, path: &str) -> (Vec<u8>, Vec<u8>) {
    let action = route_request(&req("GET", path, headers), &b("/tmp"));
    let wire = match action {
        Action::Reply(m) => m.serialize(),
        _ => panic!("expected a complete reply"),
    };
    let split = wire.windows(4).position(|w| w == b"\r\n\r\n").expect("no blank line");
    (wire[..split + 4].to_vec(), wire[split + 4..].to_vec())
}

#[test]
fn gzip_echo_decompresses_to_the_suffix() {
    let (head, body) = gzip_reply_parts("accept-encoding: gzip\r\n", "/echo/hello-compressed");
    let head_text = String::from_utf8(head).unwrap();
    assert!(head_text.contains("Content-Encoding: gzip\r\n"));
    assert!(head_text.contains(&format!("Content-Length: {}\r\n", body.len())));
    let mut decoder = flate2::read::GzDecoder::new(body.as_slice());
    let mut plain = Vec::new();
    decoder.read_to_end(&mut plain).expect("gzip body did not decode");
    assert_eq!(plain, b("hello-compressed"));
}

#[test]
fn gzip_echo_of_empty_suffix_decodes_to_empty() {
    let (_, body) = gzip_reply_parts("accept-encoding: gzip\r\n", "/echo/");
    let mut decoder = flate2::read::GzDecoder::new(body.as_slice());
    let mut plain = Vec::new();
    decoder.read_to_end(&mut plain).expect("gzip body did not decode");
    assert_eq!(plain, b(""));
}

#[test]
fn first_matching_encoding_token_wins() {
    let (head, _) = gzip_reply_parts("accept-encoding: br, gzip, deflate\r\n", "/echo/x");
    assert!(String::from_utf8(head).unwrap().contains("Content-Encoding: gzip\r\n"));
}

#[test]
fn unsupported_encodings_fall_back_to_plain() {
    let action = route_request(&req("GET", "/echo/x", "accept-encoding: br\r\n"), &b("/tmp"));
    let wire = match action {
        Action::Reply(m) => m.serialize(),
        _ => panic!("expected a complete reply"),
    };
    assert_eq!(wire, b("HTTP/1.1 200 OK\r\nContent-Type: text/plain\r\nContent-Length: 1\r\n\r\nx"));
}

#[test]
fn only_the_first_accept_encoding_line_is_consulted() {
    let action = route_request(
        &req("GET", "/echo/x", "accept-encoding: br\r\naccept-encoding: gzip\r\n"),
        &b("/tmp"),
    );
    let wire = match action {
        Action::Reply(m) => m.serialize(),
        _ => panic!("expected a complete reply"),
    };
    assert_eq!(wire, b("HTTP/1.1 200 OK\r\nContent-Type: text/plain\r\nContent-Length: 1\r\n\r\nx"));
}

#[test]
fn worker_runs_a_task_only_from_idle() {
    assert_eq!(
        worker_step(WorkerState::Idle, WorkerEvent::TaskArrived),
        (WorkerState::Executing, true)
    );
    assert_eq!(
        worker_step(WorkerState::Executing, WorkerEvent::TaskFinished),
        (WorkerState::Idle, false)
    );
    assert_eq!(
        worker_step(WorkerState::Idle, WorkerEvent::QueueClosed),
        (WorkerState::Terminated, false)
    );
    assert_eq!(
        worker_step(WorkerState::Terminated, WorkerEvent::TaskArrived),
        (WorkerState::Terminated, false)
    );
    assert_eq!(
        worker_step(WorkerState::Executing, WorkerEvent::TaskArrived),
        (WorkerState::Executing, false)
    );
}

#[test]
fn raw_bytes_to_wire_bytes_for_user_agent() {
    let data = b("GET /user-agent HTTP/1.1\r\nUser-Agent: test-agent/1.0\r\n\r\n");
    let request = match parse_request(&data, false) {
        ParseResult::Parsed(request, _) => request,
        _ => panic!("expected a parsed head"),
    };
    match route_request(&request, &b("/tmp")) {
        Action::Reply(m) => assert_eq!(
            m.serialize(),
            b("HTTP/1.1 200 OK\r\nContent-Type: text/plain\r\nContent-Length: 14\r\n\r\ntest-agent/1.0")
        ),
        _ => panic!("expected a complete reply"),
    }
}

#[test]
fn negotiation_sees_headers_case_insensitively() {
    // parsing lower-cases the header block, so a shouted header still
    // negotiates compression
    let data = b("GET /echo/x HTTP/1.1\r\nAccept-Encoding: GZIP\r\n\r\n");
    let request = match parse_request(&data, false) {
        ParseResult::Parsed(request, _) => request,
        _ => panic!("expected a parsed head"),
    };
    match route_request(&request, &b("/tmp")) {
        Action::Reply(m) => {
            let wire = m.serialize();
            let text_end = wire.windows(4).position(|w| w == b"\r\n\r\n").unwrap();
            let head = String::from_utf8(wire[..text_end + 4].to_vec()).unwrap();
            assert!(head.contains("Content-Encoding: gzip\r\n"));
        }
        _ => panic!("expected a complete reply"),
    }
}

#[test]
fn many_connections_through_one_pipeline_do_not_mix() {
    // the worker pool hands each connection to exactly one worker; here the
    // pipeline is driven for many independent requests and each reply must
    // depend on its own request alone
    let dir = b("/srv");
    let mut expected: Vec<Vec<u8>> = Vec::new();
    let mut actual: Vec<Vec<u8>> = Vec::new();
    for k in 0..32 {
        let path = format!("/echo/conn-{}", k);
        expected.push(b(&format!(
            "HTTP/1.1 200 OK\r\nContent-Type: text/plain\r\nContent-Length: {}\r\n\r\nconn-{}",
            format!("conn-{}", k).len(),
            k
        )));
        match route_request(&req("GET", &path, "host: x\r\n"), &dir) {
            Action::Reply(m) => actual.push(m.serialize()),
            _ => panic!("expected a complete reply"),
        }
    }
    assert_eq!(actual, expected);
}

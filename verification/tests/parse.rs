use minihttp::parsing::{parse_body, parse_request, ParseError, ParseResult};

fn b(s: &str) -> Vec<u8> {
    s.as_bytes().to_vec()
}

#[test]
fn parses_a_full_head() {
    let data = b("GET /index HTTP/1.1\r\nHost: Example\r\nUser-Agent: T/1\r\n\r\n");
    match parse_request(&data, false) {
        ParseResult::Parsed(req, end) => {
            assert_eq!(req.method, b("GET"));
            assert_eq!(req.path, b("/index"));
            assert_eq!(req.headers, b("host: example\r\nuser-agent: t/1\r\n"));
            assert_eq!(end, data.len());
        }
        _ => panic!("expected a parsed head"),
    }
}

#[test]
fn two_token_request_line_is_malformed() {
    let data = b("GET /\r\n\r\n");
    assert!(matches!(
        parse_request(&data, false),
        ParseResult::Failed(ParseError::MalformedRequestLine)
    ));
}

#[test]
fn four_token_request_line_is_malformed() {
    let data = b("GET / HTTP/1.1 extra\r\n\r\n");
    assert!(matches!(
        parse_request(&data, false),
        ParseResult::Failed(ParseError::MalformedRequestLine)
    ));
}

#[test]
fn empty_stream_is_malformed_at_eof() {
    let data: Vec<u8> = Vec::new();
    assert!(matches!(
        parse_request(&data, true),
        ParseResult::Failed(ParseError::MalformedRequestLine)
    ));
}

#[test]
fn waits_for_the_blank_line() {
    let data = b("GET / HTTP/1.1\r\nHost: x\r\n");
    assert!(matches!(parse_request(&data, false), ParseResult::NeedMore));
}

#[test]
fn waits_for_the_first_line_feed() {
    let data = b("GET / HTT");
    assert!(matches!(parse_request(&data, false), ParseResult::NeedMore));
}

#[test]
fn truncated_headers_fail_at_eof() {
    let data = b("GET / HTTP/1.1\r\nHost: x\r\n");
    assert!(matches!(
        parse_request(&data, true),
        ParseResult::Failed(ParseError::IncompleteHeaders)
    ));
}

#[test]
fn request_line_without_line_feed_is_truncated_at_eof() {
    let data = b("GET / HTTP/1.1");
    assert!(matches!(
        parse_request(&data, true),
        ParseResult::Failed(ParseError::IncompleteHeaders)
    ));
}

#[test]
fn header_block_ends_at_first_blank_line() {
    let data = b("POST /files/x HTTP/1.1\r\nContent-Length: 4\r\n\r\nbodyGET ...");
    match parse_request(&data, false) {
        ParseResult::Parsed(req, end) => {
            assert_eq!(req.method, b("POST"));
            assert_eq!(req.headers, b("content-length: 4\r\n"));
            assert_eq!(&data[end..end + 4], b("body").as_slice());
        }
        _ => panic!("expected a parsed head"),
    }
}

#[test]
fn content_length_is_read_after_colon_space() {
    assert_eq!(minihttp::parsing::content_length(&b("content-length: 5\r\n")), 5);
    assert_eq!(minihttp::parsing::content_length(&b("host: x\r\ncontent-length: 41\r\n")), 41);
    assert_eq!(minihttp::parsing::content_length(&b("content-length: +7\r\n")), 7);
}

#[test]
fn content_length_without_space_counts_as_zero() {
    assert_eq!(minihttp::parsing::content_length(&b("content-length:5\r\n")), 0);
}

#[test]
fn absent_or_unparsable_content_length_counts_as_zero() {
    assert_eq!(minihttp::parsing::content_length(&b("host: x\r\n")), 0);
    assert_eq!(minihttp::parsing::content_length(&b("content-length: ten\r\n")), 0);
    assert_eq!(minihttp::parsing::content_length(&b("content-length: \r\n")), 0);
    assert_eq!(
        minihttp::parsing::content_length(&b("content-length: 99999999999999999999999\r\n")),
        0
    );
}

#[test]
fn body_is_exactly_content_length_bytes() {
    let headers = b("content-length: 4\r\n");
    assert_eq!(parse_body(&b("bodyandmore"), &headers), Some(b("body")));
}

#[test]
fn short_body_fails() {
    let headers = b("content-length: 10\r\n");
    assert_eq!(parse_body(&b("body"), &headers), None);
}

#[test]
fn missing_content_length_means_empty_body() {
    let headers = b("host: x\r\n");
    assert_eq!(parse_body(&b("whatever"), &headers), Some(Vec::new()));
}

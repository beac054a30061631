use fproxy::message::{Header, Method, ParsedRequest, Response};
use fproxy::parse::{parse, ParseError, ParseOutcome};
use fproxy::resp::{parse_response, RespOutcome};
use fproxy::ser::{serialize_request, SerializeError};
use fproxy::status::reason_phrase;
use fproxy::bytes::{dec_of, write_crlf};

fn header(name: &str, value: &str) -> Header {
    Header { name: name.as_bytes().to_vec(), value: value.as_bytes().to_vec() }
}

#[test]
fn round_trip_get() {
    let req = ParsedRequest {
        method: Method::Get,
        target: b"/".to_vec(),
        headers: vec![header("Host", "example.test")],
        body: vec![],
    };
    let wire = serialize_request(&req);
    assert_eq!(wire, b"GET / HTTP/1.1\r\nHost: example.test\r\n\r\n".to_vec());
    match parse(&wire) {
        ParseOutcome::Complete { request, consumed } => {
            assert_eq!(request.method, Method::Get);
            assert_eq!(request.target, b"/".to_vec());
            assert_eq!(request.headers.len(), 1);
            assert_eq!(request.headers[0].name, b"Host".to_vec());
            assert_eq!(request.headers[0].value, b"example.test".to_vec());
            assert_eq!(request.body, Vec::<u8>::new());
            assert_eq!(consumed, wire.len());
        },
        _ => panic!("expected a complete request"),
    }
}

#[test]
fn round_trip_post_preserves_header_order_and_body() {
    let req = ParsedRequest {
        method: Method::Post,
        target: b"/submit".to_vec(),
        headers: vec![
            header("X-One", "1"),
            header("Host", "example.test"),
            header("X-One", "2"),
            header("Empty", ""),
        ],
        body: b"payload bytes \xff\x00".to_vec(),
    };
    let wire = serialize_request(&req);
    match parse(&wire) {
        ParseOutcome::Complete { request, consumed } => {
            assert_eq!(request.method, Method::Post);
            assert_eq!(request.target, req.target);
            let names: Vec<Vec<u8>> = request.headers.iter().map(|h| h.name.clone()).collect();
            assert_eq!(
                names,
                vec![b"X-One".to_vec(), b"Host".to_vec(), b"X-One".to_vec(), b"Empty".to_vec()]
            );
            let values: Vec<Vec<u8>> = request.headers.iter().map(|h| h.value.clone()).collect();
            assert_eq!(
                values,
                vec![b"1".to_vec(), b"example.test".to_vec(), b"2".to_vec(), b"".to_vec()]
            );
            assert_eq!(request.body, req.body);
            assert_eq!(consumed, wire.len() - req.body.len());
        },
        _ => panic!("expected a complete request"),
    }
}

#[test]
fn round_trip_connect() {
    let req = ParsedRequest {
        method: Method::Connect,
        target: b"example.test:443".to_vec(),
        headers: vec![],
        body: vec![],
    };
    let wire = serialize_request(&req);
    assert_eq!(wire, b"CONNECT example.test:443 HTTP/1.1\r\n\r\n".to_vec());
    match parse(&wire) {
        ParseOutcome::Complete { request, .. } => {
            assert_eq!(request.method, Method::Connect);
            assert_eq!(request.target, b"example.test:443".to_vec());
        },
        _ => panic!("expected a complete request"),
    }
}

#[test]
fn parse_rejects_unsupported_method() {
    match parse(b"PATCH / HTTP/1.1\r\n\r\n") {
        ParseOutcome::Rejected(ParseError::UnsupportedMethod) => {},
        _ => panic!("PATCH must be rejected as unsupported"),
    }
}

#[test]
fn parse_reports_incomplete_without_blank_line() {
    match parse(b"GET / HTTP/1.1\r\nHost: example.test\r\n") {
        ParseOutcome::Incomplete => {},
        _ => panic!("a block without its blank line is incomplete"),
    }
    match parse(b"GET / HTTP/1.1\r\nHost: exa") {
        ParseOutcome::Incomplete => {},
        _ => panic!("a truncated line is incomplete"),
    }
}

#[test]
fn parse_rejects_malformed() {
    match parse(b"nonsense\r\n\r\n") {
        ParseOutcome::Rejected(ParseError::Malformed) => {},
        _ => panic!("a one-token request line is malformed"),
    }
    match parse(b"GET / HTTP/1.0\r\n\r\n") {
        ParseOutcome::Rejected(ParseError::Malformed) => {},
        _ => panic!("another version token is malformed here"),
    }
    match parse(b"GET / HTTP/1.1\r\nno-colon-line\r\n\r\n") {
        ParseOutcome::Rejected(ParseError::Malformed) => {},
        _ => panic!("a header line without a colon is malformed"),
    }
}

#[test]
fn serialize_response_exact_bytes() {
    let resp = Response {
        status_code: 200,
        headers: vec![header("X-Test", "1")],
        body: b"hello".to_vec(),
    };
    let wire = resp.serialize().unwrap();
    assert_eq!(
        wire,
        b"HTTP/1.1 200 OK\r\nContent-Length: 5\r\nX-Test: 1\r\n\r\nhello\r\n\r\n".to_vec()
    );
}

#[test]
fn serialize_refuses_code_outside_table() {
    let mut resp = Response::new();
    resp.set_status_code(306);
    assert_eq!(resp.serialize(), Err(SerializeError::UnknownStatusCode));
    resp.set_status_code(999);
    assert_eq!(resp.serialize(), Err(SerializeError::UnknownStatusCode));
    resp.set_status_code(0);
    assert_eq!(resp.serialize(), Err(SerializeError::UnknownStatusCode));
}

#[test]
fn reason_phrases_match_fixed_table() {
    let table: [(u32, &str); 41] = [
        (100, "Continue"),
        (101, "Switching Protocols"),
        (200, "OK"),
        (201, "Created"),
        (202, "Accepted"),
        (203, "Non-Authoritative "),
        (204, "No Content"),
        (205, "Reset Content"),
        (206, "Partial Content"),
        (300, "Multiple Choices"),
        (301, "Moved Permanently"),
        (302, "Found"),
        (303, "See Other"),
        (304, "Not Modified"),
        (305, "Use Proxy"),
        (307, "Temporary Redirect"),
        (400, "Bad Request"),
        (401, "Unauthorized"),
        (402, "Payment Required"),
        (403, "Forbidden"),
        (404, "Not Found"),
        (405, "Method Not Allowed"),
        (406, "Not Acceptable"),
        (407, "Proxy Authentication "),
        (408, "Request Timeout"),
        (409, "Conflict"),
        (410, "Gone"),
        (411, "Length Required"),
        (412, "Precondition Failed"),
        (413, "Payload Too Large"),
        (414, "URI Too Long"),
        (415, "Unsupported Media Type"),
        (416, "Range Not Satisfiable"),
        (417, "Expectation Failed"),
        (426, "Upgrade Required"),
        (500, "Internal Server Error"),
        (501, "Not Implemented"),
        (502, "Bad Gateway"),
        (503, "Service Unavailable"),
        (504, "Gateway Timeout"),
        (505, "HTTP Version Not Supported"),
    ];
    for (code, phrase) in table.iter() {
        assert_eq!(reason_phrase(*code), Some(*phrase));
        let resp = Response { status_code: *code, headers: vec![], body: vec![] };
        let wire = resp.serialize().unwrap();
        let expected = format!("HTTP/1.1 {} {}\r\n", code, phrase);
        assert!(wire.starts_with(expected.as_bytes()));
    }
    for code in [0u32, 99, 306, 306, 418, 600, 1000].iter() {
        assert_eq!(reason_phrase(*code), None);
    }
}

#[test]
fn decimal_rendering() {
    assert_eq!(dec_of(0), b"0".to_vec());
    assert_eq!(dec_of(7), b"7".to_vec());
    assert_eq!(dec_of(65535), b"65535".to_vec());
    assert_eq!(dec_of(1000), b"1000".to_vec());
}

#[test]
fn write_crlf_appends_terminator() {
    let mut v = b"x".to_vec();
    write_crlf(&mut v);
    assert_eq!(v, b"x\r\n".to_vec());
}

#[test]
fn serialized_request_agrees_with_httparse() {
    let req = ParsedRequest {
        method: Method::Get,
        target: b"http://example.test/".to_vec(),
        headers: vec![header("Host", "example.test"), header("Accept", "*/*")],
        body: vec![],
    };
    let wire = serialize_request(&req);
    let mut parsed_headers = [httparse::EMPTY_HEADER; 16];
    let mut r = httparse::Request::new(&mut parsed_headers);
    let status = r.parse(&wire).unwrap();
    assert_eq!(status, httparse::Status::Complete(wire.len()));
    assert_eq!(r.method, Some("GET"));
    assert_eq!(r.path, Some("http://example.test/"));
    assert_eq!(r.headers.len(), 2);
    assert_eq!(r.headers[0].name, "Host");
    assert_eq!(r.headers[0].value, b"example.test");
    assert_eq!(r.headers[1].name, "Accept");
    assert_eq!(r.headers[1].value, b"*/*");
}

#[test]
fn response_round_trip() {
    let resp = Response {
        status_code: 404,
        headers: vec![header("X-A", "b"), header("X-C", "d")],
        body: b"abc".to_vec(),
    };
    let wire = resp.serialize().unwrap();
    match parse_response(&wire) {
        RespOutcome::Complete { response } => {
            assert_eq!(response.status_code, 404);
            assert_eq!(response.headers.len(), 3);
            assert_eq!(response.headers[0].name, b"Content-Length".to_vec());
            assert_eq!(response.headers[0].value, b"3".to_vec());
            assert_eq!(response.headers[1].name, b"X-A".to_vec());
            assert_eq!(response.headers[1].value, b"b".to_vec());
            assert_eq!(response.headers[2].name, b"X-C".to_vec());
            assert_eq!(response.body, b"abc".to_vec());
        },
        _ => panic!("a serialized response must parse back"),
    }
}

#[test]
fn response_parse_needs_content_length() {
    match parse_response(b"HTTP/1.1 200 OK\r\n\r\n") {
        RespOutcome::Malformed => {},
        _ => panic!("a response without Content-Length is malformed here"),
    }
}

#[test]
fn response_parse_waits_for_announced_body() {
    match parse_response(b"HTTP/1.1 200 OK\r\nContent-Length: 5\r\n\r\nab") {
        RespOutcome::Incomplete => {},
        _ => panic!("fewer bytes than announced is not yet a response"),
    }
    match parse_response(b"HTTP/1.1 200 OK\r\nContent-Length: 2\r\n\r\nabXXX") {
        RespOutcome::Complete { response } => assert_eq!(response.body, b"ab".to_vec()),
        _ => panic!("the announced bytes delimit the body"),
    }
}

use http_server::http::request::get_next_word;
use http_server::http::{Method, ParseError, QueryParamsValue, Request};

fn failure(buffer: &[u8]) -> ParseError {
    match Request::try_from(buffer) {
        Ok(_) => panic!("the buffer was read as a request"),
        Err(e) => e,
    }
}

fn request(buffer: &[u8]) -> Request<'_> {
    match Request::try_from(buffer) {
        Ok(r) => r,
        Err(e) => panic!("the buffer was refused: {}", e.message()),
    }
}

#[test]
fn request_with_query_string() {
    let r = request(b"GET /search?name=abc&name1=abc1 HTTP/1.1\r\n\r\n");
    assert_eq!(*r.method(), Method::GET);
    assert_eq!(r.path(), "/search");
    let params = match r.query_params() {
        Some(p) => p,
        None => panic!("no query parameters"),
    };
    assert!(matches!(params.get("name"), Some(QueryParamsValue::Single("abc"))));
    assert!(matches!(params.get("name1"), Some(QueryParamsValue::Single("abc1"))));
    assert!(params.get("search").is_none());
}

#[test]
fn request_without_query_string() {
    let r = request(b"POST /submit HTTP/1.1\r\n\r\n");
    assert_eq!(*r.method(), Method::POST);
    assert_eq!(r.path(), "/submit");
    assert!(r.query_params().is_none());
}

#[test]
fn path_ends_at_the_first_question_mark() {
    let r = request(b"GET /a?b?c=d HTTP/1.1\r\n");
    assert_eq!(r.path(), "/a");
    let params = match r.query_params() {
        Some(p) => p,
        None => panic!("no query parameters"),
    };
    assert!(matches!(params.get("b?c"), Some(QueryParamsValue::Single("d"))));
}

#[test]
fn question_mark_with_nothing_after_it() {
    let r = request(b"GET /? HTTP/1.1\r\n");
    assert_eq!(r.path(), "/");
    let params = match r.query_params() {
        Some(p) => p,
        None => panic!("no query parameters"),
    };
    assert!(matches!(params.get(""), Some(QueryParamsValue::Single(""))));
}

#[test]
fn repeated_parameter_in_a_request() {
    let r = request(b"GET /list?a=1&a=2&a=3 HTTP/1.1\r\n");
    let params = match r.query_params() {
        Some(p) => p,
        None => panic!("no query parameters"),
    };
    match params.get("a") {
        Some(QueryParamsValue::Multiple(list)) => assert_eq!(*list, vec!["1", "2", "3"]),
        _ => panic!("a is not a list"),
    }
}

#[test]
fn buffer_that_is_no_text_is_invalid_encoding() {
    assert!(matches!(failure(&[0xff, 0xfe, 0x20, 0x2f]), ParseError::InvalidEncoding));
    assert!(matches!(
        failure(b"GET /\xc3 HTTP/1.1\r\n"),
        ParseError::InvalidEncoding
    ));
    assert!(matches!(failure(b"GET / HTTP/1.1\r\n\xed\xa0\x80"), ParseError::InvalidEncoding));
}

#[test]
fn other_protocol_is_invalid_protocol() {
    assert!(matches!(failure(b"GET / HTTP/1.0\r\n\r\n"), ParseError::InvalidProtocol));
    assert!(matches!(failure(b"GET / HTTP/2\r\n\r\n"), ParseError::InvalidProtocol));
    assert!(matches!(failure(b"GET / http/1.1\r\n\r\n"), ParseError::InvalidProtocol));
}

#[test]
fn two_words_are_an_invalid_request() {
    assert!(matches!(failure(b"GET /index.html"), ParseError::InvalidRequest));
    assert!(matches!(failure(b"GET /index.html\r\n"), ParseError::InvalidRequest));
    assert!(matches!(failure(b"GET"), ParseError::InvalidRequest));
    assert!(matches!(failure(b""), ParseError::InvalidRequest));
}

#[test]
fn protocol_must_be_followed_by_a_delimiter() {
    assert!(matches!(failure(b"GET / HTTP/1.1"), ParseError::InvalidRequest));
    let r = request(b"GET / HTTP/1.1 ");
    assert_eq!(r.path(), "/");
}

#[test]
fn unknown_method_is_invalid_method_with_the_token() {
    match failure(b"BREW /pot HTTP/1.1\r\n\r\n") {
        ParseError::InvalidMethod(token) => assert_eq!(token, "BREW"),
        other => panic!("refused as: {}", other.message()),
    }
    match failure(b"get / HTTP/1.1\r\n\r\n") {
        ParseError::InvalidMethod(token) => assert_eq!(token, "get"),
        other => panic!("refused as: {}", other.message()),
    }
}

#[test]
fn protocol_is_checked_before_the_method() {
    assert!(matches!(failure(b"BREW /pot HTTP/1.0\r\n"), ParseError::InvalidProtocol));
}

#[test]
fn encoding_is_checked_before_the_request_line() {
    assert!(matches!(failure(b"GET\xff"), ParseError::InvalidEncoding));
}

#[test]
fn what_follows_the_request_line_is_left_unread() {
    let r = request(b"GET /a HTTP/1.1\r\nHost: example.org\r\nX: ?&= \r\n\r\nbody?x=1");
    assert_eq!(*r.method(), Method::GET);
    assert_eq!(r.path(), "/a");
    assert!(r.query_params().is_none());
}

#[test]
fn buffer_padded_with_zero_bytes() {
    let mut buffer = [0u8; 1024];
    let line = b"GET /test?x=1 HTTP/1.1\r\n\r\n";
    buffer[..line.len()].copy_from_slice(line);
    let r = request(&buffer[..]);
    assert_eq!(r.path(), "/test");
    assert!(r.query_params().is_some());
}

#[test]
fn carriage_return_ends_a_word_as_a_space_does() {
    let r = request(b"GET\r/x\rHTTP/1.1\r");
    assert_eq!(*r.method(), Method::GET);
    assert_eq!(r.path(), "/x");
}

#[test]
fn doubled_space_makes_an_empty_word() {
    assert!(matches!(failure(b"GET  / HTTP/1.1\r\n"), ParseError::InvalidProtocol));
    match failure(b" GET HTTP/1.1\r\n") {
        ParseError::InvalidMethod(token) => assert_eq!(token, ""),
        other => panic!("refused as: {}", other.message()),
    }
}

#[test]
fn path_beyond_ascii() {
    let r = request("GET /caf\u{e9}/\u{65e5}\u{672c}?q=\u{1f600} HTTP/1.1\r\n".as_bytes());
    assert_eq!(r.path(), "/caf\u{e9}/\u{65e5}\u{672c}");
    let params = match r.query_params() {
        Some(p) => p,
        None => panic!("no query parameters"),
    };
    assert!(matches!(params.get("q"), Some(QueryParamsValue::Single("\u{1f600}"))));
}

#[test]
fn every_method_is_read_from_a_request() {
    for token in ["GET", "POST", "PUT", "DELETE", "HEAD", "CONNECT", "OPTIONS", "TRACE", "PATCH"] {
        let line = format!("{} / HTTP/1.1\r\n", token);
        let r = request(line.as_bytes());
        assert_eq!(r.method().as_str(), token);
    }
}

#[test]
fn each_error_has_its_message() {
    assert_eq!(ParseError::InvalidRequest.message(), "Invalid Request");
    assert_eq!(ParseError::InvalidEncoding.message(), "Invalid Encoding");
    assert_eq!(ParseError::InvalidProtocol.message(), "Invalid Protocol");
    assert_eq!(ParseError::InvalidMethod(String::from("BREW")).message(), "Invalid Method");
    assert_eq!(ParseError::InvalidMethod(String::from("BREW")).to_string(), "Invalid Method");
    assert_eq!(ParseError::InvalidRequest.to_string(), "Invalid Request");
}

#[test]
fn next_word_ends_at_space_or_carriage_return() {
    assert_eq!(get_next_word("GET / HTTP/1.1\r\n"), Some(("GET", "/ HTTP/1.1\r\n")));
    assert_eq!(get_next_word("HTTP/1.1\r\n"), Some(("HTTP/1.1", "\n")));
    assert_eq!(get_next_word("HTTP/1.1"), None);
    assert_eq!(get_next_word(""), None);
    assert_eq!(get_next_word(" x"), Some(("", "x")));
    assert_eq!(get_next_word("a\tb\nc"), None);
}

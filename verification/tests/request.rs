use http_server::body::Body;
use http_server::body::BodyTrait;
use http_server::error::HttpError;
use http_server::http_version::HttpVersion;
use http_server::method::Method;
use http_server::request::parse_headers;
use http_server::request::parse_query_from_uri;
use http_server::request::parse_request_line;
use http_server::request::read_announced_length;
use http_server::request::Head;
use http_server::request::PeerAddr;
use http_server::request::Request;
use http_server::status_code::StatusCode;

fn peer() -> Option<PeerAddr> {
    Some(PeerAddr::V4 { octets: [127, 0, 0, 1], port: 8080 })
}

fn parse(wire: &[u8]) -> Result<Request<()>, HttpError> {
    Request::parse(peer(), wire, ())
}

fn failure(wire: &[u8]) -> HttpError {
    match parse(wire) {
        Ok(_) => panic!("the request was read"),
        Err(e) => e,
    }
}

#[test]
fn get_request_is_read() {
    let mut req = parse(b"GET / HTTP/1.1\r\n\r\n").unwrap();
    assert_eq!(*req.method(), Method::Get);
    assert_eq!(req.uri(), "/");
    assert_eq!(*req.http_version(), HttpVersion::HTTP1_1);
    assert_eq!(req.headers().len(), 0);
    assert_eq!(req.query().len(), 0);
    assert!(req.bytes_body().is_none());
    match req.peer_addr() {
        PeerAddr::V4 { octets, port } => {
            assert_eq!(octets, [127, 0, 0, 1]);
            assert_eq!(port, 8080);
        }
        PeerAddr::V6 { .. } => panic!("the peer has an IPv4 address"),
    }
}

#[test]
fn request_without_line_breaks_is_read() {
    let req = parse(b"GET /a HTTP/1.1").unwrap();
    assert_eq!(req.uri(), "/a");
}

#[test]
fn bare_line_feeds_end_lines() {
    let req = parse(b"GET /a HTTP/1.1\nhost: x\n\n").unwrap();
    assert_eq!(req.headers().get("host").unwrap(), "x");
}

#[test]
fn method_and_version_ignore_case() {
    let req = parse(b"gEt / http/1.1\r\n\r\n").unwrap();
    assert_eq!(*req.method(), Method::Get);
    assert_eq!(*req.http_version(), HttpVersion::HTTP1_1);
}

#[test]
fn header_lookup_ignores_case() {
    let req = parse(b"GET / HTTP/1.1\r\nContent-Type: text/plain\r\n\r\n").unwrap();
    assert_eq!(req.headers().get("content-type").unwrap(), "text/plain");
    assert_eq!(req.headers().get("CONTENT-TYPE").unwrap(), "text/plain");
    assert_eq!(req.headers().get("Content-type").unwrap(), "text/plain");
    assert!(req.headers().contains("cOnTeNt-TyPe"));
    assert!(req.headers().get("content-length").is_none());
    assert_eq!(req.headers().len(), 1);
}

#[test]
fn header_names_are_folded_beyond_ascii() {
    let req = parse("GET / HTTP/1.1\r\n\u{c9}tag: 1\r\n\u{3a3}: 2\r\n\r\n".as_bytes()).unwrap();
    assert_eq!(req.headers().get("\u{e9}tag").unwrap(), "1");
    assert_eq!(req.headers().get("\u{c9}TAG").unwrap(), "1");
    assert_eq!(req.headers().get("\u{3c3}").unwrap(), "2");
    assert_eq!(req.headers().len(), 2);
}

#[test]
fn last_header_of_a_name_wins() {
    let req = parse(b"GET / HTTP/1.1\r\nX-A: 1\r\nx-a: 2\r\nX-a: 3\r\n\r\n").unwrap();
    assert_eq!(req.headers().get("x-a").unwrap(), "3");
    assert_eq!(req.headers().len(), 1);
}

#[test]
fn header_value_keeps_later_separators() {
    let req = parse(b"GET / HTTP/1.1\r\na: b: c\r\n\r\n").unwrap();
    assert_eq!(req.headers().get("a").unwrap(), "b: c");
}

#[test]
fn get_request_never_has_a_body() {
    let wire = b"GET / HTTP/1.1\r\ncontent-type: text/plain\r\ncontent-length: 5\r\n\r\nhello";
    let mut req = parse(wire).unwrap();
    assert!(req.string_body().is_none());
    assert!(req.bytes_body().is_none());
    let mut bare = parse(b"GET / HTTP/1.1\r\n\r\nsome bytes").unwrap();
    assert!(bare.bytes_body().is_none());
}

#[test]
fn missing_content_type_is_status_415() {
    let e = failure(b"POST / HTTP/1.1\r\ncontent-length: 5\r\n\r\nhello");
    assert_eq!(e, HttpError::ContentTypeMissing);
    assert_eq!(e.status_code(), StatusCode::UnsupportedMediaType);
    assert_eq!(e.status_code().code(), 415);
    assert_eq!(failure(b"POST / HTTP/1.1\r\n\r\n"), HttpError::ContentTypeMissing);
    assert_eq!(failure(b"DELETE / HTTP/1.1\r\n\r\n"), HttpError::ContentTypeMissing);
}

#[test]
fn missing_content_length_is_status_411() {
    let e = failure(b"POST / HTTP/1.1\r\ncontent-type: text/plain\r\n\r\nhello");
    assert_eq!(e, HttpError::LengthMissing);
    assert_eq!(e.status_code().code(), 411);
}

#[test]
fn content_length_that_is_no_number_is_status_411() {
    let e = failure(b"POST / HTTP/1.1\r\ncontent-type: text/plain\r\ncontent-length: abc\r\n\r\n");
    assert_eq!(e, HttpError::InvalidLength);
    assert_eq!(e.status_code().code(), 411);
    for value in ["-1", " 5", "+", "5x", "0x10", "5 6", "5.0", "99999999999999999999999999"] {
        let wire = format!(
            "POST / HTTP/1.1\r\ncontent-type: text/plain\r\ncontent-length: {}\r\n\r\n",
            value
        );
        assert_eq!(failure(wire.as_bytes()), HttpError::InvalidLength);
    }
}

#[test]
fn short_body_is_status_415() {
    let e = failure(b"POST / HTTP/1.1\r\ncontent-type: text/plain\r\ncontent-length: 5\r\n\r\nhell");
    assert_eq!(e, HttpError::InvalidBytesBody);
    assert_eq!(e.status_code().code(), 415);
    let e = failure(b"POST / HTTP/1.1\r\ncontent-type: text/plain\r\ncontent-length: 1");
    assert_eq!(e, HttpError::InvalidBytesBody);
}

#[test]
fn text_body_is_read_to_the_announced_length() {
    let wire = b"POST /echo HTTP/1.1\r\ncontent-type: text/plain\r\ncontent-length: 5\r\n\r\nhello, world";
    let mut req = parse(wire).unwrap();
    assert_eq!(*req.method(), Method::Post);
    assert_eq!(req.uri(), "/echo");
    assert_eq!(req.string_body().unwrap(), "hello");
    assert!(req.string_body().is_none());
    assert!(req.bytes_body().is_none());
}

#[test]
fn text_body_can_be_taken_as_bytes() {
    let wire = b"PUT / HTTP/1.1\r\ncontent-type: text/plain\r\ncontent-length: 2\r\n\r\nok";
    let mut req = parse(wire).unwrap();
    assert_eq!(req.bytes_body().unwrap(), b"ok".to_vec());
    assert!(req.bytes_body().is_none());
}

#[test]
fn length_with_plus_sign_and_zeros_is_read() {
    let wire = b"POST / HTTP/1.1\r\ncontent-type: a\r\ncontent-length: +005\r\n\r\nhello";
    let mut req = parse(wire).unwrap();
    assert_eq!(req.string_body().unwrap(), "hello");
}

#[test]
fn empty_body_is_empty_text() {
    let wire = b"POST / HTTP/1.1\r\ncontent-type: a\r\ncontent-length: 0\r\n\r\n";
    let mut req = parse(wire).unwrap();
    assert_eq!(req.string_body().unwrap(), "");
}

#[test]
fn body_that_is_not_text_is_kept_as_bytes() {
    let mut wire = b"POST / HTTP/1.1\r\ncontent-type: x\r\ncontent-length: 3\r\n\r\n".to_vec();
    wire.extend_from_slice(&[0xff, 0x00, 0xfe]);
    let mut req = parse(&wire).unwrap();
    assert!(req.string_body().is_none());
    assert!(req.string_body().is_none());
    assert_eq!(req.bytes_body().unwrap(), vec![0xff, 0x00, 0xfe]);
    assert!(req.bytes_body().is_none());
}

#[test]
fn body_decoding_keeps_the_bytes() {
    assert!(matches!(Body::decode(b"hi".to_vec()), Body::String(s) if s == "hi"));
    assert!(matches!(Body::decode(vec![0xc3, 0xa9]), Body::String(s) if s == "\u{e9}"));
    assert!(matches!(Body::decode(vec![0xc3]), Body::Bytes(b) if b == vec![0xc3]));
    assert!(matches!(Body::decode(vec![]), Body::String(s) if s.is_empty()));
}

#[test]
fn query_is_split_from_the_path() {
    let req = parse(b"GET /search?q=rust&page=2&q=verus HTTP/1.1\r\n\r\n").unwrap();
    assert_eq!(req.uri(), "/search");
    assert_eq!(req.query().len(), 2);
    assert_eq!(req.query().get("q").unwrap(), "verus");
    assert_eq!(req.query().get("page").unwrap(), "2");
    assert!(req.query().get("Q").is_none());
    assert!(!req.query().contains_key("missing"));
}

#[test]
fn query_value_keeps_later_equals_signs() {
    let req = parse(b"GET /?a=b=c&d= HTTP/1.1\r\n\r\n").unwrap();
    assert_eq!(req.query().get("a").unwrap(), "b=c");
    assert_eq!(req.query().get("d").unwrap(), "");
}

#[test]
fn query_part_without_equals_sign_is_status_400() {
    for target in ["/?a", "/?", "/?a=1&", "/?a=1&b", "/?&a=1", "?x"] {
        let wire = format!("GET {} HTTP/1.1\r\n\r\n", target);
        let e = failure(wire.as_bytes());
        assert_eq!(e, HttpError::InvalidQuery);
        assert_eq!(e.status_code().code(), 400);
    }
    assert!(parse_query_from_uri(b"/a?b").is_none());
    assert_eq!(parse_query_from_uri(b"/a").unwrap().len(), 0);
}

#[test]
fn invalid_query_is_found_before_a_malformed_header() {
    assert_eq!(failure(b"GET /?a HTTP/1.1\r\nbroken\r\n\r\n"), HttpError::InvalidQuery);
}

#[test]
fn malformed_request_line_is_status_400() {
    for line in ["", "GET", "GET /", "GET  / HTTP/1.1", "GET / HTTP/1.1 x", "\r\n"] {
        let wire = format!("{}\r\n\r\n", line);
        let e = failure(wire.as_bytes());
        assert_eq!(e, HttpError::MalformedRequestLine);
        assert_eq!(e.status_code().code(), 400);
    }
    assert_eq!(failure(b"GET /\xff HTTP/1.1\r\n\r\n"), HttpError::MalformedRequestLine);
    assert!(parse_request_line(b"a b").is_none());
    let (method, target, version) = parse_request_line(b"a  c").unwrap();
    assert_eq!((method, target, version), (&b"a"[..], &b""[..], &b"c"[..]));
}

#[test]
fn unknown_method_is_status_400() {
    let e = failure(b"BREW / HTTP/1.1\r\n\r\n");
    assert_eq!(e, HttpError::UnsupportedMethod);
    assert_eq!(e.status_code().code(), 400);
    assert_eq!(failure(b"G\xffT / HTTP/1.1\r\n\r\n"), HttpError::UnsupportedMethod);
}

#[test]
fn unknown_version_is_status_400() {
    let e = failure(b"GET / HTTP/2\r\n\r\n");
    assert_eq!(e, HttpError::UnsupportedVersion);
    assert_eq!(e.status_code().code(), 400);
    assert_eq!(failure(b"BREW / HTTP/2\r\n\r\n"), HttpError::UnsupportedMethod);
}

#[test]
fn malformed_header_is_status_400() {
    for line in ["broken", "a:b", "a :b", ":", "name:"] {
        let wire = format!("GET / HTTP/1.1\r\n{}\r\n\r\n", line);
        let e = failure(wire.as_bytes());
        assert_eq!(e, HttpError::MalformedHeader);
        assert_eq!(e.status_code().code(), 400);
    }
    assert_eq!(failure(b"GET / HTTP/1.1\r\na: \xff\xff b\r\n\r\n"), HttpError::MalformedHeader);
    assert_eq!(failure(b"POST / HTTP/1.1\r\nbroken\r\n\r\n"), HttpError::MalformedHeader);
}

#[test]
fn unavailable_peer_address_is_status_500() {
    let r: Result<Request<()>, HttpError> = Request::parse(None, b"GET / HTTP/1.1\r\n\r\n", ());
    let e = r.err().unwrap();
    assert_eq!(e, HttpError::GetPeerAddrError);
    assert_eq!(e.status_code().code(), 500);
    let r: Result<Request<()>, HttpError> = Request::parse(None, b"nonsense", ());
    assert_eq!(r.err().unwrap(), HttpError::GetPeerAddrError);
}

#[test]
fn surrounding_whitespace_of_lines_is_dropped() {
    let req = parse(b"  GET /x HTTP/1.1 \t\r\n  Host: example.org  \r\n \t \r\nrest").unwrap();
    assert_eq!(req.uri(), "/x");
    assert_eq!(req.headers().get("host").unwrap(), "example.org");
}

#[test]
fn whitespace_beyond_ascii_is_dropped_from_lines() {
    let wire = "\u{a0}GET /x HTTP/1.1\u{2003}\r\n\u{3000}Host: example.org\u{85}\r\n\u{2028}\r\nrest";
    let req = parse(wire.as_bytes()).unwrap();
    assert_eq!(req.uri(), "/x");
    assert_eq!(req.headers().get("host").unwrap(), "example.org");
    assert_eq!(req.headers().len(), 1);
}

#[test]
fn head_tells_where_the_body_begins() {
    let wire = b"POST / HTTP/1.1\r\ncontent-type: a\r\ncontent-length: 3\r\n\r\nabc";
    let head = Head::parse(wire).unwrap();
    assert_eq!(head.method(), Method::Post);
    assert_eq!(head.body_len(), 3);
    assert_eq!(head.body_start(), wire.len() - 3);
    let mut req = Request::from_head(peer().unwrap(), head, b"abcdef", 7u8).unwrap();
    assert_eq!(*req.state(), 7);
    assert_eq!(req.string_body().unwrap(), "abc");
    let head = Head::parse(b"GET / HTTP/1.1\r\n").unwrap();
    assert_eq!(head.body_len(), 0);
    assert_eq!(head.body_start(), 16);
    let head = Head::parse(wire).unwrap();
    let short: Result<Request<()>, HttpError> =
        Request::from_head(peer().unwrap(), head, b"ab", ());
    assert_eq!(short.err().unwrap(), HttpError::InvalidBytesBody);
}

#[test]
fn headers_are_read_up_to_the_blank_line() {
    let wire = b"a: 1\r\nB: 2\r\n\r\nc: 3\r\n";
    let (headers, body_start) = parse_headers(wire, 0).unwrap();
    assert_eq!(headers.len(), 2);
    assert_eq!(headers.get("b").unwrap(), "2");
    assert!(!headers.contains("c"));
    assert_eq!(body_start, 14);
    assert!(parse_headers(b"a: 1\r\nb\r\n\r\n", 0).is_none());
    let (headers, body_start) = parse_headers(b"a: 1\r\nb\r\n\r\n", 9).unwrap();
    assert_eq!(headers.len(), 0);
    assert_eq!(body_start, 11);
}

#[test]
fn announced_length_follows_the_method() {
    let (headers, _) = parse_headers(b"content-length: 12\r\n", 0).unwrap();
    assert_eq!(read_announced_length(Method::Get, &headers), Ok(0));
    assert_eq!(read_announced_length(Method::Post, &headers), Err(HttpError::ContentTypeMissing));
    let (headers, _) = parse_headers(b"Content-Length: 12\r\nContent-Type: x\r\n", 0).unwrap();
    assert_eq!(read_announced_length(Method::Patch, &headers), Ok(12));
    assert_eq!(read_announced_length(Method::Get, &headers), Ok(0));
}

#[test]
fn state_is_carried_by_the_request() {
    let req = Request::parse(peer(), b"GET / HTTP/1.1\r\n\r\n", String::from("shared")).unwrap();
    assert_eq!(req.state(), "shared");
}

#[test]
fn bodies_are_read_in_the_form_asked_for() {
    let bytes: Result<Vec<u8>, HttpError> = BodyTrait::parse_request(b"hello, world", 5);
    assert_eq!(bytes, Ok(b"hello".to_vec()));
    let bytes: Result<Vec<u8>, HttpError> = BodyTrait::parse_request(b"hell", 5);
    assert_eq!(bytes, Err(HttpError::InvalidBytesBody));
    let bytes: Result<Vec<u8>, HttpError> = BodyTrait::parse_request(b"", 0);
    assert_eq!(bytes, Ok(Vec::new()));
    let text: Result<String, HttpError> = BodyTrait::parse_request(b"hello, world", 5);
    assert_eq!(text, Ok(String::from("hello")));
    let text: Result<String, HttpError> = BodyTrait::parse_request(&[b'a', 0xff, b'b'], 2);
    assert_eq!(text, Err(HttpError::InvalidStringBody));
    assert_eq!(HttpError::InvalidStringBody.status_code().code(), 415);
    let text: Result<String, HttpError> = BodyTrait::parse_request(&[b'a', 0xff, b'b'], 1);
    assert_eq!(text, Ok(String::from("a")));
    let text: Result<String, HttpError> = BodyTrait::parse_request(&[0xff], 2);
    assert_eq!(text, Err(HttpError::InvalidBytesBody));
    let none: Result<(), HttpError> = BodyTrait::parse_request(b"anything", 100);
    assert_eq!(none, Ok(()));
}

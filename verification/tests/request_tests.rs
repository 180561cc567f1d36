use http_request::headers::HeaderMap;
use http_request::request::Request;
use http_request::request::RequestType;

#[test]
fn base_builder_test_passes() {
    let mut headers = HeaderMap::new();
    headers.insert("test".to_string(), "me".to_string());
    let req = Request::new(
        Some(String::from("some_bod")),
        headers,
        String::from("test_me_path"),
        String::from("Some-Host"),
        RequestType::GET,
    );

    let mut headers = HeaderMap::new();
    headers.insert("test".to_string(), "me".to_string());
    let from_builder: Request = Request::builder()
        .with_body(String::from("some_bod"))
        .with_path(String::from("test_me_path"))
        .with_host(String::from("Some-Host"))
        .with_headers(headers)
        .with_request_type(RequestType::GET)
        .build()
        .expect("Failed");

    assert_eq!(req, from_builder)
}

#[test]
fn missing_request_type_fails() {
    let from_builder_with_no_req_type = Request::builder()
        .with_body("".to_string())
        .with_headers(HeaderMap::new())
        .with_host("".to_string())
        .with_path("".to_string())
        .build();

    assert!(from_builder_with_no_req_type.is_err());
}

#[test]
fn missing_path_fails() {
    let mut headers = HeaderMap::new();
    headers.insert("test".to_string(), "me".to_string());
    let from_builder_with_no_path = Request::builder()
        .with_headers(headers)
        .with_request_type(RequestType::GET)
        .build();

    assert!(from_builder_with_no_path.is_err());
}

#[test]
fn missing_headers_fails() {
    let from_builder_no_headers = Request::builder()
        .with_request_type(RequestType::GET)
        .with_path("".to_string())
        .build();

    assert!(from_builder_no_headers.is_err());
}

#[test]
fn missing_body_passes() {
    let mut headers = HeaderMap::new();
    headers.insert("test".to_string(), "me".to_string());
    let from_builder_no_body = Request::builder()
        .with_path("some_path".to_string())
        .with_headers(headers)
        .with_request_type(RequestType::GET)
        .with_host("".to_string())
        .build();

    assert!(!from_builder_no_body.is_err());
}

#[test]
fn build_keeps_last_value_set() {
    let req = Request::builder()
        .with_host("first".to_string())
        .with_path("/old".to_string())
        .with_headers(HeaderMap::new())
        .with_request_type(RequestType::POST)
        .with_host("second".to_string())
        .with_path("/new".to_string())
        .with_request_type(RequestType::GET)
        .build()
        .expect("all mandatory fields were set");
    assert_eq!(req.bytes(), b"GET /new HTTP/1.1\r\nHost: second\r\n".to_vec());
}

#[test]
fn every_method_renders_its_token() {
    for (method, expected) in [
        (RequestType::GET, &b"GET / HTTP/1.1\r\nHost: h\r\n"[..]),
        (RequestType::POST, &b"POST / HTTP/1.1\r\nHost: h\r\n"[..]),
        (RequestType::PUT, &b"PUT / HTTP/1.1\r\nHost: h\r\n"[..]),
        (RequestType::DELETE, &b"DELETE / HTTP/1.1\r\nHost: h\r\n"[..]),
    ] {
        let req = Request::builder()
            .with_host("h".to_string())
            .with_path("/".to_string())
            .with_headers(HeaderMap::new())
            .with_request_type(method)
            .build()
            .expect("all mandatory fields were set");
        assert_eq!(req.bytes(), expected.to_vec());
    }
}

#[test]
fn missing_headers_error_names_headers() {
    let r = Request::builder()
        .with_path("/".to_string())
        .with_host("h".to_string())
        .with_request_type(RequestType::GET)
        .build();
    assert_eq!(r.unwrap_err(), "Make sure you input your headers.");
}

#[test]
fn missing_path_error_names_path() {
    let r = Request::builder()
        .with_headers(HeaderMap::new())
        .with_host("h".to_string())
        .with_request_type(RequestType::GET)
        .build();
    assert_eq!(r.unwrap_err(), "Each request needs a path.");
}

#[test]
fn missing_host_error_names_host() {
    let r = Request::builder()
        .with_headers(HeaderMap::new())
        .with_path("/".to_string())
        .with_request_type(RequestType::GET)
        .build();
    assert_eq!(r.unwrap_err(), "Each request needs a host.");
}

#[test]
fn missing_method_error_names_method() {
    let r = Request::builder()
        .with_headers(HeaderMap::new())
        .with_path("/".to_string())
        .with_host("h".to_string())
        .build();
    assert_eq!(r.unwrap_err(), "Request types are mandatory: GET, PUT, POST, DELETE");
}

#[test]
fn empty_headers_count_as_present() {
    let r = Request::builder()
        .with_headers(HeaderMap::new())
        .with_path("/".to_string())
        .with_host("h".to_string())
        .with_request_type(RequestType::GET)
        .build();
    assert!(r.is_ok());
}

#[test]
fn never_set_headers_distinguished_from_empty() {
    let never_set = Request::builder()
        .with_path("/".to_string())
        .with_host("h".to_string())
        .with_request_type(RequestType::GET)
        .build();
    assert!(never_set.is_err());

    let empty = Request::builder()
        .with_headers(HeaderMap::new())
        .with_path("/".to_string())
        .with_host("h".to_string())
        .with_request_type(RequestType::GET)
        .build();
    assert!(empty.is_ok());
}

#[test]
fn append_headers_merges_and_overwrites() {
    let mut staged = HeaderMap::new();
    staged.insert("A".to_string(), "B".to_string());
    staged.insert("X".to_string(), "Y".to_string());
    let mut incoming = HeaderMap::new();
    incoming.insert("A".to_string(), "E".to_string());
    incoming.insert("C".to_string(), "D".to_string());
    let req = Request::builder()
        .with_headers(staged)
        .append_headers(incoming)
        .with_path("/p".to_string())
        .with_host("h".to_string())
        .with_request_type(RequestType::GET)
        .build()
        .expect("all mandatory fields were set");
    // The staged key X is kept, A takes the incoming value, C is added.
    assert_eq!(
        req.bytes(),
        b"GET /p HTTP/1.1\r\nHost: h\r\nA: E\r\nX: Y\r\nC: D\r\n".to_vec()
    );
}

#[test]
fn append_headers_creates_empty_mapping_first() {
    let mut incoming = HeaderMap::new();
    incoming.insert("A".to_string(), "B".to_string());
    let r = Request::builder()
        .append_headers(incoming)
        .with_path("/".to_string())
        .with_host("h".to_string())
        .with_request_type(RequestType::GET)
        .build();
    assert!(r.is_ok());
}

#[test]
fn insert_overwrites_value_for_same_key() {
    let mut headers = HeaderMap::new();
    headers.insert("A".to_string(), "B".to_string());
    headers.insert("A".to_string(), "C".to_string());
    assert_eq!(headers.len(), 1);
    let req = Request::builder()
        .with_headers(headers)
        .with_path("/".to_string())
        .with_host("h".to_string())
        .with_request_type(RequestType::GET)
        .build()
        .expect("all mandatory fields were set");
    assert_eq!(req.bytes(), b"GET / HTTP/1.1\r\nHost: h\r\nA: C\r\n".to_vec());
}

#[test]
fn bytes_round_trip_single_header() {
    let mut headers = HeaderMap::new();
    headers.insert("A".to_string(), "B".to_string());
    let req = Request::builder()
        .with_request_type(RequestType::GET)
        .with_host("example.com".to_string())
        .with_path("/x".to_string())
        .with_headers(headers)
        .build()
        .expect("all mandatory fields were set");
    assert_eq!(req.bytes(), b"GET /x HTTP/1.1\r\nHost: example.com\r\nA: B\r\n".to_vec());
}

#[test]
fn body_appended_directly_after_header_block() {
    let mut headers = HeaderMap::new();
    headers.insert("A".to_string(), "B".to_string());
    let req = Request::builder()
        .with_request_type(RequestType::GET)
        .with_host("example.com".to_string())
        .with_path("/x".to_string())
        .with_headers(headers)
        .with_body("hello".to_string())
        .build()
        .expect("all mandatory fields were set");
    assert_eq!(
        req.bytes(),
        b"GET /x HTTP/1.1\r\nHost: example.com\r\nA: B\r\nhello".to_vec()
    );
}

#[test]
fn body_appended_after_host_line_when_headers_empty() {
    let req = Request::builder()
        .with_request_type(RequestType::GET)
        .with_host("example.com".to_string())
        .with_path("/x".to_string())
        .with_headers(HeaderMap::new())
        .with_body("hello".to_string())
        .build()
        .expect("all mandatory fields were set");
    assert_eq!(req.bytes(), b"GET /x HTTP/1.1\r\nHost: example.com\r\nhello".to_vec());
}

#[test]
fn framed_bytes_append_one_newline() {
    let req = Request::builder()
        .with_request_type(RequestType::GET)
        .with_host("example.com".to_string())
        .with_path("/".to_string())
        .with_headers(HeaderMap::new())
        .build()
        .expect("all mandatory fields were set");
    assert_eq!(req.framed_bytes(), b"GET / HTTP/1.1\r\nHost: example.com\r\n\n".to_vec());
}

#[test]
fn non_ascii_text_is_utf8_encoded() {
    let req = Request::builder()
        .with_request_type(RequestType::GET)
        .with_host("h\u{e9}".to_string())
        .with_path("/".to_string())
        .with_headers(HeaderMap::new())
        .build()
        .expect("all mandatory fields were set");
    assert_eq!(req.bytes(), "GET / HTTP/1.1\r\nHost: h\u{e9}\r\n".as_bytes().to_vec());
}

#[test]
fn header_order_does_not_affect_equality() {
    let mut first = HeaderMap::new();
    first.insert("A".to_string(), "B".to_string());
    first.insert("C".to_string(), "D".to_string());
    let mut second = HeaderMap::new();
    second.insert("C".to_string(), "D".to_string());
    second.insert("A".to_string(), "B".to_string());
    assert_eq!(first, second);

    let mut third = HeaderMap::new();
    third.insert("A".to_string(), "B".to_string());
    third.insert("C".to_string(), "other".to_string());
    assert_ne!(first, third);
}

#[test]
fn get_returns_the_held_value() {
    let mut headers = HeaderMap::new();
    headers.insert("A".to_string(), "B".to_string());
    assert_eq!(headers.get(&"A".to_string()), Some(&"B".to_string()));
    assert_eq!(headers.get(&"C".to_string()), None);
}

#[test]
fn default_method_is_get() {
    assert_eq!(RequestType::default(), RequestType::GET);
}

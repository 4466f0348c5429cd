use nanofish::request::{buffer_as_str, build_http_request};
use nanofish::{Error, HttpHeader, HttpMethod};

#[test]
fn test_build_get_request_exact_bytes() {
    let headers = [HttpHeader {
        name: "Accept",
        value: "text/plain",
    }];
    let buf = build_http_request(HttpMethod::GET, "example.com", "/p", &headers, None).unwrap();
    assert_eq!(
        buffer_as_str(&buf),
        "GET /p HTTP/1.1\r\nHost: example.com\r\nAccept: text/plain\r\nConnection: close\r\n\r\n"
    );
}

#[test]
fn test_build_adds_content_length_for_body() {
    let buf =
        build_http_request(HttpMethod::POST, "example.com", "/submit", &[], Some(b"hello")).unwrap();
    assert_eq!(
        buffer_as_str(&buf),
        "POST /submit HTTP/1.1\r\nHost: example.com\r\nContent-Length: 5\r\nConnection: close\r\n\r\n"
    );
}

#[test]
fn test_build_keeps_caller_content_length() {
    // a caller header named content-length, in any case, wins
    let headers = [HttpHeader {
        name: "content-LENGTH",
        value: "5",
    }];
    let buf =
        build_http_request(HttpMethod::PUT, "example.com", "/x", &headers, Some(b"hello")).unwrap();
    assert_eq!(
        buffer_as_str(&buf),
        "PUT /x HTTP/1.1\r\nHost: example.com\r\ncontent-LENGTH: 5\r\nConnection: close\r\n\r\n"
    );
}

#[test]
fn test_build_empty_path_kept_empty() {
    let buf = build_http_request(HttpMethod::HEAD, "example.com", "", &[], None).unwrap();
    assert_eq!(
        buffer_as_str(&buf),
        "HEAD  HTTP/1.1\r\nHost: example.com\r\nConnection: close\r\n\r\n"
    );
}

#[test]
fn test_build_overflow_fails_whole_build() {
    let long_path: String = std::iter::repeat('a').take(2000).collect();
    let r = build_http_request(HttpMethod::GET, "example.com", &long_path, &[], None);
    assert!(matches!(r, Err(Error::BufferOverflow)));
}

#[test]
fn test_build_overflow_on_headers() {
    let big: String = std::iter::repeat('v').take(300).collect();
    let headers = [
        HttpHeader { name: "A", value: &big },
        HttpHeader { name: "B", value: &big },
        HttpHeader { name: "C", value: &big },
        HttpHeader { name: "D", value: &big },
    ];
    let r = build_http_request(HttpMethod::GET, "example.com", "/", &headers, None);
    assert!(matches!(r, Err(Error::BufferOverflow)));
}

#[test]
fn test_build_large_body_length_digits() {
    let body = vec![0u8; 123_456_789];
    let buf = build_http_request(HttpMethod::POST, "h", "/", &[], Some(&body)).unwrap();
    assert_eq!(
        buffer_as_str(&buf),
        "POST / HTTP/1.1\r\nHost: h\r\nContent-Length: 123456789\r\nConnection: close\r\n\r\n"
    );
}

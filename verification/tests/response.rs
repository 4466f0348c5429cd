use nanofish::{HttpHeader, HttpResponse, ResponseBody, StatusCode};

#[test]
fn test_response_body_as_str_and_bytes() {
    let text = ResponseBody::Text("hello");
    assert_eq!(text.as_str(), Some("hello"));
    assert_eq!(text.as_bytes(), b"hello");
    let bin = ResponseBody::Binary(b"bin");
    assert_eq!(bin.as_str(), Some("bin"));
    assert_eq!(bin.as_bytes(), b"bin");
    let empty = ResponseBody::Empty;
    assert_eq!(empty.as_str(), Some(""));
    assert_eq!(empty.as_bytes(), b"");
}

#[test]
fn test_response_body_is_empty_and_len() {
    let text = ResponseBody::Text("");
    assert!(text.is_empty());
    assert_eq!(text.len(), 0);
    let bin = ResponseBody::Binary(b"");
    assert!(bin.is_empty());
    assert_eq!(bin.len(), 0);
    let nonempty = ResponseBody::Text("abc");
    assert!(!nonempty.is_empty());
    assert_eq!(nonempty.len(), 3);
}

#[test]
fn test_http_response_get_header() {
    let mut headers: Vec<HttpHeader> = Vec::new();
    headers.push(HttpHeader {
        name: "Content-Type",
        value: "text/plain",
    });
    let resp = HttpResponse {
        status_code: StatusCode::OK,
        headers,
        body: ResponseBody::Empty,
    };
    assert_eq!(resp.get_header("content-type"), Some("text/plain"));
    assert_eq!(resp.get_header("missing"), None);
}

#[test]
fn test_response_body_binary_invalid_utf8_as_str() {
    let bin = ResponseBody::Binary(&[0xff, 0xfe, 0x01]);
    assert_eq!(bin.as_str(), None);
    assert_eq!(bin.as_bytes(), &[0xff, 0xfe, 0x01]);
    assert_eq!(bin.len(), 3);
}

#[test]
fn test_http_response_content_type_and_length() {
    let mut headers: Vec<HttpHeader> = Vec::new();
    headers.push(HttpHeader {
        name: "Content-Type",
        value: "application/json",
    });
    headers.push(HttpHeader {
        name: "content-LENGTH",
        value: " 42 ",
    });
    let resp = HttpResponse {
        status_code: StatusCode::OK,
        headers,
        body: ResponseBody::Empty,
    };
    assert_eq!(resp.content_type(), Some("application/json"));
    // the stored value is returned as-is; the numeric accessor parses digits
    assert_eq!(resp.get_header("Content-Length"), Some(" 42 "));
    assert_eq!(resp.content_length(), None);
    let mut headers2: Vec<HttpHeader> = Vec::new();
    headers2.push(HttpHeader {
        name: "Content-Length",
        value: "42",
    });
    let resp2 = HttpResponse {
        status_code: StatusCode::NotFound,
        headers: headers2,
        body: ResponseBody::Empty,
    };
    assert_eq!(resp2.content_length(), Some(42));
    assert!(!resp2.is_success());
    assert!(resp2.is_client_error());
    assert!(!resp2.is_server_error());
}

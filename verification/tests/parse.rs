use nanofish::parse::parse_http_response_zero_copy;
use nanofish::{Error, ResponseBody, StatusCode};

#[test]
fn test_parse_text_response() {
    let data = b"HTTP/1.1 200 OK\r\nContent-Type: text/plain\r\nContent-Length: 5\r\n\r\nhello";
    let resp = parse_http_response_zero_copy(data).unwrap();
    assert_eq!(resp.status_code, StatusCode::OK);
    assert_eq!(resp.headers.len(), 2);
    assert_eq!(resp.headers[0].name, "Content-Type");
    assert_eq!(resp.headers[0].value, "text/plain");
    assert_eq!(resp.headers[1].name, "Content-Length");
    assert_eq!(resp.headers[1].value, "5");
    match resp.body {
        ResponseBody::Text(t) => assert_eq!(t, "hello"),
        _ => panic!("expected a text body"),
    }
}

#[test]
fn test_parse_json_body_is_text() {
    let data = b"HTTP/1.1 200 OK\r\nContent-Type: application/json\r\n\r\n{\"a\":1}";
    let resp = parse_http_response_zero_copy(data).unwrap();
    match resp.body {
        ResponseBody::Text(t) => assert_eq!(t, "{\"a\":1}"),
        _ => panic!("expected a text body"),
    }
}

#[test]
fn test_parse_png_body_is_binary() {
    let mut data: Vec<u8> = b"HTTP/1.1 200 OK\r\nContent-Type: image/png\r\n\r\n".to_vec();
    data.extend_from_slice(&[0x89, 0x50, 0x4e, 0x47, 0xff, 0x00]);
    let resp = parse_http_response_zero_copy(&data).unwrap();
    match resp.body {
        ResponseBody::Binary(b) => assert_eq!(b, &[0x89, 0x50, 0x4e, 0x47, 0xff, 0x00]),
        _ => panic!("expected a binary body"),
    }
}

#[test]
fn test_parse_empty_body_regardless_of_headers() {
    let data = b"HTTP/1.1 204 No Content\r\nContent-Type: text/plain\r\n\r\n";
    let resp = parse_http_response_zero_copy(data).unwrap();
    assert_eq!(resp.status_code, StatusCode::NoContent);
    assert!(matches!(resp.body, ResponseBody::Empty));
}

#[test]
fn test_parse_no_content_type_valid_utf8_is_text() {
    let data = b"HTTP/1.1 200 OK\r\n\r\nplain words";
    let resp = parse_http_response_zero_copy(data).unwrap();
    assert_eq!(resp.headers.len(), 0);
    match resp.body {
        ResponseBody::Text(t) => assert_eq!(t, "plain words"),
        _ => panic!("expected a text body"),
    }
}

#[test]
fn test_parse_no_content_type_invalid_utf8_is_binary() {
    let mut data: Vec<u8> = b"HTTP/1.1 200 OK\r\n\r\n".to_vec();
    data.extend_from_slice(&[0xff, 0xfe]);
    let resp = parse_http_response_zero_copy(&data).unwrap();
    assert!(matches!(resp.body, ResponseBody::Binary(_)));
}

#[test]
fn test_parse_seventeen_headers_keeps_first_sixteen() {
    let mut text = String::from("HTTP/1.1 200 OK\r\n");
    for i in 0..17 {
        text.push_str(&format!("X-H{}: v{}\r\n", i, i));
    }
    text.push_str("\r\n");
    let resp = parse_http_response_zero_copy(text.as_bytes()).unwrap();
    assert_eq!(resp.headers.len(), 16);
    for i in 0..16 {
        assert_eq!(resp.headers[i].name, format!("X-H{}", i));
        assert_eq!(resp.headers[i].value, format!("v{}", i));
    }
}

#[test]
fn test_parse_skips_lines_without_colon() {
    let data = b"HTTP/1.1 200 OK\r\ngarbage line\r\nX-Ok: yes\r\n\r\n";
    let resp = parse_http_response_zero_copy(data).unwrap();
    assert_eq!(resp.headers.len(), 1);
    assert_eq!(resp.headers[0].name, "X-Ok");
    assert_eq!(resp.headers[0].value, "yes");
}

#[test]
fn test_parse_unknown_status_code() {
    let data = b"HTTP/1.1 999 Whatever\r\n\r\n";
    let resp = parse_http_response_zero_copy(data).unwrap();
    assert_eq!(resp.status_code, StatusCode::Other(999));
}

#[test]
fn test_parse_errors_without_line_terminator() {
    let data = b"HTTP/1.1 200 OK";
    match parse_http_response_zero_copy(data) {
        Err(Error::InvalidResponse(m)) => assert_eq!(m, "Invalid HTTP response format"),
        _ => panic!("expected a format error"),
    }
}

#[test]
fn test_parse_errors_without_status_token() {
    let data = b"HTTP/1.1\r\n\r\n";
    match parse_http_response_zero_copy(data) {
        Err(Error::InvalidResponse(m)) => assert_eq!(m, "Invalid HTTP status line"),
        _ => panic!("expected a status line error"),
    }
}

#[test]
fn test_parse_errors_on_non_numeric_status() {
    let data = b"HTTP/1.1 abc OK\r\n\r\n";
    match parse_http_response_zero_copy(data) {
        Err(Error::InvalidResponse(m)) => assert_eq!(m, "Invalid HTTP status code"),
        _ => panic!("expected a status code error"),
    }
}

#[test]
fn test_parse_errors_without_header_terminator() {
    let data = b"HTTP/1.1 200 OK\r\nContent-Type: text/plain\r\n";
    match parse_http_response_zero_copy(data) {
        Err(Error::InvalidResponse(m)) => assert_eq!(m, "Invalid HTTP response format"),
        _ => panic!("expected a format error"),
    }
}

#[test]
fn test_parse_errors_on_invalid_header_encoding() {
    let mut data: Vec<u8> = b"HTTP/1.1 200 OK\r\nX-Bin: ".to_vec();
    data.extend_from_slice(&[0xff, 0xfe]);
    data.extend_from_slice(b"\r\n\r\n");
    match parse_http_response_zero_copy(&data) {
        Err(Error::InvalidResponse(m)) => assert_eq!(m, "Invalid HTTP response encoding"),
        _ => panic!("expected an encoding error"),
    }
}

#[test]
fn test_parse_no_headers_at_all() {
    let data = b"HTTP/1.1 200 OK\r\n\r\n";
    let resp = parse_http_response_zero_copy(data).unwrap();
    assert_eq!(resp.status_code, StatusCode::OK);
    assert_eq!(resp.headers.len(), 0);
    assert!(matches!(resp.body, ResponseBody::Empty));
}

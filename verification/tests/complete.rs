use nanofish::complete::is_response_complete;

#[test]
fn test_is_response_complete_headers_only() {
    let data = b"HTTP/1.1 200 OK\r\nContent-Type: text/plain\r\n\r\n";
    assert!(is_response_complete(data));
}

#[test]
fn test_is_response_complete_with_content_length() {
    let data = b"HTTP/1.1 200 OK\r\nContent-Length: 5\r\n\r\nhello";
    assert!(is_response_complete(data));
}

#[test]
fn test_is_response_complete_incomplete() {
    let data = b"HTTP/1.1 200 OK\r\nContent-Length: 10\r\n\r\nshort";
    assert!(!is_response_complete(data));
}

#[test]
fn test_is_response_complete_no_terminator() {
    let data = b"HTTP/1.1 200 OK\r\nContent-Type: text/plain\r\n";
    assert!(!is_response_complete(data));
}

#[test]
fn test_is_response_complete_case_insensitive_length() {
    let data = b"HTTP/1.1 200 OK\r\ncontent-LENGTH: 4\r\n\r\nhi";
    assert!(!is_response_complete(data));
    let data = b"HTTP/1.1 200 OK\r\ncontent-LENGTH: 4\r\n\r\nhiya";
    assert!(is_response_complete(data));
}

#[test]
fn test_is_response_complete_unparsable_length() {
    // an unparsable length is ignored: the terminator alone decides
    let data = b"HTTP/1.1 200 OK\r\nContent-Length: many\r\n\r\n";
    assert!(is_response_complete(data));
}

#[test]
fn test_is_response_complete_excess_body() {
    let data = b"HTTP/1.1 200 OK\r\nContent-Length: 2\r\n\r\nhello";
    assert!(is_response_complete(data));
}

use nanofish::accumulate::{
    accum_on_event, accum_should_read, finish_accumulation, prepare_request, AccumAction,
    ReadEvent,
};
use nanofish::{Error, HttpMethod};

#[test]
fn test_first_read_closed_yields_no_response() {
    // a read of zero bytes on the very first attempt, with nothing
    // previously accumulated, fails the call with NoResponse
    let buffer = [0u8; 64];
    let step = accum_on_event(&buffer, 0, 5, ReadEvent::Closed);
    assert_eq!(step.filled, 0);
    assert_eq!(step.action, AccumAction::Stop);
    assert!(matches!(finish_accumulation(step.filled), Err(Error::NoResponse)));
}

#[test]
fn test_data_event_stops_on_complete_response() {
    let msg = b"HTTP/1.1 200 OK\r\nContent-Length: 2\r\n\r\nok";
    let mut buffer = [0u8; 128];
    buffer[..msg.len()].copy_from_slice(msg);
    let step = accum_on_event(&buffer, 0, 5, ReadEvent::Data(msg.len()));
    assert_eq!(step.filled, msg.len());
    assert_eq!(step.retries, 5);
    assert_eq!(step.action, AccumAction::Stop);
    assert_eq!(finish_accumulation(step.filled).unwrap(), msg.len());
}

#[test]
fn test_data_event_continues_on_partial_response() {
    let msg = b"HTTP/1.1 200 OK\r\nContent-Length: 10\r\n\r\nshort";
    let mut buffer = [0u8; 128];
    buffer[..msg.len()].copy_from_slice(msg);
    let step = accum_on_event(&buffer, 0, 5, ReadEvent::Data(msg.len()));
    assert_eq!(step.filled, msg.len());
    assert_eq!(step.action, AccumAction::Proceed);
}

#[test]
fn test_failed_read_consumes_retry_then_stops() {
    let buffer = [0u8; 16];
    let step = accum_on_event(&buffer, 4, 3, ReadEvent::Failed);
    assert_eq!(step.filled, 4);
    assert_eq!(step.retries, 2);
    assert_eq!(step.action, AccumAction::Wait);
    let step = accum_on_event(&buffer, 4, 1, ReadEvent::Failed);
    assert_eq!(step.retries, 0);
    assert_eq!(step.action, AccumAction::Stop);
    // what was accumulated is kept
    assert_eq!(finish_accumulation(step.filled).unwrap(), 4);
}

#[test]
fn test_should_read_guard() {
    assert!(accum_should_read(0, 5, 64));
    assert!(!accum_should_read(64, 5, 64));
    assert!(!accum_should_read(0, 0, 64));
}

#[test]
fn test_https_without_tls_fails_before_any_lookup() {
    // secure endpoint with secure transport disabled: refused outright
    let r = prepare_request(HttpMethod::GET, "https://example.com", &[], None, false);
    match r {
        Err(Error::UnsupportedScheme(m)) => assert_eq!(m, "https (TLS support not enabled)"),
        _ => panic!("expected an unsupported-scheme error"),
    }
}

#[test]
fn test_https_allowed_with_tls() {
    let p = prepare_request(HttpMethod::GET, "https://example.com/x", &[], None, true).unwrap();
    assert!(p.endpoint.secure);
    assert_eq!(p.endpoint.host, "example.com");
    assert_eq!(p.endpoint.port, 443);
    assert_eq!(
        nanofish::request::buffer_as_str(&p.head),
        "GET /x HTTP/1.1\r\nHost: example.com\r\nConnection: close\r\n\r\n"
    );
}

#[test]
fn test_prepare_rejects_bad_scheme() {
    let r = prepare_request(HttpMethod::GET, "ftp://example.com", &[], None, true);
    assert!(matches!(r, Err(Error::InvalidUrl)));
}

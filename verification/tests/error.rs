use nanofish::Error;

#[test]
fn test_error_display() {
    let e = Error::InvalidUrl;
    assert_eq!(e.message(), "Invalid URL");
    let e = Error::IpAddressEmpty;
    assert_eq!(e.message(), "No IP addresses returned by DNS");
    let e = Error::NoResponse;
    assert_eq!(e.message(), "No response received from server");
    let e = Error::InvalidResponse("bad");
    assert_eq!(e.message(), "Invalid response: bad");
    let e = Error::UnsupportedScheme("ftp");
    assert_eq!(e.message(), "Unsupported scheme: ftp");
    let e = Error::HeaderError("too long");
    assert_eq!(e.message(), "Header error: too long");
}

#[test]
fn test_error_messages_for_transport_kinds() {
    assert_eq!(Error::DnsError.message(), "DNS resolution failed");
    assert_eq!(
        Error::ConnectionError.message(),
        "Failed to establish TCP connection"
    );
    assert_eq!(Error::TcpError.message(), "TCP communication error");
    assert_eq!(Error::TlsError.message(), "TLS error occurred");
    assert_eq!(Error::BufferOverflow.message(), "Request buffer overflow");
    assert_eq!(Error::InvalidStatusCode.message(), "Invalid status code");
}

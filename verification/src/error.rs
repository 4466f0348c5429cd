use vstd::prelude::*;
use vstd::string::StringExecFns;

verus! {

/// Errors that can occur while preparing, exchanging or interpreting an HTTP
/// request.
///
/// The protocol engine itself only produces `InvalidUrl`, `UnsupportedScheme`,
/// `BufferOverflow`, `NoResponse`, `InvalidResponse` and `InvalidStatusCode`;
/// the remaining variants classify failures of the collaborators (resolver,
/// transport, secure layer) that a surrounding driver reports.
#[derive(Clone, Copy, Debug)]
pub enum Error {
    /// The provided URL was invalid or malformed.
    InvalidUrl,
    /// Name resolution failed.
    DnsError,
    /// Name resolution returned an empty address list.
    IpAddressEmpty,
    /// Establishing a connection failed.
    ConnectionError,
    /// The transport reported a read or write error.
    TcpError,
    /// No response bytes were received before the peer closed.
    NoResponse,
    /// The server's response could not be parsed.
    InvalidResponse(&'static str),
    /// The secure-transport handshake or record layer failed.
    TlsError,
    /// The requested scheme cannot be served.
    UnsupportedScheme(&'static str),
    /// Serializing the request would exceed the fixed request capacity.
    BufferOverflow,
    /// A status code could not be parsed from its text.
    InvalidStatusCode,
    /// A header was malformed, for example a name or value that is too long.
    HeaderError(&'static str),
}

impl Error {
    /// The error's description, as a character sequence.
    pub open spec fn spec_message(self) -> Seq<char> {
        match self {
            Error::InvalidUrl => "Invalid URL"@,
            Error::DnsError => "DNS resolution failed"@,
            Error::IpAddressEmpty => "No IP addresses returned by DNS"@,
            Error::ConnectionError => "Failed to establish TCP connection"@,
            Error::TcpError => "TCP communication error"@,
            Error::NoResponse => "No response received from server"@,
            Error::InvalidResponse(msg) => "Invalid response: "@ + msg@,
            Error::TlsError => "TLS error occurred"@,
            Error::UnsupportedScheme(scheme) => "Unsupported scheme: "@ + scheme@,
            Error::BufferOverflow => "Request buffer overflow"@,
            Error::InvalidStatusCode => "Invalid status code"@,
            Error::HeaderError(msg) => "Header error: "@ + msg@,
        }
    }

    /// A human-readable description of the error.
    pub fn message(&self) -> (r: String)
        ensures
            r@ == self.spec_message(),
    {
        match self {
            Error::InvalidUrl => String::from_str("Invalid URL"),
            Error::DnsError => String::from_str("DNS resolution failed"),
            Error::IpAddressEmpty => String::from_str("No IP addresses returned by DNS"),
            Error::ConnectionError => String::from_str("Failed to establish TCP connection"),
            Error::TcpError => String::from_str("TCP communication error"),
            Error::NoResponse => String::from_str("No response received from server"),
            Error::InvalidResponse(msg) => String::from_str("Invalid response: ").concat(msg),
            Error::TlsError => String::from_str("TLS error occurred"),
            Error::UnsupportedScheme(scheme) => String::from_str("Unsupported scheme: ").concat(
                scheme,
            ),
            Error::BufferOverflow => String::from_str("Request buffer overflow"),
            Error::InvalidStatusCode => String::from_str("Invalid status code"),
            Error::HeaderError(msg) => String::from_str("Header error: ").concat(msg),
        }
    }
}

} // verus!

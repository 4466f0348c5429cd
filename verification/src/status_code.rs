use crate::error::Error;
use crate::scan;
use vstd::prelude::*;
use vstd::string::StringSliceAdditionalSpecFns;

verus! {

/// HTTP/1.1 status codes, with a fallback variant for any other code.
#[derive(Debug, Clone, Copy, PartialEq, Eq, Structural)]
pub enum StatusCode {
    /// 100 Continue.
    Continue,
    /// 101 Switching Protocols.
    SwitchingProtocols,
    /// 200 OK.
    OK,
    /// 201 Created.
    Created,
    /// 202 Accepted.
    Accepted,
    /// 203 Non-Authoritative Information.
    NonAuthoritativeInformation,
    /// 204 No Content.
    NoContent,
    /// 205 Reset Content.
    ResetContent,
    /// 206 Partial Content.
    PartialContent,
    /// 300 Multiple Choices.
    MultipleChoices,
    /// 301 Moved Permanently.
    MovedPermanently,
    /// 302 Found.
    Found,
    /// 303 See Other.
    SeeOther,
    /// 304 Not Modified.
    NotModified,
    /// 305 Use Proxy.
    UseProxy,
    /// 307 Temporary Redirect.
    TemporaryRedirect,
    /// 400 Bad Request.
    BadRequest,
    /// 401 Unauthorized.
    Unauthorized,
    /// 402 Payment Required.
    PaymentRequired,
    /// 403 Forbidden.
    Forbidden,
    /// 404 Not Found.
    NotFound,
    /// 405 Method Not Allowed.
    MethodNotAllowed,
    /// 406 Not Acceptable.
    NotAcceptable,
    /// 407 Proxy Authentication Required.
    ProxyAuthenticationRequired,
    /// 408 Request Timeout.
    RequestTimeout,
    /// 409 Conflict.
    Conflict,
    /// 410 Gone.
    Gone,
    /// 411 Length Required.
    LengthRequired,
    /// 412 Precondition Failed.
    PreconditionFailed,
    /// 413 Request Entity Too Large.
    RequestEntityTooLarge,
    /// 414 Request-URI Too Long.
    RequestUriTooLong,
    /// 415 Unsupported Media Type.
    UnsupportedMediaType,
    /// 416 Requested Range Not Satisfiable.
    RequestedRangeNotSatisfiable,
    /// 417 Expectation Failed.
    ExpectationFailed,
    /// 500 Internal Server Error.
    InternalServerError,
    /// 501 Not Implemented.
    NotImplemented,
    /// 502 Bad Gateway.
    BadGateway,
    /// 503 Service Unavailable.
    ServiceUnavailable,
    /// 504 Gateway Timeout.
    GatewayTimeout,
    /// 505 HTTP Version Not Supported.
    HttpVersionNotSupported,
    /// Any other (unknown or non-standard) status code.
    Other(u16),
}

/// The status variant standing for the given numeric code: the named variant
/// where one exists, `Other` for everything else.
pub open spec fn spec_status_from(code: u16) -> StatusCode {
    match code {
        100u16 => StatusCode::Continue,
        101u16 => StatusCode::SwitchingProtocols,
        200u16 => StatusCode::OK,
        201u16 => StatusCode::Created,
        202u16 => StatusCode::Accepted,
        203u16 => StatusCode::NonAuthoritativeInformation,
        204u16 => StatusCode::NoContent,
        205u16 => StatusCode::ResetContent,
        206u16 => StatusCode::PartialContent,
        300u16 => StatusCode::MultipleChoices,
        301u16 => StatusCode::MovedPermanently,
        302u16 => StatusCode::Found,
        303u16 => StatusCode::SeeOther,
        304u16 => StatusCode::NotModified,
        305u16 => StatusCode::UseProxy,
        307u16 => StatusCode::TemporaryRedirect,
        400u16 => StatusCode::BadRequest,
        401u16 => StatusCode::Unauthorized,
        402u16 => StatusCode::PaymentRequired,
        403u16 => StatusCode::Forbidden,
        404u16 => StatusCode::NotFound,
        405u16 => StatusCode::MethodNotAllowed,
        406u16 => StatusCode::NotAcceptable,
        407u16 => StatusCode::ProxyAuthenticationRequired,
        408u16 => StatusCode::RequestTimeout,
        409u16 => StatusCode::Conflict,
        410u16 => StatusCode::Gone,
        411u16 => StatusCode::LengthRequired,
        412u16 => StatusCode::PreconditionFailed,
        413u16 => StatusCode::RequestEntityTooLarge,
        414u16 => StatusCode::RequestUriTooLong,
        415u16 => StatusCode::UnsupportedMediaType,
        416u16 => StatusCode::RequestedRangeNotSatisfiable,
        417u16 => StatusCode::ExpectationFailed,
        500u16 => StatusCode::InternalServerError,
        501u16 => StatusCode::NotImplemented,
        502u16 => StatusCode::BadGateway,
        503u16 => StatusCode::ServiceUnavailable,
        504u16 => StatusCode::GatewayTimeout,
        505u16 => StatusCode::HttpVersionNotSupported,
        other => StatusCode::Other(other),
    }
}

impl StatusCode {
    /// The numeric code the variant stands for.
    pub open spec fn spec_u16(self) -> u16 {
        match self {
            StatusCode::Continue => 100,
            StatusCode::SwitchingProtocols => 101,
            StatusCode::OK => 200,
            StatusCode::Created => 201,
            StatusCode::Accepted => 202,
            StatusCode::NonAuthoritativeInformation => 203,
            StatusCode::NoContent => 204,
            StatusCode::ResetContent => 205,
            StatusCode::PartialContent => 206,
            StatusCode::MultipleChoices => 300,
            StatusCode::MovedPermanently => 301,
            StatusCode::Found => 302,
            StatusCode::SeeOther => 303,
            StatusCode::NotModified => 304,
            StatusCode::UseProxy => 305,
            StatusCode::TemporaryRedirect => 307,
            StatusCode::BadRequest => 400,
            StatusCode::Unauthorized => 401,
            StatusCode::PaymentRequired => 402,
            StatusCode::Forbidden => 403,
            StatusCode::NotFound => 404,
            StatusCode::MethodNotAllowed => 405,
            StatusCode::NotAcceptable => 406,
            StatusCode::ProxyAuthenticationRequired => 407,
            StatusCode::RequestTimeout => 408,
            StatusCode::Conflict => 409,
            StatusCode::Gone => 410,
            StatusCode::LengthRequired => 411,
            StatusCode::PreconditionFailed => 412,
            StatusCode::RequestEntityTooLarge => 413,
            StatusCode::RequestUriTooLong => 414,
            StatusCode::UnsupportedMediaType => 415,
            StatusCode::RequestedRangeNotSatisfiable => 416,
            StatusCode::ExpectationFailed => 417,
            StatusCode::InternalServerError => 500,
            StatusCode::NotImplemented => 501,
            StatusCode::BadGateway => 502,
            StatusCode::ServiceUnavailable => 503,
            StatusCode::GatewayTimeout => 504,
            StatusCode::HttpVersionNotSupported => 505,
            StatusCode::Other(code) => code,
        }
    }

    /// The status code's standard reason text, as a character sequence.
    pub open spec fn spec_text(self) -> Seq<char> {
        match self {
            StatusCode::Continue => "Continue"@,
            StatusCode::SwitchingProtocols => "Switching Protocols"@,
            StatusCode::OK => "OK"@,
            StatusCode::Created => "Created"@,
            StatusCode::Accepted => "Accepted"@,
            StatusCode::NonAuthoritativeInformation => "Non-Authoritative Information"@,
            StatusCode::NoContent => "No Content"@,
            StatusCode::ResetContent => "Reset Content"@,
            StatusCode::PartialContent => "Partial Content"@,
            StatusCode::MultipleChoices => "Multiple Choices"@,
            StatusCode::MovedPermanently => "Moved Permanently"@,
            StatusCode::Found => "Found"@,
            StatusCode::SeeOther => "See Other"@,
            StatusCode::NotModified => "Not Modified"@,
            StatusCode::UseProxy => "Use Proxy"@,
            StatusCode::TemporaryRedirect => "Temporary Redirect"@,
            StatusCode::BadRequest => "Bad Request"@,
            StatusCode::Unauthorized => "Unauthorized"@,
            StatusCode::PaymentRequired => "Payment Required"@,
            StatusCode::Forbidden => "Forbidden"@,
            StatusCode::NotFound => "Not Found"@,
            StatusCode::MethodNotAllowed => "Method Not Allowed"@,
            StatusCode::NotAcceptable => "Not Acceptable"@,
            StatusCode::ProxyAuthenticationRequired => "Proxy Authentication Required"@,
            StatusCode::RequestTimeout => "Request Timeout"@,
            StatusCode::Conflict => "Conflict"@,
            StatusCode::Gone => "Gone"@,
            StatusCode::LengthRequired => "Length Required"@,
            StatusCode::PreconditionFailed => "Precondition Failed"@,
            StatusCode::RequestEntityTooLarge => "Request Entity Too Large"@,
            StatusCode::RequestUriTooLong => "Request-URI Too Long"@,
            StatusCode::UnsupportedMediaType => "Unsupported Media Type"@,
            StatusCode::RequestedRangeNotSatisfiable => "Requested Range Not Satisfiable"@,
            StatusCode::ExpectationFailed => "Expectation Failed"@,
            StatusCode::InternalServerError => "Internal Server Error"@,
            StatusCode::NotImplemented => "Not Implemented"@,
            StatusCode::BadGateway => "Bad Gateway"@,
            StatusCode::ServiceUnavailable => "Service Unavailable"@,
            StatusCode::GatewayTimeout => "Gateway Timeout"@,
            StatusCode::HttpVersionNotSupported => "HTTP Version Not Supported"@,
            StatusCode::Other(_) => "Other"@,
        }
    }

    /// Returns the numeric status code as u16.
    pub fn as_u16(self) -> (r: u16)
        ensures
            r == self.spec_u16(),
    {
        match self {
            StatusCode::Continue => 100,
            StatusCode::SwitchingProtocols => 101,
            StatusCode::OK => 200,
            StatusCode::Created => 201,
            StatusCode::Accepted => 202,
            StatusCode::NonAuthoritativeInformation => 203,
            StatusCode::NoContent => 204,
            StatusCode::ResetContent => 205,
            StatusCode::PartialContent => 206,
            StatusCode::MultipleChoices => 300,
            StatusCode::MovedPermanently => 301,
            StatusCode::Found => 302,
            StatusCode::SeeOther => 303,
            StatusCode::NotModified => 304,
            StatusCode::UseProxy => 305,
            StatusCode::TemporaryRedirect => 307,
            StatusCode::BadRequest => 400,
            StatusCode::Unauthorized => 401,
            StatusCode::PaymentRequired => 402,
            StatusCode::Forbidden => 403,
            StatusCode::NotFound => 404,
            StatusCode::MethodNotAllowed => 405,
            StatusCode::NotAcceptable => 406,
            StatusCode::ProxyAuthenticationRequired => 407,
            StatusCode::RequestTimeout => 408,
            StatusCode::Conflict => 409,
            StatusCode::Gone => 410,
            StatusCode::LengthRequired => 411,
            StatusCode::PreconditionFailed => 412,
            StatusCode::RequestEntityTooLarge => 413,
            StatusCode::RequestUriTooLong => 414,
            StatusCode::UnsupportedMediaType => 415,
            StatusCode::RequestedRangeNotSatisfiable => 416,
            StatusCode::ExpectationFailed => 417,
            StatusCode::InternalServerError => 500,
            StatusCode::NotImplemented => 501,
            StatusCode::BadGateway => 502,
            StatusCode::ServiceUnavailable => 503,
            StatusCode::GatewayTimeout => 504,
            StatusCode::HttpVersionNotSupported => 505,
            StatusCode::Other(code) => code,
        }
    }

    /// Returns the status code's standard reason text.
    pub fn text(self) -> (r: &'static str)
        ensures
            r@ == self.spec_text(),
    {
        match self {
            StatusCode::Continue => "Continue",
            StatusCode::SwitchingProtocols => "Switching Protocols",
            StatusCode::OK => "OK",
            StatusCode::Created => "Created",
            StatusCode::Accepted => "Accepted",
            StatusCode::NonAuthoritativeInformation => "Non-Authoritative Information",
            StatusCode::NoContent => "No Content",
            StatusCode::ResetContent => "Reset Content",
            StatusCode::PartialContent => "Partial Content",
            StatusCode::MultipleChoices => "Multiple Choices",
            StatusCode::MovedPermanently => "Moved Permanently",
            StatusCode::Found => "Found",
            StatusCode::SeeOther => "See Other",
            StatusCode::NotModified => "Not Modified",
            StatusCode::UseProxy => "Use Proxy",
            StatusCode::TemporaryRedirect => "Temporary Redirect",
            StatusCode::BadRequest => "Bad Request",
            StatusCode::Unauthorized => "Unauthorized",
            StatusCode::PaymentRequired => "Payment Required",
            StatusCode::Forbidden => "Forbidden",
            StatusCode::NotFound => "Not Found",
            StatusCode::MethodNotAllowed => "Method Not Allowed",
            StatusCode::NotAcceptable => "Not Acceptable",
            StatusCode::ProxyAuthenticationRequired => "Proxy Authentication Required",
            StatusCode::RequestTimeout => "Request Timeout",
            StatusCode::Conflict => "Conflict",
            StatusCode::Gone => "Gone",
            StatusCode::LengthRequired => "Length Required",
            StatusCode::PreconditionFailed => "Precondition Failed",
            StatusCode::RequestEntityTooLarge => "Request Entity Too Large",
            StatusCode::RequestUriTooLong => "Request-URI Too Long",
            StatusCode::UnsupportedMediaType => "Unsupported Media Type",
            StatusCode::RequestedRangeNotSatisfiable => "Requested Range Not Satisfiable",
            StatusCode::ExpectationFailed => "Expectation Failed",
            StatusCode::InternalServerError => "Internal Server Error",
            StatusCode::NotImplemented => "Not Implemented",
            StatusCode::BadGateway => "Bad Gateway",
            StatusCode::ServiceUnavailable => "Service Unavailable",
            StatusCode::GatewayTimeout => "Gateway Timeout",
            StatusCode::HttpVersionNotSupported => "HTTP Version Not Supported",
            StatusCode::Other(_) => "Other",
        }
    }

    /// Check if the status code indicates success (2xx status codes).
    pub fn is_success(self) -> (r: bool)
        ensures
            r == (200 <= self.spec_u16() < 300),
    {
        let code = self.as_u16();
        200 <= code && code < 300
    }

    /// Check if the status code is a client error (4xx status codes).
    pub fn is_client_error(self) -> (r: bool)
        ensures
            r == (400 <= self.spec_u16() < 500),
    {
        let code = self.as_u16();
        400 <= code && code < 500
    }

    /// Check if the status code is a server error (5xx status codes).
    pub fn is_server_error(self) -> (r: bool)
        ensures
            r == (500 <= self.spec_u16() < 600),
    {
        let code = self.as_u16();
        500 <= code && code < 600
    }

    /// Parse a status code from its decimal text, for example `"200"`.
    ///
    /// Fails with `InvalidStatusCode` exactly when the text is not a decimal
    /// number that fits in 16 bits.
    pub fn parse_code(value: &str) -> (r: Result<StatusCode, Error>)
        ensures
            match r {
                Ok(code) => {
                    &&& scan::spec_parse_u16(value.spec_bytes()) matches Some(n)
                    &&& code == spec_status_from(n)
                },
                Err(e) => {
                    &&& scan::spec_parse_u16(value.spec_bytes()) is None
                    &&& e == Error::InvalidStatusCode
                },
            },
    {
        match scan::parse_u16(value.as_bytes()) {
            Some(n) => Ok(StatusCode::from_u16(n)),
            None => Err(Error::InvalidStatusCode),
        }
    }

    /// The status variant standing for the given numeric code.
    pub fn from_u16(code: u16) -> (r: StatusCode)
        ensures
            r == spec_status_from(code),
    {
        match code {
            100 => StatusCode::Continue,
            101 => StatusCode::SwitchingProtocols,
            200 => StatusCode::OK,
            201 => StatusCode::Created,
            202 => StatusCode::Accepted,
            203 => StatusCode::NonAuthoritativeInformation,
            204 => StatusCode::NoContent,
            205 => StatusCode::ResetContent,
            206 => StatusCode::PartialContent,
            300 => StatusCode::MultipleChoices,
            301 => StatusCode::MovedPermanently,
            302 => StatusCode::Found,
            303 => StatusCode::SeeOther,
            304 => StatusCode::NotModified,
            305 => StatusCode::UseProxy,
            307 => StatusCode::TemporaryRedirect,
            400 => StatusCode::BadRequest,
            401 => StatusCode::Unauthorized,
            402 => StatusCode::PaymentRequired,
            403 => StatusCode::Forbidden,
            404 => StatusCode::NotFound,
            405 => StatusCode::MethodNotAllowed,
            406 => StatusCode::NotAcceptable,
            407 => StatusCode::ProxyAuthenticationRequired,
            408 => StatusCode::RequestTimeout,
            409 => StatusCode::Conflict,
            410 => StatusCode::Gone,
            411 => StatusCode::LengthRequired,
            412 => StatusCode::PreconditionFailed,
            413 => StatusCode::RequestEntityTooLarge,
            414 => StatusCode::RequestUriTooLong,
            415 => StatusCode::UnsupportedMediaType,
            416 => StatusCode::RequestedRangeNotSatisfiable,
            417 => StatusCode::ExpectationFailed,
            500 => StatusCode::InternalServerError,
            501 => StatusCode::NotImplemented,
            502 => StatusCode::BadGateway,
            503 => StatusCode::ServiceUnavailable,
            504 => StatusCode::GatewayTimeout,
            505 => StatusCode::HttpVersionNotSupported,
            other => StatusCode::Other(other),
        }
    }
}

impl From<u16> for StatusCode {
    /// Maps a numeric code to its variant; unknown codes become `Other`.
    fn from(code: u16) -> (r: StatusCode)
        ensures
            r == spec_status_from(code),
    {
        StatusCode::from_u16(code)
    }
}

impl vstd::std_specs::convert::FromSpecImpl<u16> for StatusCode {
    open spec fn obeys_from_spec() -> bool {
        true
    }

    open spec fn from_spec(code: u16) -> StatusCode {
        spec_status_from(code)
    }
}

/// The variant chosen for a numeric code stands for that same code.
pub proof fn lemma_status_round_trip(code: u16)
    ensures
        spec_status_from(code).spec_u16() == code,
{
}

} // verus!

use vstd::prelude::*;

verus! {

/// HTTP methods supported by the client.
///
/// The wire token of each method is identical to its name.
#[derive(Clone, Copy, Debug, PartialEq, Eq, Structural)]
pub enum HttpMethod {
    /// The GET method requests a representation of the specified resource.
    GET,
    /// The POST method submits an entity to the specified resource.
    POST,
    /// The PUT method replaces the target resource with the request payload.
    PUT,
    /// The DELETE method deletes the specified resource.
    DELETE,
    /// The PATCH method applies partial modifications to a resource.
    PATCH,
    /// The CONNECT method establishes a tunnel to the target server.
    CONNECT,
    /// The OPTIONS method describes the communication options for the target.
    OPTIONS,
    /// The TRACE method performs a message loop-back test.
    TRACE,
    /// The HEAD method asks for a GET response without the response body.
    HEAD,
}

impl HttpMethod {
    /// The method's wire token, as a character sequence.
    pub open spec fn spec_str(self) -> Seq<char> {
        match self {
            HttpMethod::GET => "GET"@,
            HttpMethod::POST => "POST"@,
            HttpMethod::PUT => "PUT"@,
            HttpMethod::DELETE => "DELETE"@,
            HttpMethod::PATCH => "PATCH"@,
            HttpMethod::CONNECT => "CONNECT"@,
            HttpMethod::OPTIONS => "OPTIONS"@,
            HttpMethod::TRACE => "TRACE"@,
            HttpMethod::HEAD => "HEAD"@,
        }
    }

    /// Returns the string representation of the HTTP method.
    pub fn as_str(self) -> (r: &'static str)
        ensures
            r@ == self.spec_str(),
    {
        match self {
            HttpMethod::GET => "GET",
            HttpMethod::POST => "POST",
            HttpMethod::PUT => "PUT",
            HttpMethod::DELETE => "DELETE",
            HttpMethod::PATCH => "PATCH",
            HttpMethod::CONNECT => "CONNECT",
            HttpMethod::OPTIONS => "OPTIONS",
            HttpMethod::TRACE => "TRACE",
            HttpMethod::HEAD => "HEAD",
        }
    }
}

} // verus!

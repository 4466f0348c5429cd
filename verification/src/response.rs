//! The structured response: status code, bounded header list, and a body
//! classified as text, binary or empty.
//!
//! Header and body fields borrow directly from the buffer the response was
//! parsed out of, so a response must not outlive that buffer; the borrow
//! checker enforces this.

use crate::header::{spec_pairs, HttpHeader};
use crate::scan;
use crate::status_code::StatusCode;
use vstd::prelude::*;
use vstd::string::StringSliceAdditionalSpecFns;
use vstd::utf8::valid_utf8;

verus! {

/// An HTTP response body: UTF-8 text, raw bytes, or nothing.
#[derive(Debug)]
pub enum ResponseBody<'a> {
    /// Text content (UTF-8 encoded), borrowed from the response buffer.
    Text(&'a str),
    /// Binary content (raw bytes), borrowed from the response buffer.
    Binary(&'a [u8]),
    /// Empty body (e.g., for HEAD requests or 204 No Content).
    Empty,
}

impl<'a> ResponseBody<'a> {
    /// The bytes the body stands for.
    pub open spec fn spec_bytes(self) -> Seq<u8> {
        match self {
            ResponseBody::Text(s) => s.spec_bytes(),
            ResponseBody::Binary(b) => b@,
            ResponseBody::Empty => Seq::empty(),
        }
    }

    /// Try to view the body as a UTF-8 string: text is returned as it is, a
    /// binary body is decoded if its bytes are valid UTF-8, and an empty
    /// body yields the empty string.
    pub fn as_str(&self) -> (r: Option<&str>)
        ensures
            match self {
                ResponseBody::Text(s) => r == Some(*s),
                ResponseBody::Binary(b) => (r is Some <==> valid_utf8(b@)) && (r matches Some(s)
                    ==> s.spec_bytes() == b@),
                ResponseBody::Empty => r matches Some(s) && s.spec_bytes() =~= Seq::<u8>::empty(),
            },
    {
        match self {
            ResponseBody::Text(s) => Some(s),
            ResponseBody::Binary(bytes) => scan::bytes_as_str(bytes),
            ResponseBody::Empty => {
                proof {
                    reveal_strlit("");
                }
                Some("")
            },
        }
    }

    /// The body as raw bytes.
    pub fn as_bytes(&self) -> (r: &[u8])
        ensures
            r@ == self.spec_bytes(),
    {
        match self {
            ResponseBody::Text(s) => s.as_bytes(),
            ResponseBody::Binary(bytes) => bytes,
            ResponseBody::Empty => &[],
        }
    }

    /// Whether the body holds no bytes.
    pub fn is_empty(&self) -> (r: bool)
        ensures
            r == (self.spec_bytes().len() == 0),
    {
        match self {
            ResponseBody::Text(s) => s.as_bytes().len() == 0,
            ResponseBody::Binary(bytes) => bytes.len() == 0,
            ResponseBody::Empty => true,
        }
    }

    /// The length of the body in bytes.
    pub fn len(&self) -> (r: usize)
        ensures
            r == self.spec_bytes().len(),
    {
        match self {
            ResponseBody::Text(s) => s.as_bytes().len(),
            ResponseBody::Binary(bytes) => bytes.len(),
            ResponseBody::Empty => 0,
        }
    }
}

/// The value of the first header whose name equals `name` up to ASCII case.
pub open spec fn spec_find_header(pairs: Seq<(Seq<u8>, Seq<u8>)>, name: Seq<u8>) -> Option<
    Seq<u8>,
>
    decreases pairs.len(),
{
    if pairs.len() == 0 {
        None
    } else if scan::lower(pairs[0].0) == scan::lower(name) {
        Some(pairs[0].1)
    } else {
        spec_find_header(pairs.drop_first(), name)
    }
}

/// The value of the first header of the slice whose name matches `name`
/// ASCII case-insensitively, if any.
pub fn find_header_value<'h>(headers: &'h [HttpHeader<'_>], name: &[u8]) -> (r: Option<&'h str>)
    ensures
        match r {
            Some(v) => spec_find_header(spec_pairs(headers@), name@) == Some(v.spec_bytes()),
            None => spec_find_header(spec_pairs(headers@), name@) is None,
        },
{
    let mut i: usize = 0;
    let hl = headers.len();
    proof {
        assert(headers@.subrange(0, hl as int) =~= headers@);
    }
    while i < hl
        invariant
            i <= hl,
            hl == headers@.len(),
            spec_find_header(spec_pairs(headers@), name@) == spec_find_header(
                spec_pairs(headers@.subrange(i as int, hl as int)),
                name@,
            ),
        decreases hl - i,
    {
        let h = &headers[i];
        proof {
            let tail = headers@.subrange(i as int, hl as int);
            assert(spec_pairs(tail)[0] == headers@[i as int].spec_pair());
            assert(spec_pairs(tail).drop_first() =~= spec_pairs(
                headers@.subrange(i + 1, hl as int),
            ));
        }
        if scan::eq_ci(h.name.as_bytes(), name) {
            return Some(h.value);
        }
        i += 1;
    }
    proof {
        assert(spec_pairs(headers@.subrange(hl as int, hl as int)).len() == 0);
    }
    None
}

/// An HTTP response: status code, up to 16 headers in arrival order, and a
/// classified body, all borrowing from the response buffer.
pub struct HttpResponse<'a> {
    /// The HTTP status code (e.g., 200 for OK, 404 for Not Found).
    pub status_code: StatusCode,
    /// The response headers, in arrival order; at most 16 are retained.
    pub headers: Vec<HttpHeader<'a>>,
    /// The response body.
    pub body: ResponseBody<'a>,
}

impl<'a> HttpResponse<'a> {
    /// The headers fit the fixed capacity of 16 entries.
    pub open spec fn wf(self) -> bool {
        self.headers@.len() <= 16
    }

    /// Get a header value by name (ASCII case-insensitive).
    pub fn get_header(&self, name: &str) -> (r: Option<&str>)
        ensures
            match r {
                Some(v) => spec_find_header(spec_pairs(self.headers@), name.spec_bytes()) == Some(
                    v.spec_bytes(),
                ),
                None => spec_find_header(spec_pairs(self.headers@), name.spec_bytes()) is None,
            },
    {
        find_header_value(self.headers.as_slice(), name.as_bytes())
    }

    /// Get the Content-Type header value.
    pub fn content_type(&self) -> (r: Option<&str>)
        ensures
            match r {
                Some(v) => spec_find_header(spec_pairs(self.headers@), "Content-Type".spec_bytes())
                    == Some(v.spec_bytes()),
                None => spec_find_header(spec_pairs(self.headers@), "Content-Type".spec_bytes())
                    is None,
            },
    {
        self.get_header("Content-Type")
    }

    /// Get the Content-Length header value as a number, when the header is
    /// present and its value is a decimal number that fits in `usize`.
    pub fn content_length(&self) -> (r: Option<usize>)
        ensures
            r == match spec_find_header(
                spec_pairs(self.headers@),
                "Content-Length".spec_bytes(),
            ) {
                Some(v) => scan::spec_parse_usize(v),
                None => None::<usize>,
            },
    {
        match self.get_header("Content-Length") {
            Some(v) => scan::parse_usize(v.as_bytes()),
            None => None,
        }
    }

    /// Check if the response indicates success (2xx status codes).
    pub fn is_success(&self) -> (r: bool)
        ensures
            r == (200 <= self.status_code.spec_u16() < 300),
    {
        self.status_code.is_success()
    }

    /// Check if the response is a client error (4xx status codes).
    pub fn is_client_error(&self) -> (r: bool)
        ensures
            r == (400 <= self.status_code.spec_u16() < 500),
    {
        self.status_code.is_client_error()
    }

    /// Check if the response is a server error (5xx status codes).
    pub fn is_server_error(&self) -> (r: bool)
        ensures
            r == (500 <= self.status_code.spec_u16() < 600),
    {
        self.status_code.is_server_error()
    }
}

} // verus!

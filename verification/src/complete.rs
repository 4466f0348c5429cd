//! The completeness predicate: the rule deciding whether enough bytes have
//! been read to consider an HTTP response fully received.
//!
//! A response is complete once the header terminator `"\r\n\r\n"` has
//! arrived and, if the bytes before the terminator contain a parsable
//! `Content-Length:` (matched ASCII case-insensitively), at least that many
//! bytes follow the terminator.  Without a parsable length the terminator
//! alone counts as complete; chunked transfer encoding is not recognized.

use crate::scan;
use vstd::array::array_as_slice;
use vstd::prelude::*;
use vstd::slice::slice_subrange;

verus! {

/// The line terminator `"\r\n"`.
pub open spec fn crlf() -> Seq<u8> {
    seq![13u8, 10u8]
}

/// The header-block terminator `"\r\n\r\n"`.
pub open spec fn crlf2() -> Seq<u8> {
    seq![13u8, 10u8, 13u8, 10u8]
}

/// The bytes of `"content-length:"`.
pub open spec fn content_length_name() -> Seq<u8> {
    seq![99u8, 111u8, 110u8, 116u8, 101u8, 110u8, 116u8, 45u8, 108u8, 101u8, 110u8, 103u8, 116u8, 104u8, 58u8]
}

/// The index of the first header-block terminator, if one has arrived.
pub open spec fn spec_header_end(data: Seq<u8>) -> Option<int> {
    scan::find(data, crlf2())
}

/// The declared content length: the value of the first (case-insensitive)
/// `Content-Length:` occurring before the header terminator at `h`, taken up
/// to the next line terminator and trimmed.  `None` when no such field
/// occurs or its value is not a decimal number that fits in `usize`.
pub open spec fn spec_content_length(data: Seq<u8>, h: int) -> Option<usize>
    recommends
        0 <= h <= data.len(),
{
    match scan::find(scan::lower(data.subrange(0, h)), scan::lower(content_length_name())) {
        None => None,
        Some(p) => {
            let vstart = p + content_length_name().len();
            match scan::find(data.subrange(vstart, data.len() as int), crlf()) {
                None => None,
                Some(ve) => scan::spec_parse_usize(
                    scan::trim(data.subrange(vstart, vstart + ve)),
                ),
            }
        },
    }
}

/// Whether the accumulated bytes form a complete response.
pub open spec fn spec_is_complete(data: Seq<u8>) -> bool {
    match spec_header_end(data) {
        None => false,
        Some(h) => match spec_content_length(data, h) {
            None => true,
            Some(cl) => data.len() - (h + 4) >= cl,
        },
    }
}

/// Check if an accumulated HTTP response is complete.
pub fn is_response_complete(data: &[u8]) -> (r: bool)
    ensures
        r == spec_is_complete(data@),
{
    let term: [u8; 4] = [13u8, 10u8, 13u8, 10u8];
    proof {
        assert(term@ =~= crlf2());
    }
    let he = match scan::find_sub(data, array_as_slice(&term)) {
        Some(h) => h,
        None => {
            return false;
        },
    };
    proof {
        scan::lemma_find_from(data@, crlf2(), 0);
    }
    let region = slice_subrange(data, 0, he);
    let cl_name: [u8; 15] = [
        99u8,
        111u8,
        110u8,
        116u8,
        101u8,
        110u8,
        116u8,
        45u8,
        108u8,
        101u8,
        110u8,
        103u8,
        116u8,
        104u8,
        58u8,
    ];
    proof {
        assert(cl_name@ =~= content_length_name());
    }
    let p = match scan::find_sub_ci(region, array_as_slice(&cl_name)) {
        Some(p) => p,
        None => {
            return true;
        },
    };
    proof {
        scan::lemma_find_from(scan::lower(region@), scan::lower(content_length_name()), 0);
    }
    let vstart = p + 15;
    let rest = slice_subrange(data, vstart, data.len());
    let line_end: [u8; 2] = [13u8, 10u8];
    proof {
        assert(line_end@ =~= crlf());
    }
    let ve = match scan::find_sub(rest, array_as_slice(&line_end)) {
        Some(v) => v,
        None => {
            return true;
        },
    };
    proof {
        scan::lemma_find_from(rest@, crlf(), 0);
        assert(rest@.subrange(0, ve as int) =~= data@.subrange(
            vstart as int,
            vstart + ve as int,
        ));
    }
    let value = scan::trim_slice(slice_subrange(rest, 0, ve));
    match scan::parse_usize(value) {
        None => true,
        Some(cl) => data.len() - (he + 4) >= cl,
    }
}

/// With a terminator at `h` and a parsable `Content-Length` of `cl`, the
/// response is complete exactly when at least `cl` bytes follow the
/// terminator; without a parsable length the terminator alone suffices.
pub proof fn lemma_completeness(data: Seq<u8>, h: int)
    requires
        spec_header_end(data) == Some(h),
    ensures
        match spec_content_length(data, h) {
            Some(cl) => spec_is_complete(data) == (data.len() - (h + 4) >= cl),
            None => spec_is_complete(data),
        },
{
}

/// Without a header terminator, no byte sequence counts as complete.
pub proof fn lemma_incomplete_without_terminator(data: Seq<u8>)
    requires
        spec_header_end(data) is None,
    ensures
        !spec_is_complete(data),
{
}

} // verus!

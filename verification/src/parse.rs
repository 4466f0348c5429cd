//! Response parsing and body classification.
//!
//! The status line is the text up to the first `"\r\n"`; its second
//! whitespace-delimited token is the status code.  The header block is the
//! text between the status line and the first `"\r\n\r\n"`, split on line
//! terminators; each line with a `:` yields a header (name and value
//! trimmed), lines without one are skipped, and only the first 16 headers
//! are retained, silently.  The body is everything after the terminator.
//!
//! UTF-8 validation covers the retained header names and values; the body
//! segment is validated only to classify it, falling back to `Binary`, so a
//! genuinely binary payload still parses.

use crate::complete::{crlf, crlf2};
use crate::error::Error;
use crate::header::{spec_pairs, HttpHeader};
use crate::response::{find_header_value, spec_find_header, HttpResponse, ResponseBody};
use crate::scan;
use crate::status_code::{spec_status_from, StatusCode};
use vstd::array::array_as_slice;
use vstd::prelude::*;
use vstd::slice::slice_subrange;
use vstd::string::StringSliceAdditionalSpecFns;
use vstd::utf8::{encode_utf8_valid_utf8, valid_utf8};

verus! {

/// The first index at or after `i` holding no whitespace, or the end.
pub open spec fn skip_ws(s: Seq<u8>, i: int) -> int
    decreases s.len() - i,
    when 0 <= i <= s.len()
{
    if i < s.len() && scan::is_ws(s[i]) {
        skip_ws(s, i + 1)
    } else {
        i
    }
}

/// The first index at or after `i` holding whitespace, or the end.
pub open spec fn skip_token(s: Seq<u8>, i: int) -> int
    decreases s.len() - i,
    when 0 <= i <= s.len()
{
    if i < s.len() && !scan::is_ws(s[i]) {
        skip_token(s, i + 1)
    } else {
        i
    }
}

/// The second whitespace-delimited token of `s`, when `s` has two tokens.
pub open spec fn spec_second_token(s: Seq<u8>) -> Option<Seq<u8>> {
    let t1s = skip_ws(s, 0);
    let t1e = skip_token(s, t1s);
    let t2s = skip_ws(s, t1e);
    if t2s < s.len() {
        Some(s.subrange(t2s, skip_token(s, t2s)))
    } else {
        None
    }
}

fn skip_ws_exec(s: &[u8], from: usize) -> (r: usize)
    requires
        from <= s@.len(),
    ensures
        from <= r <= s@.len(),
        r == skip_ws(s@, from as int),
{
    let sl = s.len();
    let mut j = from;
    while j < sl && scan::is_ws_u8(s[j])
        invariant
            from <= j <= sl,
            sl == s@.len(),
            skip_ws(s@, from as int) == skip_ws(s@, j as int),
        decreases sl - j,
    {
        j += 1;
    }
    j
}

fn skip_token_exec(s: &[u8], from: usize) -> (r: usize)
    requires
        from <= s@.len(),
    ensures
        from <= r <= s@.len(),
        r == skip_token(s@, from as int),
{
    let sl = s.len();
    let mut j = from;
    while j < sl && !scan::is_ws_u8(s[j])
        invariant
            from <= j <= sl,
            sl == s@.len(),
            skip_token(s@, from as int) == skip_token(s@, j as int),
        decreases sl - j,
    {
        j += 1;
    }
    j
}

fn second_token<'x>(line: &'x [u8]) -> (r: Option<&'x [u8]>)
    ensures
        match r {
            Some(t) => spec_second_token(line@) == Some(t@),
            None => spec_second_token(line@) is None,
        },
{
    let t1s = skip_ws_exec(line, 0);
    let t1e = skip_token_exec(line, t1s);
    let t2s = skip_ws_exec(line, t1e);
    if t2s < line.len() {
        let t2e = skip_token_exec(line, t2s);
        Some(slice_subrange(line, t2s, t2e))
    } else {
        None
    }
}

/// The header field of one line: the text before the first `:` and the text
/// after it, both trimmed; a line without a `:` yields nothing.
pub open spec fn spec_line_field(line: Seq<u8>) -> Seq<(Seq<u8>, Seq<u8>)> {
    match scan::find(line, seq![58u8]) {
        Some(c) => if 0 <= c && c + 1 <= line.len() {
            seq![
                (
                    scan::trim(line.subrange(0, c)),
                    scan::trim(line.subrange(c + 1, line.len() as int)),
                ),
            ]
        } else {
            Seq::empty()
        },
        None => Seq::empty(),
    }
}

/// All header fields of a block, line by line, in order.
pub open spec fn spec_header_fields(block: Seq<u8>) -> Seq<(Seq<u8>, Seq<u8>)>
    decreases block.len(),
{
    if block.len() == 0 {
        Seq::empty()
    } else {
        match scan::find(block, crlf()) {
            Some(e) => if 0 <= e && e + 2 <= block.len() {
                spec_line_field(block.subrange(0, e)) + spec_header_fields(
                    block.subrange(e + 2, block.len() as int),
                )
            } else {
                spec_line_field(block)
            },
            None => spec_line_field(block),
        }
    }
}

/// The fields the parser retains: all of them, up to the capacity of 16.
pub open spec fn spec_retained(fields: Seq<(Seq<u8>, Seq<u8>)>) -> Seq<(Seq<u8>, Seq<u8>)> {
    if fields.len() <= 16 {
        fields
    } else {
        fields.take(16)
    }
}

/// Every retained field holds UTF-8 text in its name and value.
pub open spec fn spec_fields_ok(fields: Seq<(Seq<u8>, Seq<u8>)>) -> bool {
    forall|i: int|
        0 <= i < spec_retained(fields).len() ==> valid_utf8(#[trigger] spec_retained(fields)[i].0)
            && valid_utf8(spec_retained(fields)[i].1)
}

/// The header block: what lies between the status line ending at `sl` and
/// the terminator at `h`; empty when the status line's own terminator is
/// the header terminator.
pub open spec fn spec_section(data: Seq<u8>, sl: int, h: int) -> Seq<u8> {
    if sl + 2 <= h {
        data.subrange(sl + 2, h)
    } else {
        Seq::empty()
    }
}

/// Content types whose bodies are treated as text.
pub open spec fn spec_is_text_content_type(ct: Seq<u8>) -> bool {
    ||| scan::has_prefix(ct, "text/".spec_bytes())
    ||| scan::has_prefix(ct, "application/json".spec_bytes())
    ||| scan::has_prefix(ct, "application/xml".spec_bytes())
    ||| scan::has_prefix(ct, "application/x-www-form-urlencoded".spec_bytes())
}

/// Whether a nonempty body is classified as text: a textual (or absent)
/// content type, and bytes that decode as UTF-8.
pub open spec fn spec_body_is_text(ct: Option<Seq<u8>>, body: Seq<u8>) -> bool {
    match ct {
        Some(c) => spec_is_text_content_type(c) && valid_utf8(body),
        None => valid_utf8(body),
    }
}

/// How a body is classified, given the response's content type: `Empty` for
/// no bytes, `Text` viewing exactly the body bytes when they count as text,
/// `Binary` viewing exactly the body bytes otherwise.
pub open spec fn spec_classified(ct: Option<Seq<u8>>, body: Seq<u8>, r: ResponseBody) -> bool {
    match r {
        ResponseBody::Empty => body.len() == 0,
        ResponseBody::Text(s) => body.len() > 0 && spec_body_is_text(ct, body) && s.spec_bytes()
            == body,
        ResponseBody::Binary(b) => body.len() > 0 && !spec_body_is_text(ct, body) && b@ == body,
    }
}

/// Check if a content type indicates text content.
pub fn is_text_content_type(content_type: &str) -> (r: bool)
    ensures
        r == spec_is_text_content_type(content_type.spec_bytes()),
{
    let b = content_type.as_bytes();
    scan::has_prefix_exec(b, "text/".as_bytes()) || scan::has_prefix_exec(
        b,
        "application/json".as_bytes(),
    ) || scan::has_prefix_exec(b, "application/xml".as_bytes()) || scan::has_prefix_exec(
        b,
        "application/x-www-form-urlencoded".as_bytes(),
    )
}

/// Get the content type from a header slice (ASCII case-insensitive).
pub fn get_content_type<'h>(headers: &'h [HttpHeader<'_>]) -> (r: Option<&'h str>)
    ensures
        match r {
            Some(v) => spec_find_header(spec_pairs(headers@), "Content-Type".spec_bytes()) == Some(
                v.spec_bytes(),
            ),
            None => spec_find_header(spec_pairs(headers@), "Content-Type".spec_bytes()) is None,
        },
{
    find_header_value(headers, "Content-Type".as_bytes())
}

/// Try to view a nonempty body as text, falling back to binary when its
/// bytes are not valid UTF-8.
pub fn parse_as_text_or_binary(body_data: &[u8]) -> (r: ResponseBody<'_>)
    requires
        body_data@.len() > 0,
    ensures
        match r {
            ResponseBody::Text(s) => valid_utf8(body_data@) && s.spec_bytes() == body_data@,
            ResponseBody::Binary(b) => !valid_utf8(body_data@) && b@ == body_data@,
            ResponseBody::Empty => false,
        },
{
    match scan::bytes_as_str(body_data) {
        Some(s) => ResponseBody::Text(s),
        None => ResponseBody::Binary(body_data),
    }
}

/// Classify a body by the response's content type and its own bytes.
pub fn parse_response_body<'b>(headers: &[HttpHeader<'_>], body_data: &'b [u8]) -> (r:
    ResponseBody<'b>)
    ensures
        spec_classified(
            spec_find_header(spec_pairs(headers@), "Content-Type".spec_bytes()),
            body_data@,
            r,
        ),
{
    if body_data.len() == 0 {
        return ResponseBody::Empty;
    }
    match get_content_type(headers) {
        Some(content_type) => {
            if is_text_content_type(content_type) {
                parse_as_text_or_binary(body_data)
            } else {
                ResponseBody::Binary(body_data)
            }
        },
        None => parse_as_text_or_binary(body_data),
    }
}

/// Whether the buffer parses as a response: a status line terminator, a
/// second token that reads as a 16-bit number, a header terminator, and
/// UTF-8 text in every retained header field.
pub open spec fn spec_parse_ok(data: Seq<u8>) -> bool {
    match scan::find(data, crlf()) {
        None => false,
        Some(sl) => match spec_second_token(data.subrange(0, sl)) {
            None => false,
            Some(tok) => scan::spec_parse_u16(tok) is Some && match scan::find(data, crlf2()) {
                None => false,
                Some(h) => spec_fields_ok(spec_header_fields(spec_section(data, sl, h))),
            },
        },
    }
}

/// The message of the error a malformed buffer is rejected with.
pub open spec fn spec_parse_err_msg(data: Seq<u8>) -> Seq<char> {
    match scan::find(data, crlf()) {
        None => "Invalid HTTP response format"@,
        Some(sl) => match spec_second_token(data.subrange(0, sl)) {
            None => "Invalid HTTP status line"@,
            Some(tok) => if scan::spec_parse_u16(tok) is None {
                "Invalid HTTP status code"@
            } else if scan::find(data, crlf2()) is None {
                "Invalid HTTP response format"@
            } else {
                "Invalid HTTP response encoding"@
            },
        },
    }
}

/// Parse an HTTP response out of the filled portion of a buffer, borrowing
/// header and body text from it.
///
/// Succeeds exactly on buffers satisfying `spec_parse_ok`; the result then
/// carries the status variant of the parsed code, the first 16 header
/// fields in order, and the classified body.
#[verifier::rlimit(50)]
pub fn parse_http_response_zero_copy(data: &[u8]) -> (r: Result<HttpResponse<'_>, Error>)
    ensures
        match r {
            Ok(resp) => {
                &&& spec_parse_ok(data@)
                &&& resp.wf()
                &&& ({
                    let sl = scan::find(data@, crlf())->Some_0;
                    let h = scan::find(data@, crlf2())->Some_0;
                    let tok = spec_second_token(data@.subrange(0, sl))->Some_0;
                    let fields = spec_header_fields(spec_section(data@, sl, h));
                    let body = data@.subrange(h + 4, data@.len() as int);
                    &&& resp.status_code == spec_status_from(scan::spec_parse_u16(tok)->Some_0)
                    &&& spec_pairs(resp.headers@) == spec_retained(fields)
                    &&& spec_classified(
                        spec_find_header(spec_retained(fields), "Content-Type".spec_bytes()),
                        body,
                        resp.body,
                    )
                })
            },
            Err(e) => {
                &&& !spec_parse_ok(data@)
                &&& e matches Error::InvalidResponse(m) && m@ == spec_parse_err_msg(data@)
            },
        },
{
    let dl = data.len();
    let crlf_arr: [u8; 2] = [13u8, 10u8];
    let term_arr: [u8; 4] = [13u8, 10u8, 13u8, 10u8];
    let colon_arr: [u8; 1] = [58u8];
    proof {
        assert(crlf_arr@ =~= crlf());
        assert(term_arr@ =~= crlf2());
        assert(colon_arr@ =~= seq![58u8]);
    }
    let sl_end = match scan::find_sub(data, array_as_slice(&crlf_arr)) {
        Some(p) => p,
        None => {
            return Err(Error::InvalidResponse("Invalid HTTP response format"));
        },
    };
    proof {
        scan::lemma_find_from(data@, crlf(), 0);
        assert(data@.subrange(sl_end as int, sl_end + 2) =~= crlf());
        assert(data@[sl_end as int] == 13 && data@[sl_end + 1] == 10) by {
            assert(data@.subrange(sl_end as int, sl_end + 2)[0] == data@[sl_end as int]);
            assert(data@.subrange(sl_end as int, sl_end + 2)[1] == data@[sl_end + 1]);
        }
    }
    let status_line = slice_subrange(data, 0, sl_end);
    let tok = match second_token(status_line) {
        Some(t) => t,
        None => {
            return Err(Error::InvalidResponse("Invalid HTTP status line"));
        },
    };
    let code = match scan::parse_u16(tok) {
        Some(c) => c,
        None => {
            return Err(Error::InvalidResponse("Invalid HTTP status code"));
        },
    };
    let h = match scan::find_sub(data, array_as_slice(&term_arr)) {
        Some(p) => p,
        None => {
            return Err(Error::InvalidResponse("Invalid HTTP response format"));
        },
    };
    proof {
        scan::lemma_find_from(data@, crlf2(), 0);
        let term = data@.subrange(h as int, h + 4);
        assert(term =~= crlf2());
        assert(data@[h as int] == 13 && data@[h + 1] == 10) by {
            assert(term[0] == data@[h as int]);
            assert(term[1] == data@[h + 1]);
        }
        // the terminator starts with a line end, so it cannot precede the
        // first line end, and it cannot start right after its CR
        assert(data@.subrange(h as int, h + 2) =~= crlf());
        assert(scan::match_at(data@, crlf(), h as int));
        assert(h >= sl_end);
        assert(h != sl_end + 1);
    }
    let section = if sl_end + 2 <= h {
        slice_subrange(data, sl_end + 2, h)
    } else {
        slice_subrange(data, h, h)
    };
    proof {
        assert(section@ == spec_section(data@, sl_end as int, h as int));
    }
    let ghost fields = spec_header_fields(section@);
    let mut headers: Vec<HttpHeader> = Vec::new();
    let mut pos: usize = 0;
    let sec_len = section.len();
    proof {
        assert(section@.subrange(0, sec_len as int) =~= section@);
        assert(spec_pairs(headers@) =~= fields.take(0));
        assert(fields.skip(0) =~= fields);
    }
    loop
        invariant_except_break
            sec_len == section@.len(),
            pos <= sec_len,
            headers@.len() <= 16,
            headers@.len() <= fields.len(),
            fields == spec_header_fields(section@),
            crlf_arr@ == crlf(),
            colon_arr@ == seq![58u8],
            scan::find(data@, crlf()) == Some(sl_end as int),
            spec_second_token(data@.subrange(0, sl_end as int)) == Some(tok@),
            scan::spec_parse_u16(tok@) is Some,
            scan::find(data@, crlf2()) == Some(h as int),
            section@ == spec_section(data@, sl_end as int, h as int),
            spec_pairs(headers@) =~= fields.take(headers@.len() as int),
            fields.skip(headers@.len() as int) =~= spec_header_fields(
                section@.subrange(pos as int, sec_len as int),
            ),
        ensures
            headers@.len() <= 16,
            headers@.len() == spec_retained(fields).len(),
            spec_pairs(headers@) =~= spec_retained(fields),
        decreases sec_len - pos,
    {
        if pos >= sec_len {
            proof {
                assert(section@.subrange(pos as int, sec_len as int).len() == 0);
                assert(fields.skip(headers@.len() as int).len() == 0);
                assert(headers@.len() == fields.len());
                assert(spec_retained(fields) =~= fields);
            }
            break ;
        }
        let ghost n = headers@.len() as int;
        let block_rest = slice_subrange(section, pos, sec_len);
        let (line_end, next_pos): (usize, usize) = match scan::find_sub(
            block_rest,
            array_as_slice(&crlf_arr),
        ) {
            Some(e) => {
                proof {
                    scan::lemma_find_from(block_rest@, crlf(), 0);
                }
                (pos + e, pos + e + 2)
            },
            None => (sec_len, sec_len),
        };
        let line = slice_subrange(section, pos, line_end);
        proof {
            assert(line@ =~= block_rest@.subrange(0, line_end - pos));
            if next_pos <= sec_len && line_end + 2 <= sec_len {
                assert(block_rest@.subrange(line_end - pos + 2, block_rest@.len() as int)
                    =~= section@.subrange(next_pos as int, sec_len as int));
            }
            if line_end == sec_len {
                assert(line@ =~= block_rest@);
            }
            assert(spec_header_fields(block_rest@) =~= spec_line_field(line@)
                + spec_header_fields(section@.subrange(next_pos as int, sec_len as int)));
        }
        match scan::find_sub(line, array_as_slice(&colon_arr)) {
            Some(c) => {
                proof {
                    scan::lemma_find_from(line@, seq![58u8], 0);
                }
                if headers.len() == 16 {
                    // capacity reached: the remaining fields are dropped
                    proof {
                        assert(spec_line_field(line@).len() == 1);
                        assert(fields.skip(16) =~= spec_line_field(line@) + spec_header_fields(
                            section@.subrange(next_pos as int, sec_len as int),
                        ));
                        assert(fields.skip(16).len() >= 1);
                        assert(fields.len() > 16);
                        assert(spec_retained(fields) =~= fields.take(16));
                        assert(spec_pairs(headers@) =~= spec_retained(fields));
                    }
                    break ;
                }
                let name_raw = scan::trim_slice(slice_subrange(line, 0, c));
                let value_raw = scan::trim_slice(slice_subrange(line, c + 1, line.len()));
                proof {
                    assert(spec_line_field(line@)[0] == (
                        scan::trim(line@.subrange(0, c as int)),
                        scan::trim(line@.subrange(c + 1, line@.len() as int)),
                    ));
                    assert(fields.skip(n)[0] == spec_line_field(line@)[0]);
                    assert(fields[n] == fields.skip(n)[0]);
                    assert(n < fields.len());
                    assert(n < spec_retained(fields).len());
                    assert(spec_retained(fields)[n] == fields[n]);
                }
                let name = match scan::bytes_as_str(name_raw) {
                    Some(s) => s,
                    None => {
                        proof {
                            assert(!valid_utf8(fields[n].0));
                            assert(!spec_fields_ok(fields));
                        }
                        return Err(Error::InvalidResponse("Invalid HTTP response encoding"));
                    },
                };
                let value = match scan::bytes_as_str(value_raw) {
                    Some(s) => s,
                    None => {
                        proof {
                            assert(!valid_utf8(fields[n].1));
                            assert(!spec_fields_ok(fields));
                        }
                        return Err(Error::InvalidResponse("Invalid HTTP response encoding"));
                    },
                };
                let header = HttpHeader { name, value };
                headers.push(header);
                proof {
                    assert(header.spec_pair() == fields[n]);
                    assert(spec_pairs(headers@) =~= fields.take(n + 1));
                    assert(fields.skip(n + 1) =~= fields.skip(n).drop_first());
                }
            },
            None => {
                proof {
                    assert(spec_line_field(line@) =~= Seq::<(Seq<u8>, Seq<u8>)>::empty());
                }
            },
        }
        pos = next_pos;
    }
    proof {
        assert(spec_fields_ok(fields)) by {
            assert forall|i: int| 0 <= i < spec_retained(fields).len() implies valid_utf8(
                #[trigger] spec_retained(fields)[i].0,
            ) && valid_utf8(spec_retained(fields)[i].1) by {
                assert(spec_retained(fields)[i] == spec_pairs(headers@)[i]);
                assert(spec_pairs(headers@)[i] == headers@[i].spec_pair());
                encode_utf8_valid_utf8(headers@[i].name@);
                encode_utf8_valid_utf8(headers@[i].value@);
            }
        }
    }
    let body_slice = slice_subrange(data, h + 4, data.len());
    let body = parse_response_body(headers.as_slice(), body_slice);
    Ok(HttpResponse { status_code: StatusCode::from_u16(code), headers, body })
}

} // verus!

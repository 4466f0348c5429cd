//! Request serialization into a fixed-capacity wire buffer.
//!
//! The request head is, in order: the method token, the path, the protocol
//! version, a `Host` header, the caller's headers in their own order, an
//! automatic `Content-Length` when a body is supplied and the caller gave
//! none, an unconditional `Connection: close`, and a blank line.  The head
//! is built into a 1024-byte buffer; the first append that would overflow it
//! aborts the whole build, so a partial head is never returned.  Body bytes
//! are written to the transport directly, never into this buffer.

use crate::error::Error;
use crate::header::{spec_pairs, HttpHeader};
use crate::method::HttpMethod;
use crate::scan;
use vstd::prelude::*;
use vstd::string::StringSliceAdditionalSpecFns;
use vstd::utf8::encode_utf8;

verus! {

/// The fixed request capacity, in bytes.
pub open spec fn spec_request_capacity() -> int {
    1024
}

/// A fixed-capacity request buffer of 1024 bytes, backed by a bounded,
/// heap-free string.
#[verifier::external_body]
pub struct RequestBuffer {
    inner: heapless::String<1024>,
}

/// The bytes a request buffer holds.
pub uninterp spec fn buffer_bytes(b: RequestBuffer) -> Seq<u8>;

/// Relies on `heapless::String::new`: a new string is empty.
#[verifier::external_body]
pub fn buffer_new() -> (r: RequestBuffer)
    ensures
        buffer_bytes(r) == Seq::<u8>::empty(),
{
    RequestBuffer { inner: heapless::String::new() }
}

/// Relies on `heapless::String::push_str` (via `Vec::extend_from_slice`): on
/// success the text is appended whole; when it would exceed the capacity of
/// 1024 bytes, nothing is modified and an error comes back.
#[verifier::external_body]
pub fn buffer_push_str(b: &mut RequestBuffer, s: &str) -> (r: Result<(), ()>)
    ensures
        match r {
            Ok(_) => buffer_bytes(*final(b)) == buffer_bytes(*old(b)) + s.spec_bytes()
                && buffer_bytes(*old(b)).len() + s.spec_bytes().len() <= spec_request_capacity(),
            Err(_) => buffer_bytes(*final(b)) == buffer_bytes(*old(b)) && buffer_bytes(*old(b)).len()
                + s.spec_bytes().len() > spec_request_capacity(),
        },
{
    match b.inner.push_str(s) {
        Ok(()) => Ok(()),
        Err(_) => Err(()),
    }
}

/// Relies on `heapless::String::as_str`: it views exactly the buffer's
/// bytes.
#[verifier::external_body]
pub fn buffer_as_str(b: &RequestBuffer) -> (r: &str)
    ensures
        r.spec_bytes() == buffer_bytes(*b),
{
    b.inner.as_str()
}

/// The caller headers as wire lines, in caller order.
pub open spec fn spec_header_block(hs: Seq<(Seq<u8>, Seq<u8>)>) -> Seq<u8>
    decreases hs.len(),
{
    if hs.len() == 0 {
        Seq::empty()
    } else {
        hs[0].0 + ": ".spec_bytes() + hs[0].1 + "\r\n".spec_bytes() + spec_header_block(
            hs.drop_first(),
        )
    }
}

/// Whether some header is named `Content-Length`, up to ASCII case.
pub open spec fn spec_cl_present(hs: Seq<(Seq<u8>, Seq<u8>)>) -> bool {
    exists|j: int|
        0 <= j < hs.len() && scan::lower(#[trigger] hs[j].0) == scan::lower(
            "Content-Length".spec_bytes(),
        )
}

/// The automatic `Content-Length` line: present exactly when a body is
/// supplied and the caller gave no such header.
pub open spec fn spec_cl_part(hs: Seq<(Seq<u8>, Seq<u8>)>, body_len: Option<int>) -> Seq<u8> {
    match body_len {
        Some(n) => if !spec_cl_present(hs) {
            "Content-Length: ".spec_bytes() + scan::dec_digits(n) + "\r\n".spec_bytes()
        } else {
            Seq::empty()
        },
        None => Seq::empty(),
    }
}

/// The bytes of the request head, exactly as written to the wire.
pub open spec fn spec_request_bytes(
    m: HttpMethod,
    host: Seq<u8>,
    path: Seq<u8>,
    hs: Seq<(Seq<u8>, Seq<u8>)>,
    body_len: Option<int>,
) -> Seq<u8> {
    encode_utf8(m.spec_str()) + " ".spec_bytes() + path + " HTTP/1.1\r\n".spec_bytes()
        + "Host: ".spec_bytes() + host + "\r\n".spec_bytes() + spec_header_block(hs) + spec_cl_part(
        hs,
        body_len,
    ) + "Connection: close\r\n".spec_bytes() + "\r\n".spec_bytes()
}

proof fn lemma_cl_present_take_snoc(hs: Seq<(Seq<u8>, Seq<u8>)>, i: int)
    requires
        0 <= i < hs.len(),
    ensures
        spec_cl_present(hs.take(i + 1)) == (spec_cl_present(hs.take(i)) || scan::lower(hs[i].0)
            == scan::lower("Content-Length".spec_bytes())),
{
    let a = hs.take(i);
    let b = hs.take(i + 1);
    if spec_cl_present(b) {
        let j = choose|j: int|
            0 <= j < b.len() && scan::lower(#[trigger] b[j].0) == scan::lower(
                "Content-Length".spec_bytes(),
            );
        if j < i {
            assert(a[j] == b[j]);
            assert(spec_cl_present(a));
        } else {
            assert(b[i] == hs[i]);
        }
    }
    if spec_cl_present(a) {
        let j = choose|j: int|
            0 <= j < a.len() && scan::lower(#[trigger] a[j].0) == scan::lower(
                "Content-Length".spec_bytes(),
            );
        assert(b[j] == a[j]);
        assert(spec_cl_present(b));
    }
    if scan::lower(hs[i].0) == scan::lower("Content-Length".spec_bytes()) {
        assert(b[i] == hs[i]);
        assert(spec_cl_present(b));
    }
}

/// Appends one piece of the request head; `wire` is the whole head and
/// `rest` what remains after this piece.  Fails with `BufferOverflow`
/// only when the whole head cannot fit the capacity.
fn push_piece(
    buf: &mut RequestBuffer,
    s: &str,
    Ghost(wire): Ghost<Seq<u8>>,
    Ghost(rest): Ghost<Seq<u8>>,
) -> (r: Result<(), Error>)
    requires
        wire == buffer_bytes(*old(buf)) + s.spec_bytes() + rest,
    ensures
        match r {
            Ok(_) => {
                &&& buffer_bytes(*final(buf)) == buffer_bytes(*old(buf)) + s.spec_bytes()
                &&& buffer_bytes(*final(buf)).len() <= spec_request_capacity()
                &&& wire == buffer_bytes(*final(buf)) + rest
            },
            Err(e) => e == Error::BufferOverflow && wire.len() > spec_request_capacity(),
        },
{
    match buffer_push_str(buf, s) {
        Ok(_) => Ok(()),
        Err(_) => Err(Error::BufferOverflow),
    }
}


fn push_head_start(
    buf: &mut RequestBuffer,
    method: HttpMethod,
    host: &str,
    path: &str,
    Ghost(wire): Ghost<Seq<u8>>,
    Ghost(rest): Ghost<Seq<u8>>,
) -> (r: Result<(), Error>)
    requires
        wire == buffer_bytes(*old(buf)) + encode_utf8(method.spec_str()) + " ".spec_bytes()
            + path.spec_bytes() + " HTTP/1.1\r\n".spec_bytes() + "Host: ".spec_bytes()
            + host.spec_bytes() + "\r\n".spec_bytes() + rest,
    ensures
        match r {
            Ok(_) => wire == buffer_bytes(*final(buf)) + rest,
            Err(e) => e == Error::BufferOverflow && wire.len() > spec_request_capacity(),
        },
{
    let ghost p5 = "\r\n".spec_bytes() + rest;
    let ghost p4 = host.spec_bytes() + p5;
    let ghost p3 = "Host: ".spec_bytes() + p4;
    let ghost p2 = " HTTP/1.1\r\n".spec_bytes() + p3;
    let ghost p1 = path.spec_bytes() + p2;
    let ghost p0 = " ".spec_bytes() + p1;
    let mtok = method.as_str();
    proof {
        assert(wire =~= buffer_bytes(*buf) + mtok.spec_bytes() + p0);
    }
    push_piece(buf, mtok, Ghost(wire), Ghost(p0))?;
    proof {
        assert(wire =~= buffer_bytes(*buf) + " ".spec_bytes() + p1);
    }
    push_piece(buf, " ", Ghost(wire), Ghost(p1))?;
    proof {
        assert(wire =~= buffer_bytes(*buf) + path.spec_bytes() + p2);
    }
    push_piece(buf, path, Ghost(wire), Ghost(p2))?;
    proof {
        assert(wire =~= buffer_bytes(*buf) + " HTTP/1.1\r\n".spec_bytes() + p3);
    }
    push_piece(buf, " HTTP/1.1\r\n", Ghost(wire), Ghost(p3))?;
    proof {
        assert(wire =~= buffer_bytes(*buf) + "Host: ".spec_bytes() + p4);
    }
    push_piece(buf, "Host: ", Ghost(wire), Ghost(p4))?;
    proof {
        assert(wire =~= buffer_bytes(*buf) + host.spec_bytes() + p5);
    }
    push_piece(buf, host, Ghost(wire), Ghost(p5))?;
    proof {
        assert(wire =~= buffer_bytes(*buf) + "\r\n".spec_bytes() + rest);
    }
    push_piece(buf, "\r\n", Ghost(wire), Ghost(rest))?;
    Ok(())
}

fn push_header_lines(
    buf: &mut RequestBuffer,
    headers: &[HttpHeader<'_>],
    Ghost(wire): Ghost<Seq<u8>>,
    Ghost(rest): Ghost<Seq<u8>>,
) -> (r: Result<bool, Error>)
    requires
        wire == buffer_bytes(*old(buf)) + (spec_header_block(spec_pairs(headers@)) + rest),
    ensures
        match r {
            Ok(flag) => wire == buffer_bytes(*final(buf)) + rest && flag == spec_cl_present(
                spec_pairs(headers@),
            ),
            Err(e) => e == Error::BufferOverflow && wire.len() > spec_request_capacity(),
        },
{
    let ghost pairs = spec_pairs(headers@);
    let mut content_length_present = false;
    let mut i: usize = 0;
    let hl = headers.len();
    proof {
        assert(pairs.skip(0) =~= pairs);
        assert(pairs.take(0) =~= Seq::<(Seq<u8>, Seq<u8>)>::empty());
    }
    while i < hl
        invariant
            i <= hl,
            hl == headers@.len(),
            pairs == spec_pairs(headers@),
            wire == buffer_bytes(*buf) + (spec_header_block(pairs.skip(i as int)) + rest),
            content_length_present == spec_cl_present(pairs.take(i as int)),
        decreases hl - i,
    {
        let h = &headers[i];
        let ghost tail_block = spec_header_block(pairs.skip(i + 1)) + rest;
        let ghost q3 = "\r\n".spec_bytes() + tail_block;
        let ghost q2 = h.value.spec_bytes() + q3;
        let ghost q1 = ": ".spec_bytes() + q2;
        proof {
            assert(pairs[i as int] == headers@[i as int].spec_pair());
            assert(pairs.skip(i as int)[0] == pairs[i as int]);
            assert(pairs.skip(i as int).drop_first() =~= pairs.skip(i + 1));
            assert(spec_header_block(pairs.skip(i as int)) == pairs[i as int].0
                + ": ".spec_bytes() + pairs[i as int].1 + "\r\n".spec_bytes()
                + spec_header_block(pairs.skip(i + 1)));
            assert(wire =~= buffer_bytes(*buf) + h.name.spec_bytes() + q1);
        }
        push_piece(buf, h.name, Ghost(wire), Ghost(q1))?;
        proof {
            assert(wire =~= buffer_bytes(*buf) + ": ".spec_bytes() + q2);
        }
        push_piece(buf, ": ", Ghost(wire), Ghost(q2))?;
        proof {
            assert(wire =~= buffer_bytes(*buf) + h.value.spec_bytes() + q3);
        }
        push_piece(buf, h.value, Ghost(wire), Ghost(q3))?;
        proof {
            assert(wire =~= buffer_bytes(*buf) + "\r\n".spec_bytes() + tail_block);
        }
        push_piece(buf, "\r\n", Ghost(wire), Ghost(tail_block))?;
        if scan::eq_ci(h.name.as_bytes(), "Content-Length".as_bytes()) {
            content_length_present = true;
        }
        proof {
            lemma_cl_present_take_snoc(pairs, i as int);
        }
        i += 1;
    }
    proof {
        assert(pairs.skip(hl as int).len() == 0);
        assert(pairs.take(hl as int) =~= pairs);
        assert(spec_header_block(pairs.skip(hl as int)) + rest =~= rest);
    }
    Ok(content_length_present)
}

fn push_content_length(
    buf: &mut RequestBuffer,
    headers: &[HttpHeader<'_>],
    body: Option<&[u8]>,
    content_length_present: bool,
    Ghost(wire): Ghost<Seq<u8>>,
    Ghost(rest): Ghost<Seq<u8>>,
) -> (r: Result<(), Error>)
    requires
        content_length_present == spec_cl_present(spec_pairs(headers@)),
        wire == buffer_bytes(*old(buf)) + (spec_cl_part(
            spec_pairs(headers@),
            match body {
                Some(b) => Some(b@.len() as int),
                None => None::<int>,
            },
        ) + rest),
    ensures
        match r {
            Ok(_) => wire == buffer_bytes(*final(buf)) + rest,
            Err(e) => e == Error::BufferOverflow && wire.len() > spec_request_capacity(),
        },
{
    let ghost pairs = spec_pairs(headers@);
    let ghost blen: Option<int> = match body {
        Some(b) => Some(b@.len() as int),
        None => None,
    };
    match body {
        Some(b) => {
            if !content_length_present {
                let ghost dd = scan::dec_digits(b@.len() as int);
                let ghost r2 = "\r\n".spec_bytes() + rest;
                let ghost r1 = dd + r2;
                proof {
                    assert(spec_cl_part(pairs, blen) == "Content-Length: ".spec_bytes() + dd
                        + "\r\n".spec_bytes());
                    assert(wire =~= buffer_bytes(*buf) + "Content-Length: ".spec_bytes() + r1);
                }
                push_piece(buf, "Content-Length: ", Ghost(wire), Ghost(r1))?;
                let mut digits: Vec<u8> = Vec::new();
                scan::push_dec_digits(b.len(), &mut digits);
                proof {
                    scan::lemma_dec_digits(b@.len() as int);
                    assert(forall|k: int| 0 <= k < dd.len() ==> #[trigger] dd[k] < 128) by {
                        assert(forall|k: int|
                            0 <= k < dd.len() ==> scan::is_digit(#[trigger] dd[k]));
                    }
                    scan::lemma_ascii_valid_utf8(dd);
                    assert(digits@ =~= dd);
                }
                let dstr = match scan::bytes_as_str(digits.as_slice()) {
                    Some(s) => s,
                    None => {
                        // decimal digits are ASCII, so the conversion succeeds
                        proof {
                            assert(false);
                        }
                        return Err(Error::BufferOverflow);
                    },
                };
                proof {
                    assert(wire =~= buffer_bytes(*buf) + dstr.spec_bytes() + r2);
                }
                push_piece(buf, dstr, Ghost(wire), Ghost(r2))?;
                proof {
                    assert(wire =~= buffer_bytes(*buf) + "\r\n".spec_bytes() + rest);
                }
                push_piece(buf, "\r\n", Ghost(wire), Ghost(rest))?;
            } else {
                proof {
                    assert(spec_cl_part(pairs, blen) =~= Seq::<u8>::empty());
                    assert(wire == buffer_bytes(*buf) + (spec_cl_part(pairs, blen) + rest));
                    assert(spec_cl_part(pairs, blen) + rest =~= rest);
                }
            }
        },
        None => {
            proof {
                assert(spec_cl_part(pairs, blen) =~= Seq::<u8>::empty());
                assert(wire == buffer_bytes(*buf) + (spec_cl_part(pairs, blen) + rest));
                assert(spec_cl_part(pairs, blen) + rest =~= rest);
            }
        },
    }
    Ok(())
}

/// Serializes the request head for the given method, host, path, headers and
/// optional body.
///
/// Returns the filled buffer exactly when the head fits the fixed capacity
/// of 1024 bytes, and `BufferOverflow` exactly when it does not; a partial
/// head is never returned.
pub fn build_http_request(
    method: HttpMethod,
    host: &str,
    path: &str,
    headers: &[HttpHeader<'_>],
    body: Option<&[u8]>,
) -> (r: Result<RequestBuffer, Error>)
    ensures
        ({
            let wire = spec_request_bytes(
                method,
                host.spec_bytes(),
                path.spec_bytes(),
                spec_pairs(headers@),
                match body {
                    Some(b) => Some(b@.len() as int),
                    None => None,
                },
            );
            match r {
                Ok(buf) => wire.len() <= spec_request_capacity() && buffer_bytes(buf) == wire,
                Err(e) => wire.len() > spec_request_capacity() && e == Error::BufferOverflow,
            }
        }),
{
    let ghost pairs = spec_pairs(headers@);
    let ghost blen: Option<int> = match body {
        Some(b) => Some(b@.len() as int),
        None => None,
    };
    let ghost wire = spec_request_bytes(method, host.spec_bytes(), path.spec_bytes(), pairs, blen);
    let ghost p9 = "\r\n".spec_bytes();
    let ghost p8 = "Connection: close\r\n".spec_bytes() + p9;
    let ghost p7 = spec_cl_part(pairs, blen) + p8;
    let ghost p6 = spec_header_block(pairs) + p7;

    let mut buf = buffer_new();
    proof {
        assert(wire =~= buffer_bytes(buf) + encode_utf8(method.spec_str()) + " ".spec_bytes()
            + path.spec_bytes() + " HTTP/1.1\r\n".spec_bytes() + "Host: ".spec_bytes()
            + host.spec_bytes() + "\r\n".spec_bytes() + p6);
    }
    push_head_start(&mut buf, method, host, path, Ghost(wire), Ghost(p6))?;
    let content_length_present = push_header_lines(&mut buf, headers, Ghost(wire), Ghost(p7))?;
    push_content_length(&mut buf, headers, body, content_length_present, Ghost(wire), Ghost(p8))?;
    proof {
        assert(wire =~= buffer_bytes(buf) + "Connection: close\r\n".spec_bytes() + p9);
    }
    push_piece(&mut buf, "Connection: close\r\n", Ghost(wire), Ghost(p9))?;
    proof {
        assert(wire =~= buffer_bytes(buf) + "\r\n".spec_bytes() + Seq::<u8>::empty());
    }
    push_piece(&mut buf, "\r\n", Ghost(wire), Ghost(Seq::empty()))?;
    proof {
        assert(wire =~= buffer_bytes(buf));
    }
    Ok(buf)
}

} // verus!

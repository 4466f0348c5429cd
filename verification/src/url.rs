//! URL decomposition: an endpoint string of the form
//! `scheme://host[:port][/path...]` is split into scheme, host, port and
//! path.
//!
//! Exactly the schemes `http` and `https` are recognized.  The host is the
//! segment up to the first `/` after the scheme; the path is the remainder
//! starting at that `/`, so an endpoint with no trailing segment yields an
//! empty path.  A trailing `:<digits>` that parses as a 16-bit number is
//! stripped from the host and used as the port; otherwise the host is kept
//! as written and the scheme's default port (80 or 443) applies.

use crate::error::Error;
use crate::scan;
use vstd::array::array_as_slice;
use vstd::prelude::*;
use vstd::slice::slice_subrange;
use vstd::string::StringSliceAdditionalSpecFns;
use vstd::utf8::{encode_utf8_valid_utf8, is_char_boundary_iff_not_is_continuation_byte};
use vstd::utf8::{is_char_boundary, is_char_boundary_start_end_of_seq};

verus! {

/// A parsed endpoint: scheme kind, host, port and path, with host and path
/// borrowing from the endpoint string.
#[derive(Clone, Copy, Debug)]
pub struct Endpoint<'a> {
    /// True for `https`, false for `http`.
    pub secure: bool,
    /// The host name, without any explicit port suffix.
    pub host: &'a str,
    /// The explicit port, or the scheme's default (80 or 443).
    pub port: u16,
    /// The path starting at the first `/` after the host; empty when the
    /// endpoint has no trailing segment.
    pub path: &'a str,
}

/// The bytes of `"http://"`.
pub open spec fn http_prefix() -> Seq<u8> {
    seq![104u8, 116u8, 116u8, 112u8, 58u8, 47u8, 47u8]
}

/// The bytes of `"https://"`.
pub open spec fn https_prefix() -> Seq<u8> {
    seq![104u8, 116u8, 116u8, 112u8, 115u8, 58u8, 47u8, 47u8]
}

/// Splits what follows the scheme into host, port and path.
pub open spec fn spec_split_rest(secure: bool, rest: Seq<u8>) -> (bool, Seq<u8>, u16, Seq<u8>) {
    let cut = match scan::find(rest, seq![47u8]) {
        Some(s) => s,
        None => rest.len() as int,
    };
    let hostport = rest.subrange(0, cut);
    let path = rest.subrange(cut, rest.len() as int);
    let dp: u16 = if secure {
        443
    } else {
        80
    };
    match scan::rfind_byte(hostport, 58) {
        Some(c) => match scan::spec_parse_u16(hostport.subrange(c + 1, hostport.len() as int)) {
            Some(p) => (secure, hostport.subrange(0, c), p, path),
            None => (secure, hostport, dp, path),
        },
        None => (secure, hostport, dp, path),
    }
}

/// What the parser returns for the given endpoint bytes: `None` exactly when
/// neither scheme prefix is present.
pub open spec fn spec_parse_url(b: Seq<u8>) -> Option<(bool, Seq<u8>, u16, Seq<u8>)> {
    if scan::has_prefix(b, http_prefix()) {
        Some(spec_split_rest(false, b.subrange(7, b.len() as int)))
    } else if scan::has_prefix(b, https_prefix()) {
        Some(spec_split_rest(true, b.subrange(8, b.len() as int)))
    } else {
        None
    }
}

proof fn lemma_no_slash_find(rest: Seq<u8>)
    requires
        forall|k: int| 0 <= k < rest.len() ==> rest[k] != 47,
    ensures
        scan::find(rest, seq![47u8]) is None,
{
    scan::lemma_find_from(rest, seq![47u8], 0);
    match scan::find(rest, seq![47u8]) {
        Some(j) => {
            assert(scan::match_at(rest, seq![47u8], j));
            assert(rest.subrange(j, j + 1)[0] == rest[j]);
            assert(false);
        },
        None => {},
    }
}

proof fn lemma_first_slash(rest: Seq<u8>, c: int)
    requires
        0 <= c < rest.len(),
        rest[c] == 47,
        forall|k: int| 0 <= k < c ==> rest[k] != 47,
    ensures
        scan::find(rest, seq![47u8]) == Some(c),
{
    assert(rest.subrange(c, c + 1) =~= seq![47u8]);
    assert(scan::match_at(rest, seq![47u8], c));
    assert forall|k: int| 0 <= k < c implies !scan::match_at(rest, seq![47u8], k) by {
        if scan::match_at(rest, seq![47u8], k) {
            assert(rest.subrange(k, k + 1)[0] == rest[k]);
        }
    }
    scan::lemma_find_from_is(rest, seq![47u8], 0, c);
}

proof fn lemma_rfind_none(h: Seq<u8>, b: u8)
    requires
        forall|k: int| 0 <= k < h.len() ==> h[k] != b,
    ensures
        scan::rfind_byte(h, b) is None,
{
    scan::lemma_rfind_byte(h, b);
    match scan::rfind_byte(h, b) {
        Some(j) => {
            assert(false);
        },
        None => {},
    }
}

/// For every endpoint assembled from a recognized scheme, a host free of `/`
/// and `:`, and a path that is empty or starts with `/`, the parser returns
/// exactly that host, the scheme's default port, and that path.
pub proof fn lemma_parse_url_default_port(secure: bool, host: Seq<u8>, path: Seq<u8>)
    requires
        forall|i: int| 0 <= i < host.len() ==> host[i] != 47 && host[i] != 58,
        path.len() > 0 ==> path[0] == 47,
    ensures
        spec_parse_url((if secure { https_prefix() } else { http_prefix() }) + host + path)
            == Some((secure, host, if secure { 443u16 } else { 80u16 }, path)),
{
    let prefix = if secure { https_prefix() } else { http_prefix() };
    let b = prefix + host + path;
    let plen = prefix.len() as int;
    assert(b.subrange(0, plen) =~= prefix);
    assert(scan::has_prefix(b, prefix));
    if secure {
        if scan::has_prefix(b, http_prefix()) {
            assert(b.subrange(0, 7)[4] == b[4]);
            assert(false);
        }
    }
    let rest = b.subrange(plen, b.len() as int);
    assert(rest =~= host + path);
    if path.len() == 0 {
        assert(rest =~= host);
        lemma_no_slash_find(rest);
        assert(rest.subrange(0, rest.len() as int) =~= host);
        assert(rest.subrange(rest.len() as int, rest.len() as int) =~= path);
        lemma_rfind_none(rest.subrange(0, rest.len() as int), 58);
    } else {
        assert(rest[host.len() as int] == path[0]);
        lemma_first_slash(rest, host.len() as int);
        assert(rest.subrange(0, host.len() as int) =~= host);
        assert(rest.subrange(host.len() as int, rest.len() as int) =~= path);
        lemma_rfind_none(host, 58);
    }
}

/// For every endpoint assembled from a recognized scheme, a host free of `/`
/// and `:`, an explicit decimal port, and a path that is empty or starts
/// with `/`, the parser strips the port suffix and returns exactly those
/// components.
pub proof fn lemma_parse_url_explicit_port(secure: bool, host: Seq<u8>, port: u16, path: Seq<u8>)
    requires
        forall|i: int| 0 <= i < host.len() ==> host[i] != 47 && host[i] != 58,
        path.len() > 0 ==> path[0] == 47,
    ensures
        spec_parse_url(
            (if secure { https_prefix() } else { http_prefix() }) + host + seq![58u8]
                + scan::dec_digits(port as int) + path,
        ) == Some((secure, host, port, path)),
{
    scan::lemma_dec_digits(port as int);
    let prefix = if secure { https_prefix() } else { http_prefix() };
    let dd = scan::dec_digits(port as int);
    let hp = host + seq![58u8] + dd;
    let b = prefix + host + seq![58u8] + dd + path;
    assert(b =~= prefix + (hp + path));
    let plen = prefix.len() as int;
    assert(b.subrange(0, plen) =~= prefix);
    assert(scan::has_prefix(b, prefix));
    if secure {
        if scan::has_prefix(b, http_prefix()) {
            assert(b.subrange(0, 7)[4] == b[4]);
            assert(false);
        }
    }
    let rest = b.subrange(plen, b.len() as int);
    assert(rest =~= hp + path);
    assert forall|k: int| 0 <= k < hp.len() implies hp[k] != 47 by {
        if k < host.len() {
            assert(hp[k] == host[k]);
        } else if k == host.len() {
            assert(hp[k] == 58);
        } else {
            assert(hp[k] == dd[k - host.len() - 1]);
            assert(scan::is_digit(dd[k - host.len() - 1]));
        }
    }
    let cut = hp.len() as int;
    if path.len() == 0 {
        assert(rest =~= hp);
        lemma_no_slash_find(rest);
        assert(rest.subrange(0, rest.len() as int) =~= hp);
        assert(rest.subrange(rest.len() as int, rest.len() as int) =~= path);
    } else {
        assert(rest[cut] == path[0]);
        lemma_first_slash(rest, cut);
        assert(rest.subrange(0, cut) =~= hp);
        assert(rest.subrange(cut, rest.len() as int) =~= path);
    }
    assert(hp[host.len() as int] == 58);
    assert forall|k: int| host.len() < k < hp.len() implies hp[k] != 58 by {
        if k > host.len() {
            assert(hp[k] == dd[k - host.len() - 1]);
            assert(scan::is_digit(dd[k - host.len() - 1]));
        }
    }
    scan::lemma_rfind_byte_is(hp, 58, host.len() as int);
    assert(hp.subrange(host.len() as int + 1, hp.len() as int) =~= dd);
    assert(scan::spec_parse_u16(dd) == Some(port));
    assert(hp.subrange(0, host.len() as int) =~= host);
}

/// Decomposes an endpoint string into scheme, host, port and path.
///
/// Fails with `InvalidUrl` exactly when the string starts with neither
/// `http://` nor `https://`.
pub fn parse_url(endpoint: &str) -> (r: Result<Endpoint<'_>, Error>)
    ensures
        match r {
            Ok(ep) => spec_parse_url(endpoint.spec_bytes()) == Some(
                (ep.secure, ep.host.spec_bytes(), ep.port, ep.path.spec_bytes()),
            ),
            Err(e) => spec_parse_url(endpoint.spec_bytes()) is None && e == Error::InvalidUrl,
        },
{
    let b = endpoint.as_bytes();
    let http_arr: [u8; 7] = [104u8, 116u8, 116u8, 112u8, 58u8, 47u8, 47u8];
    let https_arr: [u8; 8] = [104u8, 116u8, 116u8, 112u8, 115u8, 58u8, 47u8, 47u8];
    proof {
        assert(http_arr@ =~= http_prefix());
        assert(https_arr@ =~= https_prefix());
        encode_utf8_valid_utf8(endpoint@);
    }
    let secure: bool;
    let plen: usize;
    if scan::has_prefix_exec(b, array_as_slice(&http_arr)) {
        secure = false;
        plen = 7;
    } else if scan::has_prefix_exec(b, array_as_slice(&https_arr)) {
        secure = true;
        plen = 8;
    } else {
        return Err(Error::InvalidUrl);
    }
    proof {
        assert forall|j: int| 0 <= j < plen implies endpoint.spec_bytes()[j] < 128 by {
            assert(endpoint.spec_bytes().subrange(0, plen as int)[j] == endpoint.spec_bytes()[j]);
        }
        scan::lemma_ascii_run_char_boundary(endpoint.spec_bytes(), plen as int);
    }
    let (_, rest) = endpoint.split_at(plen);
    proof {
        encode_utf8_valid_utf8(rest@);
        is_char_boundary_start_end_of_seq(rest.spec_bytes());
    }
    let rest_b = rest.as_bytes();
    let slash_arr: [u8; 1] = [47u8];
    proof {
        assert(slash_arr@ =~= seq![47u8]);
    }
    let cut = match scan::find_sub(rest_b, array_as_slice(&slash_arr)) {
        Some(s) => {
            proof {
                scan::lemma_find_from(rest_b@, seq![47u8], 0);
                assert(scan::match_at(rest_b@, seq![47u8], s as int));
                assert(rest_b@.subrange(s as int, s + 1)[0] == rest_b@[s as int]);
                assert(rest_b@[s as int] == 47u8);
                is_char_boundary_iff_not_is_continuation_byte(rest.spec_bytes(), s as int);
                assert(is_char_boundary(rest.spec_bytes(), s as int));
            }
            s
        },
        None => {
            proof {
                assert(is_char_boundary(rest.spec_bytes(), rest.spec_bytes().len() as int));
            }
            rest_b.len()
        },
    };
    proof {
        assert(is_char_boundary(rest.spec_bytes(), cut as int));
    }
    let (hostport, path) = rest.split_at(cut);
    proof {
        encode_utf8_valid_utf8(hostport@);
        is_char_boundary_start_end_of_seq(hostport.spec_bytes());
    }
    let hp_b = hostport.as_bytes();
    let dp: u16 = if secure {
        443
    } else {
        80
    };
    match scan::rfind_byte_in(hp_b, 58) {
        Some(c) => {
            proof {
                scan::lemma_rfind_byte(hp_b@, 58);
            }
            let port_bytes = slice_subrange(hp_b, c + 1, hp_b.len());
            match scan::parse_u16(port_bytes) {
                Some(p) => {
                    proof {
                        is_char_boundary_iff_not_is_continuation_byte(
                            hostport.spec_bytes(),
                            c as int,
                        );
                    }
                    let (host, _) = hostport.split_at(c);
                    Ok(Endpoint { secure, host, port: p, path })
                },
                None => Ok(Endpoint { secure, host: hostport, port: dp, path }),
            }
        },
        None => Ok(Endpoint { secure, host: hostport, port: dp, path }),
    }
}

} // verus!

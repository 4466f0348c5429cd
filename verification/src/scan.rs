//! Byte-level scanning primitives: substring search, case folding, trimming
//! and decimal parsing, each specified exactly over byte sequences.

use vstd::prelude::*;
use vstd::slice::slice_subrange;
use vstd::string::StringSliceAdditionalSpecFns;
use vstd::utf8::{
    is_char_boundary, is_leading_byte_width_1, length_of_first_scalar,
    partial_valid_utf8_extend_ascii_block, pop_first_scalar, valid_first_scalar, valid_utf8,
};

verus! {

/// ASCII whitespace: space, and the control characters HT, LF, VT, FF, CR.
pub open spec fn is_ws(b: u8) -> bool {
    b == 32 || (9 <= b && b <= 13)
}

/// A decimal digit byte.
pub open spec fn is_digit(b: u8) -> bool {
    48 <= b && b <= 57
}

/// The ASCII lower-case image of a byte; bytes outside `A`..`Z` are unchanged.
pub open spec fn to_lower(b: u8) -> u8 {
    if 65 <= b && b <= 90 {
        (b + 32) as u8
    } else {
        b
    }
}

/// A byte sequence folded to ASCII lower case.
pub open spec fn lower(s: Seq<u8>) -> Seq<u8> {
    s.map_values(|b: u8| to_lower(b))
}

/// True when `n` occurs in `h` starting at index `i`.
pub open spec fn match_at(h: Seq<u8>, n: Seq<u8>, i: int) -> bool {
    0 <= i && i + n.len() <= h.len() && h.subrange(i, i + n.len() as int) == n
}

/// The first index at or after `i` where `n` occurs in `h`.
pub open spec fn find_from(h: Seq<u8>, n: Seq<u8>, i: int) -> Option<int>
    decreases h.len() - i + 1,
    when 0 <= i
{
    if i + n.len() > h.len() {
        None
    } else if match_at(h, n, i) {
        Some(i)
    } else {
        find_from(h, n, i + 1)
    }
}

/// The first index where `n` occurs in `h`.
pub open spec fn find(h: Seq<u8>, n: Seq<u8>) -> Option<int> {
    find_from(h, n, 0)
}

/// What `find_from` returns: the first match at or after `i`, or `None` when
/// no match exists there.
pub proof fn lemma_find_from(h: Seq<u8>, n: Seq<u8>, i: int)
    requires
        0 <= i,
    ensures
        match find_from(h, n, i) {
            Some(j) => i <= j && match_at(h, n, j) && (forall|k: int|
                i <= k < j ==> !match_at(h, n, k)),
            None => forall|k: int| i <= k ==> !match_at(h, n, k),
        },
    decreases h.len() - i + 1,
{
    if i + n.len() > h.len() {
        assert forall|k: int| i <= k implies !match_at(h, n, k) by {
            assert(k + n.len() >= i + n.len());
        }
    } else if match_at(h, n, i) {
    } else {
        lemma_find_from(h, n, i + 1);
    }
}

/// A match at `j`, with no match before it, pins `find_from` down to `j`.
pub proof fn lemma_find_from_is(h: Seq<u8>, n: Seq<u8>, i: int, j: int)
    requires
        0 <= i <= j,
        match_at(h, n, j),
        forall|k: int| i <= k < j ==> !match_at(h, n, k),
    ensures
        find_from(h, n, i) == Some(j),
    decreases j - i,
{
    if i == j {
    } else {
        lemma_find_from_is(h, n, i + 1, j);
    }
}

/// The last index where byte `b` occurs in `h`.
pub open spec fn rfind_byte(h: Seq<u8>, b: u8) -> Option<int>
    decreases h.len(),
{
    if h.len() == 0 {
        None
    } else if h[h.len() - 1] == b {
        Some(h.len() - 1)
    } else {
        rfind_byte(h.drop_last(), b)
    }
}

/// What `rfind_byte` returns: the last occurrence of `b`, or `None` when `b`
/// does not occur.
pub proof fn lemma_rfind_byte(h: Seq<u8>, b: u8)
    ensures
        match rfind_byte(h, b) {
            Some(j) => 0 <= j < h.len() && h[j] == b && (forall|k: int|
                j < k < h.len() ==> h[k] != b),
            None => forall|k: int| 0 <= k < h.len() ==> h[k] != b,
        },
    decreases h.len(),
{
    if h.len() == 0 {
    } else if h[h.len() - 1] == b {
    } else {
        let t = h.drop_last();
        lemma_rfind_byte(t, b);
        assert forall|k: int| 0 <= k < t.len() implies t[k] == h[k] by {}
    }
}

/// An occurrence of `b` at `j`, with no occurrence after it, pins
/// `rfind_byte` down to `j`.
pub proof fn lemma_rfind_byte_is(h: Seq<u8>, b: u8, j: int)
    requires
        0 <= j < h.len(),
        h[j] == b,
        forall|k: int| j < k < h.len() ==> h[k] != b,
    ensures
        rfind_byte(h, b) == Some(j),
    decreases h.len(),
{
    if j == h.len() - 1 {
    } else {
        let t = h.drop_last();
        assert forall|k: int| j < k < t.len() implies t[k] != b by {
            assert(t[k] == h[k]);
        }
        lemma_rfind_byte_is(t, b, j);
    }
}

/// The number of whitespace bytes at the start of `s`.
pub open spec fn ws_prefix_len(s: Seq<u8>) -> nat
    decreases s.len(),
{
    if s.len() > 0 && is_ws(s[0]) {
        1 + ws_prefix_len(s.drop_first())
    } else {
        0
    }
}

/// The number of whitespace bytes at the end of `s`.
pub open spec fn ws_suffix_len(s: Seq<u8>) -> nat
    decreases s.len(),
{
    if s.len() > 0 && is_ws(s.last()) {
        1 + ws_suffix_len(s.drop_last())
    } else {
        0
    }
}

/// `s` with leading and trailing whitespace removed.
pub open spec fn trim(s: Seq<u8>) -> Seq<u8> {
    let a = ws_prefix_len(s);
    let b = ws_suffix_len(s);
    if a + b <= s.len() {
        s.subrange(a as int, s.len() - b)
    } else {
        Seq::empty()
    }
}

proof fn lemma_ws_prefix_is(s: Seq<u8>, a: nat)
    requires
        a <= s.len(),
        forall|j: int| 0 <= j < a ==> is_ws(s[j]),
        a < s.len() ==> !is_ws(s[a as int]),
    ensures
        ws_prefix_len(s) == a,
    decreases s.len(),
{
    if a == 0 {
    } else {
        assert(is_ws(s[0]));
        let t = s.drop_first();
        assert forall|j: int| 0 <= j < a - 1 implies is_ws(t[j]) by {
            assert(t[j] == s[j + 1]);
        }
        lemma_ws_prefix_is(t, (a - 1) as nat);
    }
}

proof fn lemma_ws_suffix_is(s: Seq<u8>, b: nat)
    requires
        b <= s.len(),
        forall|j: int| s.len() - b <= j < s.len() ==> is_ws(s[j]),
        b < s.len() ==> !is_ws(s[s.len() - b - 1]),
    ensures
        ws_suffix_len(s) == b,
    decreases s.len(),
{
    if b == 0 {
    } else {
        assert(is_ws(s.last()));
        lemma_ws_suffix_is(s.drop_last(), (b - 1) as nat);
    }
}

/// The value of `s` read as a decimal numeral; meaningful only when every
/// byte of `s` is a digit.
pub open spec fn seq_val(s: Seq<u8>) -> int
    decreases s.len(),
{
    if s.len() == 0 {
        0
    } else {
        seq_val(s.drop_last()) * 10 + (s.last() as int - 48)
    }
}

/// Every byte of `s` is a decimal digit.
pub open spec fn all_digits(s: Seq<u8>) -> bool {
    forall|i: int| 0 <= i < s.len() ==> is_digit(s[i])
}

/// The value of a nonempty, all-digit numeral that fits in `usize`; `None`
/// otherwise.
pub open spec fn spec_parse_usize(s: Seq<u8>) -> Option<usize> {
    if s.len() > 0 && all_digits(s) && seq_val(s) <= usize::MAX {
        Some(seq_val(s) as usize)
    } else {
        None
    }
}

/// The value of a nonempty, all-digit numeral that fits in 16 bits; `None`
/// otherwise.
pub open spec fn spec_parse_u16(s: Seq<u8>) -> Option<u16> {
    if s.len() > 0 && all_digits(s) && seq_val(s) <= u16::MAX {
        Some(seq_val(s) as u16)
    } else {
        None
    }
}

proof fn lemma_seq_val_nonneg(s: Seq<u8>)
    requires
        all_digits(s),
    ensures
        seq_val(s) >= 0,
    decreases s.len(),
{
    if s.len() > 0 {
        let t = s.drop_last();
        assert(all_digits(t));
        lemma_seq_val_nonneg(t);
    }
}

/// A numeral is at least as large as any of its prefixes.
pub proof fn lemma_seq_val_prefix(s: Seq<u8>, k: int)
    requires
        all_digits(s),
        0 <= k <= s.len(),
    ensures
        seq_val(s) >= seq_val(s.subrange(0, k)),
    decreases s.len() - k,
{
    if k == s.len() {
        assert(s.subrange(0, k) =~= s);
    } else {
        let t = s.subrange(0, k + 1);
        assert(t.drop_last() =~= s.subrange(0, k));
        assert(all_digits(s.subrange(0, k)));
        lemma_seq_val_nonneg(s.subrange(0, k));
        assert(seq_val(t) == seq_val(s.subrange(0, k)) * 10 + (s[k] as int - 48));
        lemma_seq_val_prefix(s, k + 1);
    }
}

/// The decimal numeral of a non-negative value.
pub open spec fn dec_digits(n: int) -> Seq<u8>
    decreases n,
    when n >= 0
{
    if n < 10 {
        seq![(48 + n) as u8]
    } else {
        dec_digits(n / 10) + seq![(48 + (n % 10)) as u8]
    }
}

/// A decimal numeral holds only digits, is never empty, and reads back as
/// the value it was built from.
pub proof fn lemma_dec_digits(n: int)
    requires
        n >= 0,
    ensures
        all_digits(dec_digits(n)),
        seq_val(dec_digits(n)) == n,
        dec_digits(n).len() >= 1,
    decreases n,
{
    if n < 10 {
        let s = dec_digits(n);
        assert(s =~= seq![(48 + n) as u8]);
        assert(s.drop_last() =~= Seq::<u8>::empty());
        assert(seq_val(Seq::<u8>::empty()) == 0);
        assert(s.last() == (48 + n) as u8);
        assert(seq_val(s) == seq_val(s.drop_last()) * 10 + (s.last() as int - 48));
    } else {
        lemma_dec_digits(n / 10);
        let a = dec_digits(n / 10);
        let d = (48 + (n % 10)) as u8;
        let s = a + seq![d];
        assert(dec_digits(n) == s);
        assert(s.drop_last() =~= a);
        assert(s.last() == d);
        assert(seq_val(s) == seq_val(a) * 10 + (n % 10));
        assert forall|i: int| 0 <= i < s.len() implies is_digit(s[i]) by {
            if i < a.len() {
                assert(s[i] == a[i]);
            } else {
                assert(s[i] == d);
            }
        }
    }
}

/// True when `p` is a prefix of `b`.
pub open spec fn has_prefix(b: Seq<u8>, p: Seq<u8>) -> bool {
    p.len() <= b.len() && b.subrange(0, p.len() as int) == p
}

/// The ASCII lower-case image of a byte.
pub fn to_lower_u8(b: u8) -> (r: u8)
    ensures
        r == to_lower(b),
{
    if 65 <= b && b <= 90 {
        b + 32
    } else {
        b
    }
}

/// Whether a byte is ASCII whitespace.
pub fn is_ws_u8(b: u8) -> (r: bool)
    ensures
        r == is_ws(b),
{
    b == 32 || (9 <= b && b <= 13)
}

fn match_at_exec(h: &[u8], n: &[u8], i: usize) -> (r: bool)
    requires
        i + n@.len() <= h@.len(),
    ensures
        r == match_at(h@, n@, i as int),
{
    let hl = h.len();
    let nl = n.len();
    let mut k: usize = 0;
    while k < nl
        invariant
            i + nl <= hl,
            hl == h@.len(),
            nl == n@.len(),
            k <= nl,
            forall|j: int| 0 <= j < k ==> h@[i + j] == n@[j],
        decreases nl - k,
    {
        if h[i + k] != n[k] {
            proof {
                assert(h@.subrange(i as int, i + n@.len())[k as int] == h@[i + k]);
            }
            return false;
        }
        k += 1;
    }
    proof {
        assert(h@.subrange(i as int, i + n@.len()) =~= n@);
    }
    true
}

/// The first occurrence of `n` in `h`, if any.
pub fn find_sub(h: &[u8], n: &[u8]) -> (r: Option<usize>)
    ensures
        match r {
            Some(i) => find(h@, n@) == Some(i as int),
            None => find(h@, n@) is None,
        },
{
    let hl = h.len();
    let nl = n.len();
    if nl > hl {
        return None;
    }
    if nl == 0 {
        proof {
            assert(h@.subrange(0, 0) =~= n@);
        }
        return Some(0);
    }
    let mut i: usize = 0;
    while i <= hl - nl
        invariant
            0 < nl <= hl,
            hl == h@.len(),
            nl == n@.len(),
            i <= hl - nl + 1,
            find_from(h@, n@, 0) == find_from(h@, n@, i as int),
        decreases hl - nl - i + 1,
    {
        if match_at_exec(h, n, i) {
            return Some(i);
        }
        i += 1;
    }
    None
}

fn match_at_ci_exec(h: &[u8], n: &[u8], i: usize) -> (r: bool)
    requires
        i + n@.len() <= h@.len(),
    ensures
        r == match_at(lower(h@), lower(n@), i as int),
{
    let hl = h.len();
    let nl = n.len();
    let mut k: usize = 0;
    while k < nl
        invariant
            i + nl <= hl,
            hl == h@.len(),
            nl == n@.len(),
            k <= nl,
            forall|j: int| 0 <= j < k ==> to_lower(h@[i + j]) == to_lower(n@[j]),
        decreases nl - k,
    {
        if to_lower_u8(h[i + k]) != to_lower_u8(n[k]) {
            proof {
                assert(lower(h@).subrange(i as int, i + n@.len())[k as int] == to_lower(
                    h@[i + k],
                ));
                assert(lower(n@)[k as int] == to_lower(n@[k as int]));
            }
            return false;
        }
        k += 1;
    }
    proof {
        assert(lower(h@).subrange(i as int, i + n@.len()) =~= lower(n@));
    }
    true
}

/// The first occurrence of `n` in `h`, comparing bytes ASCII
/// case-insensitively.
pub fn find_sub_ci(h: &[u8], n: &[u8]) -> (r: Option<usize>)
    ensures
        match r {
            Some(i) => find(lower(h@), lower(n@)) == Some(i as int),
            None => find(lower(h@), lower(n@)) is None,
        },
{
    let hl = h.len();
    let nl = n.len();
    if nl > hl {
        return None;
    }
    if nl == 0 {
        proof {
            assert(lower(h@).subrange(0, 0) =~= lower(n@));
        }
        return Some(0);
    }
    let mut i: usize = 0;
    while i <= hl - nl
        invariant
            0 < nl <= hl,
            hl == h@.len(),
            nl == n@.len(),
            i <= hl - nl + 1,
            find_from(lower(h@), lower(n@), 0) == find_from(lower(h@), lower(n@), i as int),
        decreases hl - nl - i + 1,
    {
        if match_at_ci_exec(h, n, i) {
            return Some(i);
        }
        i += 1;
    }
    None
}

/// The last occurrence of byte `b` in `h`, if any.
pub fn rfind_byte_in(h: &[u8], b: u8) -> (r: Option<usize>)
    ensures
        match r {
            Some(i) => rfind_byte(h@, b) == Some(i as int),
            None => rfind_byte(h@, b) is None,
        },
{
    let mut i = h.len();
    proof {
        assert(h@.subrange(0, h@.len() as int) =~= h@);
    }
    while i > 0
        invariant
            i <= h@.len(),
            rfind_byte(h@, b) == rfind_byte(h@.subrange(0, i as int), b),
        decreases i,
    {
        i = i - 1;
        if h[i] == b {
            proof {
                let s = h@.subrange(0, i + 1);
                assert(s[s.len() - 1] == b);
            }
            return Some(i);
        }
        proof {
            let s = h@.subrange(0, i + 1);
            assert(s[s.len() - 1] != b);
            assert(s.drop_last() =~= h@.subrange(0, i as int));
        }
    }
    None
}

/// The slice with leading and trailing ASCII whitespace removed.
pub fn trim_slice<'a>(h: &'a [u8]) -> (r: &'a [u8])
    ensures
        r@ == trim(h@),
{
    let hl = h.len();
    let mut lo: usize = 0;
    while lo < hl && is_ws_u8(h[lo])
        invariant
            lo <= hl,
            hl == h@.len(),
            forall|j: int| 0 <= j < lo ==> is_ws(h@[j]),
        decreases hl - lo,
    {
        lo += 1;
    }
    proof {
        lemma_ws_prefix_is(h@, lo as nat);
    }
    let mut hi: usize = hl;
    while hi > lo && is_ws_u8(h[hi - 1])
        invariant
            lo <= hi <= hl,
            hl == h@.len(),
            forall|j: int| hi <= j < hl ==> is_ws(h@[j]),
        decreases hi,
    {
        hi -= 1;
    }
    proof {
        if lo == hl {
            // everything is whitespace; the suffix count makes the result empty
            if hl > 0 {
                assert(is_ws(h@.last()));
                assert(ws_suffix_len(h@) >= 1);
            }
        } else {
            assert(hi > lo);
            assert(!is_ws(h@[hi - 1]));
            lemma_ws_suffix_is(h@, (hl - hi) as nat);
        }
    }
    slice_subrange(h, lo, hi)
}

/// The value of a nonempty all-digit slice, or `None` when the slice is
/// empty, holds a non-digit, or overflows `usize`.
pub fn parse_usize(s: &[u8]) -> (r: Option<usize>)
    ensures
        r == spec_parse_usize(s@),
{
    let sl = s.len();
    if sl == 0 {
        return None;
    }
    let mut acc: usize = 0;
    let mut i: usize = 0;
    while i < sl
        invariant
            0 < sl == s@.len(),
            i <= sl,
            all_digits(s@.subrange(0, i as int)),
            acc == seq_val(s@.subrange(0, i as int)),
        decreases sl - i,
    {
        let b = s[i];
        if !(48 <= b && b <= 57) {
            return None;
        }
        let d = (b - 48) as usize;
        if acc > usize::MAX / 10 || (acc == usize::MAX / 10 && d > usize::MAX % 10) {
            proof {
                let p = s@.subrange(0, i + 1);
                assert(p.drop_last() =~= s@.subrange(0, i as int));
                assert(seq_val(p) == acc * 10 + d);
                assert(acc * 10 + d > usize::MAX) by (nonlinear_arith)
                    requires
                        acc > usize::MAX / 10 || (acc == usize::MAX / 10 && d > usize::MAX % 10),
                        usize::MAX == usize::MAX / 10 * 10 + usize::MAX % 10,
                        d >= 0,
                ;
                if all_digits(s@) {
                    lemma_seq_val_prefix(s@, i + 1);
                }
            }
            return None;
        }
        acc = acc * 10 + d;
        proof {
            let p = s@.subrange(0, i + 1);
            assert(p.drop_last() =~= s@.subrange(0, i as int));
        }
        i += 1;
    }
    proof {
        assert(s@.subrange(0, sl as int) =~= s@);
    }
    Some(acc)
}

/// The value of a nonempty all-digit slice that fits in 16 bits, or `None`.
pub fn parse_u16(s: &[u8]) -> (r: Option<u16>)
    ensures
        r == spec_parse_u16(s@),
{
    proof {
        if s@.len() > 0 && all_digits(s@) {
            lemma_seq_val_nonneg(s@);
        }
    }
    match parse_usize(s) {
        Some(v) => {
            if v <= 65535 {
                Some(v as u16)
            } else {
                None
            }
        },
        None => None,
    }
}

/// Appends the decimal numeral of `n` to `out`.
pub fn push_dec_digits(n: usize, out: &mut Vec<u8>)
    ensures
        final(out)@ == old(out)@ + dec_digits(n as int),
    decreases n,
{
    if n < 10 {
        out.push((48 + n) as u8);
        proof {
            assert(out@ =~= old(out)@ + dec_digits(n as int));
        }
    } else {
        push_dec_digits(n / 10, out);
        out.push((48 + n % 10) as u8);
        proof {
            assert(out@ =~= old(out)@ + dec_digits(n as int));
        }
    }
}

/// True when `p` is a prefix of `b`.
pub fn has_prefix_exec(b: &[u8], p: &[u8]) -> (r: bool)
    ensures
        r == has_prefix(b@, p@),
{
    if p.len() > b.len() {
        return false;
    }
    match_at_exec(b, p, 0)
}

/// True when the two slices are equal up to ASCII case.
pub fn eq_ci(a: &[u8], b: &[u8]) -> (r: bool)
    ensures
        r == (lower(a@) == lower(b@)),
{
    if a.len() != b.len() {
        proof {
            assert(lower(a@).len() != lower(b@).len());
        }
        return false;
    }
    if match_at_ci_exec(a, b, 0) {
        proof {
            assert(lower(a@).subrange(0, lower(b@).len() as int) =~= lower(a@));
        }
        true
    } else {
        proof {
            assert(lower(a@).subrange(0, lower(b@).len() as int) =~= lower(a@));
        }
        false
    }
}

/// Relies on `core::str::from_utf8`: it returns `Ok` exactly on valid UTF-8
/// input, and the returned string views the same bytes.
#[verifier::external_body]
pub fn bytes_as_str(v: &[u8]) -> (r: Option<&str>)
    ensures
        r is Some <==> valid_utf8(v@),
        r matches Some(s) ==> s.spec_bytes() == v@,
{
    core::str::from_utf8(v).ok()
}

/// An index preceded only by ASCII bytes is a character boundary.
pub proof fn lemma_ascii_run_char_boundary(b: Seq<u8>, i: int)
    requires
        valid_utf8(b),
        0 <= i <= b.len(),
        forall|j: int| 0 <= j < i ==> b[j] < 128,
    ensures
        is_char_boundary(b, i),
    decreases i,
{
    if i > 0 {
        assert(valid_first_scalar(b) && valid_utf8(pop_first_scalar(b)));
        assert(is_leading_byte_width_1(b[0]));
        assert(length_of_first_scalar(b) == 1);
        let t = pop_first_scalar(b);
        assert(t =~= b.subrange(1, b.len() as int));
        assert forall|j: int| 0 <= j < i - 1 implies t[j] < 128 by {
            assert(t[j] == b[j + 1]);
        }
        lemma_ascii_run_char_boundary(t, i - 1);
    }
}

/// A sequence of ASCII bytes is valid UTF-8.
pub proof fn lemma_ascii_valid_utf8(b: Seq<u8>)
    requires
        forall|i: int| 0 <= i < b.len() ==> b[i] < 128,
    ensures
        valid_utf8(b),
{
    assert forall|i: int| 0 <= i < b.len() implies #[trigger] is_leading_byte_width_1(b[i]) by {}
    assert(valid_utf8(b.subrange(0, 0)));
    partial_valid_utf8_extend_ascii_block(b, 0, b.len() as int);
    assert(b.subrange(0, b.len() as int) =~= b);
}

} // verus!

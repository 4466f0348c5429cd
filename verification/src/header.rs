use vstd::prelude::*;
use vstd::string::StringSliceAdditionalSpecFns;

verus! {

/// A single HTTP header: a name and a value.
///
/// Both fields borrow from the buffer the header was parsed out of, or from
/// the caller's own storage, so collecting headers never copies text.
#[derive(Clone, Copy, Debug)]
pub struct HttpHeader<'a> {
    /// The name of the header (e.g., "Content-Type", "Authorization").
    pub name: &'a str,
    /// The value of the header (e.g., "application/json", "Bearer abc").
    pub value: &'a str,
}

impl<'a> HttpHeader<'a> {
    /// The header as a pair of UTF-8 byte sequences.
    pub open spec fn spec_pair(self) -> (Seq<u8>, Seq<u8>) {
        (self.name.spec_bytes(), self.value.spec_bytes())
    }
}

/// The headers of a sequence, each as a pair of UTF-8 byte sequences.
pub open spec fn spec_pairs(hs: Seq<HttpHeader>) -> Seq<(Seq<u8>, Seq<u8>)> {
    hs.map_values(|h: HttpHeader| h.spec_pair())
}

} // verus!

//! Text helpers shared by the routing and configuration logic.
//!
//! Paths and names are compared the way `str` compares them: byte by byte
//! over their UTF-8 encodings.
use vstd::prelude::*;
use vstd::utf8::encode_utf8;

verus! {

/// The UTF-8 bytes of a text.
pub open spec fn utf8(s: Seq<char>) -> Seq<u8> {
    encode_utf8(s)
}

/// `prefix` is a prefix of `s`, byte for byte (what `str::starts_with` tests).
pub open spec fn starts_with(s: Seq<char>, prefix: Seq<char>) -> bool {
    utf8(prefix).is_prefix_of(utf8(s))
}

/// Whether `prefix` is a prefix of `s`, compared byte by byte.
pub fn has_prefix(s: &str, prefix: &str) -> (r: bool)
    ensures
        r == starts_with(s@, prefix@),
{
    let sb = s.as_bytes();
    let pb = prefix.as_bytes();
    if pb.len() > sb.len() {
        return false;
    }
    let mut i: usize = 0;
    while i < pb.len()
        invariant
            sb@ == utf8(s@),
            pb@ == utf8(prefix@),
            pb@.len() <= sb@.len(),
            i <= pb@.len(),
            forall|j: int| 0 <= j < i ==> pb@[j] == sb@[j],
        decreases pb@.len() - i,
    {
        if pb[i] != sb[i] {
            return false;
        }
        i = i + 1;
    }
    assert(pb@ =~= sb@.subrange(0, pb@.len() as int));
    true
}

} // verus!

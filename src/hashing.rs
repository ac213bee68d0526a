use vstd::prelude::*;
use sha2::Digest;

verus! {

/// The lowercase hexadecimal SHA-256 digest of the UTF-8 encoding of a text.
pub uninterp spec fn sha256_hex_of(s: Seq<char>) -> Seq<char>;

/// Whether a text is `n` characters, each a lowercase hexadecimal digit.
pub open spec fn is_lower_hex(h: Seq<char>, n: nat) -> bool {
    &&& h.len() == n
    &&& forall|i: int| 0 <= i < h.len() ==> ('0' <= #[trigger] h[i] <= '9' || 'a' <= h[i] <= 'f')
}

/// Relies on sha2::Sha256::digest, rendered through generic-array's
/// `LowerHex`: the result depends on the text alone, and is the 32 digest
/// bytes written as two lowercase hex digits each.
#[verifier::external_body]
pub(crate) fn sha256_hex(s: &str) -> (r: String)
    ensures
        r@ == sha256_hex_of(s@),
        is_lower_hex(r@, 64),
{
    format!("{:x}", sha2::Sha256::digest(s.as_bytes()))
}

} // verus!

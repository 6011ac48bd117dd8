use sha2::{Digest, Sha256};
use vstd::prelude::*;

verus! {

/// The lowercase hex SHA-256 digest of the UTF-8 encoding of `s`.
pub uninterp spec fn sha256_hex(s: Seq<char>) -> Seq<char>;

/// A lowercase hexadecimal digit.
pub open spec fn lower_hex_digit(c: char) -> bool {
    ('0' <= c <= '9') || ('a' <= c <= 'f')
}

/// Content hash of a chunk.
///
/// Relies on `sha2::Sha256` over the string's UTF-8 bytes, printed with
/// `{:x}` (two lowercase hex digits for each of the 32 digest bytes); the
/// digest depends on the text alone.
#[verifier::external_body]
pub fn calculate_content_hash(content: &str) -> (r: String)
    ensures
        r@ == sha256_hex(content@),
        r@.len() == 64,
        forall|i: int| 0 <= i < 64 ==> lower_hex_digit(#[trigger] r@[i]),
{
    let mut hasher = Sha256::new();
    hasher.update(content.as_bytes());
    format!("{:x}", hasher.finalize())
}

} // verus!

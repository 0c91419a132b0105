//! Content digests, computed by the `blake3` crate.

use vstd::prelude::*;

verus! {

/// The BLAKE3 digest of `data`, as `blake3` renders it in hexadecimal.
pub uninterp spec fn blake3_hex(data: Seq<u8>) -> Seq<char>;

/// A lowercase hexadecimal digit.
pub open spec fn is_lower_hex(c: char) -> bool {
    ('0' <= c && c <= '9') || ('a' <= c && c <= 'f')
}

/// The rendering of a 32-byte digest: 64 lowercase hexadecimal digits.
pub open spec fn is_hex_digest(text: Seq<char>) -> bool {
    text.len() == 64 && forall|i: int| 0 <= i < text.len() ==> is_lower_hex(#[trigger] text[i])
}

/// `blake3::hash`, rendered with `blake3::Hash::to_hex`. The digest is
/// computed from `data` alone, in a hasher of its own, and comes out as two
/// lowercase hexadecimal digits for each of its 32 bytes.
#[verifier::external_body]
fn blake3_digest(data: &[u8]) -> (hex: String)
    ensures
        hex@ == blake3_hex(data@),
        is_hex_digest(hex@),
{
    blake3::hash(data).to_hex().to_string()
}

/// The digest of a file's bytes, as lowercase hexadecimal text. It depends on
/// these bytes only: not on the files hashed before, nor on their order.
pub fn content_hash(data: &[u8]) -> (hex: String)
    ensures
        hex@ == blake3_hex(data@),
        is_hex_digest(hex@),
{
    blake3_digest(data)
}

} // verus!

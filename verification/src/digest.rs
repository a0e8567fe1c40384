//! BLAKE3 digests and lower-case hexadecimal.

use vstd::prelude::*;

use crate::json::hex_digit;

verus! {

/// Two hexadecimal digits for each byte, in lower case.
pub open spec fn lower_hex(bytes: Seq<u8>) -> Seq<char> {
    Seq::new(
        2 * bytes.len(),
        |i: int|
            if i % 2 == 0 {
                hex_digit(bytes[i / 2] as int / 16)
            } else {
                hex_digit(bytes[i / 2] as int % 16)
            },
    )
}

/// The BLAKE3 digest of some bytes.
pub uninterp spec fn blake3_of(input: Seq<u8>) -> Seq<u8>;

/// The digest of some bytes.
///
/// Calls `blake3::hash` and `blake3::Hash::as_bytes`. The digest depends on the bytes alone.
#[verifier::external_body]
pub(crate) fn blake3_digest(input: &[u8]) -> (r: [u8; 32])
    ensures
        r@ == blake3_of(input@),
{
    *blake3::hash(input).as_bytes()
}

/// The printed form of a digest.
///
/// Calls `blake3::Hash::to_hex`: two lower-case hexadecimal digits for each byte, in order.
#[verifier::external_body]
pub(crate) fn digest_hex(digest: [u8; 32]) -> (r: String)
    ensures
        r@ == lower_hex(digest@),
{
    blake3::Hash::from_bytes(digest).to_hex().to_string()
}

} // verus!

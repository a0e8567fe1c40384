//! Bytes as hexadecimal text.

use vstd::prelude::*;

use crate::digest::lower_hex;
use crate::json::hex_digit;

verus! {

/// A hexadecimal digit in lower case.
pub open spec fn is_lower_hex(c: char) -> bool {
    ('0' <= c && c <= '9') || ('a' <= c && c <= 'f')
}

/// The value of a hexadecimal digit in either case.
pub open spec fn hex_value(c: char) -> Option<int> {
    if '0' <= c <= '9' {
        Some(c as int - '0' as int)
    } else if 'a' <= c <= 'f' {
        Some(c as int - 'a' as int + 10)
    } else if 'A' <= c <= 'F' {
        Some(c as int - 'A' as int + 10)
    } else {
        None
    }
}

/// Whether a text is made of pairs of hexadecimal digits.
pub open spec fn is_hex(s: Seq<char>) -> bool {
    &&& s.len() % 2 == 0
    &&& forall|i: int| 0 <= i < s.len() ==> hex_value(#[trigger] s[i]) is Some
}

/// The bytes that a text gives, one for each pair of digits.
pub open spec fn hex_bytes(s: Seq<char>) -> Seq<u8> {
    Seq::new(
        s.len() / 2,
        |i: int| (hex_value(s[2 * i])->0 * 16 + hex_value(s[2 * i + 1])->0) as u8,
    )
}

/// Writes bytes as hexadecimal text.
///
/// Calls `hex::encode`: two lower-case digits for each byte, in order.
#[verifier::external_body]
pub(crate) fn hex_encode(bytes: &[u8]) -> (r: String)
    ensures
        r@ == lower_hex(bytes@),
{
    hex::encode(bytes)
}

/// What `hex` says of a text that is not made of pairs of digits.
pub uninterp spec fn hex_fault(s: Seq<char>) -> Seq<char>;

/// Reads hexadecimal text.
///
/// Calls `hex::decode`, and prints the error: a text of pairs of digits, in either case, gives one
/// byte for each pair, and any other text is an error. What is said of it depends on the text alone.
#[verifier::external_body]
pub(crate) fn hex_decode(s: &str) -> (r: Result<Vec<u8>, String>)
    ensures
        match r {
            Ok(bytes) => is_hex(s@) && bytes@ == hex_bytes(s@),
            Err(cause) => !is_hex(s@) && cause@ == hex_fault(s@),
        },
{
    hex::decode(s).map_err(|e| e.to_string())
}

proof fn lemma_hex_digit(n: int)
    requires
        0 <= n < 16,
    ensures
        is_lower_hex(hex_digit(n)),
        hex_value(hex_digit(n)) == Some(n),
{
    reveal_strlit("0123456789abcdef");
}

/// Bytes are written in lower-case digits.
pub proof fn lemma_lower_hex_digits(bytes: Seq<u8>)
    ensures
        forall|i: int| 0 <= i < lower_hex(bytes).len() ==> is_lower_hex(#[trigger] lower_hex(bytes)[i]),
{
    assert forall|i: int| 0 <= i < lower_hex(bytes).len() implies is_lower_hex(
        #[trigger] lower_hex(bytes)[i],
    ) by {
        lemma_hex_digit(bytes[i / 2] as int / 16);
        lemma_hex_digit(bytes[i / 2] as int % 16);
    }
}

/// What was written as hexadecimal text reads back.
pub proof fn law_hex_reads_back(bytes: Seq<u8>)
    ensures
        is_hex(lower_hex(bytes)),
        hex_bytes(lower_hex(bytes)) == bytes,
{
    let s = lower_hex(bytes);
    assert forall|i: int| 0 <= i < bytes.len() implies hex_value(s[2 * i]) == Some(
        bytes[i] as int / 16,
    ) && hex_value(s[2 * i + 1]) == Some(#[trigger] bytes[i] as int % 16) by {
        lemma_hex_digit(bytes[i] as int / 16);
        lemma_hex_digit(bytes[i] as int % 16);
        assert((2 * i) / 2 == i && (2 * i + 1) / 2 == i);
        assert(s[2 * i] == hex_digit(bytes[i] as int / 16));
        assert(s[2 * i + 1] == hex_digit(bytes[i] as int % 16));
    }
    assert forall|j: int| 0 <= j < s.len() implies hex_value(#[trigger] s[j]) is Some by {
        let b = bytes[j / 2];
        assert(j == 2 * (j / 2) || j == 2 * (j / 2) + 1);
    }
    assert(hex_bytes(s) =~= bytes);
}

} // verus!

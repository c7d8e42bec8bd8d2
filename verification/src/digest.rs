//! BLAKE3 digests.

use vstd::prelude::*;

verus! {

/// The BLAKE3 digest of some bytes.
pub uninterp spec fn blake3_digest(input: Seq<u8>) -> Seq<u8>;

/// The lower-case hexadecimal character of a number below sixteen.
pub open spec fn hex_digit(n: int) -> char {
    if n < 10 {
        (('0' as int) + n) as char
    } else {
        (('a' as int) + n - 10) as char
    }
}

/// Bytes in lower-case hexadecimal, two characters each.
pub open spec fn hex(bytes: Seq<u8>) -> Seq<char> {
    Seq::new(
        2 * bytes.len(),
        |i: int|
            if i % 2 == 0 {
                hex_digit(bytes[i / 2] as int / 16)
            } else {
                hex_digit(bytes[i / 2] as int % 16)
            },
    )
}

/// `blake3::hash` and `Hash::to_hex`: claimed to give the digest of the bytes
/// in lower-case hexadecimal.
#[verifier::external_body]
pub(crate) fn hex_digest(bytes: &[u8]) -> (r: String)
    ensures
        r@ == hex(blake3_digest(bytes@)),
{
    blake3::hash(bytes).to_hex().to_string()
}

/// `blake3::hash`: claimed to give the 32 bytes of the digest.
#[verifier::external_body]
pub(crate) fn digest(bytes: &[u8]) -> (r: [u8; 32])
    ensures
        r@ == blake3_digest(bytes@),
{
    *blake3::hash(bytes).as_bytes()
}

} // verus!

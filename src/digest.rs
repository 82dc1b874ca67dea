//! SHA-256 digests rendered as lowercase hexadecimal text.

use vstd::prelude::*;

verus! {

/// The character of a hexadecimal digit value below sixteen, in lower case.
pub open spec fn hex_digit(n: int) -> char {
    if n < 10 {
        (('0' as int) + n) as char
    } else {
        (('a' as int) + (n - 10)) as char
    }
}

/// Two lowercase hexadecimal digits per byte, high nibble first.
pub open spec fn hex_of(b: Seq<u8>) -> Seq<char> {
    Seq::new(
        2 * b.len(),
        |i: int|
            if i % 2 == 0 {
                hex_digit(b[i / 2] as int / 16)
            } else {
                hex_digit(b[i / 2] as int % 16)
            },
    )
}

/// The SHA-256 digest of a byte sequence.
pub uninterp spec fn sha256_of(data: Seq<u8>) -> Seq<u8>;

/// Relies on sha2's `Sha256::digest`: the 32-byte digest of `data`.
#[verifier::external_body]
fn sha256(data: &[u8]) -> (r: Vec<u8>)
    ensures
        r@ == sha256_of(data@),
        r@.len() == 32,
{
    <sha2::Sha256 as sha2::Digest>::digest(data).to_vec()
}

/// Relies on `hex::encode`: two lowercase digits for each byte, in order.
#[verifier::external_body]
fn to_hex(b: &[u8]) -> (r: String)
    ensures
        r@ == hex_of(b@),
{
    hex::encode(b)
}

/// The lowercase hexadecimal SHA-256 digest of `input`.
pub fn sha256sum(input: &[u8]) -> (r: String)
    ensures
        r@ == hex_of(sha256_of(input@)),
        r@.len() == 64,
{
    let d = sha256(input);
    to_hex(d.as_slice())
}

} // verus!

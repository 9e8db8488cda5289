//! Hashing and hexadecimal text.

use vstd::prelude::*;

verus! {

/// The Keccak-256 digest of the bytes.
pub uninterp spec fn keccak256(bytes: Seq<u8>) -> Seq<u8>;

/// The lower-case hexadecimal digit of a number below 16.
pub open spec fn hex_digit(nibble: u8) -> char {
    if nibble < 10 {
        (48 + nibble) as char
    } else {
        (87 + nibble) as char
    }
}

/// The bytes in hexadecimal: two lower-case digits for each byte, the high
/// half first.
pub open spec fn hex_text(bytes: Seq<u8>) -> Seq<char> {
    Seq::new(
        2 * bytes.len(),
        |i: int|
            hex_digit(
                if i % 2 == 0 {
                    bytes[i / 2] / 16
                } else {
                    bytes[i / 2] % 16
                },
            ),
    )
}

/// `Keccak256::digest` of the crate `sha3`, through its trait `Digest`: the
/// result is taken to be the Keccak-256 digest of the bytes, a function of
/// the bytes alone.
#[verifier::external_body]
fn keccak256_digest(bytes: &[u8]) -> (digest: Vec<u8>)
    ensures
        digest@ == keccak256(bytes@),
{
    <sha3::Keccak256 as sha3::Digest>::digest(bytes).to_vec()
}

/// `hex::encode`: each byte becomes two digits out of `0123456789abcdef`,
/// that of the high half first.
#[verifier::external_body]
fn hex_encode(bytes: &[u8]) -> (text: String)
    ensures
        text@ == hex_text(bytes@),
{
    hex::encode(bytes)
}

/// The bytes in hexadecimal.
pub fn to_hex(bytes: &Vec<u8>) -> (text: String)
    ensures
        text@ == hex_text(bytes@),
{
    hex_encode(bytes.as_slice())
}

/// The Keccak-256 digest of the bytes, in hexadecimal.
pub fn keccak256_hex(bytes: &Vec<u8>) -> (text: String)
    ensures
        text@ == hex_text(keccak256(bytes@)),
{
    let digest = keccak256_digest(bytes.as_slice());
    hex_encode(digest.as_slice())
}

} // verus!

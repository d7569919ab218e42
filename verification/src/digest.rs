//! The content hash of a file: SHA-1, written in lowercase hexadecimal.

use crate::text::digit_char;
use vstd::prelude::*;

verus! {

/// The SHA-1 digest of `data`, as the sha1 crate computes it.
pub uninterp spec fn sha1_of(data: Seq<u8>) -> Seq<u8>;

/// The character of one hexadecimal digit, in lower case.
pub open spec fn hex_digit(v: int) -> char {
    if v < 10 {
        digit_char(v)
    } else if v == 10 {
        'a'
    } else if v == 11 {
        'b'
    } else if v == 12 {
        'c'
    } else if v == 13 {
        'd'
    } else if v == 14 {
        'e'
    } else {
        'f'
    }
}

/// Two lowercase hexadecimal digits for each byte, the high half first.
pub open spec fn hex_lower(bytes: Seq<u8>) -> Seq<char> {
    Seq::new(
        2 * bytes.len(),
        |k: int|
            hex_digit(
                if k % 2 == 0 {
                    bytes[k / 2] as int / 16
                } else {
                    bytes[k / 2] as int % 16
                },
            ),
    )
}

/// Calls `sha1::Sha1::digest`. Trusted: the digest is the one named by
/// `sha1_of`, a function of the bytes alone, and has the twenty bytes
/// of its output type.
#[verifier::external_body]
fn sha1_digest(data: &[u8]) -> (digest: Vec<u8>)
    ensures
        digest@ == sha1_of(data@),
        digest@.len() == 20,
{
    <sha1::Sha1 as sha1::Digest>::digest(data).to_vec()
}

/// Calls `hex::encode`. Trusted: every byte becomes two lowercase
/// hexadecimal digits, in order.
#[verifier::external_body]
fn hex_encode(bytes: &[u8]) -> (text: String)
    ensures
        text@ == hex_lower(bytes@),
{
    hex::encode(bytes)
}

/// The digest of `data`: twenty bytes.
pub fn digest(data: &[u8]) -> (digest: Vec<u8>)
    ensures
        digest@ == sha1_of(data@),
        digest@.len() == 20,
{
    sha1_digest(data)
}

/// A digest written out in lowercase hexadecimal.
pub fn hex_text(digest: &[u8]) -> (text: String)
    ensures
        text@ == hex_lower(digest@),
        text@.len() == 2 * digest@.len(),
{
    hex_encode(digest)
}

/// The content hash of `data` as it appears in a property: the digest
/// in lowercase hexadecimal, forty characters.
pub fn content_hash(data: &[u8]) -> (text: String)
    ensures
        text@ == hex_lower(sha1_of(data@)),
        text@.len() == 40,
{
    let found = digest(data);
    hex_text(found.as_slice())
}

} // verus!

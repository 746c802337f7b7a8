//! SHA-1 checksums, as lowercase hexadecimal.

use vstd::prelude::*;
use crate::errors::Error;
use crate::launch::account::hex_lower;
use crate::text::{ascii_lowercase, chars_eq, lower_seq, to_chars};

verus! {

/// The SHA-1 digest of `data`.
pub uninterp spec fn sha1_spec(data: Seq<u8>) -> Seq<u8>;

/// Calls `<sha1::Sha1 as sha1::Digest>::digest`: the 20-byte SHA-1 digest
/// of `data`, a function of `data` alone.
#[verifier::external_body]
fn sha1_digest(data: &[u8]) -> (d: [u8; 20])
    ensures
        d@ == sha1_spec(data@),
{
    <sha1::Sha1 as sha1::Digest>::digest(data).into()
}

/// Calls `hex::encode`: two lowercase hexadecimal digits per byte, high
/// nibble first.
#[verifier::external_body]
fn hex_encode(data: &[u8]) -> (s: String)
    ensures
        s@ == hex_lower(data@),
{
    hex::encode(data)
}

/// The SHA-1 of `data` in lowercase hexadecimal.
pub fn sha1_hex(data: &[u8]) -> (s: String)
    ensures
        s@ == hex_lower(sha1_spec(data@)),
{
    let d = sha1_digest(data);
    hex_encode(&d)
}

/// The two texts are equal once ASCII letters are lowercased
/// (`str::eq_ignore_ascii_case`).
pub open spec fn eq_ignore_ascii_case(a: Seq<char>, b: Seq<char>) -> bool {
    lower_seq(a) == lower_seq(b)
}

/// Checks a computed checksum `actual` against `expected`, ignoring ASCII
/// case; a mismatch names both.
pub fn verify_sha1(actual: String, expected: &str) -> (r: Result<(), Error>)
    ensures
        r is Ok <==> eq_ignore_ascii_case(actual@, expected@),
        r matches Err(e) ==> (e matches Error::ChecksumMismatch { expected: x, actual: y } && x@
            == expected@ && y@ == actual@),
{
    let a = ascii_lowercase(to_chars(actual.as_str()).as_slice());
    let b = ascii_lowercase(to_chars(expected).as_slice());
    if chars_eq(a.as_slice(), b.as_slice()) {
        Ok(())
    } else {
        Err(Error::ChecksumMismatch { expected: expected.to_string(), actual })
    }
}

} // verus!

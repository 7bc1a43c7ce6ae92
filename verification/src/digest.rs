//! SHA-256 checksums of images, written as lower-case hexadecimal.

use vstd::prelude::*;
use sha2::{Digest, Sha256};

verus! {

/// The SHA-256 digest of `data`.
pub uninterp spec fn sha256(data: Seq<u8>) -> Seq<u8>;

/// Calls `<sha2::Sha256 as Digest>::digest`. The result is the SHA-256
/// digest of `data`, named `sha256`; its 32-byte size is the output size of
/// `Sha256`. Nothing else about the digest is stated.
#[verifier::external_body]
fn sha256_digest(data: &[u8]) -> (digest: Vec<u8>)
    ensures
        digest@ == sha256(data@),
        digest@.len() == 32,
{
    Sha256::digest(data).to_vec()
}

/// The lower-case hexadecimal digit for `n`, which is below 16.
pub open spec fn hex_char(n: int) -> char {
    if n < 10 {
        (48 + n) as char
    } else {
        (87 + n) as char
    }
}

/// `bytes` written as lower-case hexadecimal, two digits per byte, most
/// significant digit first.
pub open spec fn hex_lower(bytes: Seq<u8>) -> Seq<char>
    decreases bytes.len(),
{
    if bytes.len() == 0 {
        Seq::<char>::empty()
    } else {
        hex_lower(bytes.drop_last()) + seq![
            hex_char(bytes.last() as int / 16),
            hex_char(bytes.last() as int % 16),
        ]
    }
}

fn hex_digit_of(n: u8) -> (c: char)
    requires
        n < 16,
    ensures
        c == hex_char(n as int),
{
    if n < 10 {
        (48 + n) as char
    } else {
        (87 + n) as char
    }
}

/// `bytes` as lower-case hexadecimal.
pub fn to_hex(bytes: &[u8]) -> (text: String)
    ensures
        text@ == hex_lower(bytes@),
{
    let mut digits: Vec<char> = Vec::new();
    let mut i: usize = 0;
    while i < bytes.len()
        invariant
            i <= bytes.len(),
            digits@ == hex_lower(bytes@.take(i as int)),
        decreases bytes.len() - i,
    {
        let b = bytes[i];
        digits.push(hex_digit_of(b / 16));
        digits.push(hex_digit_of(b % 16));
        assert(bytes@.take(i + 1).drop_last() =~= bytes@.take(i as int));
        i = i + 1;
        assert(digits@ =~= hex_lower(bytes@.take(i as int)));
    }
    assert(bytes@.take(i as int) =~= bytes@);
    crate::text::string_of(&digits)
}

/// The SHA-256 digest of `data` in lower-case hexadecimal.
pub fn hash(data: &[u8]) -> (text: String)
    ensures
        text@ == hex_lower(sha256(data@)),
{
    let digest = sha256_digest(data);
    to_hex(&digest)
}

} // verus!

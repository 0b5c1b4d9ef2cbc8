use vstd::prelude::*;
use vstd::string::StringSliceAdditionalSpecFns;

verus! {

/// The SHA-1 digest of `data`, as the `sha1` crate computes it.
pub uninterp spec fn sha1_of(data: Seq<u8>) -> Seq<u8>;

/// Relies on `sha1::Sha1::digest` (through `sha1::Digest`): the 20-byte SHA-1
/// digest of `data`, which depends on `data` alone.
#[verifier::external_body]
fn sha1_digest(data: &[u8]) -> (r: Vec<u8>)
    ensures
        r@ == sha1_of(data@),
        r@.len() == 20,
{
    <sha1::Sha1 as sha1::Digest>::digest(data).to_vec()
}

/// The upper-case hexadecimal digit for `n`, which is below 16.
pub open spec fn hex_digit_upper(n: u8) -> char {
    if n < 10 {
        (('0' as u8) + n) as u8 as char
    } else {
        (('A' as u8) + n - 10) as u8 as char
    }
}

/// Two upper-case hexadecimal digits for each byte, high nibble first.
pub open spec fn hex_upper(b: Seq<u8>) -> Seq<char> {
    Seq::new(
        2 * b.len(),
        |i: int|
            if i % 2 == 0 {
                hex_digit_upper(b[i / 2] / 16)
            } else {
                hex_digit_upper(b[i / 2] % 16)
            },
    )
}

/// Relies on `hex::encode_upper`: two upper-case hexadecimal digits for each
/// byte, high nibble first.
#[verifier::external_body]
fn encode_upper_hex(b: &[u8]) -> (r: String)
    ensures
        r@ == hex_upper(b@),
{
    hex::encode_upper(b)
}

pub open spec fn is_upper_hex_digit(c: char) -> bool {
    ('0' <= c && c <= '9') || ('A' <= c && c <= 'F')
}

/// A digest as this library renders it: 40 upper-case hexadecimal digits.
pub open spec fn is_digest_text(s: Seq<char>) -> bool {
    s.len() == 40 && forall|i: int| 0 <= i < s.len() ==> is_upper_hex_digit(#[trigger] s[i])
}

/// The rendered digest of a secret.
pub open spec fn digest_text(secret: Seq<u8>) -> Seq<char> {
    hex_upper(sha1_of(secret))
}

/// The upper-case hexadecimal SHA-1 digest of `secret`, with no separators.
pub fn hash_bytes(secret: &[u8]) -> (r: String)
    ensures
        r@ == digest_text(secret@),
        is_digest_text(r@),
{
    let d = sha1_digest(secret);
    let r = encode_upper_hex(d.as_slice());
    proof {
        assert forall|i: int| 0 <= i < r@.len() implies is_upper_hex_digit(#[trigger] r@[i]) by {
            let b = d@[i / 2];
            assert(b / 16 < 16);
            assert(b % 16 < 16);
        }
    }
    r
}

/// The upper-case hexadecimal SHA-1 digest of the UTF-8 bytes of `password`.
pub fn hash_password(password: &str) -> (r: String)
    ensures
        r@ == digest_text(password.spec_bytes()),
        is_digest_text(r@),
{
    hash_bytes(password.as_bytes())
}

} // verus!

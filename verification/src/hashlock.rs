//! The one-way commitment scheme: a voucher stores the lowercase hex digest
//! of the SHA-256 hash of its secret, and redemption recomputes and compares.

use vstd::prelude::*;

verus! {

/// What SHA-256 returns for a given sequence of characters, hashed as their
/// UTF-8 bytes.  The digest is a function of the characters alone: no salt,
/// no per-voucher randomization, so identical secrets always produce
/// identical commitments.
pub uninterp spec fn sha256_of(secret: Seq<char>) -> Seq<u8>;

/// The sixteen lowercase hex digits, by value.
pub open spec fn hex_digit(n: u8) -> char
    recommends
        n < 16,
{
    seq!['0', '1', '2', '3', '4', '5', '6', '7', '8', '9', 'a', 'b', 'c', 'd', 'e', 'f'][n as int]
}

/// The lowercase hex encoding of a byte sequence: two digits per byte, high
/// nibble first.
pub open spec fn hex_encoding(bytes: Seq<u8>) -> Seq<char> {
    Seq::new(
        bytes.len() * 2,
        |i: int|
            if i % 2 == 0 {
                hex_digit(bytes[i / 2] / 16)
            } else {
                hex_digit(bytes[i / 2] % 16)
            },
    )
}

/// The commitment stored for a secret: the lowercase hex digest of its
/// SHA-256 hash.
pub open spec fn commitment_of(secret: Seq<char>) -> Seq<char> {
    hex_encoding(sha256_of(secret))
}

/// A lowercase hex digit.
pub open spec fn is_hex_digit(c: char) -> bool {
    (48 <= c as u32 && c as u32 <= 57) || (97 <= c as u32 && c as u32 <= 102)
}

/// Relies on near_sdk::env::sha256 for the SHA-256 digest of the input
/// bytes: 32 bytes long and a function of the input alone.
#[verifier::external_body]
fn sha256_digest(secret: &str) -> (r: Vec<u8>)
    ensures
        r@ == sha256_of(secret@),
        r@.len() == 32,
{
    near_sdk::env::sha256(secret.as_bytes())
}

/// Relies on hex::encode: each input byte becomes two lowercase hex digits,
/// high nibble first.
#[verifier::external_body]
fn hex_encode(bytes: &[u8]) -> (r: String)
    ensures
        r@ == hex_encoding(bytes@),
{
    hex::encode(bytes)
}

/// Produce the commitment for a secret: 64 lowercase hex digits.
pub fn commit(secret: &str) -> (r: String)
    ensures
        r@ == commitment_of(secret@),
        r@.len() == 64,
{
    let digest = sha256_digest(secret);
    hex_encode(digest.as_slice())
}

/// Check a secret against a stored commitment by recomputing the digest and
/// comparing for exact equality.
pub fn verify(secret: &str, commitment: &String) -> (r: bool)
    ensures
        r == (commitment@ == commitment_of(secret@)),
{
    let computed = commit(secret);
    computed.eq(commitment)
}

/// Whether a string is exactly 64 lowercase hex digits, the shape of every
/// stored commitment.
pub open spec fn spec_digest_shaped(s: Seq<char>) -> bool {
    s.len() == 64 && (forall|i: int| 0 <= i < s.len() ==> is_hex_digit(#[trigger] s[i]))
}

/// Decide whether a string has the shape of a commitment digest.
pub fn digest_shaped(s: &String) -> (r: bool)
    ensures
        r == spec_digest_shaped(s@),
{
    let st = s.as_str();
    let n = st.unicode_len();
    if n != 64 {
        return false;
    }
    let mut i: usize = 0;
    while i < 64
        invariant
            0 <= i <= 64,
            st@ == s@,
            s@.len() == 64,
            forall|j: int| 0 <= j < i ==> is_hex_digit(#[trigger] s@[j]),
        decreases 64 - i,
    {
        let c = st.get_char(i);
        let u = c as u32;
        if !((48 <= u && u <= 57) || (97 <= u && u <= 102)) {
            return false;
        }
        i = i + 1;
    }
    true
}

} // verus!

//! Content digests.
//!
//! A digest is a 128-bit content fingerprint rendered as 32 lowercase hex
//! characters.  Two byte streams with the same content yield the same
//! digest; digests are only ever compared for equality, never reversed.

use vstd::prelude::*;

verus! {

/// A lowercase hexadecimal digit.
pub open spec fn is_hex_char(c: char) -> bool {
    ('0' <= c && c <= '9') || ('a' <= c && c <= 'f')
}

/// A well-formed digest string: exactly 32 lowercase hex characters.
pub open spec fn is_digest(s: Seq<char>) -> bool {
    s.len() == 32 && (forall|i: int| 0 <= i < s.len() ==> is_hex_char(#[trigger] s[i]))
}

/// The hex rendering of the MD5 digest of a byte stream.  The value is a
/// function of the bytes alone; it is left abstract here and realised by
/// the `md5` crate at run time.
pub uninterp spec fn md5_hex(bytes: Seq<u8>) -> Seq<char>;

/// Relies on `md5::compute` and the `md5` crate's `LowerHex` rendering of
/// `md5::Digest`: the digest is a function of the input bytes alone and
/// prints as exactly 32 lowercase hex characters (two per digest byte).
#[verifier::external_body]
pub fn md5_hex_of(data: &[u8]) -> (r: String)
    ensures
        r@ == md5_hex(data@),
        is_digest(r@),
{
    format!("{:x}", md5::compute(data))
}

/// Checks that a string is a well-formed digest: 32 lowercase hex characters.
pub fn is_digest_str(s: &str) -> (b: bool)
    ensures
        b == is_digest(s@),
{
    let n = s.unicode_len();
    if n != 32 {
        return false;
    }
    let mut i: usize = 0;
    while i < 32
        invariant
            0 <= i <= 32,
            s@.len() == 32,
            forall|j: int| 0 <= j < i ==> is_hex_char(#[trigger] s@[j]),
        decreases 32 - i,
    {
        let c = s.get_char(i);
        if !(('0' <= c && c <= '9') || ('a' <= c && c <= 'f')) {
            return false;
        }
        i = i + 1;
    }
    true
}

} // verus!

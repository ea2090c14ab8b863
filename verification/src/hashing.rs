//! The content hasher: a 256-bit digest rendered as lowercase hex, plus the
//! leading-zero test that the proof-of-work puzzle is stated over.

use vstd::prelude::*;

verus! {

/// The lowercase-hex SHA-256 digest of a string's characters.
///
/// The digest itself is far too long to state here; this name pins down only
/// that it is a function of the input characters, which is what hash
/// determinism and chain verification rest on.
pub uninterp spec fn sha256_hex_of(s: Seq<char>) -> Seq<char>;

/// Relies on sha2's `Sha256` (via the `Digest` trait) and the lowercase-hex
/// rendering of its 32-byte output: the result depends on the input bytes
/// alone and is always 64 characters long.
#[verifier::external_body]
pub(crate) fn sha256_hex(s: &str) -> (r: String)
    ensures
        r@ == sha256_hex_of(s@),
        r@.len() == 64,
{
    let mut hasher = <sha2::Sha256 as sha2::Digest>::new();
    sha2::Digest::update(&mut hasher, s.as_bytes());
    format!("{:x}", sha2::Digest::finalize(hasher))
}

/// `s` begins with at least `d` zero hex characters.
pub open spec fn has_leading_zeros(s: Seq<char>, d: nat) -> bool {
    &&& d <= s.len()
    &&& forall|i: int| 0 <= i < d ==> s[i] == '0'
}

/// Decides whether `s` has at least `d` leading zero characters.
pub fn meets_difficulty(s: &str, d: usize) -> (b: bool)
    ensures
        b == has_leading_zeros(s@, d as nat),
{
    let n = s.unicode_len();
    if n < d {
        return false;
    }
    let mut i: usize = 0;
    while i < d
        invariant
            i <= d,
            d <= s@.len(),
            forall|j: int| 0 <= j < i ==> s@[j] == '0',
        decreases d - i,
    {
        let c = s.get_char(i);
        if c != '0' {
            proof {
                assert(s@[i as int] != '0');
            }
            return false;
        }
        i += 1;
    }
    true
}

} // verus!

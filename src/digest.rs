//! Content digests: `sha256:<64 lowercase hex digits>`.

use vstd::prelude::*;
use crate::text::concat_str;

verus! {

/// The lowercase hexadecimal SHA-256 of a byte sequence.
pub uninterp spec fn sha256_hex(data: Seq<u8>) -> Seq<char>;

pub open spec fn is_lower_hex(c: char) -> bool {
    ('0' <= c && c <= '9') || ('a' <= c && c <= 'f')
}

/// The canonical digest of a byte sequence.
pub open spec fn digest_of(data: Seq<u8>) -> Seq<char> {
    "sha256:"@ + sha256_hex(data)
}

/// Relies on `sha256::digest`: the SHA-256 of the bytes, written by
/// `hex::encode` as 64 lowercase hexadecimal digits.
#[verifier::external_body]
fn sha256_hex_of(data: &[u8]) -> (r: String)
    ensures
        r@ == sha256_hex(data@),
        r@.len() == 64,
        forall|i: int| 0 <= i < 64 ==> is_lower_hex(#[trigger] r@[i]),
{
    sha256::digest(data)
}

/// The canonical `sha256:<hex>` digest of `data`.
pub fn sha256_digest(data: &Vec<u8>) -> (r: String)
    ensures
        r@ == digest_of(data@),
        r@.len() == 71,
{
    let hex = sha256_hex_of(data.as_slice());
    proof {
        reveal_strlit("sha256:");
    }
    concat_str("sha256:", hex.as_str())
}

/// `s` is a canonical digest: `sha256:` and 64 lowercase hexadecimal digits.
pub open spec fn is_canonical_digest(s: Seq<char>) -> bool {
    s.len() == 71 && s.subrange(0, 7) == "sha256:"@ && forall|i: int| 7 <= i < 71 ==> is_lower_hex(#[trigger] s[i])
}

/// Whether `s` is a canonical digest.
pub fn is_digest(s: &str) -> (r: bool)
    ensures
        r == is_canonical_digest(s@),
{
    let cs = crate::text::chars_of(s);
    proof {
        reveal_strlit("sha256:");
    }
    if cs.len() != 71 {
        return false;
    }
    if !(cs[0] == 's' && cs[1] == 'h' && cs[2] == 'a' && cs[3] == '2' && cs[4] == '5' && cs[5] == '6' && cs[6] == ':') {
        proof {
            let p = cs@.subrange(0, 7);
            assert(p[0] == cs@[0] && p[1] == cs@[1] && p[2] == cs@[2] && p[3] == cs@[3] && p[4] == cs@[4]
                && p[5] == cs@[5] && p[6] == cs@[6]);
        }
        return false;
    }
    assert(cs@.subrange(0, 7) =~= "sha256:"@);
    let mut i: usize = 7;
    while i < 71
        invariant
            cs@ == s@,
            cs@.len() == 71,
            7 <= i <= 71,
            forall|j: int| 7 <= j < i ==> is_lower_hex(#[trigger] cs@[j]),
        decreases 71 - i,
    {
        let c = cs[i];
        if !(('0' <= c && c <= '9') || ('a' <= c && c <= 'f')) {
            return false;
        }
        i = i + 1;
    }
    true
}

/// Every digest that `sha256_digest` computes is canonical.
pub proof fn lemma_computed_digest_is_canonical(data: Seq<u8>)
    requires
        sha256_hex(data).len() == 64,
        forall|i: int| 0 <= i < 64 ==> is_lower_hex(#[trigger] sha256_hex(data)[i]),
    ensures
        is_canonical_digest(digest_of(data)),
{
    reveal_strlit("sha256:");
    let d = digest_of(data);
    assert(d.subrange(0, 7) =~= "sha256:"@);
    assert forall|i: int| 7 <= i < 71 implies is_lower_hex(#[trigger] d[i]) by {
        assert(d[i] == sha256_hex(data)[i - 7]);
    }
}

} // verus!

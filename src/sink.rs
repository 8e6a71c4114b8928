//! The rules of a content store that receives pulled blobs: writes follow
//! each other without gaps or overlaps, and a commit stands only when the
//! size and the digest of what was written match.

use vstd::prelude::*;
use crate::streaming::{CommitRequest, WriteChunk};
use crate::text::{chars_of, concat_str, str_eq, string_of};

verus! {

/// A write or commit that the store refuses, with its reason.
#[derive(Debug)]
pub struct StoreError(pub String);

/// Accepts a chunk only at the end of what was written so far.
pub fn check_write(written: u64, chunk: &WriteChunk) -> (r: Result<(), StoreError>)
    ensures
        r is Ok <==> chunk.offset == written,
{
    if chunk.offset == written {
        Ok(())
    } else {
        Err(StoreError(String::from_str("write does not follow the bytes written so far")))
    }
}

/// Accepts a commit when the bytes written are as many as it says and
/// their digest is the blob's.
pub fn check_commit(written: u64, digest_of_written: &str, commit: &CommitRequest) -> (r: Result<(), StoreError>)
    ensures
        r is Ok <==> (written == commit.offset && digest_of_written@ == commit.ref_name@),
{
    if written != commit.offset {
        return Err(StoreError(String::from_str("committed size differs from the bytes written")));
    }
    if !str_eq(digest_of_written, commit.ref_name.as_str()) {
        return Err(StoreError(concat_str("digest mismatch: got ", digest_of_written)));
    }
    Ok(())
}

/// The digest that a blob file of the store is named after: `sha256-<hex>`
/// stands for `sha256:<hex>`.
pub open spec fn digest_of_file_name(name: Seq<char>) -> Option<Seq<char>> {
    if name.len() >= 7 && name.subrange(0, 7) == "sha256-"@ {
        Some("sha256:"@ + name.subrange(7, name.len() as int))
    } else {
        None
    }
}

/// The digest a blob file is named after, if the name is one of a blob.
pub fn digest_from_file_name(name: &str) -> (r: Option<String>)
    ensures
        match digest_of_file_name(name@) {
            Some(d) => r is Some && r->0@ == d,
            None => r is None,
        },
{
    let cs = chars_of(name);
    proof {
        reveal_strlit("sha256-");
    }
    if cs.len() >= 7 && cs[0] == 's' && cs[1] == 'h' && cs[2] == 'a' && cs[3] == '2' && cs[4] == '5'
        && cs[5] == '6' && cs[6] == '-' {
        assert(cs@.subrange(0, 7) =~= "sha256-"@);
        let mut rest: Vec<char> = Vec::new();
        let mut i: usize = 7;
        while i < cs.len()
            invariant
                7 <= i <= cs@.len(),
                rest@ == cs@.subrange(7, i as int),
            decreases cs@.len() - i,
        {
            rest.push(cs[i]);
            i = i + 1;
            assert(rest@ =~= cs@.subrange(7, i as int));
        }
        let hex = string_of(rest.as_slice());
        Some(concat_str("sha256:", hex.as_str()))
    } else {
        proof {
            if cs@.len() >= 7 {
                let s = cs@.subrange(0, 7);
                assert(s[0] == cs@[0] && s[1] == cs@[1] && s[2] == cs@[2] && s[3] == cs@[3]
                    && s[4] == cs@[4] && s[5] == cs@[5] && s[6] == cs@[6]);
            }
        }
        None
    }
}

/// Naming a blob file after a digest and reading the name back gives the
/// digest again.
pub proof fn lemma_file_name_round_trip(digest: Seq<char>)
    requires
        crate::digest::is_canonical_digest(digest),
    ensures
        digest_of_file_name(crate::downloader::cache_name_of(digest)) == Some(digest),
{
    reveal_strlit("sha256:");
    reveal_strlit("sha256-");
    let n = crate::downloader::cache_name_of(digest);
    assert forall|i: int| 0 <= i < 7 implies digest[i] == "sha256:"@[i] by {
        assert(digest.subrange(0, 7)[i] == digest[i]);
    }
    assert(n.subrange(0, 7) =~= "sha256-"@);
    assert forall|i: int| 7 <= i < 71 implies digest[i] != ':' by {
        assert(crate::digest::is_lower_hex(digest[i]));
    }
    assert("sha256:"@ + n.subrange(7, n.len() as int) =~= digest) by {
        assert(digest.subrange(0, 7) == "sha256:"@);
        assert forall|i: int| 0 <= i < 7 implies digest[i] == "sha256:"@[i] by {
            assert(digest.subrange(0, 7)[i] == digest[i]);
        }
        assert forall|i: int| 7 <= i < 71 implies n[i] == digest[i] by {
            assert(digest[i] != ':');
        }
        assert forall|i: int| 0 <= i < 71 implies ("sha256:"@ + n.subrange(7, n.len() as int))[i] == digest[i] by {
            if i >= 7 {
                assert(n.subrange(7, n.len() as int)[i - 7] == n[i]);
            }
        }
    }
}

} // verus!

//! Names in a v2 registry's on-disk layout, and the plan of what a cleanup
//! removes.

use vstd::prelude::*;
use crate::text::chars_of;

verus! {

/// `name` without a leading `sha256:`.
pub open spec fn without_sha256_prefix(name: Seq<char>) -> Seq<char> {
    if name.len() >= 7 && name.subrange(0, 7) == "sha256:"@ {
        name.subrange(7, name.len() as int)
    } else {
        name
    }
}

/// Removes a leading `sha256:` from a digest.
pub fn strip_sha256_prefix(name: &str) -> (r: String)
    ensures
        r@ == without_sha256_prefix(name@),
{
    let cs = chars_of(name);
    proof {
        reveal_strlit("sha256:");
    }
    if cs.len() >= 7 && cs[0] == 's' && cs[1] == 'h' && cs[2] == 'a' && cs[3] == '2' && cs[4] == '5'
        && cs[5] == '6' && cs[6] == ':' {
        assert(cs@.subrange(0, 7) =~= "sha256:"@);
        let mut r: Vec<char> = Vec::new();
        let mut i: usize = 7;
        while i < cs.len()
            invariant
                7 <= i <= cs@.len(),
                r@ == cs@.subrange(7, i as int),
            decreases cs@.len() - i,
        {
            r.push(cs[i]);
            i = i + 1;
            assert(r@ =~= cs@.subrange(7, i as int));
        }
        crate::text::string_of(r.as_slice())
    } else {
        proof {
            if cs@.len() >= 7 {
                let s = cs@.subrange(0, 7);
                assert(s[0] == cs@[0] && s[1] == cs@[1] && s[2] == cs@[2] && s[3] == cs@[3]
                    && s[4] == cs@[4] && s[5] == cs@[5] && s[6] == cs@[6]);
            }
        }
        String::from_str(name)
    }
}

pub open spec fn is_hex_digit(c: char) -> bool {
    ('0' <= c && c <= '9') || ('a' <= c && c <= 'f') || ('A' <= c && c <= 'F')
}

/// A commit directory is named by exactly 40 hexadecimal digits.
pub open spec fn is_commit_name(name: Seq<char>) -> bool {
    name.len() == 40 && forall|i: int| 0 <= i < 40 ==> is_hex_digit(#[trigger] name[i])
}

/// Whether `name` is the name of a commit directory.
pub fn is_commit(name: &str) -> (r: bool)
    ensures
        r == is_commit_name(name@),
{
    let cs = chars_of(name);
    if cs.len() != 40 {
        return false;
    }
    let mut i: usize = 0;
    while i < 40
        invariant
            cs@ == name@,
            cs@.len() == 40,
            i <= 40,
            forall|j: int| 0 <= j < i ==> is_hex_digit(#[trigger] cs@[j]),
        decreases 40 - i,
    {
        let c = cs[i];
        if !(('0' <= c && c <= '9') || ('a' <= c && c <= 'f') || ('A' <= c && c <= 'F')) {
            return false;
        }
        i = i + 1;
    }
    true
}

/// One repository of the registry layout.
#[derive(Debug)]
pub struct Repository {
    pub owner: String,
    pub name: String,
    pub dir: String,
    pub layer_dir: String,
    pub tag_dir: String,
    pub revision_dir: String,
}

/// The registry layout: the blob directory and the repositories.
#[derive(Debug)]
pub struct DockerRepository {
    pub blobs_dir: String,
    pub repositories: Vec<Repository>,
}

/// What a cleanup may remove.
#[derive(Debug, Clone, Copy, PartialEq, Eq, Structural)]
pub struct CleanupOptions {
    pub commits: bool,
    pub indexes: bool,
    pub layers: bool,
    pub blobs: bool,
    pub all: bool,
    pub yes: bool,
}

/// Paths of one repository, by its position in the layout.
#[derive(Debug)]
pub struct RepositoryPaths {
    pub repository: usize,
    pub paths: Vec<String>,
}

/// What a cleanup of a registry layout removes.
#[derive(Debug)]
pub struct CleanupPlan<'a> {
    pub cleanup: CleanupOptions,
    pub repository: &'a DockerRepository,
    pub cleanup_commits: Vec<RepositoryPaths>,
    pub cleanup_indexes: Vec<RepositoryPaths>,
    pub cleanup_revisions: Vec<RepositoryPaths>,
    pub cleanup_layers: Vec<RepositoryPaths>,
    pub cleanup_blobs: Vec<String>,
}

impl<'a> CleanupPlan<'a> {
    /// A plan that removes nothing yet.
    pub fn new(cleanup: CleanupOptions, repository: &'a DockerRepository) -> (r: Self)
        ensures
            r.cleanup == cleanup,
            r.repository == repository,
            r.cleanup_commits@.len() == 0,
            r.cleanup_indexes@.len() == 0,
            r.cleanup_revisions@.len() == 0,
            r.cleanup_layers@.len() == 0,
            r.cleanup_blobs@.len() == 0,
    {
        CleanupPlan {
            cleanup,
            repository,
            cleanup_commits: Vec::new(),
            cleanup_indexes: Vec::new(),
            cleanup_revisions: Vec::new(),
            cleanup_layers: Vec::new(),
            cleanup_blobs: Vec::new(),
        }
    }
}

} // verus!

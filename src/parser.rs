//! Image references: `[registry/]name[:tag]` and the registry URLs derived
//! from them.

use vstd::prelude::*;
use crate::text::{
    chars_of, concat_str, contains_char, contains_seq, contains_str, join_chars, join_with,
    lemma_split_nonempty, split_chars, split_on, string_of,
};

verus! {

/// An image reference without its tag.
#[derive(Debug, Hash)]
pub struct FullImage {
    /// The registry URL with its scheme, such as `https://ghcr.io`.
    pub registry: String,
    /// The name as written in the reference, such as `alpine`.
    pub image_name: String,
    /// The repository path under `/v2/`, such as `library/alpine`.
    pub library_name: String,
    /// The auth service, such as `registry.docker.io`.
    pub service: String,
}

/// An image reference with its tag.
#[derive(Debug, Hash)]
pub struct FullImageWithTag {
    pub image: FullImage,
    pub tag: String,
}

/// The abstract value of a `FullImage`.
pub struct ImageRef {
    pub registry: Seq<char>,
    pub image_name: Seq<char>,
    pub library_name: Seq<char>,
    pub service: Seq<char>,
}

impl View for FullImage {
    type V = ImageRef;

    open spec fn view(&self) -> ImageRef {
        ImageRef {
            registry: self.registry@,
            image_name: self.image_name@,
            library_name: self.library_name@,
            service: self.service@,
        }
    }
}

impl View for FullImageWithTag {
    type V = (ImageRef, Seq<char>);

    open spec fn view(&self) -> (ImageRef, Seq<char>) {
        (self.image@, self.tag@)
    }
}

impl Clone for FullImage {
    fn clone(&self) -> (r: Self)
        ensures
            r@ == self@,
    {
        FullImage {
            registry: self.registry.clone(),
            image_name: self.image_name.clone(),
            library_name: self.library_name.clone(),
            service: self.service.clone(),
        }
    }
}

impl Clone for FullImageWithTag {
    fn clone(&self) -> (r: Self)
        ensures
            r@ == self@,
    {
        FullImageWithTag { image: self.image.clone(), tag: self.tag.clone() }
    }
}

impl PartialEq for FullImage {
    fn eq(&self, other: &Self) -> (r: bool)
        ensures
            r == (self@ == other@),
    {
        self.registry == other.registry && self.image_name == other.image_name
            && self.library_name == other.library_name && self.service == other.service
    }
}

impl vstd::std_specs::cmp::PartialEqSpecImpl for FullImage {
    open spec fn obeys_eq_spec() -> bool {
        true
    }

    open spec fn eq_spec(&self, other: &Self) -> bool {
        self@ == other@
    }
}

impl Eq for FullImage {}

impl PartialEq for FullImageWithTag {
    fn eq(&self, other: &Self) -> (r: bool)
        ensures
            r == (self@ == other@),
    {
        self.image == other.image && self.tag == other.tag
    }
}

impl vstd::std_specs::cmp::PartialEqSpecImpl for FullImageWithTag {
    open spec fn obeys_eq_spec() -> bool {
        true
    }

    open spec fn eq_spec(&self, other: &Self) -> bool {
        self@ == other@
    }
}

impl Eq for FullImageWithTag {}

/// The `/`-separated segments of a reference.
pub open spec fn ref_segments(s: Seq<char>) -> Seq<Seq<char>> {
    split_on(s, '/')
}

/// A reference of three or more segments names its registry host first.
pub open spec fn names_registry(s: Seq<char>) -> bool {
    ref_segments(s).len() >= 3
}

/// What follows the registry host, if any: `name[:tag]`.
pub open spec fn ref_tail(s: Seq<char>) -> Seq<char> {
    if names_registry(s) {
        join_with(ref_segments(s).drop_first(), '/')
    } else {
        s
    }
}

pub open spec fn ref_name(s: Seq<char>) -> Seq<char> {
    split_on(ref_tail(s), ':')[0]
}

pub open spec fn ref_tag(s: Seq<char>) -> Seq<char> {
    if split_on(ref_tail(s), ':').len() >= 2 {
        split_on(ref_tail(s), ':')[1]
    } else {
        "latest"@
    }
}

/// The image that a reference string names.
pub open spec fn parsed_image(s: Seq<char>) -> ImageRef {
    ImageRef {
        registry: if names_registry(s) {
            "https://"@ + ref_segments(s)[0]
        } else {
            "https://registry-1.docker.io"@
        },
        image_name: ref_name(s),
        library_name: if ref_name(s).contains('/') {
            ref_name(s)
        } else {
            "library/"@ + ref_name(s)
        },
        service: if names_registry(s) {
            ref_segments(s)[0]
        } else {
            "registry.docker.io"@
        },
    }
}

/// `<registry>/v2/<library_name>`.
pub open spec fn image_url_of(i: ImageRef) -> Seq<char> {
    i.registry + "/v2/"@ + i.library_name
}

/// `<registry>/v2/<library_name>/manifests/<reference>`.
pub open spec fn manifest_url_of(i: ImageRef, reference: Seq<char>) -> Seq<char> {
    image_url_of(i) + "/manifests/"@ + reference
}

/// `<registry>/v2/<library_name>/blobs/<digest>`.
pub open spec fn blob_url_of(i: ImageRef, digest: Seq<char>) -> Seq<char> {
    image_url_of(i) + "/blobs/"@ + digest
}

/// The token endpoint: Docker Hub's own, or `<registry>/auth`.
pub open spec fn auth_url_of(i: ImageRef) -> Seq<char> {
    if contains_seq(i.registry, "registry-1.docker.io"@) || contains_seq(
        i.registry,
        "registry.docker.io"@,
    ) {
        "https://auth.docker.io/token"@
    } else {
        i.registry + "/auth"@
    }
}

impl FullImage {
    /// The token endpoint of the registry.
    pub fn get_auth_url(&self) -> (r: String)
        ensures
            r@ == auth_url_of(self@),
    {
        if contains_str(self.registry.as_str(), "registry-1.docker.io") || contains_str(
            self.registry.as_str(),
            "registry.docker.io",
        ) {
            String::from_str("https://auth.docker.io/token")
        } else {
            concat_str(self.registry.as_str(), "/auth")
        }
    }

    /// `<registry>/v2/<library_name>`, the base of every resource URL.
    pub fn get_image_url(&self) -> (r: String)
        ensures
            r@ == image_url_of(self@),
    {
        let base = concat_str(self.registry.as_str(), "/v2/");
        concat_str(base.as_str(), self.library_name.as_str())
    }

    /// The URL of a manifest, by tag or digest.
    pub fn manifest_url(&self, reference: &str) -> (r: String)
        ensures
            r@ == manifest_url_of(self@, reference@),
    {
        let base = concat_str(self.get_image_url().as_str(), "/manifests/");
        concat_str(base.as_str(), reference)
    }

    /// The URL of a blob.
    pub fn blob_url(&self, digest: &str) -> (r: String)
        ensures
            r@ == blob_url_of(self@, digest@),
    {
        let base = concat_str(self.get_image_url().as_str(), "/blobs/");
        concat_str(base.as_str(), digest)
    }

    /// The URL that starts a blob upload.
    pub fn upload_start_url(&self) -> (r: String)
        ensures
            r@ == image_url_of(self@) + "/blobs/uploads/"@,
    {
        concat_str(self.get_image_url().as_str(), "/blobs/uploads/")
    }

    /// Whether the registry is GitHub's container registry.
    pub fn is_github_registry(&self) -> (r: bool)
        ensures
            r == contains_seq(self.registry@, "ghcr.io"@),
    {
        contains_str(self.registry.as_str(), "ghcr.io")
    }

    /// Parses a reference and drops its tag.
    pub fn from_image_name(image_name: &str) -> (r: Self)
        ensures
            r@ == parsed_image(image_name@),
    {
        FullImageWithTag::from_image_name(image_name).image
    }
}

impl FullImageWithTag {
    /// Parses `[registry/]name[:tag]`.
    pub fn from_image_name(image_name: &str) -> (r: Self)
        ensures
            r@ == (parsed_image(image_name@), ref_tag(image_name@)),
    {
        let cs = chars_of(image_name);
        let parts = split_chars(cs.as_slice(), '/');
        let named = parts.len() >= 3;
        let tail = if named {
            join_chars(&parts, 1, '/')
        } else {
            cs
        };
        proof {
            let views = parts@.map_values(|p: Vec<char>| p@);
            assert(views =~= ref_segments(image_name@));
            assert(views.subrange(1, parts@.len() as int) =~= ref_segments(image_name@).drop_first());
        }
        assert(tail@ == ref_tail(image_name@));
        let pieces = split_chars(tail.as_slice(), ':');
        proof {
            lemma_split_nonempty(tail@, ':');
        }
        let name = string_of(pieces[0].as_slice());
        let tag = if pieces.len() >= 2 {
            string_of(pieces[1].as_slice())
        } else {
            String::from_str("latest")
        };
        let registry = if named {
            let host = string_of(parts[0].as_slice());
            concat_str("https://", host.as_str())
        } else {
            String::from_str("https://registry-1.docker.io")
        };
        let library_name = if contains_char(pieces[0].as_slice(), '/') {
            string_of(pieces[0].as_slice())
        } else {
            concat_str("library/", name.as_str())
        };
        let service = if named {
            string_of(parts[0].as_slice())
        } else {
            String::from_str("registry.docker.io")
        };
        FullImageWithTag {
            image: FullImage { registry, image_name: name, library_name, service },
            tag,
        }
    }

    /// The URL of this reference's manifest (or index) by tag.
    pub fn get_manifest_url(&self) -> (r: String)
        ensures
            r@ == manifest_url_of(self.image@, self.tag@),
    {
        self.image.manifest_url(self.tag.as_str())
    }
}

/// Parsing a reference and emitting its tagged manifest URL gives
/// `<registry>/v2/<library_name>/manifests/<tag>` of the parsed parts, the
/// URL that manifests and indexes are fetched from.
pub proof fn lemma_parsed_manifest_url(s: Seq<char>)
    ensures
        manifest_url_of(parsed_image(s), ref_tag(s)) == parsed_image(s).registry + "/v2/"@
            + parsed_image(s).library_name + "/manifests/"@ + ref_tag(s),
{
}

} // verus!

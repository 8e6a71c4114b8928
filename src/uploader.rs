//! Pushing blobs and manifests: which request comes next, and the set of
//! digests already pushed in this process.

use vstd::prelude::*;
use crate::execution::Blob;
use crate::parser::{blob_url_of, image_url_of, FullImage, FullImageWithTag, ImageRef};
use crate::text::{chars_of, concat_str, contains_char, str_eq};

verus! {

/// An upload failure, with its description.
#[derive(Debug)]
pub struct OciUploaderError(pub String);

/// The next request of a blob push.
#[derive(Debug)]
pub enum PushStep {
    /// Ask whether the registry has the blob: `HEAD url`.
    Head(String),
    /// Start an upload: `POST url`.
    Post(String),
    /// Send the bytes: `PUT url`.
    Put(String),
    /// Nothing more to send.
    Done,
    /// The push failed.
    Failed(OciUploaderError),
}

pub open spec fn is_success_status(status: u16) -> bool {
    200 <= status <= 299
}

pub open spec fn is_server_error_status(status: u16) -> bool {
    500 <= status <= 599
}

/// The absolute URL of an upload location: a path is taken relative to the
/// registry, anything else is kept.
pub open spec fn resolved_location(registry: Seq<char>, location: Seq<char>) -> Seq<char> {
    if location.len() > 0 && location[0] == '/' {
        registry + location
    } else {
        location
    }
}

/// The upload location with `digest=<digest>` added to its query.
pub open spec fn upload_url_of(location: Seq<char>, digest: Seq<char>) -> Seq<char> {
    if location.contains('?') {
        location + "&digest="@ + digest
    } else {
        location + "?digest="@ + digest
    }
}

/// The URL that the bytes of a blob are sent to: the upload location,
/// resolved against the registry, with `digest=<digest>` added to the
/// location's query.
pub open spec fn put_url_of(registry: Seq<char>, location: Seq<char>, digest: Seq<char>) -> Seq<char> {
    resolved_location(registry, location) + if location.contains('?') {
        "&digest="@
    } else {
        "?digest="@
    } + digest
}

/// Resolves an upload location against the registry URL.
pub fn resolve_location(registry: &str, location: &str) -> (r: String)
    ensures
        r@ == resolved_location(registry@, location@),
{
    let cs = chars_of(location);
    if cs.len() > 0 && cs[0] == '/' {
        concat_str(registry, location)
    } else {
        String::from_str(location)
    }
}

/// Adds the digest to an upload location's query.
pub fn upload_url(location: &str, digest: &str) -> (r: String)
    ensures
        r@ == upload_url_of(location@, digest@),
{
    let cs = chars_of(location);
    if contains_char(cs.as_slice(), '?') {
        let a = concat_str(location, "&digest=");
        concat_str(a.as_str(), digest)
    } else {
        let a = concat_str(location, "?digest=");
        concat_str(a.as_str(), digest)
    }
}

/// Pushes blobs, remembering which digests this process has pushed or found
/// present.
#[derive(Debug)]
pub struct OciUploader {
    uploaded_blobs: Vec<String>,
}

pub open spec fn string_set(v: Seq<String>) -> Set<Seq<char>> {
    Set::new(|d: Seq<char>| exists|i: int| 0 <= i < v.len() && v[i]@ == d)
}

impl View for OciUploader {
    type V = Set<Seq<char>>;

    closed spec fn view(&self) -> Set<Seq<char>> {
        string_set(self.uploaded_blobs@)
    }
}

/// The first step of pushing a blob: nothing when this process already
/// pushed or found it, else a HEAD on the blob's URL.
pub open spec fn push_start(uploaded: Set<Seq<char>>, image: ImageRef, digest: Seq<char>) -> Option<Seq<char>> {
    if uploaded.contains(digest) {
        None
    } else {
        Some(blob_url_of(image, digest))
    }
}

/// What follows a HEAD answered with `status`: present (200), a failure
/// (5xx), or an upload to start.
pub enum HeadOutcome {
    Present,
    ServerError,
    Absent,
}

pub open spec fn head_outcome(status: u16) -> HeadOutcome {
    if status == 200 {
        HeadOutcome::Present
    } else if is_server_error_status(status) {
        HeadOutcome::ServerError
    } else {
        HeadOutcome::Absent
    }
}

impl OciUploader {
    /// An uploader that has pushed nothing.
    pub fn new() -> (r: Self)
        ensures
            r@ == Set::<Seq<char>>::empty(),
    {
        let r = OciUploader { uploaded_blobs: Vec::new() };
        assert(r@ =~= Set::<Seq<char>>::empty());
        r
    }

    /// Whether this process pushed or found `digest`.
    pub fn was_uploaded(&self, digest: &str) -> (r: bool)
        ensures
            r == self@.contains(digest@),
    {
        let mut i: usize = 0;
        while i < self.uploaded_blobs.len()
            invariant
                i <= self.uploaded_blobs@.len(),
                forall|j: int| 0 <= j < i ==> self.uploaded_blobs@[j]@ != digest@,
            decreases self.uploaded_blobs@.len() - i,
        {
            if str_eq(self.uploaded_blobs[i].as_str(), digest) {
                return true;
            }
            i = i + 1;
        }
        false
    }

    /// Records `digest` as pushed.
    pub fn record(&mut self, digest: &str)
        ensures
            final(self)@ == old(self)@.insert(digest@),
    {
        let ghost before = self.uploaded_blobs@;
        self.uploaded_blobs.push(String::from_str(digest));
        proof {
            let after = self.uploaded_blobs@;
            assert forall|d: Seq<char>| string_set(after).contains(d) <==> string_set(before).insert(digest@).contains(d) by {
                if string_set(before).contains(d) {
                    let i = choose|i: int| 0 <= i < before.len() && before[i]@ == d;
                    assert(after[i] == before[i]);
                }
                if d == digest@ {
                    assert(after[before.len() as int]@ == d);
                }
                if string_set(after).contains(d) {
                    let i = choose|i: int| 0 <= i < after.len() && after[i]@ == d;
                    if i < before.len() {
                        assert(after[i] == before[i]);
                    }
                }
            }
            assert(string_set(after) =~= string_set(before).insert(digest@));
        }
    }

    /// The first request of pushing `blob` into `image`'s repository.
    pub fn begin_push(&self, image: &FullImage, blob: &Blob) -> (r: PushStep)
        ensures
            match push_start(self@, image@, blob.digest@) {
                None => r is Done,
                Some(url) => r is Head && r->Head_0@ == url,
            },
    {
        if self.was_uploaded(blob.digest.as_str()) {
            PushStep::Done
        } else {
            PushStep::Head(image.blob_url(blob.digest.as_str()))
        }
    }

    /// The step after the HEAD on a blob was answered with `status`.
    pub fn after_head(&mut self, image: &FullImage, blob: &Blob, status: u16) -> (r: PushStep)
        ensures
            match head_outcome(status) {
                HeadOutcome::Present => r is Done && final(self)@ == old(self)@.insert(blob.digest@),
                HeadOutcome::ServerError => r is Failed && final(self)@ == old(self)@,
                HeadOutcome::Absent => r is Post && r->Post_0@ == image_url_of(image@) + "/blobs/uploads/"@
                    && final(self)@ == old(self)@,
            },
    {
        if status == 200 {
            self.record(blob.digest.as_str());
            PushStep::Done
        } else if status >= 500 && status <= 599 {
            PushStep::Failed(OciUploaderError(String::from_str("Failed to check blob")))
        } else {
            PushStep::Post(image.upload_start_url())
        }
    }

    /// The step after the POST that starts an upload was answered with
    /// `status` and, perhaps, a `Location` header.
    pub fn after_post(&self, image: &FullImage, blob: &Blob, status: u16, location: Option<&str>) -> (r: PushStep)
        ensures
            !is_success_status(status) ==> r is Failed,
            is_success_status(status) && location is None ==> r is Failed,
            is_success_status(status) && location is Some ==> r is Put && r->Put_0@ == put_url_of(
                image.registry@,
                location->0@,
                blob.digest@,
            ),
    {
        if status < 200 || status > 299 {
            return PushStep::Failed(OciUploaderError(String::from_str("Failed to initiate blob upload")));
        }
        match location {
            None => PushStep::Failed(OciUploaderError(String::from_str("No location header"))),
            Some(loc) => {
                let absolute = resolve_location(image.registry.as_str(), loc);
                let sep = if contains_char(chars_of(loc).as_slice(), '?') {
                    "&digest="
                } else {
                    "?digest="
                };
                let with_sep = concat_str(absolute.as_str(), sep);
                PushStep::Put(concat_str(with_sep.as_str(), blob.digest.as_str()))
            },
        }
    }

    /// The step after the PUT of the bytes was answered with `status`:
    /// 201 means the blob is stored.
    pub fn after_put(&mut self, blob: &Blob, status: u16) -> (r: PushStep)
        ensures
            status == 201 ==> r is Done && final(self)@ == old(self)@.insert(blob.digest@),
            status != 201 ==> r is Failed && final(self)@ == old(self)@,
    {
        if status == 201 {
            self.record(blob.digest.as_str());
            PushStep::Done
        } else {
            PushStep::Failed(OciUploaderError(String::from_str("Failed to upload blob")))
        }
    }
}

/// A blob push sends its bytes only after a HEAD that did not find the
/// blob: a digest that this process pushed or found needs no request at all,
/// and a HEAD answered with 200 ends the push.
pub proof fn lemma_no_put_for_present_blob(uploaded: Set<Seq<char>>, image: ImageRef, digest: Seq<char>, status: u16)
    ensures
        uploaded.contains(digest) ==> push_start(uploaded, image, digest) is None,
        status == 200 ==> head_outcome(status) is Present,
{
}

/// The URL that a manifest is pushed to under a tag.
pub fn manifest_push_url(image: &FullImageWithTag) -> (r: String)
    ensures
        r@ == crate::parser::manifest_url_of(image.image@, image.tag@),
{
    image.get_manifest_url()
}

/// The outcome of a manifest PUT answered with `status`: 201 is success.
pub fn after_manifest_put(status: u16) -> (r: Result<(), OciUploaderError>)
    ensures
        r is Ok <==> status == 201,
{
    if status == 201 {
        Ok(())
    } else {
        Err(OciUploaderError(String::from_str("Failed to upload manifest")))
    }
}

} // verus!

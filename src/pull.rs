//! The pull pipeline's scheduling state: which units of work remain, which
//! digests are known to be present or underway, and which labels and names
//! each downloaded document produces.

use vstd::prelude::*;
use crate::enums::{is_index_media_type, MediaType};
use crate::index::{ImageIndex, Manifest};
use crate::labels::{add_indexed_labels, indexed_labels, source_label_key, source_labels};
use crate::manifest::{descriptor_views, duplicate_descriptors, Descriptor, DescriptorModel, ImageManifest};
use crate::maps::StringMap;
use crate::parser::{FullImageWithTag, ImageRef};
use crate::platform::PlatformMatcher;
use crate::text::{concat_str, str_eq};
use crate::uploader::string_set;

verus! {

/// Fetch an image's index (or single manifest) by tag.
#[derive(Debug)]
pub struct DownloadableIndex {
    pub full_image: FullImageWithTag,
}

/// Fetch a manifest by digest.
#[derive(Debug)]
pub struct DownloadableManifest {
    pub full_image: FullImageWithTag,
    pub digest: String,
}

/// Fetch a configuration by digest; its manifest's layers come along.
#[derive(Debug)]
pub struct DownloadableConfig {
    pub full_image: FullImageWithTag,
    pub layers: Vec<Descriptor>,
    pub digest: String,
}

/// Stream a layer into the store.
#[derive(Debug)]
pub struct DownloadableLayer {
    pub full_image: FullImageWithTag,
    pub digest: String,
    pub uncompressed_digest: String,
}

/// A unit of pull work.
#[derive(Debug)]
pub enum Downloadable {
    Index(DownloadableIndex),
    Manifest(DownloadableManifest),
    Config(DownloadableConfig),
    Layer(DownloadableLayer),
}

pub type TaggedRef = (ImageRef, Seq<char>);

/// The abstract value of a unit of pull work.
pub enum DownloadableModel {
    Index(TaggedRef),
    Manifest(TaggedRef, Seq<char>),
    Config(TaggedRef, Seq<char>, Seq<DescriptorModel>),
    Layer(TaggedRef, Seq<char>, Seq<char>),
}

impl View for Downloadable {
    type V = DownloadableModel;

    open spec fn view(&self) -> DownloadableModel {
        match self {
            Downloadable::Index(i) => DownloadableModel::Index(i.full_image@),
            Downloadable::Manifest(m) => DownloadableModel::Manifest(m.full_image@, m.digest@),
            Downloadable::Config(c) => DownloadableModel::Config(c.full_image@, c.digest@, descriptor_views(c.layers@)),
            Downloadable::Layer(l) => DownloadableModel::Layer(l.full_image@, l.digest@, l.uncompressed_digest@),
        }
    }
}

/// What the registry answered for a tag: a list of per-platform manifests,
/// or the single manifest of a one-platform image.
#[derive(Debug)]
pub enum IndexResponse {
    ImageIndex(ImageIndex),
    ImageManifest(ImageManifest),
}

/// How to read a document fetched by tag, by its media type.
#[derive(Debug, Clone, Copy, PartialEq, Eq, Structural)]
pub enum RootKind {
    Index,
    SingleManifest,
}

/// A failure of one unit of pull work.
#[derive(Debug)]
pub struct PullError(pub String);

pub open spec fn root_kind_of(m: MediaType) -> Option<RootKind> {
    if is_index_media_type(m) {
        Some(RootKind::Index)
    } else if m == MediaType::OciImageManifestV1Json || m == MediaType::DockerManifestV2Json {
        Some(RootKind::SingleManifest)
    } else {
        None
    }
}

/// Reads the media type of a document fetched by tag: an index (OCI or
/// Docker list) or a single manifest (OCI or Docker v2); anything else is
/// not an image root.
pub fn root_kind(media_type: MediaType) -> (r: Result<RootKind, PullError>)
    ensures
        match root_kind_of(media_type) {
            Some(k) => r == Ok::<RootKind, PullError>(k),
            None => r is Err,
        },
{
    match media_type {
        MediaType::OciImageIndexV1Json | MediaType::DockerManifestListV2Json => Ok(RootKind::Index),
        MediaType::OciImageManifestV1Json | MediaType::DockerManifestV2Json => Ok(RootKind::SingleManifest),
        _ => Err(PullError(String::from_str("Unsupported media type for an image root"))),
    }
}

/// A blob to put into the store with its labels; the bytes are those just
/// downloaded for `digest`.
#[derive(Debug)]
pub struct ContentWrite {
    pub digest: String,
    pub labels: StringMap,
}

/// A human-readable name to bind to a descriptor in the store.
#[derive(Debug)]
pub struct NameBinding {
    pub name: String,
    pub target: Descriptor,
}

/// What to do after an index was downloaded.
#[derive(Debug)]
pub struct IndexActions {
    /// The index blob, unless the store already has it.
    pub write: Option<ContentWrite>,
    /// The image name to point at the index.
    pub binding: NameBinding,
    /// Whether more work was queued for the image; when not, nothing of it
    /// changed.
    pub queued: bool,
}

/// The name under which a pulled image is bound: `docker.io/<library_name>:<tag>`.
pub open spec fn image_name_of(image: TaggedRef) -> Seq<char> {
    "docker.io/"@ + image.0.library_name + ":"@ + image.1
}

pub fn image_name(image: &FullImageWithTag) -> (r: String)
    ensures
        r@ == image_name_of(image@),
{
    let a = concat_str("docker.io/", image.image.library_name.as_str());
    let b = concat_str(a.as_str(), ":");
    concat_str(b.as_str(), image.tag.as_str())
}

pub open spec fn source_map(library_name: Seq<char>) -> Map<Seq<char>, Seq<char>> {
    Map::<Seq<char>, Seq<char>>::empty().insert(source_label_key(), library_name)
}

pub open spec fn digests_of(ds: Seq<DescriptorModel>) -> Seq<Seq<char>> {
    ds.map_values(|d: DescriptorModel| d.digest)
}

/// The labels of a manifest: its source, its configuration and each layer.
pub open spec fn manifest_label_map(library_name: Seq<char>, config: Seq<char>, layers: Seq<DescriptorModel>) -> Map<Seq<char>, Seq<char>> {
    indexed_labels(
        source_map(library_name).insert("containerd.io/gc.ref.content.config"@, config),
        "containerd.io/gc.ref.content.l."@,
        digests_of(layers),
    )
}

/// The labels of an index: its source and each manifest that it lists.
pub open spec fn index_label_map(library_name: Seq<char>, manifests: Seq<Seq<char>>) -> Map<Seq<char>, Seq<char>> {
    indexed_labels(source_map(library_name), "containerd.io/gc.ref.content.m."@, manifests)
}

pub open spec fn manifest_digests(ms: Seq<Manifest>) -> Seq<Seq<char>> {
    ms.map_values(|m: Manifest| m.digest@)
}

fn descriptor_digests(ds: &Vec<Descriptor>) -> (r: Vec<String>)
    ensures
        r.deep_view() == digests_of(descriptor_views(ds@)),
{
    let mut r: Vec<String> = Vec::new();
    let mut i: usize = 0;
    while i < ds.len()
        invariant
            i <= ds@.len(),
            r@.len() == i,
            forall|j: int| 0 <= j < i ==> #[trigger] r@[j]@ == ds@[j].digest@,
        decreases ds@.len() - i,
    {
        r.push(ds[i].digest.clone());
        i = i + 1;
    }
    assert(r.deep_view() =~= digests_of(descriptor_views(ds@)));
    r
}

/// The labels that a manifest is stored with.
pub fn manifest_labels(library_name: &str, manifest: &ImageManifest) -> (r: StringMap)
    ensures
        r@ == manifest_label_map(library_name@, manifest.config.digest@, descriptor_views(manifest.layers@)),
{
    let mut labels = source_labels(library_name);
    labels.insert(String::from_str("containerd.io/gc.ref.content.config"), manifest.config.digest.clone());
    let ds = descriptor_digests(&manifest.layers);
    add_indexed_labels(&mut labels, "containerd.io/gc.ref.content.l.", &ds);
    labels
}

/// The labels that an index is stored with.
pub fn index_labels(library_name: &str, index: &ImageIndex) -> (r: StringMap)
    ensures
        r@ == index_label_map(library_name@, manifest_digests(index.manifests@)),
{
    let mut labels = source_labels(library_name);
    let mut ds: Vec<String> = Vec::new();
    let mut i: usize = 0;
    while i < index.manifests.len()
        invariant
            i <= index.manifests@.len(),
            ds@.len() == i,
            forall|j: int| 0 <= j < i ==> #[trigger] ds@[j]@ == index.manifests@[j].digest@,
        decreases index.manifests@.len() - i,
    {
        ds.push(index.manifests[i].digest.clone());
        i = i + 1;
    }
    assert(ds.deep_view() =~= manifest_digests(index.manifests@));
    add_indexed_labels(&mut labels, "containerd.io/gc.ref.content.m.", &ds);
    labels
}

/// The labels that a layer is committed with: its source and the digest of
/// its uncompressed tar.
pub fn layer_labels(library_name: &str, uncompressed_digest: &str) -> (r: StringMap)
    ensures
        r@ == source_map(library_name@).insert("containerd.io/uncompressed"@, uncompressed_digest@),
{
    let mut labels = source_labels(library_name);
    labels.insert(String::from_str("containerd.io/uncompressed"), String::from_str(uncompressed_digest));
    labels
}

/// One digest underway and the image that it belongs to.
#[derive(Debug)]
pub struct PendingDigest {
    pub digest: String,
    pub image: FullImageWithTag,
}

/// The shared state of a pull run.
#[derive(Debug)]
pub struct PullState {
    existing_digests: Vec<String>,
    download_queue: Vec<Downloadable>,
    digest_to_image: Vec<PendingDigest>,
    total_bytes: u64,
    downloaded_bytes: u64,
}

pub open spec fn queue_views(q: Seq<Downloadable>) -> Seq<DownloadableModel> {
    q.map_values(|d: Downloadable| d@)
}

/// The entries of `ps` whose digest is not `d`, in order.
pub open spec fn without_digest(ps: Seq<(Seq<char>, TaggedRef)>, d: Seq<char>) -> Seq<(Seq<char>, TaggedRef)>
    decreases ps.len(),
{
    if ps.len() == 0 {
        ps
    } else {
        let rest = without_digest(ps.drop_last(), d);
        if ps.last().0 != d {
            rest.push(ps.last())
        } else {
            rest
        }
    }
}

impl PullState {
    /// The digests present in the store or already queued in this run.
    pub closed spec fn existing(&self) -> Set<Seq<char>> {
        string_set(self.existing_digests@)
    }

    /// The work left, popped from the end.
    pub closed spec fn queue(&self) -> Seq<DownloadableModel> {
        queue_views(self.download_queue@)
    }

    /// The digests underway, with their images.
    pub closed spec fn pending(&self) -> Seq<(Seq<char>, TaggedRef)> {
        self.digest_to_image@.map_values(|p: PendingDigest| (p.digest@, p.image@))
    }

    pub closed spec fn total_spec(&self) -> u64 {
        self.total_bytes
    }

    pub closed spec fn downloaded_spec(&self) -> u64 {
        self.downloaded_bytes
    }

    /// A run that starts from the store's digests and pulls `images`: one
    /// index fetch per image, nothing underway.
    pub fn new(existing_digests: Vec<String>, images: &[FullImageWithTag]) -> (r: Self)
        ensures
            r.existing() == string_set(existing_digests@),
            r.queue().len() == images@.len(),
            forall|i: int| 0 <= i < images@.len() ==> #[trigger] r.queue()[i] == DownloadableModel::Index(images@[i]@),
            r.pending().len() == 0,
            r.total_spec() == 0,
            r.downloaded_spec() == 0,
    {
        let mut queue: Vec<Downloadable> = Vec::new();
        let mut i: usize = 0;
        while i < images.len()
            invariant
                i <= images@.len(),
                queue@.len() == i,
                forall|j: int| 0 <= j < i ==> #[trigger] queue@[j]@ == DownloadableModel::Index(images@[j]@),
            decreases images@.len() - i,
        {
            queue.push(Downloadable::Index(DownloadableIndex { full_image: images[i].clone() }));
            i = i + 1;
        }
        PullState {
            existing_digests,
            download_queue: queue,
            digest_to_image: Vec::new(),
            total_bytes: 0,
            downloaded_bytes: 0,
        }
    }

    /// The total size of the work queued so far.
    pub fn total_bytes(&self) -> (r: u64)
        ensures
            r == self.total_spec(),
    {
        self.total_bytes
    }

    /// The bytes downloaded so far.
    pub fn downloaded_bytes(&self) -> (r: u64)
        ensures
            r == self.downloaded_spec(),
    {
        self.downloaded_bytes
    }

    /// Counts `n` more bytes as downloaded, saturating at the largest value.
    pub fn add_downloaded(&mut self, n: u64)
        ensures
            final(self).downloaded_spec() == if old(self).downloaded_spec() + n > u64::MAX {
                u64::MAX as int
            } else {
                old(self).downloaded_spec() + n
            },
            final(self).existing() == old(self).existing(),
            final(self).queue() == old(self).queue(),
            final(self).pending() == old(self).pending(),
            final(self).total_spec() == old(self).total_spec(),
    {
        self.downloaded_bytes = self.downloaded_bytes.saturating_add(n);
    }

    /// Takes the most recently queued unit of work.
    pub fn pop(&mut self) -> (r: Option<Downloadable>)
        ensures
            old(self).queue().len() == 0 ==> r is None && final(self).queue() == old(self).queue(),
            old(self).queue().len() > 0 ==> r is Some && r->0@ == old(self).queue().last()
                && final(self).queue() == old(self).queue().drop_last(),
            final(self).existing() == old(self).existing(),
            final(self).pending() == old(self).pending(),
            final(self).total_spec() == old(self).total_spec(),
            final(self).downloaded_spec() == old(self).downloaded_spec(),
    {
        let r = self.download_queue.pop();
        proof {
            if old(self).download_queue@.len() > 0 {
                assert(queue_views(self.download_queue@) =~= queue_views(old(self).download_queue@).drop_last());
            }
        }
        r
    }

    /// Whether `digest` is present or already queued.
    pub fn is_known(&self, digest: &str) -> (r: bool)
        ensures
            r == self.existing().contains(digest@),
    {
        let mut i: usize = 0;
        while i < self.existing_digests.len()
            invariant
                i <= self.existing_digests@.len(),
                forall|j: int| 0 <= j < i ==> self.existing_digests@[j]@ != digest@,
            decreases self.existing_digests@.len() - i,
        {
            if str_eq(self.existing_digests[i].as_str(), digest) {
                return true;
            }
            i = i + 1;
        }
        false
    }

    /// Queues `item` for `digest` of `image` unless the digest is present or
    /// already queued; the digest is then known, underway for `image`, and
    /// its size counts toward the total (saturating).
    pub fn queue_if_not_downloaded(&mut self, digest: &str, item: Downloadable, image: &FullImageWithTag, size: u64) -> (r: bool)
        ensures
            r == !old(self).existing().contains(digest@),
            r ==> final(self).existing() == old(self).existing().insert(digest@)
                && final(self).queue() == old(self).queue().push(item@)
                && final(self).pending() == old(self).pending().push((digest@, image@))
                && final(self).total_spec() == if old(self).total_spec() + size > u64::MAX {
                    u64::MAX as int
                } else {
                    old(self).total_spec() + size
                },
            !r ==> final(self).existing() == old(self).existing() && final(self).queue() == old(self).queue()
                && final(self).pending() == old(self).pending() && final(self).total_spec() == old(self).total_spec(),
            final(self).downloaded_spec() == old(self).downloaded_spec(),
    {
        if self.is_known(digest) {
            return false;
        }
        let ghost before = self.existing_digests@;
        self.existing_digests.push(String::from_str(digest));
        proof {
            let after = self.existing_digests@;
            assert forall|d: Seq<char>| string_set(after).contains(d) <==> string_set(before).insert(digest@).contains(d) by {
                if string_set(before).contains(d) {
                    let i = choose|i: int| 0 <= i < before.len() && before[i]@ == d;
                    assert(after[i] == before[i]);
                }
                if d == digest@ {
                    assert(after[before.len() as int]@ == d);
                }
                if string_set(after).contains(d) {
                    let i = choose|i: int| 0 <= i < after.len() && after[i]@ == d;
                    if i < before.len() {
                        assert(after[i] == before[i]);
                    }
                }
            }
            assert(string_set(after) =~= string_set(before).insert(digest@));
        }
        let ghost q = self.download_queue@;
        self.download_queue.push(item);
        assert(queue_views(self.download_queue@) =~= queue_views(q).push(self.download_queue@.last()@));
        let ghost p = self.digest_to_image@;
        self.digest_to_image.push(PendingDigest { digest: String::from_str(digest), image: image.clone() });
        assert(self.pending() =~= p.map_values(|x: PendingDigest| (x.digest@, x.image@)).push((digest@, image@)));
        self.total_bytes = self.total_bytes.saturating_add(size);
        true
    }

    /// Marks `digest` done: it is no longer underway. Returns whether no
    /// digest of `image` is underway any more, that is, the image is complete.
    pub fn complete(&mut self, digest: &str, image: &FullImageWithTag) -> (r: bool)
        ensures
            final(self).pending() == without_digest(old(self).pending(), digest@),
            r == forall|j: int| 0 <= j < final(self).pending().len() ==> #[trigger] final(self).pending()[j].1 != image@,
            final(self).existing() == old(self).existing(),
            final(self).queue() == old(self).queue(),
            final(self).total_spec() == old(self).total_spec(),
            final(self).downloaded_spec() == old(self).downloaded_spec(),
    {
        let ghost old_pending = self.pending();
        let mut kept: Vec<PendingDigest> = Vec::new();
        let mut old_entries: Vec<PendingDigest> = Vec::new();
        std::mem::swap(&mut old_entries, &mut self.digest_to_image);
        let ghost entries = old_entries@;
        let ghost pv = entries.map_values(|x: PendingDigest| (x.digest@, x.image@));
        assert(pv == old_pending);
        let mut i: usize = 0;
        while i < old_entries.len()
            invariant
                self.existing_digests == old(self).existing_digests,
                self.download_queue == old(self).download_queue,
                self.total_bytes == old(self).total_bytes,
                self.downloaded_bytes == old(self).downloaded_bytes,
                i <= old_entries@.len(),
                old_entries@ == entries,
                pv == entries.map_values(|x: PendingDigest| (x.digest@, x.image@)),
                kept@.map_values(|x: PendingDigest| (x.digest@, x.image@)) == without_digest(pv.subrange(0, i as int), digest@),
            decreases old_entries@.len() - i,
        {
            let e = &old_entries[i];
            let ghost sub = pv.subrange(0, i + 1);
            assert(sub.drop_last() =~= pv.subrange(0, i as int));
            if !str_eq(e.digest.as_str(), digest) {
                let ghost k = kept@;
                kept.push(PendingDigest { digest: e.digest.clone(), image: e.image.clone() });
                assert(kept@.map_values(|x: PendingDigest| (x.digest@, x.image@)) =~= k.map_values(|x: PendingDigest| (x.digest@, x.image@)).push(pv[i as int]));
            }
            i = i + 1;
        }
        assert(pv.subrange(0, i as int) =~= pv);
        let ghost kv = kept@.map_values(|x: PendingDigest| (x.digest@, x.image@));
        assert(kv == without_digest(old_pending, digest@));
        self.digest_to_image = kept;
        assert(self.pending() == kv);
        let mut j: usize = 0;
        while j < self.digest_to_image.len()
            invariant
                self.existing_digests == old(self).existing_digests,
                self.download_queue == old(self).download_queue,
                self.total_bytes == old(self).total_bytes,
                self.downloaded_bytes == old(self).downloaded_bytes,
                self.pending() == without_digest(old_pending, digest@),
                old_pending == old(self).pending(),
                j <= self.digest_to_image@.len(),
                forall|k: int| 0 <= k < j ==> #[trigger] self.pending()[k].1 != image@,
            decreases self.digest_to_image@.len() - j,
        {
            if self.digest_to_image[j].image == *image {
                assert(self.pending()[j as int].1 == image@);
                return false;
            }
            j = j + 1;
        }
        true
    }
}

/// `k` is the first entry of `ms` that fits the matcher.
pub open spec fn is_first_fit(m: PlatformMatcher, ms: Seq<Manifest>, k: int) -> bool {
    0 <= k < ms.len() && m.fits(ms[k]) && forall|j: int| 0 <= j < k ==> !m.fits(#[trigger] ms[j])
}

pub open spec fn response_media_type(r: IndexResponse) -> MediaType {
    match r {
        IndexResponse::ImageIndex(ix) => ix.media_type,
        IndexResponse::ImageManifest(m) => m.media_type,
    }
}

/// The labels of the document fetched by tag.
pub open spec fn root_label_map(library_name: Seq<char>, r: IndexResponse) -> Map<Seq<char>, Seq<char>> {
    match r {
        IndexResponse::ImageIndex(ix) => index_label_map(library_name, manifest_digests(ix.manifests@)),
        IndexResponse::ImageManifest(m) => manifest_label_map(library_name, m.config.digest@, descriptor_views(m.layers@)),
    }
}

/// The work of a run as the pull steps see it: known digests, queue,
/// pending digests and total size.
pub type WorkModel = (Set<Seq<char>>, Seq<DownloadableModel>, Seq<(Seq<char>, TaggedRef)>, u64);

pub open spec fn work_of(s: PullState) -> WorkModel {
    (s.existing(), s.queue(), s.pending(), s.total_spec())
}

/// `t + size`, saturating at the largest value.
pub open spec fn saturating_total(t: u64, size: u64) -> u64 {
    if t + size > u64::MAX {
        u64::MAX
    } else {
        (t + size) as u64
    }
}

/// The work after queueing the first `n` layers of `item` in order, each
/// with its diff id, every one whose digest is not yet known.
pub open spec fn layer_work(w: WorkModel, item: DownloadableConfig, diff_ids: Seq<String>, n: int) -> WorkModel
    decreases n,
{
    if n <= 0 {
        w
    } else {
        let before = layer_work(w, item, diff_ids, n - 1);
        let d = item.layers@[n - 1].digest@;
        if before.0.contains(d) {
            before
        } else {
            (
                before.0.insert(d),
                before.1.push(DownloadableModel::Layer(item.full_image@, d, diff_ids[n - 1]@)),
                before.2.push((d, item.full_image@)),
                saturating_total(before.3, item.layers@[n - 1].size),
            )
        }
    }
}

/// Queueing the layers of a configuration queues every layer whose digest
/// was not known before and is not repeated at an earlier position, with
/// its diff id, and marks it underway for the image.
pub proof fn lemma_layer_work_queues_new(w: WorkModel, item: DownloadableConfig, diff_ids: Seq<String>, n: int, i: int)
    requires
        0 <= i < n <= item.layers@.len(),
        !w.0.contains(item.layers@[i].digest@),
        forall|j: int| 0 <= j < i ==> item.layers@[j].digest@ != item.layers@[i].digest@,
    ensures
        layer_work(w, item, diff_ids, n).1.contains(DownloadableModel::Layer(item.full_image@, item.layers@[i].digest@, diff_ids[i]@)),
        layer_work(w, item, diff_ids, n).2.contains((item.layers@[i].digest@, item.full_image@)),
        layer_work(w, item, diff_ids, n).0.contains(item.layers@[i].digest@),
    decreases n,
{
    let d = item.layers@[i].digest@;
    let x = DownloadableModel::Layer(item.full_image@, d, diff_ids[i]@);
    if n == i + 1 {
        lemma_layer_work_known(w, item, diff_ids, i, d);
        let before = layer_work(w, item, diff_ids, i);
        assert(!before.0.contains(d));
        let after = layer_work(w, item, diff_ids, n);
        assert(after.1[after.1.len() - 1] == x);
        assert(after.2[after.2.len() - 1] == (d, item.full_image@));
    } else {
        lemma_layer_work_queues_new(w, item, diff_ids, n - 1, i);
        lemma_layer_work_grows(w, item, diff_ids, n);
    }
}

proof fn lemma_layer_work_known(w: WorkModel, item: DownloadableConfig, diff_ids: Seq<String>, n: int, d: Seq<char>)
    requires
        0 <= n <= item.layers@.len(),
        !w.0.contains(d),
        forall|j: int| 0 <= j < n ==> item.layers@[j].digest@ != d,
    ensures
        !layer_work(w, item, diff_ids, n).0.contains(d),
    decreases n,
{
    if n > 0 {
        lemma_layer_work_known(w, item, diff_ids, n - 1, d);
    }
}

proof fn lemma_layer_work_grows(w: WorkModel, item: DownloadableConfig, diff_ids: Seq<String>, n: int)
    requires
        0 < n <= item.layers@.len(),
    ensures
        forall|x: DownloadableModel| layer_work(w, item, diff_ids, n - 1).1.contains(x) ==> #[trigger] layer_work(w, item, diff_ids, n).1.contains(x),
        forall|p: (Seq<char>, TaggedRef)| layer_work(w, item, diff_ids, n - 1).2.contains(p) ==> #[trigger] layer_work(w, item, diff_ids, n).2.contains(p),
        forall|d: Seq<char>| layer_work(w, item, diff_ids, n - 1).0.contains(d) ==> #[trigger] layer_work(w, item, diff_ids, n).0.contains(d),
{
    let before = layer_work(w, item, diff_ids, n - 1);
    let after = layer_work(w, item, diff_ids, n);
    assert forall|x: DownloadableModel| before.1.contains(x) implies #[trigger] after.1.contains(x) by {
        let k = choose|k: int| 0 <= k < before.1.len() && before.1[k] == x;
        assert(after.1[k] == x);
    }
    assert forall|p: (Seq<char>, TaggedRef)| before.2.contains(p) implies #[trigger] after.2.contains(p) by {
        let k = choose|k: int| 0 <= k < before.2.len() && before.2[k] == p;
        assert(after.2[k] == p);
    }
}

/// `x` queues layer `i < upto` of `item` with its diff id, a layer whose
/// digest was not in `known`.
pub open spec fn is_new_layer_item(known: Set<Seq<char>>, item: DownloadableConfig, diff_ids: Seq<String>, upto: int, x: DownloadableModel) -> bool {
    exists|i: int| 0 <= i < upto && !known.contains(item.layers@[i].digest@)
        && x == DownloadableModel::Layer(item.full_image@, item.layers@[i].digest@, diff_ids[i]@)
}

/// The state is unchanged but for the bytes downloaded.
pub open spec fn same_work(a: PullState, b: PullState) -> bool {
    a.existing() == b.existing() && a.queue() == b.queue() && a.pending() == b.pending()
        && a.total_spec() == b.total_spec()
}

/// The effect of queueing `item` for `digest` of `image` when the digest
/// was not known.
pub open spec fn queued_one(a: PullState, b: PullState, digest: Seq<char>, item: DownloadableModel, image: TaggedRef, size: u64) -> bool {
    &&& b.existing() == a.existing().insert(digest)
    &&& b.queue() == a.queue().push(item)
    &&& b.pending() == a.pending().push((digest, image))
    &&& b.total_spec() == if a.total_spec() + size > u64::MAX {
        u64::MAX as int
    } else {
        a.total_spec() + size
    }
}

/// What handling a downloaded index does: the index blob is written unless
/// the store has it, the image name is bound to it, and the next document
/// (the matching platform's manifest, or the single manifest's
/// configuration) is queued unless it is known.
pub open spec fn index_step(
    a: PullState,
    b: PullState,
    matcher: PlatformMatcher,
    item: DownloadableIndex,
    response: IndexResponse,
    digest: Seq<char>,
    size: u64,
    r: IndexActions,
) -> bool {
    let image = item.full_image@;
    &&& (r.write is Some) == !a.existing().contains(digest)
    &&& r.write is Some ==> r.write->0.digest@ == digest && r.write->0.labels@ == root_label_map(image.0.library_name, response)
    &&& r.binding.name@ == image_name_of(image)
    &&& r.binding.target@ == (DescriptorModel { media_type: response_media_type(response), digest, size })
    &&& b.downloaded_spec() == a.downloaded_spec()
    &&& match response {
        IndexResponse::ImageIndex(ix) => {
            ||| exists|k: int| #![trigger ix.manifests@[k]] {
                &&& is_first_fit(matcher, ix.manifests@, k)
                &&& r.queued == !a.existing().contains(ix.manifests@[k].digest@)
                &&& r.queued ==> queued_one(a, b, ix.manifests@[k].digest@,
                    DownloadableModel::Manifest(image, ix.manifests@[k].digest@), image, ix.manifests@[k].size)
                &&& !r.queued ==> same_work(a, b)
            }
            ||| (forall|j: int| 0 <= j < ix.manifests@.len() ==> !matcher.fits(#[trigger] ix.manifests@[j]))
                && !r.queued && same_work(a, b)
        },
        IndexResponse::ImageManifest(m) => {
            &&& r.queued == !a.existing().contains(m.config.digest@)
            &&& r.queued ==> queued_one(a, b, m.config.digest@,
                DownloadableModel::Config(image, m.config.digest@, descriptor_views(m.layers@)), image, m.config.size)
            &&& !r.queued ==> same_work(a, b)
        },
    }
}

/// Pulling again what the store already holds writes nothing and queues
/// nothing: when the index and the document it leads to (the manifest of
/// the matching platform, or a single manifest's configuration) are both
/// known, handling the index leaves the work unchanged.
pub proof fn lemma_repull_writes_nothing(
    a: PullState,
    b: PullState,
    matcher: PlatformMatcher,
    item: DownloadableIndex,
    response: IndexResponse,
    digest: Seq<char>,
    size: u64,
    r: IndexActions,
)
    requires
        index_step(a, b, matcher, item, response, digest, size, r),
        a.existing().contains(digest),
        match response {
            IndexResponse::ImageIndex(ix) => forall|k: int| #[trigger] is_first_fit(matcher, ix.manifests@, k)
                ==> a.existing().contains(ix.manifests@[k].digest@),
            IndexResponse::ImageManifest(m) => a.existing().contains(m.config.digest@),
        },
    ensures
        r.write is None,
        !r.queued,
        same_work(a, b),
{
    match response {
        IndexResponse::ImageIndex(ix) => {
            if exists|k: int| #![trigger ix.manifests@[k]] is_first_fit(matcher, ix.manifests@, k) && r.queued == !a.existing().contains(ix.manifests@[k].digest@) {
                let k = choose|k: int| #![trigger ix.manifests@[k]] is_first_fit(matcher, ix.manifests@, k) && r.queued == !a.existing().contains(ix.manifests@[k].digest@);
                assert(a.existing().contains(ix.manifests@[k].digest@));
            }
        },
        IndexResponse::ImageManifest(m) => {},
    }
}

/// After an index is handled, the document it leads to is known to the run:
/// either it was present already or it is now queued, so it is fetched and
/// stored exactly once.
pub proof fn lemma_index_child_known(
    a: PullState,
    b: PullState,
    matcher: PlatformMatcher,
    item: DownloadableIndex,
    response: IndexResponse,
    digest: Seq<char>,
    size: u64,
    r: IndexActions,
)
    requires
        index_step(a, b, matcher, item, response, digest, size, r),
    ensures
        forall|d: Seq<char>| a.existing().contains(d) ==> #[trigger] b.existing().contains(d),
        match response {
            IndexResponse::ImageIndex(ix) => forall|k: int| #[trigger] is_first_fit(matcher, ix.manifests@, k)
                ==> b.existing().contains(ix.manifests@[k].digest@),
            IndexResponse::ImageManifest(m) => b.existing().contains(m.config.digest@),
        },
{
    match response {
        IndexResponse::ImageIndex(ix) => {
            assert forall|k: int| #[trigger] is_first_fit(matcher, ix.manifests@, k) implies b.existing().contains(ix.manifests@[k].digest@) by {
                let k2 = choose|k2: int| #![trigger ix.manifests@[k2]] {
                    &&& is_first_fit(matcher, ix.manifests@, k2)
                    &&& r.queued == !a.existing().contains(ix.manifests@[k2].digest@)
                    &&& r.queued ==> queued_one(a, b, ix.manifests@[k2].digest@,
                        DownloadableModel::Manifest(item.full_image@, ix.manifests@[k2].digest@), item.full_image@, ix.manifests@[k2].size)
                    &&& !r.queued ==> same_work(a, b)
                };
                if k < k2 {
                    assert(!matcher.fits(ix.manifests@[k]));
                } else if k2 < k {
                    assert(!matcher.fits(ix.manifests@[k2]));
                }
            }
        },
        IndexResponse::ImageManifest(m) => {},
    }
}

/// The blob write of a downloaded manifest: its digest, with its source,
/// configuration and layer labels.
pub fn manifest_write(item: &DownloadableManifest, manifest: &ImageManifest) -> (r: ContentWrite)
    ensures
        r.digest@ == item.digest@,
        r.labels@ == manifest_label_map(item.full_image.image.library_name@, manifest.config.digest@, descriptor_views(manifest.layers@)),
{
    let labels = manifest_labels(item.full_image.image.library_name.as_str(), manifest);
    ContentWrite { digest: item.digest.clone(), labels }
}

/// The blob write of a downloaded configuration: its digest, with its
/// source label.
pub fn config_write(item: &DownloadableConfig) -> (r: ContentWrite)
    ensures
        r.digest@ == item.digest@,
        r.labels@ == source_map(item.full_image.image.library_name@),
{
    let labels = source_labels(item.full_image.image.library_name.as_str());
    ContentWrite { digest: item.digest.clone(), labels }
}

fn duplicate_image(i: &FullImageWithTag) -> (r: FullImageWithTag)
    ensures
        r@ == i@,
{
    i.clone()
}

impl PullState {
    /// Handles a downloaded index (or single manifest) of `item`, whose bytes
    /// have digest `index_digest` and length `index_size`.
    pub fn on_index(
        &mut self,
        matcher: &PlatformMatcher,
        item: &DownloadableIndex,
        response: &IndexResponse,
        index_digest: &str,
        index_size: u64,
    ) -> (r: IndexActions)
        ensures
            index_step(*old(self), *final(self), *matcher, *item, *response, index_digest@, index_size, r),
    {
        let image = &item.full_image;
        let library = image.image.library_name.as_str();
        let write = if !self.is_known(index_digest) {
            let labels = match response {
                IndexResponse::ImageIndex(ix) => index_labels(library, ix),
                IndexResponse::ImageManifest(m) => manifest_labels(library, m),
            };
            Some(ContentWrite { digest: String::from_str(index_digest), labels })
        } else {
            None
        };
        let media_type = match response {
            IndexResponse::ImageIndex(ix) => ix.media_type,
            IndexResponse::ImageManifest(m) => m.media_type,
        };
        let binding = NameBinding {
            name: image_name(image),
            target: Descriptor::new(media_type, String::from_str(index_digest), index_size),
        };
        let ghost a = *self;
        let queued = match response {
            IndexResponse::ImageIndex(ix) => match matcher.find_manifest_index(ix.manifests.as_slice()) {
                Some(k) => {
                    let chosen = &ix.manifests[k];
                    let next = Downloadable::Manifest(DownloadableManifest {
                        full_image: duplicate_image(image),
                        digest: chosen.digest.clone(),
                    });
                    let q = self.queue_if_not_downloaded(chosen.digest.as_str(), next, image, chosen.size);
                    assert(is_first_fit(*matcher, ix.manifests@, k as int));
                    q
                },
                None => false,
            },
            IndexResponse::ImageManifest(m) => {
                let next = Downloadable::Config(DownloadableConfig {
                    full_image: duplicate_image(image),
                    layers: duplicate_descriptors(&m.layers),
                    digest: m.config.digest.clone(),
                });
                self.queue_if_not_downloaded(m.config.digest.as_str(), next, image, m.config.size)
            },
        };
        IndexActions { write, binding, queued }
    }

    /// After a manifest is stored: queues its configuration unless known.
    /// Returns whether it was queued.
    pub fn queue_config(&mut self, item: &DownloadableManifest, manifest: &ImageManifest) -> (r: bool)
        ensures
            r == !old(self).existing().contains(manifest.config.digest@),
            !r ==> same_work(*old(self), *final(self)),
            r ==> queued_one(*old(self), *final(self),
                manifest.config.digest@, DownloadableModel::Config(item.full_image@, manifest.config.digest@, descriptor_views(manifest.layers@)),
                item.full_image@, manifest.config.size),
            final(self).downloaded_spec() == old(self).downloaded_spec(),
    {
        let image = &item.full_image;
        let next = Downloadable::Config(DownloadableConfig {
            full_image: duplicate_image(image),
            layers: duplicate_descriptors(&manifest.layers),
            digest: manifest.config.digest.clone(),
        });
        self.queue_if_not_downloaded(manifest.config.digest.as_str(), next, image, manifest.config.size)
    }

    /// After a configuration listing `diff_ids` is stored: queues every
    /// layer of the manifest with its uncompressed digest unless known.
    /// Fails, changing nothing, when the configuration lists fewer diff ids
    /// than there are layers.
    pub fn queue_layers(&mut self, item: &DownloadableConfig, diff_ids: &Vec<String>) -> (r: Result<(), PullError>)
        ensures
            final(self).downloaded_spec() == old(self).downloaded_spec(),
            forall|d: Seq<char>| old(self).existing().contains(d) ==> #[trigger] final(self).existing().contains(d),
            diff_ids@.len() < item.layers@.len() ==> r is Err && same_work(*old(self), *final(self)),
            diff_ids@.len() >= item.layers@.len() ==> {
                &&& r is Ok
                &&& work_of(*final(self)) == layer_work(work_of(*old(self)), *item, diff_ids@, item.layers@.len() as int)
                &&& forall|i: int| 0 <= i < item.layers@.len() ==> final(self).existing().contains(#[trigger] item.layers@[i].digest@)
                &&& forall|d: Seq<char>| #[trigger] final(self).existing().contains(d) ==> old(self).existing().contains(d)
                    || exists|i: int| 0 <= i < item.layers@.len() && item.layers@[i].digest@ == d
                &&& final(self).queue().subrange(0, old(self).queue().len() as int) == old(self).queue()
                &&& forall|q: int| old(self).queue().len() <= q < final(self).queue().len() ==> is_new_layer_item(
                    old(self).existing(), *item, diff_ids@, item.layers@.len() as int, #[trigger] final(self).queue()[q])
            },
    {
        if diff_ids.len() < item.layers.len() {
            return Err(PullError(String::from_str("Missing uncompressed digest")));
        }
        let image = &item.full_image;
        let ghost a = *self;
        let n0 = self.download_queue.len();
        let mut i: usize = 0;
        while i < item.layers.len()
            invariant
                *image == item.full_image,
                i <= item.layers@.len(),
                diff_ids@.len() >= item.layers@.len(),
                self.downloaded_spec() == a.downloaded_spec(),
                n0 == a.queue().len(),
                self.queue().len() >= n0,
                work_of(*self) == layer_work(work_of(a), *item, diff_ids@, i as int),
                forall|j: int| 0 <= j < i ==> self.existing().contains(#[trigger] item.layers@[j].digest@),
                forall|d: Seq<char>| #[trigger] self.existing().contains(d) ==> a.existing().contains(d)
                    || exists|j: int| 0 <= j < i && item.layers@[j].digest@ == d,
                forall|d: Seq<char>| a.existing().contains(d) ==> #[trigger] self.existing().contains(d),
                self.queue().subrange(0, n0 as int) == a.queue(),
                forall|q: int| n0 <= q < self.queue().len() ==> is_new_layer_item(
                    a.existing(), *item, diff_ids@, i as int, #[trigger] self.queue()[q]),
            decreases item.layers@.len() - i,
        {
            let layer = &item.layers[i];
            let fi = duplicate_image(image);
            let dg = layer.digest.clone();
            let ud = diff_ids[i].clone();
            let next = Downloadable::Layer(DownloadableLayer { full_image: fi, digest: dg, uncompressed_digest: ud });
            let ghost before = *self;
            let ghost nv = next@;
            assert(nv == DownloadableModel::Layer(item.full_image@, item.layers@[i as int].digest@, diff_ids@[i as int]@));
            let queued = self.queue_if_not_downloaded(layer.digest.as_str(), next, image, layer.size);
            proof {
                assert(self.existing().contains(item.layers@[i as int].digest@));
                assert forall|d: Seq<char>| #[trigger] self.existing().contains(d) implies a.existing().contains(d)
                    || exists|j: int| 0 <= j < i + 1 && item.layers@[j].digest@ == d by {
                    if d == item.layers@[i as int].digest@ {
                    } else {
                        assert(before.existing().contains(d));
                    }
                }
                assert forall|j: int| 0 <= j < i + 1 implies self.existing().contains(#[trigger] item.layers@[j].digest@) by {
                    if j < i {
                        assert(before.existing().contains(item.layers@[j].digest@));
                    }
                }
                if !queued {
                    assert forall|q: int| n0 <= q < self.queue().len() implies is_new_layer_item(
                        a.existing(), *item, diff_ids@, i + 1, #[trigger] self.queue()[q]) by {
                        assert(is_new_layer_item(a.existing(), *item, diff_ids@, i as int, before.queue()[q]));
                        let j = choose|j: int| 0 <= j < i && !a.existing().contains(item.layers@[j].digest@)
                            && before.queue()[q] == DownloadableModel::Layer(item.full_image@, item.layers@[j].digest@, diff_ids@[j]@);
                    }
                }
                if queued {
                    assert(!before.existing().contains(item.layers@[i as int].digest@));
                    assert(self.queue().subrange(0, n0 as int) =~= before.queue().subrange(0, n0 as int));
                    assert forall|q: int| n0 <= q < self.queue().len() implies is_new_layer_item(
                        a.existing(), *item, diff_ids@, i + 1, #[trigger] self.queue()[q]) by {
                        if q < before.queue().len() {
                            assert(self.queue()[q] == before.queue()[q]);
                            assert(is_new_layer_item(a.existing(), *item, diff_ids@, i as int, before.queue()[q]));
                            let j = choose|j: int| 0 <= j < i && !a.existing().contains(item.layers@[j].digest@)
                                && before.queue()[q] == DownloadableModel::Layer(item.full_image@, item.layers@[j].digest@, diff_ids@[j]@);
                        } else {
                            assert(!a.existing().contains(item.layers@[i as int].digest@));
                            assert(q == before.queue().len());
                            assert(self.queue()[q] == nv);
                        }
                    }
                }
            }
            i = i + 1;
        }
        Ok(())
    }
}

} // verus!

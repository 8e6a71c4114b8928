//! Assembling an image from a plan: layer records and their digests, the
//! configuration, the per-platform manifest and the index.

use vstd::prelude::*;
use crate::archive::{detected_media_type, zstd_magic};
use crate::client::{ImagePermission, ImagePermissions};
use crate::digest::{digest_of, sha256_digest};
use crate::enums::{MediaType, PlatformOS};
use crate::image_config::{copy_opt_string, opt_str, History, ImageConfig, RootFs};
use crate::index::{ImageIndex, Manifest, Platform};
use crate::manifest::{Descriptor, DescriptorModel, ImageManifest};
use crate::parser::FullImage;
use crate::plan::{merge_image_plan_configs, merged_plan_config, opt_config, opt_run_config, ImagePlan, ImagePlanLayerType, ImagePlanPlatform};

verus! {

/// Bytes to push, with their digest.
#[derive(Debug)]
pub struct Blob {
    pub digest: String,
    pub data: Vec<u8>,
}

/// A layer of the image being built.
#[derive(Debug)]
pub struct Layer {
    /// The digest of the uncompressed tar: the layer's diff id.
    pub uncompressed_digest: String,
    /// The digest of the bytes on the wire.
    pub digest: String,
    /// The size of the bytes on the wire.
    pub size: u64,
    pub comment: String,
}

/// The two digests of a layer.
#[derive(Debug)]
pub struct Digest {
    pub compressed_digest: String,
    pub uncompressed_digest: String,
}

/// The abstract value of a layer record.
pub struct LayerModel {
    pub uncompressed_digest: Seq<char>,
    pub digest: Seq<char>,
    pub size: u64,
}

impl View for Layer {
    type V = LayerModel;

    open spec fn view(&self) -> LayerModel {
        LayerModel { uncompressed_digest: self.uncompressed_digest@, digest: self.digest@, size: self.size }
    }
}

pub open spec fn layer_views(ls: Seq<Layer>) -> Seq<LayerModel> {
    ls.map_values(|l: Layer| l@)
}

/// One zstd frame holding `data`, compressed at `level`.
pub uninterp spec fn zstd_frame_of(data: Seq<u8>, level: i32) -> Seq<u8>;

/// Relies on `zstd::bulk::compress`: a single zstd frame of `data` at
/// `level`; a zstd frame begins with the frame magic. It allocates
/// `ZSTD_compressBound(data.len())` bytes, with which zstd.h guarantees that
/// compression succeeds; that bound exists for every slice, since no
/// allocation reaches `ZSTD_MAX_INPUT_SIZE`.
#[verifier::external_body]
fn zstd_compress(data: &[u8], level: i32) -> (r: Option<Vec<u8>>)
    requires
        1 <= level <= 22,
    ensures
        r is Some,
        r is Some ==> r->0@ == zstd_frame_of(data@, level) && r->0@.len() >= 4
            && r->0@.subrange(0, 4) == zstd_magic(),
{
    zstd::bulk::compress(data, level).ok()
}

/// The compressed bytes of a tar and the digests of both forms.
pub fn compress_tar(tar_buffer: &Vec<u8>, compression_level: i32) -> (r: (Vec<u8>, Digest))
    requires
        1 <= compression_level <= 22,
    ensures
        r.0@ == zstd_frame_of(tar_buffer@, compression_level),
        r.1.compressed_digest@ == digest_of(r.0@),
        r.1.uncompressed_digest@ == digest_of(tar_buffer@),
        detected_media_type(r.0@) == Some(MediaType::OciImageLayerV1TarZstd),
{
    let uncompressed_digest = sha256_digest(tar_buffer);
    let compressed = match zstd_compress(tar_buffer.as_slice(), compression_level) {
        Some(c) => c,
        None => Vec::new(),
    };
    let compressed_digest = sha256_digest(&compressed);
    proof {
        let w = compressed@;
        assert(w.subrange(0, 2)[0] == w[0]);
        assert(w.subrange(0, 4)[0] == w[0]);
        assert(zstd_magic()[0] == 0x28u8);
    }
    (compressed, Digest { compressed_digest, uncompressed_digest })
}

/// A layer taken as it is: both digests are that of the bytes.
pub fn digest_as_is(data: &Vec<u8>) -> (r: Digest)
    ensures
        r.compressed_digest@ == digest_of(data@),
        r.uncompressed_digest@ == digest_of(data@),
{
    let d = sha256_digest(data);
    Digest { compressed_digest: d.clone(), uncompressed_digest: d }
}

/// The blob to push and the layer record for `data`.
pub fn build_layer(data: Vec<u8>, digest: Digest, comment: &str) -> (r: (Blob, Layer))
    ensures
        r.0.digest@ == digest.compressed_digest@,
        r.0.data@ == data@,
        r.1.digest@ == digest.compressed_digest@,
        r.1.uncompressed_digest@ == digest.uncompressed_digest@,
        r.1.size == data@.len(),
        r.1.comment@ == comment@,
{
    let size = data.len() as u64;
    let blob = Blob { digest: digest.compressed_digest.clone(), data };
    let layer = Layer {
        uncompressed_digest: digest.uncompressed_digest,
        digest: digest.compressed_digest,
        size,
        comment: String::from_str(comment),
    };
    (blob, layer)
}

/// A blob of `data` with its digest.
pub fn blob_of(data: Vec<u8>) -> (r: Blob)
    ensures
        r.data@ == data@,
        r.digest@ == digest_of(data@),
{
    let digest = sha256_digest(&data);
    Blob { digest, data }
}

impl Layer {
    /// The manifest descriptor of this layer: zstd-compressed tar, by its
    /// wire digest and size.
    pub fn to_descriptor(&self) -> (r: Descriptor)
        ensures
            r@ == (DescriptorModel { media_type: MediaType::OciImageLayerV1TarZstd, digest: self.digest@, size: self.size }),
    {
        Descriptor::new(MediaType::OciImageLayerV1TarZstd, self.digest.clone(), self.size)
    }

    /// The history record of this layer, created at `created` (RFC 3339).
    pub fn to_history(&self, created: &str) -> (r: History)
        ensures
            opt_str(r.created) == Some(created@),
            opt_str(r.created_by) == Some(self.comment@),
            r.author is None,
            r.comment is None,
            r.empty_layer is None,
    {
        History {
            created: Some(String::from_str(created)),
            created_by: Some(self.comment.clone()),
            author: None,
            comment: None,
            empty_layer: None,
        }
    }
}

/// The permissions a plan needs: first `Push` on its image, then `Pull` on
/// every image that a layer is taken from.
pub fn required_permissions(plan: &ImagePlan) -> (r: Vec<ImagePermission>)
    ensures
        r@.len() >= 1,
        r@[0]@ == (crate::parser::parsed_image(plan.name@), ImagePermissions::Push),
        forall|j: int| 1 <= j < r@.len() ==> (#[trigger] r@[j]).permissions == ImagePermissions::Pull
            && exists|p: int, l: int| 0 <= p < plan.platforms@.len() && 0 <= l < plan.platforms@[p].layers@.len()
                && plan.platforms@[p].layers@[l].layer_type == ImagePlanLayerType::Image
                && r@[j].full_image@ == crate::parser::parsed_image(plan.platforms@[p].layers@[l].source@),
        forall|p: int, l: int| 0 <= p < plan.platforms@.len() && 0 <= l < plan.platforms@[p].layers@.len()
            && (#[trigger] plan.platforms@[p].layers@[l]).layer_type == ImagePlanLayerType::Image ==> exists|j: int|
            1 <= j < r@.len() && r@[j]@ == (crate::parser::parsed_image(plan.platforms@[p].layers@[l].source@), ImagePermissions::Pull),
{
    let mut r: Vec<ImagePermission> = Vec::new();
    r.push(ImagePermission { full_image: FullImage::from_image_name(plan.name.as_str()), permissions: ImagePermissions::Push });
    let mut p: usize = 0;
    while p < plan.platforms.len()
        invariant
            p <= plan.platforms@.len(),
            r@.len() >= 1,
            r@[0]@ == (crate::parser::parsed_image(plan.name@), ImagePermissions::Push),
            forall|j: int| 1 <= j < r@.len() ==> (#[trigger] r@[j]).permissions == ImagePermissions::Pull
                && exists|p2: int, l: int| 0 <= p2 < plan.platforms@.len() && 0 <= l < plan.platforms@[p2].layers@.len()
                    && plan.platforms@[p2].layers@[l].layer_type == ImagePlanLayerType::Image
                    && r@[j].full_image@ == crate::parser::parsed_image(plan.platforms@[p2].layers@[l].source@),
            forall|p2: int, l: int| 0 <= p2 < p && 0 <= l < plan.platforms@[p2].layers@.len()
                && (#[trigger] plan.platforms@[p2].layers@[l]).layer_type == ImagePlanLayerType::Image ==> exists|j: int|
                1 <= j < r@.len() && r@[j]@ == (crate::parser::parsed_image(plan.platforms@[p2].layers@[l].source@), ImagePermissions::Pull),
        decreases plan.platforms@.len() - p,
    {
        let platform = &plan.platforms[p];
        let mut l: usize = 0;
        while l < platform.layers.len()
            invariant
                p < plan.platforms@.len(),
                *platform == plan.platforms@[p as int],
                l <= platform.layers@.len(),
                r@.len() >= 1,
                r@[0]@ == (crate::parser::parsed_image(plan.name@), ImagePermissions::Push),
                forall|j: int| 1 <= j < r@.len() ==> (#[trigger] r@[j]).permissions == ImagePermissions::Pull
                    && exists|p2: int, l2: int| 0 <= p2 < plan.platforms@.len() && 0 <= l2 < plan.platforms@[p2].layers@.len()
                        && plan.platforms@[p2].layers@[l2].layer_type == ImagePlanLayerType::Image
                        && r@[j].full_image@ == crate::parser::parsed_image(plan.platforms@[p2].layers@[l2].source@),
                forall|p2: int, l2: int| 0 <= p2 < p && 0 <= l2 < plan.platforms@[p2].layers@.len()
                    && (#[trigger] plan.platforms@[p2].layers@[l2]).layer_type == ImagePlanLayerType::Image ==> exists|j: int|
                    1 <= j < r@.len() && r@[j]@ == (crate::parser::parsed_image(plan.platforms@[p2].layers@[l2].source@), ImagePermissions::Pull),
                forall|l2: int| 0 <= l2 < l
                    && (#[trigger] plan.platforms@[p as int].layers@[l2]).layer_type == ImagePlanLayerType::Image ==> exists|j: int|
                    1 <= j < r@.len() && r@[j]@ == (crate::parser::parsed_image(plan.platforms@[p as int].layers@[l2].source@), ImagePermissions::Pull),
            decreases platform.layers@.len() - l,
        {
            let layer = &platform.layers[l];
            if layer.layer_type == ImagePlanLayerType::Image {
                let ghost before = r@;
                r.push(ImagePermission { full_image: FullImage::from_image_name(layer.source.as_str()), permissions: ImagePermissions::Pull });
                proof {
                    let n = before.len() as int;
                    assert(r@[n]@ == (crate::parser::parsed_image(plan.platforms@[p as int].layers@[l as int].source@), ImagePermissions::Pull));
                    assert forall|j: int| 1 <= j < r@.len() implies (#[trigger] r@[j]).permissions == ImagePermissions::Pull
                        && exists|p2: int, l2: int| 0 <= p2 < plan.platforms@.len() && 0 <= l2 < plan.platforms@[p2].layers@.len()
                            && plan.platforms@[p2].layers@[l2].layer_type == ImagePlanLayerType::Image
                            && r@[j].full_image@ == crate::parser::parsed_image(plan.platforms@[p2].layers@[l2].source@) by {
                        if j < n {
                            assert(r@[j] == before[j]);
                        } else {
                            assert(plan.platforms@[p as int].layers@[l as int].layer_type == ImagePlanLayerType::Image);
                        }
                    }
                    assert forall|p2: int, l2: int| 0 <= p2 < p && 0 <= l2 < plan.platforms@[p2].layers@.len()
                        && (#[trigger] plan.platforms@[p2].layers@[l2]).layer_type == ImagePlanLayerType::Image implies exists|j: int|
                        1 <= j < r@.len() && r@[j]@ == (crate::parser::parsed_image(plan.platforms@[p2].layers@[l2].source@), ImagePermissions::Pull) by {
                        let j = choose|j: int| 1 <= j < before.len() && before[j]@ == (crate::parser::parsed_image(plan.platforms@[p2].layers@[l2].source@), ImagePermissions::Pull);
                        assert(r@[j] == before[j]);
                    }
                    assert forall|l2: int| 0 <= l2 < l + 1
                        && (#[trigger] plan.platforms@[p as int].layers@[l2]).layer_type == ImagePlanLayerType::Image implies exists|j: int|
                        1 <= j < r@.len() && r@[j]@ == (crate::parser::parsed_image(plan.platforms@[p as int].layers@[l2].source@), ImagePermissions::Pull) by {
                        if l2 < l {
                            let j = choose|j: int| 1 <= j < before.len() && before[j]@ == (crate::parser::parsed_image(plan.platforms@[p as int].layers@[l2].source@), ImagePermissions::Pull);
                            assert(r@[j] == before[j]);
                        } else {
                            assert(r@[n]@ == (crate::parser::parsed_image(plan.platforms@[p as int].layers@[l2].source@), ImagePermissions::Pull));
                        }
                    }
                }
            }
            l = l + 1;
        }
        p = p + 1;
    }
    r
}

/// The configuration document of one platform: its architecture and
/// variant on Linux, the merged run configuration, the layers' diff ids in
/// order and one history record per layer.
pub fn image_config_for(plan: &ImagePlan, platform: &ImagePlanPlatform, layers: &Vec<Layer>, created: &str) -> (r: ImageConfig)
    ensures
        r.architecture == platform.architecture,
        r.os == PlatformOS::Linux,
        opt_str(r.variant) == opt_str(platform.variant),
        opt_str(r.created) == Some(created@),
        opt_run_config(r.config) == merged_plan_config(opt_config(plan.config), opt_config(platform.config)),
        r.rootfs.fs_type@ == "layers"@,
        r.rootfs.diff_ids@.len() == layers@.len(),
        forall|i: int| 0 <= i < layers@.len() ==> #[trigger] r.rootfs.diff_ids@[i]@ == layers@[i].uncompressed_digest@,
        r.history is Some && r.history->0@.len() == layers@.len(),
        forall|i: int| 0 <= i < layers@.len() ==> opt_str(#[trigger] r.history->0@[i].created_by) == Some(layers@[i].comment@),
{
    let mut diff_ids: Vec<String> = Vec::new();
    let mut history: Vec<History> = Vec::new();
    let mut i: usize = 0;
    while i < layers.len()
        invariant
            i <= layers@.len(),
            diff_ids@.len() == i,
            history@.len() == i,
            forall|j: int| 0 <= j < i ==> #[trigger] diff_ids@[j]@ == layers@[j].uncompressed_digest@,
            forall|j: int| 0 <= j < i ==> opt_str(#[trigger] history@[j].created_by) == Some(layers@[j].comment@),
        decreases layers@.len() - i,
    {
        diff_ids.push(layers[i].uncompressed_digest.clone());
        history.push(layers[i].to_history(created));
        i = i + 1;
    }
    ImageConfig {
        created: Some(String::from_str(created)),
        author: None,
        architecture: platform.architecture,
        os: PlatformOS::Linux,
        os_version: None,
        os_features: None,
        variant: copy_opt_string(&platform.variant),
        config: merge_image_plan_configs(&plan.config, &platform.config),
        rootfs: RootFs { fs_type: String::from_str("layers"), diff_ids },
        history: Some(history),
    }
}

/// The manifest of one platform: the configuration blob and the layers,
/// in order.
pub fn manifest_for(config_blob: &Blob, layers: &Vec<Layer>) -> (r: ImageManifest)
    ensures
        r.schema_version == 2,
        r.media_type == MediaType::OciImageManifestV1Json,
        r.config@ == (DescriptorModel { media_type: MediaType::OciImageConfigV1ConfigJson, digest: config_blob.digest@, size: config_blob.data@.len() as u64 }),
        r.layers@.len() == layers@.len(),
        forall|i: int| 0 <= i < layers@.len() ==> (#[trigger] r.layers@[i])@ == (DescriptorModel {
            media_type: MediaType::OciImageLayerV1TarZstd,
            digest: layers@[i].digest@,
            size: layers@[i].size,
        }),
{
    let mut ds: Vec<Descriptor> = Vec::new();
    let mut i: usize = 0;
    while i < layers.len()
        invariant
            i <= layers@.len(),
            ds@.len() == i,
            forall|j: int| 0 <= j < i ==> (#[trigger] ds@[j])@ == (DescriptorModel {
                media_type: MediaType::OciImageLayerV1TarZstd,
                digest: layers@[j].digest@,
                size: layers@[j].size,
            }),
        decreases layers@.len() - i,
    {
        ds.push(layers[i].to_descriptor());
        i = i + 1;
    }
    ImageManifest {
        schema_version: 2,
        media_type: MediaType::OciImageManifestV1Json,
        artifact_type: None,
        config: Descriptor::new(MediaType::OciImageConfigV1ConfigJson, config_blob.digest.clone(), config_blob.data.len() as u64),
        layers: ds,
        subject: None,
        annotations: None,
    }
}

/// The index entry of one platform's manifest blob.
pub fn index_entry(manifest_blob: &Blob, platform: &ImagePlanPlatform) -> (r: Manifest)
    ensures
        r.media_type == MediaType::OciImageManifestV1Json,
        r.digest@ == manifest_blob.digest@,
        r.size == manifest_blob.data@.len(),
        r.platform is Some,
        r.platform->0.architecture == platform.architecture,
        r.platform->0.os == PlatformOS::Linux,
        opt_str(r.platform->0.variant) == opt_str(platform.variant),
{
    Manifest {
        media_type: MediaType::OciImageManifestV1Json,
        size: manifest_blob.data.len() as u64,
        digest: manifest_blob.digest.clone(),
        platform: Some(Platform {
            architecture: platform.architecture,
            os: PlatformOS::Linux,
            os_version: None,
            os_features: None,
            variant: copy_opt_string(&platform.variant),
            features: None,
        }),
    }
}

/// The index of the built image: one entry per platform, in order.
pub fn index_for(manifests: Vec<Manifest>) -> (r: ImageIndex)
    ensures
        r.schema_version == 2,
        r.media_type == MediaType::OciImageIndexV1Json,
        r.manifests@ == manifests@,
        r.artifact_type is None,
        r.annotations is None,
{
    ImageIndex {
        schema_version: 2,
        media_type: MediaType::OciImageIndexV1Json,
        artifact_type: None,
        manifests,
        annotations: None,
    }
}

/// The digests of a built image follow its bytes: when every layer record
/// was made by `build_layer` from the digests of its wire bytes and of its
/// uncompressed tar, the manifest's `i`-th layer names the digest of the
/// `i`-th wire bytes and the configuration's `i`-th diff id the digest of
/// the `i`-th tar.
pub proof fn lemma_built_image_digests(
    layers: Seq<LayerModel>,
    wire: Seq<Seq<u8>>,
    tars: Seq<Seq<u8>>,
    manifest_layers: Seq<DescriptorModel>,
    diff_ids: Seq<Seq<char>>,
)
    requires
        layers.len() == wire.len() && layers.len() == tars.len(),
        forall|i: int| 0 <= i < layers.len() ==> (#[trigger] layers[i]).digest == digest_of(wire[i])
            && layers[i].uncompressed_digest == digest_of(tars[i]),
        manifest_layers.len() == layers.len(),
        forall|i: int| 0 <= i < layers.len() ==> (#[trigger] manifest_layers[i]).digest == layers[i].digest,
        diff_ids.len() == layers.len(),
        forall|i: int| 0 <= i < layers.len() ==> #[trigger] diff_ids[i] == layers[i].uncompressed_digest,
    ensures
        forall|i: int| 0 <= i < layers.len() ==> (#[trigger] manifest_layers[i]).digest == digest_of(wire[i])
            && diff_ids[i] == digest_of(tars[i]),
{
    assert forall|i: int| 0 <= i < layers.len() implies (#[trigger] manifest_layers[i]).digest == digest_of(wire[i])
        && diff_ids[i] == digest_of(tars[i]) by {
        assert(layers[i].digest == digest_of(wire[i]));
    }
}

} // verus!

//! Fetching from a registry: what an index request accepts, how a layer is
//! decoded, and where the blob cache keeps a blob.

use vstd::prelude::*;
use crate::enums::MediaType;
use crate::text::{chars_of, push_char};

verus! {

/// The `Accept` header of an index request: both families of index and
/// manifest types, since a one-platform registry may answer with a manifest.
pub fn index_accept_header() -> (r: &'static str)
    ensures
        r@ == "application/vnd.oci.image.index.v1+json, application/vnd.oci.image.manifest.v1+json, application/vnd.docker.distribution.manifest.list.v2+json, application/vnd.docker.distribution.manifest.v2+json"@,
{
    "application/vnd.oci.image.index.v1+json, application/vnd.oci.image.manifest.v1+json, application/vnd.docker.distribution.manifest.list.v2+json, application/vnd.docker.distribution.manifest.v2+json"
}

/// How a layer's bytes are decoded before its tar is unpacked.
#[derive(Debug, Clone, Copy, PartialEq, Eq, Structural)]
pub enum LayerCodec {
    Tar,
    Gzip,
    Zstd,
}

/// A media type that is no layer.
#[derive(Debug)]
pub struct UnsupportedMediaType(pub MediaType);

pub open spec fn codec_of(m: MediaType) -> Option<LayerCodec> {
    match m {
        MediaType::OciImageLayerV1Tar | MediaType::DockerImageRootfsDiffTar => Some(LayerCodec::Tar),
        MediaType::OciImageLayerV1TarGzip | MediaType::DockerImageRootfsDiffTarGzip => Some(LayerCodec::Gzip),
        MediaType::OciImageLayerV1TarZstd | MediaType::DockerImageRootfsDiffTarZstd => Some(LayerCodec::Zstd),
        _ => None,
    }
}

/// The decoder for a layer of the given media type.
pub fn layer_codec(media_type: MediaType) -> (r: Result<LayerCodec, UnsupportedMediaType>)
    ensures
        match codec_of(media_type) {
            Some(c) => r == Ok::<LayerCodec, UnsupportedMediaType>(c),
            None => r is Err,
        },
{
    match media_type {
        MediaType::OciImageLayerV1Tar | MediaType::DockerImageRootfsDiffTar => Ok(LayerCodec::Tar),
        MediaType::OciImageLayerV1TarGzip | MediaType::DockerImageRootfsDiffTarGzip => Ok(LayerCodec::Gzip),
        MediaType::OciImageLayerV1TarZstd | MediaType::DockerImageRootfsDiffTarZstd => Ok(LayerCodec::Zstd),
        _ => Err(UnsupportedMediaType(media_type)),
    }
}

/// The digest with every `:` written as `-`.
pub open spec fn cache_name_of(digest: Seq<char>) -> Seq<char> {
    digest.map_values(|c: char| if c == ':' { '-' } else { c })
}

/// The file name under which the blob cache keeps a blob.
pub fn cache_file_name(digest: &str) -> (r: String)
    ensures
        r@ == cache_name_of(digest@),
{
    let cs = chars_of(digest);
    let mut r = String::new();
    let mut i: usize = 0;
    while i < cs.len()
        invariant
            cs@ == digest@,
            i <= cs@.len(),
            r@ == cache_name_of(cs@.subrange(0, i as int)),
        decreases cs@.len() - i,
    {
        let c = cs[i];
        push_char(&mut r, if c == ':' { '-' } else { c });
        i = i + 1;
        assert(r@ =~= cache_name_of(cs@.subrange(0, i as int)));
    }
    assert(cs@.subrange(0, i as int) =~= cs@);
    r
}

} // verus!

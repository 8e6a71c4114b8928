//! Image indexes: lists of per-platform manifests.

use vstd::prelude::*;
use crate::enums::{MediaType, PlatformArchitecture, PlatformOS};
use crate::maps::StringMap;

verus! {

/// The platform that a manifest of an index is built for.
#[derive(Debug)]
pub struct Platform {
    pub architecture: PlatformArchitecture,
    pub os: PlatformOS,
    pub os_version: Option<String>,
    pub os_features: Option<Vec<String>>,
    pub variant: Option<String>,
    pub features: Option<Vec<String>>,
}

/// One entry of an index.
#[derive(Debug)]
pub struct Manifest {
    pub media_type: MediaType,
    pub size: u64,
    pub digest: String,
    pub platform: Option<Platform>,
}

/// A multi-platform image index.
#[derive(Debug)]
pub struct ImageIndex {
    pub schema_version: u32,
    pub media_type: MediaType,
    pub artifact_type: Option<String>,
    pub manifests: Vec<Manifest>,
    pub annotations: Option<StringMap>,
}

/// The architecture and variant of a platform, as the matcher reads them.
pub open spec fn platform_key(p: Platform) -> (PlatformArchitecture, Option<Seq<char>>) {
    (
        p.architecture,
        match p.variant {
            Some(v) => Some(v@),
            None => None,
        },
    )
}

} // verus!

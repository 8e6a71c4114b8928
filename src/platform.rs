//! Choosing the manifest of an index that fits a platform.

use vstd::prelude::*;
use crate::enums::{host_architecture, PlatformArchitecture};
use crate::index::Manifest;
use crate::text::str_eq;

verus! {

/// Selects manifests by architecture and, when one is given, by variant.
#[derive(Debug)]
pub struct PlatformMatcher {
    pub platform: PlatformArchitecture,
    pub variant: Option<String>,
}

/// Whether an index entry fits the architecture and, when given, the variant.
pub open spec fn entry_fits(
    arch: PlatformArchitecture,
    variant: Option<Seq<char>>,
    m: Manifest,
) -> bool {
    match m.platform {
        Some(p) => p.architecture == arch && match variant {
            Some(v) => p.variant is Some && p.variant->0@ == v,
            None => true,
        },
        None => false,
    }
}

impl PlatformMatcher {
    pub open spec fn variant_view(&self) -> Option<Seq<char>> {
        match self.variant {
            Some(v) => Some(v@),
            None => None,
        }
    }

    pub open spec fn fits(&self, m: Manifest) -> bool {
        entry_fits(self.platform, self.variant_view(), m)
    }

    /// A matcher for the host whose native architecture identifier is
    /// `arch` (such as `x86_64`).
    pub fn for_host(arch: &str) -> (r: Self)
        ensures
            r.platform == host_architecture(arch@),
            r.variant is None,
    {
        PlatformMatcher { platform: PlatformArchitecture::from_host(arch), variant: None }
    }

    /// A matcher for an explicit architecture, any variant.
    pub fn match_architecture(platform: PlatformArchitecture) -> (r: Self)
        ensures
            r.platform == platform,
            r.variant is None,
    {
        PlatformMatcher { platform, variant: None }
    }

    /// A matcher for an explicit architecture and variant.
    pub fn match_architecture_variant(platform: PlatformArchitecture, variant: String) -> (r: Self)
        ensures
            r.platform == platform,
            r.variant_view() == Some(variant@),
    {
        PlatformMatcher { platform, variant: Some(variant) }
    }

    /// Whether the architecture is the matcher's.
    pub fn matches(&self, image_platform: &PlatformArchitecture) -> (r: bool)
        ensures
            r == (self.platform == *image_platform),
    {
        self.platform == *image_platform
    }

    fn fits_exec(&self, m: &Manifest) -> (r: bool)
        ensures
            r == self.fits(*m),
    {
        match &m.platform {
            Some(p) => {
                if !self.matches(&p.architecture) {
                    return false;
                }
                match &self.variant {
                    Some(v) => match &p.variant {
                        Some(pv) => str_eq(pv.as_str(), v.as_str()),
                        None => false,
                    },
                    None => true,
                }
            },
            None => false,
        }
    }

    /// The position of the first entry that fits, if any.
    pub fn find_manifest_index(&self, manifests: &[Manifest]) -> (r: Option<usize>)
        ensures
            match r {
                Some(i) => i < manifests@.len() && self.fits(manifests@[i as int]) && forall|j: int|
                    0 <= j < i ==> !self.fits(#[trigger] manifests@[j]),
                None => forall|j: int| 0 <= j < manifests@.len() ==> !self.fits(#[trigger] manifests@[j]),
            },
    {
        let mut i: usize = 0;
        while i < manifests.len()
            invariant
                i <= manifests@.len(),
                forall|j: int| 0 <= j < i ==> !self.fits(#[trigger] manifests@[j]),
            decreases manifests@.len() - i,
        {
            if self.fits_exec(&manifests[i]) {
                return Some(i);
            }
            i = i + 1;
        }
        None
    }

    /// The first entry that fits, if any.
    pub fn find_manifest<'a>(&self, manifests: &'a [Manifest]) -> (r: Option<&'a Manifest>)
        ensures
            match r {
                Some(m) => exists|i: int|
                    0 <= i < manifests@.len() && manifests@[i] == *m && self.fits(*m) && forall|j: int|
                        0 <= j < i ==> !self.fits(#[trigger] manifests@[j]),
                None => forall|j: int| 0 <= j < manifests@.len() ==> !self.fits(#[trigger] manifests@[j]),
            },
    {
        match self.find_manifest_index(manifests) {
            Some(i) => Some(&manifests[i]),
            None => None,
        }
    }
}

} // verus!

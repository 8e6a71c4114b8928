//! Image manifests and the descriptors that they hold.

use vstd::prelude::*;
use crate::enums::MediaType;
use crate::maps::StringMap;

verus! {

/// A reference to a blob: its media type, digest and size on the wire.
#[derive(Debug)]
pub struct Descriptor {
    pub media_type: MediaType,
    pub digest: String,
    pub size: u64,
    pub data: Option<String>,
}

/// The abstract value of a descriptor.
pub struct DescriptorModel {
    pub media_type: MediaType,
    pub digest: Seq<char>,
    pub size: u64,
}

impl View for Descriptor {
    type V = DescriptorModel;

    open spec fn view(&self) -> DescriptorModel {
        DescriptorModel { media_type: self.media_type, digest: self.digest@, size: self.size }
    }
}

impl Descriptor {
    /// A descriptor without inline data.
    pub fn new(media_type: MediaType, digest: String, size: u64) -> (r: Self)
        ensures
            r@ == (DescriptorModel { media_type, digest: digest@, size }),
            r.data is None,
    {
        Descriptor { media_type, digest, size, data: None }
    }

    /// A copy of this descriptor.
    pub fn duplicate(&self) -> (r: Self)
        ensures
            r@ == self@,
    {
        Descriptor {
            media_type: self.media_type,
            digest: self.digest.clone(),
            size: self.size,
            data: match &self.data {
                Some(d) => Some(d.clone()),
                None => None,
            },
        }
    }
}

/// The views of a list of descriptors.
pub open spec fn descriptor_views(ds: Seq<Descriptor>) -> Seq<DescriptorModel> {
    ds.map_values(|d: Descriptor| d@)
}

/// Copies a list of descriptors.
pub fn duplicate_descriptors(ds: &Vec<Descriptor>) -> (r: Vec<Descriptor>)
    ensures
        descriptor_views(r@) == descriptor_views(ds@),
{
    let mut r: Vec<Descriptor> = Vec::new();
    let mut i: usize = 0;
    while i < ds.len()
        invariant
            i <= ds@.len(),
            r@.len() == i,
            forall|j: int| 0 <= j < i ==> #[trigger] r@[j]@ == ds@[j]@,
        decreases ds@.len() - i,
    {
        r.push(ds[i].duplicate());
        i = i + 1;
    }
    assert(descriptor_views(r@) =~= descriptor_views(ds@));
    r
}

/// A single-platform image manifest.
#[derive(Debug)]
pub struct ImageManifest {
    pub schema_version: u32,
    pub media_type: MediaType,
    pub artifact_type: Option<String>,
    pub config: Descriptor,
    pub layers: Vec<Descriptor>,
    pub subject: Option<Descriptor>,
    pub annotations: Option<StringMap>,
}

} // verus!

//! The catalogs of skills and harnesses.
use crate::time::Timestamp;
use crate::types::harness::HarnessDescriptor;
use vstd::prelude::*;

verus! {

/// A skill.
#[derive(Clone, Debug, PartialEq, Eq)]
pub struct CatalogSkill {
    pub id: String,
    pub owner: String,
    pub name: String,
    pub description: String,
    pub sha256: String,
    pub mount_json: String,
    pub size_bytes: i64,
    pub created_at: Timestamp,
}

/// A harness.
#[derive(Clone, Debug, PartialEq, Eq)]
pub struct CatalogHarness {
    pub id: String,
    pub owner: String,
    pub name: String,
    pub oci_ref: String,
    pub manifest_digest: String,
    /// The text of its `harness.toml`.
    pub descriptor_toml: String,
    pub tree_sha256: String,
    pub tree_size_bytes: i64,
    pub created_at: Timestamp,
}

impl CatalogHarness {
    /// The descriptor of the harness.
    pub fn descriptor(&self) -> (res: Result<HarnessDescriptor, String>)
        ensures
            ({
                let parsed = crate::types::harness::DescriptorView::parsed(self.descriptor_toml@);
                &&& res is Ok <==> parsed is Ok
                &&& res is Ok ==> parsed->Ok_0 == res->Ok_0@
                &&& res is Err ==> parsed->Err_0 == res->Err_0@
            }),
    {
        HarnessDescriptor::parse(self.descriptor_toml.as_str())
    }
}

/// A harness to be put into the catalog.
#[derive(Clone, Copy, Debug)]
pub struct HarnessRegistration<'a> {
    pub owner: &'a str,
    pub name: &'a str,
    pub oci_ref: &'a str,
    pub manifest_digest: &'a str,
    pub descriptor_toml: &'a str,
    pub tree_sha256: &'a str,
    pub tree_size_bytes: i64,
}

} // verus!

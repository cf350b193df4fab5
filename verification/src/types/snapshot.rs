//! Snapshots of sandboxes.
use crate::time::Timestamp;
use crate::types::ids::{SandboxId, SessionId, SnapshotId};
use crate::types::manifest::ManifestRef;
use crate::types::sandbox::AuxBundleRef;
use vstd::prelude::*;

verus! {

/// What a host knows of a snapshot that it took.
#[derive(Clone, Debug, PartialEq, Eq)]
pub struct SnapshotMetadata {
    pub id: SnapshotId,
    pub sandbox_id: SandboxId,
    pub disk_manifest: Option<ManifestRef>,
    pub memory_manifest: Option<ManifestRef>,
    pub aux_bundles: Vec<AuxBundleRef>,
    pub created_at: Timestamp,
}

/// A snapshot, as it is kept.
#[derive(Clone, Debug, PartialEq, Eq)]
pub struct SnapshotRecord {
    pub session_id: Option<SessionId>,
    pub metadata: SnapshotMetadata,
    /// Everything that a resume needs is in the blob store.
    pub recoverable: bool,
}

} // verus!

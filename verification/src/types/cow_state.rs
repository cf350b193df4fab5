//! How much of a sandbox's disk is written back.
use crate::time::{from_timestamp, Timestamp};
use crate::types::ids::SandboxId;
use crate::types::manifest::ManifestRef;
use vstd::prelude::*;

verus! {

/// The disk of a sandbox as it is, and the memory as it was kept last.
#[derive(Clone, Debug, PartialEq, Eq)]
pub struct CowState {
    pub disk_manifest: ManifestRef,
    pub dirty_chunks: u32,
    pub dirty_bytes: u64,
    /// When the disk was written back last, in milliseconds since 1970; zero for never.
    pub last_flush_unix_ms: i64,
    pub base_chunks: u32,
    pub base_chunks_local: u32,
    pub memory_manifest: Option<ManifestRef>,
    /// When the last snapshot was taken, in milliseconds since 1970; zero for never.
    pub last_snapshot_unix_ms: i64,
}

/// The disk of one of several sandboxes.
#[derive(Clone, Debug, PartialEq, Eq)]
pub struct CowStateRecord {
    pub sandbox_id: SandboxId,
    pub state: CowState,
}

/// The point in time `ms` milliseconds after 1970; none for never, and none beyond the calendar.
pub fn unix_ms_to_dt(ms: i64) -> (res: Option<Timestamp>)
    ensures
        res is Some <==> 0 < ms && ms / 1000 <= crate::time::LAST_SECOND,
        res is Some ==> res->0.wf() && res->0.total() == ms * 1_000_000,
{
    if ms <= 0 {
        return None;
    }
    let secs: i64 = ms / 1000;
    let nanos: u32 = ((ms % 1000) * 1_000_000) as u32;
    from_timestamp(secs, nanos)
}

} // verus!

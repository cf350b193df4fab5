//! Hosts: their states, what they report, and what they can do.
use crate::document::Value;
use crate::text::same;
use crate::time::Timestamp;
use crate::types::ids::HostId;
use crate::types::sandbox::{AuxBundleRef, SandboxAuxBundles};
use vstd::prelude::*;

verus! {

/// Where a host stands.
#[derive(Clone, Copy, Debug, PartialEq, Eq, Structural, Hash)]
pub enum HostStatus {
    /// Takes sessions.
    Ready,
    /// Takes no more sessions.
    Draining,
    /// Given up. Terminal: a host that comes back registers anew.
    Dead,
}

impl HostStatus {
    /// The stable name.
    pub open spec fn name(self) -> Seq<char> {
        match self {
            HostStatus::Ready => "ready"@,
            HostStatus::Draining => "draining"@,
            HostStatus::Dead => "dead"@,
        }
    }

    /// The stable name.
    pub fn as_str(&self) -> (res: &'static str)
        ensures
            res@ == self.name(),
    {
        match self {
            HostStatus::Ready => "ready",
            HostStatus::Draining => "draining",
            HostStatus::Dead => "dead",
        }
    }

    /// The state with the name `s`, if there is one.
    pub fn parse(s: &str) -> (res: Option<HostStatus>)
        ensures
            res is Some ==> res->0.name() == s@,
            res is None ==> forall|k: HostStatus| k.name() != s@,
    {
        if same(s, "ready") {
            Some(HostStatus::Ready)
        } else if same(s, "draining") {
            Some(HostStatus::Draining)
        } else if same(s, "dead") {
            Some(HostStatus::Dead)
        } else {
            None
        }
    }
}

impl HostStatus {
    /// The state can be followed by `target`.
    pub open spec fn legal_next(self, target: HostStatus) -> bool {
        self != HostStatus::Dead && target != self
    }

    /// Whether the state can be followed by `target`.
    pub fn can_transition_to(&self, target: HostStatus) -> (res: bool)
        ensures
            res == self.legal_next(target),
    {
        match self {
            HostStatus::Ready => matches!(target, HostStatus::Draining | HostStatus::Dead),
            HostStatus::Draining => matches!(target, HostStatus::Ready | HostStatus::Dead),
            HostStatus::Dead => false,
        }
    }
}

/// Different states of a host have different names.
pub proof fn host_status_names_differ(a: HostStatus, b: HostStatus)
    requires
        a.name() == b.name(),
    ensures
        a == b,
{
    reveal_strlit("ready");
    reveal_strlit("draining");
    reveal_strlit("dead");
    assert("ready"@.len() == 5);
    assert("draining"@.len() == 8);
    assert("dead"@.len() == 4);
}

/// A dead host stays dead, and no state follows itself.
pub proof fn dead_hosts_stay_dead(from: HostStatus, to: HostStatus)
    ensures
        !HostStatus::Dead.legal_next(to),
        !from.legal_next(from),
{
}

/// What the cloud knows of a host.
#[derive(Clone, Debug)]
pub struct HostMetadata {
    pub instance_id: String,
    pub zone: String,
    pub machine_type: String,
    pub extra: Value,
}

/// What a host has room for.
#[derive(Clone, Debug, PartialEq, Eq)]
pub struct HostCapacity {
    pub total_gb: u32,
    pub used_gb: u32,
    pub total_mib: u64,
    pub used_mib: u64,
    pub running_sandboxes: u32,
}

/// The disk space, in bytes, that a host keeps for its cache.
pub const HOST_DISK_CACHE_FLOOR_BYTES: u64 = 20 * 1024 * 1024 * 1024;

/// The disk space, in MiB, that a host keeps for its cache.
pub const HOST_DISK_CACHE_FLOOR_MIB: u64 = 20 * 1024;

/// How much of a host is in use.
#[derive(Clone, Debug, PartialEq, Eq)]
pub struct HostUtilization {
    pub disk_total_mib: u64,
    pub disk_used_mib: u64,
    pub committed_swap_mib: u64,
    pub mem_total_mib: u64,
    pub mem_used_mib: u64,
    pub allocatable_mib: u64,
    /// The share of the processors in per cent, as the bits of a 32-bit IEEE 754 number.
    pub cpu_pct_bits: u32,
    pub base_shm_mib: u64,
    pub base_shm_pending_mib: u64,
    pub parked_pss_mib: u64,
    pub running_pss_mib: u64,
}

/// What a host found out about one of its capabilities.
#[derive(Clone, Debug, PartialEq, Eq)]
pub enum CapStatus {
    /// Not looked at, or not reported.
    Unknown,
    /// There, with a note where there is something to say.
    Healthy(Option<String>),
    Failed(String),
    /// The host's back end has no use for it.
    NotApplicable,
}

impl Default for CapStatus {
    fn default() -> (res: CapStatus)
        ensures
            res == CapStatus::Unknown,
    {
        CapStatus::Unknown
    }
}

impl CapStatus {
    /// Whether the capability is there.
    pub fn is_ok(&self) -> (res: bool)
        ensures
            res == (self is Healthy),
    {
        matches!(self, CapStatus::Healthy(_))
    }

    /// The capability counts as failing in a report of this schema: it failed, or the report
    /// should speak of it (schema one and later) and does not.
    pub open spec fn failing(self, schema: u32) -> bool {
        self is Failed || (self is Unknown && schema >= 1)
    }

    /// Whether the capability counts as failing in a report of this schema.
    fn is_failing(&self, schema: u32) -> (res: bool)
        ensures
            res == self.failing(schema),
    {
        match self {
            CapStatus::Failed(_) => true,
            CapStatus::Unknown => schema >= 1,
            CapStatus::Healthy(_) | CapStatus::NotApplicable => false,
        }
    }
}

/// What a host can do, as it reports it. A report of schema zero says nothing.
#[derive(Clone, Debug, PartialEq, Eq)]
pub struct HostCapabilities {
    pub schema: u32,
    pub backend: String,
    pub grpc_self_connect: CapStatus,
    pub base_shm_tmpfs: CapStatus,
    pub uffd_minor_shmem: CapStatus,
    pub nbd: CapStatus,
    pub bundle_stamp: CapStatus,
    pub fc_snapshot_version: Option<String>,
    pub wire_version: u32,
}

impl Default for HostCapabilities {
    fn default() -> (res: HostCapabilities)
        ensures
            res.schema == 0,
            res.backend@ == Seq::<char>::empty(),
            res.grpc_self_connect == CapStatus::Unknown,
            res.base_shm_tmpfs == CapStatus::Unknown,
            res.uffd_minor_shmem == CapStatus::Unknown,
            res.nbd == CapStatus::Unknown,
            res.bundle_stamp == CapStatus::Unknown,
            res.fc_snapshot_version is None,
            res.wire_version == 0,
    {
        HostCapabilities {
            schema: 0,
            backend: String::new(),
            grpc_self_connect: CapStatus::Unknown,
            base_shm_tmpfs: CapStatus::Unknown,
            uffd_minor_shmem: CapStatus::Unknown,
            nbd: CapStatus::Unknown,
            bundle_stamp: CapStatus::Unknown,
            fc_snapshot_version: None,
            wire_version: 0,
        }
    }
}

/// `name` alone, if `there`, else nothing.
pub open spec fn if_there(there: bool, name: Seq<char>) -> Seq<Seq<char>> {
    if there {
        seq![name]
    } else {
        Seq::empty()
    }
}

impl HostCapabilities {
    /// The names of the failing capabilities, in a fixed order.
    pub open spec fn failing(self) -> Seq<Seq<char>> {
        if_there(self.grpc_self_connect.failing(self.schema), "grpc_self_connect"@) + if_there(
            self.base_shm_tmpfs.failing(self.schema),
            "base_shm_tmpfs"@,
        ) + if_there(self.uffd_minor_shmem.failing(self.schema), "uffd_minor_shmem"@) + if_there(
            self.nbd.failing(self.schema),
            "nbd"@,
        ) + if_there(self.bundle_stamp.failing(self.schema), "bundle_stamp"@)
    }

    /// The names of the failing capabilities, in a fixed order.
    pub fn failing_capabilities(&self) -> (res: Vec<&'static str>)
        ensures
            res.deep_view() == self.failing(),
    {
        let mut out: Vec<&'static str> = Vec::new();
        if self.grpc_self_connect.is_failing(self.schema) {
            out.push("grpc_self_connect");
        }
        if self.base_shm_tmpfs.is_failing(self.schema) {
            out.push("base_shm_tmpfs");
        }
        if self.uffd_minor_shmem.is_failing(self.schema) {
            out.push("uffd_minor_shmem");
        }
        if self.nbd.is_failing(self.schema) {
            out.push("nbd");
        }
        if self.bundle_stamp.is_failing(self.schema) {
            out.push("bundle_stamp");
        }
        assert(out.deep_view() =~= self.failing());
        out
    }
}

/// A report of schema zero that names no failure has none: a host that never reported is not
/// held to be broken.
pub proof fn silence_is_no_failure(caps: HostCapabilities)
    requires
        caps.schema == 0,
        !(caps.grpc_self_connect is Failed),
        !(caps.base_shm_tmpfs is Failed),
        !(caps.uffd_minor_shmem is Failed),
        !(caps.nbd is Failed),
        !(caps.bundle_stamp is Failed),
    ensures
        caps.failing() == Seq::<Seq<char>>::empty(),
{
    assert(caps.failing() =~= Seq::<Seq<char>>::empty());
}

/// A host.
#[derive(Clone, Debug)]
pub struct HostRecord {
    pub id: HostId,
    pub hostname: String,
    pub cloud_metadata: HostMetadata,
    pub capacity: HostCapacity,
    pub utilization: HostUtilization,
    pub status: HostStatus,
    pub last_heartbeat_at: Timestamp,
    pub host_addr: Option<String>,
    pub ready_images: Vec<String>,
    pub current_bundles: Vec<AuxBundleRef>,
    pub sandbox_bundles: Vec<SandboxAuxBundles>,
    pub cordoned: bool,
    pub total_vcpus: u32,
    pub wire_version: u32,
    pub stages_images: bool,
    pub capabilities: HostCapabilities,
}

/// What a host reports at regular intervals.
#[derive(Clone, Debug)]
pub struct HostHeartbeat {
    pub status: HostStatus,
    pub capacity: HostCapacity,
    pub utilization: HostUtilization,
    pub ready_images: Vec<String>,
    pub current_bundles: Vec<AuxBundleRef>,
    pub sandbox_bundles: Vec<SandboxAuxBundles>,
    pub total_vcpus: u32,
    pub wire_version: u32,
    pub stages_images: bool,
    pub capabilities: HostCapabilities,
}

/// What is reserved on a host.
#[derive(Clone, Copy, Debug, PartialEq, Eq, Structural)]
pub struct ReservedBudget {
    pub mem_mib: i64,
    pub vcpus: i64,
}

impl Default for ReservedBudget {
    fn default() -> (res: ReservedBudget)
        ensures
            res == (ReservedBudget { mem_mib: 0, vcpus: 0 }),
    {
        ReservedBudget { mem_mib: 0, vcpus: 0 }
    }
}

/// The request for a host.
#[derive(Clone, Debug, PartialEq, Eq)]
pub struct HostSpec {
    pub machine_type: String,
    pub zone: String,
    pub disk_gb: u32,
    pub labels: Vec<(String, String)>,
}

/// One for a capability that fails, else zero.
pub open spec fn one_if(fails: bool) -> int {
    if fails {
        1
    } else {
        0
    }
}

/// Each of the five capabilities is reported exactly if it failed, or is unknown in a report of
/// schema one or later; each once, and in one order.
pub proof fn failures_are_reported(caps: HostCapabilities)
    ensures
        ({
            let grpc = caps.grpc_self_connect is Failed || (caps.grpc_self_connect is Unknown
                && caps.schema >= 1);
            let shm = caps.base_shm_tmpfs is Failed || (caps.base_shm_tmpfs is Unknown
                && caps.schema >= 1);
            let uffd = caps.uffd_minor_shmem is Failed || (caps.uffd_minor_shmem is Unknown
                && caps.schema >= 1);
            let nbd = caps.nbd is Failed || (caps.nbd is Unknown && caps.schema >= 1);
            let stamp = caps.bundle_stamp is Failed || (caps.bundle_stamp is Unknown
                && caps.schema >= 1);
            let list = caps.failing();
            &&& list.len()
                == one_if(grpc) + one_if(shm) + one_if(uffd) + one_if(nbd) + one_if(stamp)
            &&& grpc ==> list[0] == "grpc_self_connect"@
            &&& shm ==> list[one_if(grpc)] == "base_shm_tmpfs"@
            &&& uffd ==> list[one_if(grpc) + one_if(shm)] == "uffd_minor_shmem"@
            &&& nbd ==> list[one_if(grpc) + one_if(shm) + one_if(uffd)] == "nbd"@
            &&& stamp ==> list[list.len() - 1] == "bundle_stamp"@
            &&& list.contains("grpc_self_connect"@) <==> grpc
            &&& list.contains("base_shm_tmpfs"@) <==> shm
            &&& list.contains("uffd_minor_shmem"@) <==> uffd
            &&& list.contains("nbd"@) <==> nbd
            &&& list.contains("bundle_stamp"@) <==> stamp
            &&& list.len() == 0 <==> !grpc && !shm && !uffd && !nbd && !stamp
        }),
{
    reveal_strlit("grpc_self_connect");
    reveal_strlit("base_shm_tmpfs");
    reveal_strlit("uffd_minor_shmem");
    reveal_strlit("nbd");
    reveal_strlit("bundle_stamp");
    assert("grpc_self_connect"@.len() == 17);
    assert("base_shm_tmpfs"@.len() == 14);
    assert("uffd_minor_shmem"@.len() == 16);
    assert("nbd"@.len() == 3);
    assert("bundle_stamp"@.len() == 12);
    let grpc = caps.grpc_self_connect is Failed || (caps.grpc_self_connect is Unknown
        && caps.schema >= 1);
    let shm = caps.base_shm_tmpfs is Failed || (caps.base_shm_tmpfs is Unknown && caps.schema >= 1);
    let uffd = caps.uffd_minor_shmem is Failed || (caps.uffd_minor_shmem is Unknown
        && caps.schema >= 1);
    let nbd = caps.nbd is Failed || (caps.nbd is Unknown && caps.schema >= 1);
    let stamp = caps.bundle_stamp is Failed || (caps.bundle_stamp is Unknown && caps.schema >= 1);
    let list = caps.failing();
    let b: int = one_if(grpc);
    let c: int = b + one_if(shm);
    let d: int = c + one_if(uffd);
    let e: int = d + one_if(nbd);
    assert(list.len() == e + one_if(stamp));
    assert(grpc ==> list[0] == "grpc_self_connect"@);
    assert(shm ==> list[b] == "base_shm_tmpfs"@);
    assert(uffd ==> list[c] == "uffd_minor_shmem"@);
    assert(nbd ==> list[d] == "nbd"@);
    assert(stamp ==> list[e] == "bundle_stamp"@);
    assert forall|i: int| 0 <= i < list.len() implies (grpc && #[trigger] list[i]
        == "grpc_self_connect"@) || (shm && list[i] == "base_shm_tmpfs"@) || (uffd && list[i]
        == "uffd_minor_shmem"@) || (nbd && list[i] == "nbd"@) || (stamp && list[i]
        == "bundle_stamp"@) by {
        assert((grpc && i == 0) || (shm && i == b) || (uffd && i == c) || (nbd && i == d) || (stamp
            && i == e));
    }
}

/// A host goes from ready to draining and back, and from either to dead; nothing else.
pub proof fn hosts_drain_and_return(from: HostStatus, to: HostStatus)
    ensures
        from.legal_next(to) <==> {
            ||| from == HostStatus::Ready && to == HostStatus::Draining
            ||| from == HostStatus::Draining && to == HostStatus::Ready
            ||| from == HostStatus::Ready && to == HostStatus::Dead
            ||| from == HostStatus::Draining && to == HostStatus::Dead
        },
{
}

/// The stable names are the ones that are stored and sent: each is that of one value and of no
/// other.
pub proof fn host_status_names_are_stable(k: HostStatus)
    ensures
        k.name() == "ready"@ <==> k == HostStatus::Ready,
        k.name() == "draining"@ <==> k == HostStatus::Draining,
        k.name() == "dead"@ <==> k == HostStatus::Dead,
{
    if k.name() == "ready"@ {
        host_status_names_differ(k, HostStatus::Ready);
    }
    if k.name() == "draining"@ {
        host_status_names_differ(k, HostStatus::Draining);
    }
    if k.name() == "dead"@ {
        host_status_names_differ(k, HostStatus::Dead);
    }
}

} // verus!

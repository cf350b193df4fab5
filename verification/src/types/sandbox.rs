//! Sandboxes: what they are made from, what is mounted into them, and what they execute.
use crate::text::{push_decimal, same};
use crate::text_map::TextMap;
use crate::time::Duration;
use crate::types::ids::SandboxId;
use crate::types::image::NetworkPolicy;
use crate::types::manifest::ManifestRef;
use vstd::prelude::*;
use vstd::string::*;

verus! {

/// Whether a sandbox is there, found out from the process itself.
#[derive(Clone, Copy, Debug, PartialEq, Eq, Structural)]
pub struct SandboxProbe {
    /// The back end lists the sandbox.
    pub known_to_backend: bool,
    /// The process of the sandbox is alive.
    pub process_alive: bool,
    /// The control socket answers; `None`, where it was not asked.
    pub control_alive: Option<bool>,
}

/// The request for a sandbox.
#[derive(Clone, Debug)]
pub struct SandboxSpec {
    pub image: String,
    /// The path of the root file system on the host.
    pub rootfs_source: Option<String>,
    pub image_uri: Option<String>,
    /// The manifest that serves the root disk, in place of the image.
    pub rootfs_manifest: Option<ManifestRef>,
    pub cpu: CpuLimit,
    pub memory: MemoryLimit,
    pub disk: DiskLimit,
    pub ttl: Option<Duration>,
    pub env: TextMap,
    pub workdir: Option<String>,
    pub network: NetworkPolicy,
    pub aux_ro_drives: Vec<AuxRoDrive>,
    /// The size of the swap device in MiB.
    pub swap_mib: Option<u32>,
}

/// A read-only drive that the host attaches to the guest. A base snapshot reserves a fixed pool
/// of slots; a session swaps contents into them.
#[derive(Clone, Debug, PartialEq, Eq)]
pub struct AuxRoDrive {
    /// The device: for a reserved slot, `dyn_` and its index.
    pub drive_id: String,
    /// Where the guest mounts the drive.
    pub guest_mount: String,
    pub fs_type: String,
    /// The content; `None` until the host has resolved it.
    pub sha256: Option<String>,
}

/// The drive id of reserved slot `i`.
pub open spec fn slot_name(i: nat) -> Seq<char> {
    "dyn_"@ + crate::text::decimal(i)
}

impl AuxRoDrive {
    /// The directory, on every host the same, in which contents lie.
    pub const SHARED_DIR: &'static str = "/var/lib/engram/shared";

    /// The file that says which content goes with which name on a host.
    pub const CURRENT_STAMP: &'static str = "current.json";

    /// The name of the content that stands in an unused slot.
    pub const SENTINEL_STAMP_KEY: &'static str = "sentinel";

    /// The name of the guest agent's content.
    pub const AGENTD_STAMP_KEY: &'static str = "agentd";

    /// The name of the guest tools' content.
    pub const GUEST_TOOLS_STAMP_KEY: &'static str = "guest-tools";

    /// The number of reserved slots.
    pub const RESERVED_SLOTS: usize = 12;

    /// The slot of the harness catalog.
    pub const HARNESS_SLOT_INDEX: usize = 0;

    /// The slot of the guest agent.
    pub const AGENTD_SLOT_INDEX: usize = 1;

    /// The slot of the guest tools.
    pub const GUEST_TOOLS_SLOT_INDEX: usize = 2;

    /// The number of slots that are left for skills.
    pub const MAX_SKILL_SLOTS: usize = 9;

    /// The first slot that is left for skills.
    pub const FIRST_SKILL_SLOT_INDEX: usize = 3;

    /// The drive id of reserved slot `i`.
    pub fn slot_drive_id(i: usize) -> (res: String)
        ensures
            res@ == slot_name(i as nat),
    {
        let mut text = String::from_str("dyn_");
        push_decimal(&mut text, i as u64);
        text
    }

    /// Where the guest mounts reserved slot `i`.
    pub fn slot_guest_mount(i: usize) -> (res: String)
        ensures
            res@ == "/opt/engram/dyn/"@ + crate::text::decimal(i as nat),
    {
        let mut text = String::from_str("/opt/engram/dyn/");
        push_decimal(&mut text, i as u64);
        text
    }

    /// The index of the reserved slot that this drive targets; none, where its drive id is that
    /// of no reserved slot.
    pub fn slot_index(&self) -> (res: Option<usize>)
        ensures
            forall|i: usize|
                res == Some(i) <==> i < AuxRoDrive::RESERVED_SLOTS && self.drive_id@
                    == #[trigger] slot_name(i as nat),
    {
        let mut i: usize = 0;
        while i < AuxRoDrive::RESERVED_SLOTS
            invariant
                i <= AuxRoDrive::RESERVED_SLOTS,
                forall|j: usize| j < i ==> self.drive_id@ != #[trigger] slot_name(j as nat),
            decreases AuxRoDrive::RESERVED_SLOTS - i,
        {
            let name = AuxRoDrive::slot_drive_id(i);
            if same(self.drive_id.as_str(), name.as_str()) {
                assert forall|j: usize| self.drive_id@ == #[trigger] slot_name(
                    j as nat,
                ) implies j == i by {
                    slot_names_differ(i as nat, j as nat);
                }
                return Some(i);
            }
            i += 1;
        }
        None
    }

    /// Reserved slot `i`, its content not yet resolved.
    pub fn reserved_slot(i: usize) -> (res: AuxRoDrive)
        ensures
            res.drive_id@ == slot_name(i as nat),
            res.guest_mount@ == "/opt/engram/dyn/"@ + crate::text::decimal(i as nat),
            res.fs_type@ == "squashfs"@,
            res.sha256 is None,
    {
        AuxRoDrive {
            drive_id: AuxRoDrive::slot_drive_id(i),
            guest_mount: AuxRoDrive::slot_guest_mount(i),
            fs_type: String::from_str("squashfs"),
            sha256: None,
        }
    }

    /// The file name under which a host keeps this content.
    pub fn staged_file_name(sha256: &str) -> (res: String)
        ensures
            res@ == sha256@ + ".squashfs"@,
    {
        let mut text = String::from_str(sha256);
        text.append(".squashfs");
        text
    }

    /// The key under which the blob store keeps this content.
    pub fn blob_key(sha256: &str) -> (res: String)
        ensures
            res@ == "bundles/sha256/"@ + sha256@,
    {
        let mut text = String::from_str("bundles/sha256/");
        text.append(sha256);
        text
    }
}

/// Different slots have different drive ids.
pub proof fn slot_names_differ(i: nat, j: nat)
    requires
        slot_name(i) == slot_name(j),
    ensures
        i == j,
{
    let n = "dyn_"@.len() as int;
    assert(crate::text::decimal(i) =~= slot_name(i).subrange(n, slot_name(i).len() as int));
    assert(crate::text::decimal(j) =~= slot_name(j).subrange(n, slot_name(j).len() as int));
    crate::text::decimal_is_injective(i, j);
}

/// Content is kept under names of its own: different contents never share a name or a key.
pub proof fn contents_have_own_names(a: Seq<char>, b: Seq<char>)
    ensures
        a + ".squashfs"@ == b + ".squashfs"@ ==> a == b,
        "bundles/sha256/"@ + a == "bundles/sha256/"@ + b ==> a == b,
{
    let t = ".squashfs"@;
    let h = "bundles/sha256/"@;
    if a + t == b + t {
        assert(a =~= (a + t).subrange(0, (a + t).len() - t.len()));
        assert(b =~= (b + t).subrange(0, (b + t).len() - t.len()));
    }
    if h + a == h + b {
        assert(a =~= (h + a).subrange(h.len() as int, (h + a).len() as int));
        assert(b =~= (h + b).subrange(h.len() as int, (h + b).len() as int));
    }
}

/// The content of a drive that a snapshot refers to.
#[derive(Clone, Debug, PartialEq, Eq)]
pub struct AuxBundleRef {
    pub drive_id: String,
    pub sha256: String,
}

/// The contents of the drives of one sandbox.
#[derive(Clone, Debug, PartialEq, Eq)]
pub struct SandboxAuxBundles {
    pub sandbox_id: SandboxId,
    pub bundles: Vec<AuxBundleRef>,
}

/// The long-running process of a session.
#[derive(Clone, Debug)]
pub struct AgentSpec {
    pub argv: Vec<String>,
    /// Variables of this process alone.
    pub env: TextMap,
    /// Variables of every process of the session.
    pub session_env: TextMap,
    /// The generation of the binding, which never is zero.
    pub binding_epoch: u64,
    /// The certificate of the host's egress proxy.
    pub host_ca_pem: Option<String>,
}

/// The variable that carries the sandbox of the attach token.
pub const SANDBOX_ID_ENV: &'static str = "ENGRAM_SANDBOX_ID";

/// The variable that carries the binding of the attach token.
pub const BINDING_EPOCH_ENV: &'static str = "ENGRAM_BINDING_EPOCH";

impl AgentSpec {
    /// The two variables of the attach token.
    pub fn attach_token_env(&self, sandbox_id: SandboxId) -> (res: [(String, String); 2])
        ensures
            res@[0].0@ == "ENGRAM_SANDBOX_ID"@,
            res@[0].1@ == crate::types::ids::uuid_text(sandbox_id.0.bits),
            res@[1].0@ == "ENGRAM_BINDING_EPOCH"@,
            res@[1].1@ == crate::text::decimal(self.binding_epoch as nat),
    {
        let mut epoch = String::new();
        push_decimal(&mut epoch, self.binding_epoch);
        assert(epoch@ =~= crate::text::decimal(self.binding_epoch as nat));
        [
            (String::from_str("ENGRAM_SANDBOX_ID"), sandbox_id.to_string()),
            (String::from_str("ENGRAM_BINDING_EPOCH"), epoch),
        ]
    }
}

/// The processors of a sandbox.
#[derive(Clone, Copy, Debug, PartialEq, Eq, Structural)]
pub struct CpuLimit {
    pub vcpus: u32,
}

/// The memory of a sandbox.
#[derive(Clone, Copy, Debug, PartialEq, Eq, Structural)]
pub struct MemoryLimit {
    pub max_mib: u32,
}

/// The disk of a sandbox.
#[derive(Clone, Copy, Debug, PartialEq, Eq, Structural)]
pub struct DiskLimit {
    pub max_gib: u32,
}

/// The request to execute a command.
#[derive(Clone, Debug)]
pub struct ExecRequest {
    pub command: Vec<String>,
    pub stdin: Option<Vec<u8>>,
    pub env: TextMap,
    pub workdir: Option<String>,
    pub timeout: Option<Duration>,
    /// The caller's ticket: a retry with it attaches to the command that runs.
    pub exec_id: Option<String>,
    pub stdout_offset: Option<u64>,
    pub stderr_offset: Option<u64>,
    /// Wake the session first, if it is parked.
    pub wake: Option<bool>,
}

/// A file to write into a sandbox.
#[derive(Clone, Debug, PartialEq, Eq)]
pub struct WriteFileSpec {
    pub path: String,
    pub content: Vec<u8>,
    pub mode: Option<u32>,
}

/// What became of a file that was to be written.
#[derive(Clone, Debug, PartialEq, Eq)]
pub struct WriteFileResult {
    pub path: String,
    pub ok: bool,
    pub error: Option<String>,
}

/// What a command produces. A result ends with one `Exit` or one `Refused`; output that ends
/// without either was cut off.
#[derive(Clone, Debug, PartialEq, Eq)]
pub enum ExecEvent {
    Stdout(Vec<u8>),
    Stderr(Vec<u8>),
    Exit(Option<i32>),
    Refused(String),
}

impl ExecEvent {
    /// Nothing follows the event.
    pub open spec fn terminal(self) -> bool {
        self is Exit || self is Refused
    }

    /// Whether nothing follows the event.
    pub fn is_terminal(&self) -> (res: bool)
        ensures
            res == self.terminal(),
    {
        matches!(self, ExecEvent::Exit(_) | ExecEvent::Refused(_))
    }
}

/// What a command produced, as a whole.
#[derive(Debug, PartialEq, Eq)]
pub struct ExecHandle {
    pub sandbox_id: SandboxId,
    pub exec_id: String,
    pub stdout: Vec<u8>,
    pub stderr: Vec<u8>,
    pub exit_status: Option<i32>,
}

/// What a command used up.
#[derive(Clone, Copy, Debug, Default, PartialEq, Eq, Structural)]
pub struct ExecRusage {
    pub wall_ms: u64,
    pub peak_rss_kb: Option<u64>,
    pub user_cpu_ms: Option<u64>,
    pub sys_cpu_ms: Option<u64>,
}

} // verus!

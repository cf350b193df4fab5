//! Capture jobs: the making of base snapshots, job by job.
use crate::document::{member, write_json, Encode, Member, Value};
use crate::text::same;
use crate::text_map::TextMap;
use crate::time::Timestamp;
use crate::types::capture_progress::WarmStageRecord;
use crate::types::egress::SessionEgressPolicy;
use crate::types::ids::{CaptureJobId, HostId, SnapshotId, Uuid};
use crate::types::image::{ImageConfig, OciRuntimeDefaults, ResourceHints, WarmConfig};
use crate::types::sandbox::SandboxSpec;
use crate::types::snapshot::SnapshotMetadata;
use sha2::{Digest, Sha256};
use vstd::prelude::*;
use vstd::string::*;

verus! {

/// How far a capture job is.
#[derive(Clone, Copy, Debug, PartialEq, Eq, Structural)]
pub enum CaptureJobStage {
    Assigned,
    Booting,
    Warming,
    Freezing,
    Done,
    Failed,
}

impl CaptureJobStage {
    /// The stable name.
    pub open spec fn name(self) -> Seq<char> {
        match self {
            CaptureJobStage::Assigned => "assigned"@,
            CaptureJobStage::Booting => "booting"@,
            CaptureJobStage::Warming => "warming"@,
            CaptureJobStage::Freezing => "freezing"@,
            CaptureJobStage::Done => "done"@,
            CaptureJobStage::Failed => "failed"@,
        }
    }

    /// The stable name.
    pub fn as_str(&self) -> (res: &'static str)
        ensures
            res@ == self.name(),
    {
        match self {
            CaptureJobStage::Assigned => "assigned",
            CaptureJobStage::Booting => "booting",
            CaptureJobStage::Warming => "warming",
            CaptureJobStage::Freezing => "freezing",
            CaptureJobStage::Done => "done",
            CaptureJobStage::Failed => "failed",
        }
    }

    /// The stage of that name, if there is one.
    pub fn parse(s: &str) -> (res: Option<CaptureJobStage>)
        ensures
            res is Some ==> res->0.name() == s@,
            res is None ==> forall|k: CaptureJobStage| k.name() != s@,
    {
        if same(s, "assigned") {
            Some(CaptureJobStage::Assigned)
        } else if same(s, "booting") {
            Some(CaptureJobStage::Booting)
        } else if same(s, "warming") {
            Some(CaptureJobStage::Warming)
        } else if same(s, "freezing") {
            Some(CaptureJobStage::Freezing)
        } else if same(s, "done") {
            Some(CaptureJobStage::Done)
        } else if same(s, "failed") {
            Some(CaptureJobStage::Failed)
        } else {
            None
        }
    }
}

impl CaptureJobStage {
    /// Whether the job has ended.
    pub fn is_terminal(&self) -> (res: bool)
        ensures
            res == (*self == CaptureJobStage::Done || *self == CaptureJobStage::Failed),
    {
        matches!(self, CaptureJobStage::Done | CaptureJobStage::Failed)
    }

    /// The stable name.
    pub fn to_string(&self) -> (res: String)
        ensures
            res@ == self.name(),
    {
        String::from_str(self.as_str())
    }
}

/// Different stages of a capture job have different names.
pub proof fn capture_job_stage_names_differ(a: CaptureJobStage, b: CaptureJobStage)
    requires
        a.name() == b.name(),
    ensures
        a == b,
{
    reveal_strlit("assigned");
    reveal_strlit("booting");
    reveal_strlit("warming");
    reveal_strlit("freezing");
    reveal_strlit("done");
    reveal_strlit("failed");
    assert("assigned"@.len() == 8);
    assert("booting"@.len() == 7);
    assert("warming"@.len() == 7);
    assert("freezing"@.len() == 8);
    assert("done"@.len() == 4);
    assert("failed"@.len() == 6);
    assert("assigned"@[0] != "freezing"@[0]);
    assert("booting"@[0] != "warming"@[0]);
}

/// What a host tells of a running job.
#[derive(Clone, Debug, Default, PartialEq, Eq)]
pub struct CaptureJobProgress {
    pub detail: Option<String>,
    pub log_tail: Option<String>,
    pub warm_stages: Vec<WarmStageRecord>,
}

/// What a host tells of a job that has ended.
#[derive(Clone, Debug, PartialEq, Eq)]
pub enum CaptureTerminalReport {
    Done { result_bincode: Vec<u8> },
    Failed { error: String, error_stage: String, retryable: bool },
}

/// What a host tells of a job.
#[derive(Clone, Debug)]
pub struct CaptureJobReport {
    pub job_id: CaptureJobId,
    pub epoch: i64,
    pub stage: CaptureJobStage,
    pub progress: Option<CaptureJobProgress>,
    pub fc_snapshot_version: Option<String>,
    pub terminal: Option<CaptureTerminalReport>,
}

/// A job that a host is to do.
#[derive(Clone, Copy, Debug, PartialEq, Eq, Structural)]
pub struct CaptureJobAssignment {
    pub job_id: CaptureJobId,
    pub epoch: i64,
}

/// A job.
#[derive(Clone, Debug)]
pub struct CaptureJobRow {
    pub id: CaptureJobId,
    pub enable_job_id: Uuid,
    pub image_uri: String,
    pub manifest_digest: String,
    pub disk_manifest: String,
    pub image_config: ImageConfig,
    pub oci_defaults: OciRuntimeDefaults,
    pub host_id: Option<HostId>,
    pub mem_budget_mib: i64,
    pub cpu_budget_vcpus: i32,
    pub waiting_since: Option<Timestamp>,
    pub epoch: i64,
    pub stage: CaptureJobStage,
    pub stage_started_at: Timestamp,
    pub stage_progress: Option<CaptureJobProgress>,
    pub last_progress_at: Timestamp,
    pub attempts: u32,
    pub retryable: Option<bool>,
    pub error: Option<String>,
    pub error_stage: Option<String>,
    pub fc_snapshot_version: Option<String>,
    pub result_bincode: Option<Vec<u8>>,
    pub created_at: Timestamp,
    pub updated_at: Timestamp,
}

/// A job to be made.
#[derive(Clone, Debug)]
pub struct NewCaptureJob {
    pub enable_job_id: Uuid,
    pub image_uri: String,
    pub manifest_digest: String,
    pub disk_manifest: String,
    pub image_config: ImageConfig,
    pub oci_defaults: OciRuntimeDefaults,
    pub mem_budget_mib: i64,
    pub cpu_budget_vcpus: i32,
}

/// What a host needs in order to do a job.
#[derive(Clone, Debug)]
pub struct CaptureJobSpec {
    pub spec: SandboxSpec,
    pub warm: Option<WarmConfig>,
    pub resolved_env: TextMap,
    pub capture_egress: Option<SessionEgressPolicy>,
    pub cold_base_plan: ColdBasePlan,
}

/// Whether a job starts from a snapshot that was taken before the warm-up.
#[derive(Clone, Debug)]
pub enum ColdBasePlan {
    NotApplicable,
    Miss { content_key: String, reason: ColdBaseMissReason },
    Hit { content_key: String, snapshot: Box<SnapshotMetadata> },
}

impl Default for ColdBasePlan {
    fn default() -> (res: ColdBasePlan)
        ensures
            res == ColdBasePlan::NotApplicable,
    {
        ColdBasePlan::NotApplicable
    }
}

/// Why a job does not start from such a snapshot.
#[derive(Clone, Copy, Debug, PartialEq, Eq, Structural)]
pub enum ColdBaseMissReason {
    NoCandidate,
    ChunksMissing,
    FcVersionChanged,
}

/// What a job produced.
#[derive(Clone, Debug)]
pub struct CaptureJobResult {
    pub snapshot: SnapshotMetadata,
    pub cold_base: Option<CapturedColdBase>,
}

/// The snapshot that was taken before the warm-up.
#[derive(Clone, Debug)]
pub struct CapturedColdBase {
    pub content_key: String,
    pub snapshot: SnapshotMetadata,
    pub freshly_captured: bool,
    pub miss_reason: Option<ColdBaseMissReason>,
}

/// A snapshot that was taken before the warm-up, as it is kept.
#[derive(Clone, Debug)]
pub struct ColdBaseRow {
    pub content_key: String,
    pub snapshot_id: SnapshotId,
    pub disk_manifest: String,
    pub memory_manifest: String,
    pub fc_snapshot_version: String,
    pub captured_at: Timestamp,
    pub snapshot_bincode: Vec<u8>,
}

/// The SHA-256 digest of bytes.
pub uninterp spec fn sha256(bytes: Seq<u8>) -> Seq<u8>;

/// `sha2::Sha256::digest`: 32 bytes, which depend on `bytes` alone.
#[verifier::external_body]
fn sha256_of(bytes: &[u8]) -> (res: Vec<u8>)
    ensures
        res@ == sha256(bytes@),
        res@.len() == 32,
{
    Sha256::digest(bytes).to_vec()
}

/// Two lower-case hexadecimal digits for each byte, the higher one first.
pub open spec fn hex_text(bytes: Seq<u8>) -> Seq<char> {
    Seq::new(
        2 * bytes.len(),
        |i: int|
            crate::types::ids::hex_char(
                (if i % 2 == 0 {
                    bytes[i / 2] as int / 16
                } else {
                    bytes[i / 2] as int % 16
                }) as nat,
            ),
    )
}

/// `hex::encode`: two lower-case hexadecimal digits for each byte.
#[verifier::external_body]
fn hex_of(bytes: &[u8]) -> (res: String)
    ensures
        res@ == hex_text(bytes@),
{
    hex::encode(bytes)
}

/// The document whose digest is the content key.
pub open spec fn key_tree(
    disk_manifest: Seq<char>,
    resources: ResourceHints,
    fc_snapshot_version: Option<Seq<char>>,
    backend_kind: Seq<char>,
) -> crate::document::Tree {
    crate::document::Tree::Table(
        seq![
            crate::document::named("disk_manifest"@, crate::document::Tree::Text(disk_manifest)),
            crate::document::named("resources"@, ResourceHints::tree(resources)),
            crate::document::named("fc_snapshot_version"@, crate::document::text_tree(fc_snapshot_version)),
            crate::document::named("backend_kind"@, crate::document::Tree::Text(backend_kind)),
        ],
    )
}

/// What is digested of a document: the bytes of its JSON text.
pub open spec fn digested(t: crate::document::Tree) -> Seq<u8> {
    vstd::utf8::encode_utf8(crate::document::json_written(t))
}

/// The hexadecimal digest of a document's JSON text.
pub open spec fn content_key(t: crate::document::Tree) -> Seq<char> {
    hex_text(sha256(digested(t)))
}

/// Two different byte strings have one digest.
pub open spec fn collide(a: Seq<u8>, b: Seq<u8>) -> bool {
    a != b && sha256(a) == sha256(b)
}

/// The names in the document whose digest is the content key are told apart.
proof fn key_tree_is_plain(
    disk_manifest: Seq<char>,
    resources: ResourceHints,
    fc_snapshot_version: Option<Seq<char>>,
    backend_kind: Seq<char>,
)
    ensures
        crate::document::plain(
            key_tree(disk_manifest, resources, fc_snapshot_version, backend_kind),
            100,
        ),
{
    reveal_strlit("disk_manifest");
    reveal_strlit("resources");
    reveal_strlit("fc_snapshot_version");
    reveal_strlit("backend_kind");
    assert("disk_manifest"@.len() == 13);
    assert("resources"@.len() == 9);
    assert("fc_snapshot_version"@.len() == 19);
    assert("backend_kind"@.len() == 12);
    ResourceHints::is_read_back(resources);
    crate::document::plain_within(ResourceHints::tree(resources), 2, 99);
    let km = key_tree(disk_manifest, resources, fc_snapshot_version, backend_kind)->Table_0;
    assert(crate::document::distinct_names(km));
    assert forall|i: int| 0 <= i < km.len() implies crate::document::plain(
        (#[trigger] km[i]).value,
        99,
    ) by {
    }
}

/// The key of what a snapshot is made from: two captures with the same key can share a snapshot.
/// Every component counts: where another key is equal, its components are, or the digest
/// collides.
pub fn cold_base_content_key(
    disk_manifest: &str,
    resources: &ResourceHints,
    fc_snapshot_version: Option<&str>,
    backend_kind: &str,
) -> (res: String)
    ensures
        res@ == content_key(
            key_tree(
                disk_manifest@,
                *resources,
                fc_snapshot_version.deep_view(),
                backend_kind@,
            ),
        ),
        res@.len() == 64,
        forall|
            disk: Seq<char>,
            hints: ResourceHints,
            version: Option<Seq<char>>,
            kind: Seq<char>,
        |
            #![trigger key_tree(disk, hints, version, kind)]
            res@ == content_key(key_tree(disk, hints, version, kind)) ==> {
                ||| disk == disk_manifest@ && hints == *resources && version
                    == fc_snapshot_version.deep_view() && kind == backend_kind@
                ||| collide(
                    digested(key_tree(disk, hints, version, kind)),
                    digested(
                        key_tree(
                            disk_manifest@,
                            *resources,
                            fc_snapshot_version.deep_view(),
                            backend_kind@,
                        ),
                    ),
                )
            },
{
    let version = match fc_snapshot_version {
        Some(v) => Value::Text(v.to_owned()),
        None => Value::Null,
    };
    let mut members: Vec<Member> = Vec::new();
    members.push(member("disk_manifest", Value::Text(disk_manifest.to_owned())));
    members.push(member("resources", resources.encode()));
    members.push(member("fc_snapshot_version", version));
    members.push(member("backend_kind", Value::Text(backend_kind.to_owned())));
    let ghost tree = key_tree(
        disk_manifest@,
        *resources,
        fc_snapshot_version.deep_view(),
        backend_kind@,
    );
    assert(crate::document::table_view(members@) =~= tree->Table_0);
    let doc = Value::Table(members);
    proof {
        key_tree_is_plain(
            disk_manifest@,
            *resources,
            fc_snapshot_version.deep_view(),
            backend_kind@,
        );
    }
    let text = write_json(&doc);
    let digest = sha256_of(text.as_str().as_bytes());
    proof {
        assert forall|
            disk: Seq<char>,
            hints: ResourceHints,
            version: Option<Seq<char>>,
            kind: Seq<char>,
        |
            #![trigger key_tree(disk, hints, version, kind)]
            content_key(key_tree(disk, hints, version, kind)) == content_key(tree) implies (disk
            == disk_manifest@ && hints == *resources && version == fc_snapshot_version.deep_view()
            && kind == backend_kind@) || collide(
            digested(key_tree(disk, hints, version, kind)),
            digested(tree),
        ) by {
            let other = key_tree(disk, hints, version, kind);
            hex_text_is_injective(sha256(digested(other)), sha256(digested(tree)));
            if digested(other) == digested(tree) {
                vstd::utf8::encode_utf8_decode_utf8(crate::document::json_written(other));
                vstd::utf8::encode_utf8_decode_utf8(crate::document::json_written(tree));
                key_tree_is_plain(disk, hints, version, kind);
                assert(other == tree);
                key_tree_tells_components_apart(
                    disk,
                    hints,
                    version,
                    kind,
                    disk_manifest@,
                    *resources,
                    fc_snapshot_version.deep_view(),
                    backend_kind@,
                );
            }
        }
    }
    hex_of(digest.as_slice())
}

/// Every component is part of what is digested: documents for different components differ.
pub proof fn key_tree_tells_components_apart(
    disk_a: Seq<char>,
    resources_a: ResourceHints,
    version_a: Option<Seq<char>>,
    kind_a: Seq<char>,
    disk_b: Seq<char>,
    resources_b: ResourceHints,
    version_b: Option<Seq<char>>,
    kind_b: Seq<char>,
)
    requires
        key_tree(disk_a, resources_a, version_a, kind_a) == key_tree(
            disk_b,
            resources_b,
            version_b,
            kind_b,
        ),
    ensures
        disk_a == disk_b,
        resources_a == resources_b,
        version_a == version_b,
        kind_a == kind_b,
{
    let a = key_tree(disk_a, resources_a, version_a, kind_a)->Table_0;
    let b = key_tree(disk_b, resources_b, version_b, kind_b)->Table_0;
    assert(a[0] == b[0] && a[1] == b[1] && a[2] == b[2] && a[3] == b[3]);
    let ra = ResourceHints::tree(resources_a)->Table_0;
    let rb = ResourceHints::tree(resources_b)->Table_0;
    assert(ra[0] == rb[0] && ra[1] == rb[1] && ra[2] == rb[2] && ra[3] == rb[3]);
}

/// Different digests have different hexadecimal texts.
pub proof fn hex_text_is_injective(a: Seq<u8>, b: Seq<u8>)
    requires
        hex_text(a) == hex_text(b),
    ensures
        a == b,
{
    let s = hex_text(a);
    let t = hex_text(b);
    assert(s.len() == 2 * a.len() && t.len() == 2 * b.len());
    assert forall|i: int| 0 <= i < a.len() implies a[i] == b[i] by {
        assert((2 * i) / 2 == i && (2 * i + 1) / 2 == i);
        assert((2 * i) % 2 == 0 && (2 * i + 1) % 2 == 1);
        assert(s[2 * i] == t[2 * i]);
        assert(s[2 * i + 1] == t[2 * i + 1]);
        let x = (a[i] as int / 16) as nat;
        let y = (b[i] as int / 16) as nat;
        let z = (a[i] as int % 16) as nat;
        let w = (b[i] as int % 16) as nat;
        assert(s[2 * i] == crate::types::ids::hex_char(x));
        assert(t[2 * i] == crate::types::ids::hex_char(y));
        assert(s[2 * i + 1] == crate::types::ids::hex_char(z));
        assert(t[2 * i + 1] == crate::types::ids::hex_char(w));
        hex_char_is_injective(x, y);
        hex_char_is_injective(z, w);
    }
    assert(a =~= b);
}

/// Different hexadecimal digits are written differently.
proof fn hex_char_is_injective(a: nat, b: nat)
    requires
        a < 16,
        b < 16,
        crate::types::ids::hex_char(a) == crate::types::ids::hex_char(b),
    ensures
        a == b,
{
    assert(crate::types::ids::hex_char(a) as int == if a < 10 {
        48 + a
    } else {
        87 + a
    });
    assert(crate::types::ids::hex_char(b) as int == if b < 10 {
        48 + b
    } else {
        87 + b
    });
}

/// The stable names are the ones that are stored and sent: each is that of one value and of no
/// other.
pub proof fn capture_job_stage_names_are_stable(k: CaptureJobStage)
    ensures
        k.name() == "assigned"@ <==> k == CaptureJobStage::Assigned,
        k.name() == "booting"@ <==> k == CaptureJobStage::Booting,
        k.name() == "warming"@ <==> k == CaptureJobStage::Warming,
        k.name() == "freezing"@ <==> k == CaptureJobStage::Freezing,
        k.name() == "done"@ <==> k == CaptureJobStage::Done,
        k.name() == "failed"@ <==> k == CaptureJobStage::Failed,
{
    if k.name() == "assigned"@ {
        capture_job_stage_names_differ(k, CaptureJobStage::Assigned);
    }
    if k.name() == "booting"@ {
        capture_job_stage_names_differ(k, CaptureJobStage::Booting);
    }
    if k.name() == "warming"@ {
        capture_job_stage_names_differ(k, CaptureJobStage::Warming);
    }
    if k.name() == "freezing"@ {
        capture_job_stage_names_differ(k, CaptureJobStage::Freezing);
    }
    if k.name() == "done"@ {
        capture_job_stage_names_differ(k, CaptureJobStage::Done);
    }
    if k.name() == "failed"@ {
        capture_job_stage_names_differ(k, CaptureJobStage::Failed);
    }
}

} // verus!

//! Image registries: credentials, the images that sessions may use, and the jobs that enable
//! them.
use crate::document::Value;
use crate::text::quote_debug;
use crate::time::Timestamp;
use crate::types::capture_progress::{CapturePhase, WarmStageRecord};
use crate::types::ids::{SessionId, SnapshotId, Uuid};
use crate::types::image::{ImageConfig, OciRuntimeDefaults};
use crate::types::manifest::ManifestRef;
use vstd::prelude::*;
use vstd::string::*;

verus! {

/// How the platform logs in to a registry.
#[derive(Clone, Debug)]
pub struct RegistryCredential {
    pub id: Uuid,
    pub registry_host: String,
    pub auth: RegistryAuthSpec,
    pub created_at: Timestamp,
    pub updated_at: Option<Timestamp>,
}

/// A way to log in to a registry.
#[derive(Clone, Debug)]
pub enum RegistryAuthSpec {
    /// A user name and a sealed password.
    Static {
        username: String,
        wrapped_dek: Vec<u8>,
        nonce: Vec<u8>,
        ciphertext: Vec<u8>,
        key_id: String,
    },
    /// The identity of the machine, or of the account that it stands in for.
    GcpWorkloadIdentity { impersonate_sa: Option<String> },
    Anonymous,
}

impl RegistryAuthSpec {
    /// The stable name of the way.
    pub open spec fn kind_name(self) -> Seq<char> {
        match self {
            RegistryAuthSpec::Static { .. } => "static"@,
            RegistryAuthSpec::GcpWorkloadIdentity { .. } => "gcp_workload_identity"@,
            RegistryAuthSpec::Anonymous => "anonymous"@,
        }
    }

    /// Who logs in, where that is known.
    pub open spec fn principal(self) -> Option<Seq<char>> {
        match self {
            RegistryAuthSpec::Static { username, .. } => Some(username@),
            RegistryAuthSpec::GcpWorkloadIdentity { impersonate_sa } => impersonate_sa.deep_view(),
            RegistryAuthSpec::Anonymous => None,
        }
    }

    /// The stable name of the way.
    pub fn kind(&self) -> (res: &'static str)
        ensures
            res@ == self.kind_name(),
    {
        match self {
            RegistryAuthSpec::Static { .. } => "static",
            RegistryAuthSpec::GcpWorkloadIdentity { .. } => "gcp_workload_identity",
            RegistryAuthSpec::Anonymous => "anonymous",
        }
    }
}

/// A user name and a password.
#[derive(Clone)]
pub struct ResolvedRegistryAuth {
    pub username: String,
    pub password: String,
}

impl ResolvedRegistryAuth {
    /// A text for logs, which shows the user name and hides the password.
    pub fn debug_text(&self) -> (res: String)
        ensures
            res@ == "ResolvedRegistryAuth { username: "@ + crate::text::debug_quoted(self.username@)
                + ", password: \"<redacted>\" }"@,
    {
        let mut text = String::from_str("ResolvedRegistryAuth { username: ");
        text.append(quote_debug(self.username.as_str()).as_str());
        text.append(", password: \"<redacted>\" }");
        text
    }
}

/// What is told of a credential: nothing of what is sealed.
#[derive(Clone, Debug)]
pub struct RegistryCredentialSummary {
    pub id: Uuid,
    pub registry_host: String,
    pub auth_kind: String,
    pub auth_principal: Option<String>,
    pub created_at: Timestamp,
    pub updated_at: Option<Timestamp>,
}

impl From<RegistryCredential> for RegistryCredentialSummary {
    fn from(c: RegistryCredential) -> (res: RegistryCredentialSummary)
        ensures
            res.id == c.id,
            res.registry_host == c.registry_host,
            res.auth_kind@ == c.auth.kind_name(),
            res.auth_principal.deep_view() == c.auth.principal(),
            res.created_at == c.created_at,
            res.updated_at == c.updated_at,
    {
        let auth_kind = String::from_str(c.auth.kind());
        let auth_principal = match &c.auth {
            RegistryAuthSpec::Static { username, .. } => Some(username.clone()),
            RegistryAuthSpec::GcpWorkloadIdentity { impersonate_sa } => impersonate_sa.clone(),
            RegistryAuthSpec::Anonymous => None,
        };
        RegistryCredentialSummary {
            id: c.id,
            registry_host: c.registry_host,
            auth_kind,
            auth_principal,
            created_at: c.created_at,
            updated_at: c.updated_at,
        }
    }
}

impl vstd::std_specs::convert::FromSpecImpl<RegistryCredential> for RegistryCredentialSummary {
    open spec fn obeys_from_spec() -> bool {
        false
    }

    open spec fn from_spec(c: RegistryCredential) -> RegistryCredentialSummary {
        arbitrary()
    }
}

/// The token of a session's broker, sealed.
#[derive(Clone, Debug)]
pub struct SessionBrokerToken {
    pub session_id: SessionId,
    pub wrapped_dek: Vec<u8>,
    pub nonce: Vec<u8>,
    pub ciphertext: Vec<u8>,
    pub key_id: String,
}

/// The secrets of a session, sealed.
#[derive(Clone, Debug)]
pub struct SessionSecrets {
    pub session_id: SessionId,
    pub wrapped_dek: Vec<u8>,
    pub nonce: Vec<u8>,
    pub ciphertext: Vec<u8>,
    pub key_id: String,
    pub created_at: Timestamp,
}

/// An image that sessions may use.
#[derive(Clone, Debug)]
pub struct EnabledImage {
    pub id: Uuid,
    pub image_uri: String,
    pub image_config: ImageConfig,
    /// What the image itself declares.
    pub oci_defaults: OciRuntimeDefaults,
    pub manifest_digest: String,
    pub disk_manifest: Option<ManifestRef>,
    pub base_snapshot_id: Option<SnapshotId>,
    pub base_snapshot_disk_manifest: Option<ManifestRef>,
    pub base_snapshot_memory_manifest: Option<ManifestRef>,
    pub last_refreshed_at: Timestamp,
    pub created_at: Timestamp,
    pub updated_at: Option<Timestamp>,
    pub soft_deleted_at: Option<Timestamp>,
}

impl EnabledImage {
    /// The configuration with what the image declares filled in below it.
    pub fn effective_config(&self) -> (res: ImageConfig)
        ensures
            res@ == self.image_config@.merged(
                self.oci_defaults.env@,
                self.oci_defaults.workdir.deep_view(),
            ),
    {
        self.image_config.merged_with(&self.oci_defaults)
    }
}

/// What is told of an image.
#[derive(Clone, Debug)]
pub struct EnabledImageSummary {
    pub id: Uuid,
    pub image_uri: String,
    pub manifest_digest: String,
    pub config: ImageConfig,
    pub last_refreshed_at: Timestamp,
    pub created_at: Timestamp,
}

impl From<EnabledImage> for EnabledImageSummary {
    fn from(row: EnabledImage) -> (res: EnabledImageSummary) {
        EnabledImageSummary {
            id: row.id,
            image_uri: row.image_uri,
            manifest_digest: row.manifest_digest,
            config: row.image_config,
            last_refreshed_at: row.last_refreshed_at,
            created_at: row.created_at,
        }
    }
}

impl vstd::std_specs::convert::FromSpecImpl<EnabledImage> for EnabledImageSummary {
    open spec fn obeys_from_spec() -> bool {
        true
    }

    open spec fn from_spec(row: EnabledImage) -> EnabledImageSummary {
        EnabledImageSummary {
            id: row.id,
            image_uri: row.image_uri,
            manifest_digest: row.manifest_digest,
            config: row.image_config,
            last_refreshed_at: row.last_refreshed_at,
            created_at: row.created_at,
        }
    }
}

/// How far the enabling of an image is.
#[derive(Clone, Copy, Debug, PartialEq, Eq, Structural)]
pub enum EnableJobState {
    Pending,
    Materializing,
    Capturing,
    Prestaging,
    Ready,
    Failed,
}

impl EnableJobState {
    /// The stable name.
    pub open spec fn name(self) -> Seq<char> {
        match self {
            EnableJobState::Pending => "pending"@,
            EnableJobState::Materializing => "materializing"@,
            EnableJobState::Capturing => "capturing"@,
            EnableJobState::Prestaging => "prestaging"@,
            EnableJobState::Ready => "ready"@,
            EnableJobState::Failed => "failed"@,
        }
    }

    /// The stable name.
    pub fn as_str(&self) -> (res: &'static str)
        ensures
            res@ == self.name(),
    {
        match self {
            EnableJobState::Pending => "pending",
            EnableJobState::Materializing => "materializing",
            EnableJobState::Capturing => "capturing",
            EnableJobState::Prestaging => "prestaging",
            EnableJobState::Ready => "ready",
            EnableJobState::Failed => "failed",
        }
    }
}

impl EnableJobState {
    /// Whether the job has ended.
    pub fn is_terminal(&self) -> (res: bool)
        ensures
            res == (*self == EnableJobState::Ready || *self == EnableJobState::Failed),
    {
        matches!(self, EnableJobState::Ready | EnableJobState::Failed)
    }
}

/// Different states of an enable job have different names.
pub proof fn enable_job_state_names_differ(a: EnableJobState, b: EnableJobState)
    requires
        a.name() == b.name(),
    ensures
        a == b,
{
    reveal_strlit("pending");
    reveal_strlit("materializing");
    reveal_strlit("capturing");
    reveal_strlit("prestaging");
    reveal_strlit("ready");
    reveal_strlit("failed");
    assert("pending"@.len() == 7);
    assert("materializing"@.len() == 13);
    assert("capturing"@.len() == 9);
    assert("prestaging"@.len() == 10);
    assert("ready"@.len() == 5);
    assert("failed"@.len() == 6);
}

/// What a host does for the enabling of images.
#[derive(Clone, Copy, Debug, Default, PartialEq, Eq, Structural)]
pub struct LiveEnableWork {
    pub materializes: u32,
    pub captures: u32,
}

/// The enabling of an image.
#[derive(Clone, Debug)]
pub struct EnableJob {
    pub id: Uuid,
    pub image_uri: String,
    pub manifest_digest: Option<String>,
    pub state: EnableJobState,
    pub chunks_total: Option<u32>,
    pub chunks_done: u32,
    pub attempts: u32,
    pub error: Option<String>,
    pub image_config: ImageConfig,
    pub force_recapture: bool,
    pub prestage_hosts: Value,
    pub capture_phase: Option<CapturePhase>,
    pub warm_stage: Option<String>,
    pub warm_stage_started_at: Option<Timestamp>,
    pub warm_stages: Vec<WarmStageRecord>,
    pub output_tail: Option<String>,
    pub created_at: Timestamp,
    pub updated_at: Timestamp,
}

/// Who logs in is told from what is not sealed: the user name, or the account that the machine
/// stands in for; nobody where there is none.
pub proof fn principals_are_not_sealed(
    username: String,
    wrapped_dek: Vec<u8>,
    nonce: Vec<u8>,
    ciphertext: Vec<u8>,
    key_id: String,
    account: Option<String>,
)
    ensures
        (RegistryAuthSpec::Static { username, wrapped_dek, nonce, ciphertext, key_id }).principal()
            == Some(username@),
        account is Some ==> (RegistryAuthSpec::GcpWorkloadIdentity {
            impersonate_sa: account,
        }).principal() == Some(account->0@),
        account is None ==> (RegistryAuthSpec::GcpWorkloadIdentity {
            impersonate_sa: account,
        }).principal() is None,
        RegistryAuthSpec::Anonymous.principal() is None,
{
}

/// The stable names are the ones that are stored and sent: each is that of one value and of no
/// other.
pub proof fn enable_job_state_names_are_stable(k: EnableJobState)
    ensures
        k.name() == "pending"@ <==> k == EnableJobState::Pending,
        k.name() == "materializing"@ <==> k == EnableJobState::Materializing,
        k.name() == "capturing"@ <==> k == EnableJobState::Capturing,
        k.name() == "prestaging"@ <==> k == EnableJobState::Prestaging,
        k.name() == "ready"@ <==> k == EnableJobState::Ready,
        k.name() == "failed"@ <==> k == EnableJobState::Failed,
{
    if k.name() == "pending"@ {
        enable_job_state_names_differ(k, EnableJobState::Pending);
    }
    if k.name() == "materializing"@ {
        enable_job_state_names_differ(k, EnableJobState::Materializing);
    }
    if k.name() == "capturing"@ {
        enable_job_state_names_differ(k, EnableJobState::Capturing);
    }
    if k.name() == "prestaging"@ {
        enable_job_state_names_differ(k, EnableJobState::Prestaging);
    }
    if k.name() == "ready"@ {
        enable_job_state_names_differ(k, EnableJobState::Ready);
    }
    if k.name() == "failed"@ {
        enable_job_state_names_differ(k, EnableJobState::Failed);
    }
}

/// The stable names of the ways to log in are the ones that are stored: each is that of one way.
pub proof fn way_names_are_stable(auth: RegistryAuthSpec)
    ensures
        auth.kind_name() == "static"@ <==> auth is Static,
        auth.kind_name() == "gcp_workload_identity"@ <==> auth is GcpWorkloadIdentity,
        auth.kind_name() == "anonymous"@ <==> auth is Anonymous,
{
    reveal_strlit("static");
    reveal_strlit("gcp_workload_identity");
    reveal_strlit("anonymous");
    assert("static"@.len() == 6);
    assert("gcp_workload_identity"@.len() == 21);
    assert("anonymous"@.len() == 9);
}

} // verus!

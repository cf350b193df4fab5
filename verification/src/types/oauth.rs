//! OAuth credentials and the flows that obtain them. Providers' payloads stay sealed.
use crate::text::{quote_debug, same};
use crate::time::Timestamp;
use crate::types::ids::{SessionId, Uuid};
use vstd::prelude::*;
use vstd::string::*;

verus! {

/// Whose credential it is.
#[derive(Clone, Copy, Debug, PartialEq, Eq, Structural, PartialOrd, Ord)]
pub enum OAuthSubjectKind {
    User,
    Connector,
    Mcp,
}

impl OAuthSubjectKind {
    /// The stable name.
    pub open spec fn name(self) -> Seq<char> {
        match self {
            OAuthSubjectKind::User => "user"@,
            OAuthSubjectKind::Connector => "connector"@,
            OAuthSubjectKind::Mcp => "mcp"@,
        }
    }

    /// The stable name.
    pub fn as_str(&self) -> (res: &'static str)
        ensures
            res@ == self.name(),
    {
        match self {
            OAuthSubjectKind::User => "user",
            OAuthSubjectKind::Connector => "connector",
            OAuthSubjectKind::Mcp => "mcp",
        }
    }
}

impl OAuthSubjectKind {
    /// The kind of that name.
    pub fn parse(value: &str) -> (res: Result<OAuthSubjectKind, String>)
        ensures
            res is Ok ==> res->Ok_0.name() == value@,
            res is Err ==> forall|k: OAuthSubjectKind| k.name() != value@,
            res is Err ==> res->Err_0@ == "unknown OAuth subject kind "@ + crate::text::debug_quoted(value@),
    {
        if same(value, "user") {
            Ok(OAuthSubjectKind::User)
        } else if same(value, "connector") {
            Ok(OAuthSubjectKind::Connector)
        } else if same(value, "mcp") {
            Ok(OAuthSubjectKind::Mcp)
        } else {
            let mut text = String::from_str("unknown OAuth subject kind ");
            text.append(quote_debug(value).as_str());
            Err(text)
        }
    }
}

impl std::str::FromStr for OAuthSubjectKind {
    type Err = String;

    fn from_str(value: &str) -> Result<Self, Self::Err> {
        OAuthSubjectKind::parse(value)
    }
}

/// Different kinds of owners have different names.
pub proof fn oauth_subject_kind_names_differ(a: OAuthSubjectKind, b: OAuthSubjectKind)
    requires
        a.name() == b.name(),
    ensures
        a == b,
{
    reveal_strlit("user");
    reveal_strlit("connector");
    reveal_strlit("mcp");
    assert("user"@.len() == 4);
    assert("connector"@.len() == 9);
    assert("mcp"@.len() == 3);
}

/// What identifies a credential.
#[derive(Clone, Debug, PartialEq, Eq, PartialOrd, Ord)]
pub struct OAuthCredentialKey {
    pub subject_kind: OAuthSubjectKind,
    pub subject_id: String,
    pub provider: String,
}

/// The credential that a session uses.
#[derive(Clone, Debug, PartialEq, Eq)]
pub struct SessionOAuthBinding {
    pub session_id: SessionId,
    pub key: OAuthCredentialKey,
}

/// What may be shown of an account.
#[derive(Clone, Debug, Default, PartialEq, Eq)]
pub struct OAuthAccountMetadata {
    pub account_id: String,
    pub display_name: Option<String>,
    pub plan_type: Option<String>,
    pub workspace_id: Option<String>,
    pub workspace_name: Option<String>,
}

/// A credential, sealed.
#[derive(Clone, Debug, PartialEq, Eq)]
pub struct SealedOAuthCredential {
    pub key: OAuthCredentialKey,
    pub wrapped_dek: Vec<u8>,
    pub nonce: Vec<u8>,
    pub ciphertext: Vec<u8>,
    pub key_id: String,
    pub metadata: OAuthAccountMetadata,
    pub version: i64,
    pub created_at: Timestamp,
    pub updated_at: Timestamp,
    pub revoked_at: Option<Timestamp>,
    pub expires_at: Option<Timestamp>,
    pub broken_at: Option<Timestamp>,
    pub broken_reason: Option<String>,
}

impl SealedOAuthCredential {
    /// How the credential stands at the time `at`: a revocation counts before a failure, and a
    /// failure before the end of its time.
    pub open spec fn standing(self, at: Timestamp) -> OAuthCredentialStatus {
        if self.revoked_at is Some {
            OAuthCredentialStatus::Revoked
        } else if self.broken_at is Some {
            OAuthCredentialStatus::Broken
        } else if self.expires_at is Some && self.expires_at->0.not_after(at) {
            OAuthCredentialStatus::Expired
        } else {
            OAuthCredentialStatus::Connected
        }
    }

    /// How the credential stands at the time `now`.
    pub fn status(&self, now: Timestamp) -> (res: OAuthCredentialStatus)
        ensures
            res == self.standing(now),
    {
        if self.revoked_at.is_some() {
            OAuthCredentialStatus::Revoked
        } else if self.broken_at.is_some() {
            OAuthCredentialStatus::Broken
        } else {
            match &self.expires_at {
                Some(at) => if at.at_or_before(&now) {
                    OAuthCredentialStatus::Expired
                } else {
                    OAuthCredentialStatus::Connected
                },
                None => OAuthCredentialStatus::Connected,
            }
        }
    }
}

/// A credential that is not connected does not become so by the passing of time.
pub proof fn time_does_not_reconnect(c: SealedOAuthCredential, a: Timestamp, b: Timestamp)
    requires
        a.not_after(b),
        c.standing(a) != OAuthCredentialStatus::Connected,
    ensures
        c.standing(b) == c.standing(a),
{
}

/// How a credential stands.
#[derive(Clone, Copy, Debug, PartialEq, Eq, Structural)]
pub enum OAuthCredentialStatus {
    Connected,
    Expired,
    Broken,
    Revoked,
}

impl OAuthCredentialStatus {
    /// The stable name.
    pub open spec fn name(self) -> Seq<char> {
        match self {
            OAuthCredentialStatus::Connected => "connected"@,
            OAuthCredentialStatus::Expired => "expired"@,
            OAuthCredentialStatus::Broken => "broken"@,
            OAuthCredentialStatus::Revoked => "revoked"@,
        }
    }

    /// The stable name.
    pub fn as_str(&self) -> (res: &'static str)
        ensures
            res@ == self.name(),
    {
        match self {
            OAuthCredentialStatus::Connected => "connected",
            OAuthCredentialStatus::Expired => "expired",
            OAuthCredentialStatus::Broken => "broken",
            OAuthCredentialStatus::Revoked => "revoked",
        }
    }
}

/// Different standings of a credential have different names.
pub proof fn oauth_credential_status_names_differ(a: OAuthCredentialStatus, b: OAuthCredentialStatus)
    requires
        a.name() == b.name(),
    ensures
        a == b,
{
    reveal_strlit("connected");
    reveal_strlit("expired");
    reveal_strlit("broken");
    reveal_strlit("revoked");
    assert("connected"@.len() == 9);
    assert("expired"@.len() == 7);
    assert("broken"@.len() == 6);
    assert("revoked"@.len() == 7);
    assert("expired"@[0] != "revoked"@[0]);
}

/// A credential to be kept.
#[derive(Clone, Debug, PartialEq, Eq)]
pub struct NewSealedOAuthCredential {
    pub key: OAuthCredentialKey,
    pub wrapped_dek: Vec<u8>,
    pub nonce: Vec<u8>,
    pub ciphertext: Vec<u8>,
    pub key_id: String,
    pub metadata: OAuthAccountMetadata,
    pub expires_at: Option<Timestamp>,
}

/// How far a flow is.
#[derive(Clone, Copy, Debug, PartialEq, Eq, Structural)]
pub enum OAuthFlowStatus {
    Pending,
    Succeeded,
    Denied,
    Cancelled,
    Expired,
    OwnerLost,
    Failed,
}

impl OAuthFlowStatus {
    /// The stable name.
    pub open spec fn name(self) -> Seq<char> {
        match self {
            OAuthFlowStatus::Pending => "pending"@,
            OAuthFlowStatus::Succeeded => "succeeded"@,
            OAuthFlowStatus::Denied => "denied"@,
            OAuthFlowStatus::Cancelled => "cancelled"@,
            OAuthFlowStatus::Expired => "expired"@,
            OAuthFlowStatus::OwnerLost => "owner_lost"@,
            OAuthFlowStatus::Failed => "failed"@,
        }
    }

    /// The stable name.
    pub fn as_str(&self) -> (res: &'static str)
        ensures
            res@ == self.name(),
    {
        match self {
            OAuthFlowStatus::Pending => "pending",
            OAuthFlowStatus::Succeeded => "succeeded",
            OAuthFlowStatus::Denied => "denied",
            OAuthFlowStatus::Cancelled => "cancelled",
            OAuthFlowStatus::Expired => "expired",
            OAuthFlowStatus::OwnerLost => "owner_lost",
            OAuthFlowStatus::Failed => "failed",
        }
    }
}

impl OAuthFlowStatus {
    /// Whether the flow has ended.
    pub fn is_terminal(self) -> (res: bool)
        ensures
            res == (self != OAuthFlowStatus::Pending),
    {
        self != OAuthFlowStatus::Pending
    }
}

impl OAuthFlowStatus {
    /// The state of that name.
    pub fn parse(value: &str) -> (res: Result<OAuthFlowStatus, String>)
        ensures
            res is Ok ==> res->Ok_0.name() == value@,
            res is Err ==> forall|k: OAuthFlowStatus| k.name() != value@,
            res is Err ==> res->Err_0@ == "unknown OAuth flow status "@ + crate::text::debug_quoted(value@),
    {
        if same(value, "pending") {
            Ok(OAuthFlowStatus::Pending)
        } else if same(value, "succeeded") {
            Ok(OAuthFlowStatus::Succeeded)
        } else if same(value, "denied") {
            Ok(OAuthFlowStatus::Denied)
        } else if same(value, "cancelled") {
            Ok(OAuthFlowStatus::Cancelled)
        } else if same(value, "expired") {
            Ok(OAuthFlowStatus::Expired)
        } else if same(value, "owner_lost") {
            Ok(OAuthFlowStatus::OwnerLost)
        } else if same(value, "failed") {
            Ok(OAuthFlowStatus::Failed)
        } else {
            let mut text = String::from_str("unknown OAuth flow status ");
            text.append(quote_debug(value).as_str());
            Err(text)
        }
    }
}

impl std::str::FromStr for OAuthFlowStatus {
    type Err = String;

    fn from_str(value: &str) -> Result<Self, Self::Err> {
        OAuthFlowStatus::parse(value)
    }
}

/// Different states of a flow have different names.
pub proof fn oauth_flow_status_names_differ(a: OAuthFlowStatus, b: OAuthFlowStatus)
    requires
        a.name() == b.name(),
    ensures
        a == b,
{
    reveal_strlit("pending");
    reveal_strlit("succeeded");
    reveal_strlit("denied");
    reveal_strlit("cancelled");
    reveal_strlit("expired");
    reveal_strlit("owner_lost");
    reveal_strlit("failed");
    assert("pending"@.len() == 7);
    assert("succeeded"@.len() == 9);
    assert("denied"@.len() == 6);
    assert("cancelled"@.len() == 9);
    assert("expired"@.len() == 7);
    assert("owner_lost"@.len() == 10);
    assert("failed"@.len() == 6);
    assert("pending"@[0] != "expired"@[0]);
    assert("succeeded"@[0] != "cancelled"@[0]);
    assert("denied"@[0] != "failed"@[0]);
}

/// The obtaining of a credential.
#[derive(Clone, Debug, PartialEq, Eq)]
pub struct OAuthFlow {
    pub id: Uuid,
    pub key: OAuthCredentialKey,
    pub owner_replica: String,
    pub lease_expires_at: Timestamp,
    pub expires_at: Timestamp,
    pub status: OAuthFlowStatus,
    pub error_code: Option<String>,
    pub created_at: Timestamp,
    pub updated_at: Timestamp,
}

/// A credential is connected exactly if it is neither revoked nor broken and its time, if it has
/// one, is not over; a revocation outweighs a failure, and a failure the end of its time.
pub proof fn standing_is_the_worst(c: SealedOAuthCredential, at: Timestamp)
    requires
        at.nanos < 1_000_000_000,
        c.expires_at is Some ==> c.expires_at->0.nanos < 1_000_000_000,
    ensures
        ({
            let over = c.expires_at is Some && c.expires_at->0.secs * 1_000_000_000
                + c.expires_at->0.nanos <= at.secs * 1_000_000_000 + at.nanos;
            &&& c.standing(at) == OAuthCredentialStatus::Revoked <==> c.revoked_at is Some
            &&& c.standing(at) == OAuthCredentialStatus::Broken <==> c.revoked_at is None
                && c.broken_at is Some
            &&& c.standing(at) == OAuthCredentialStatus::Expired <==> c.revoked_at is None
                && c.broken_at is None && over
            &&& c.standing(at) == OAuthCredentialStatus::Connected <==> c.revoked_at is None
                && c.broken_at is None && !over
        }),
{
}

/// The stable names are the ones that are stored and sent: each is that of one value and of no
/// other.
pub proof fn oauth_subject_kind_names_are_stable(k: OAuthSubjectKind)
    ensures
        k.name() == "user"@ <==> k == OAuthSubjectKind::User,
        k.name() == "connector"@ <==> k == OAuthSubjectKind::Connector,
        k.name() == "mcp"@ <==> k == OAuthSubjectKind::Mcp,
{
    if k.name() == "user"@ {
        oauth_subject_kind_names_differ(k, OAuthSubjectKind::User);
    }
    if k.name() == "connector"@ {
        oauth_subject_kind_names_differ(k, OAuthSubjectKind::Connector);
    }
    if k.name() == "mcp"@ {
        oauth_subject_kind_names_differ(k, OAuthSubjectKind::Mcp);
    }
}

/// The stable names are the ones that are stored and sent: each is that of one value and of no
/// other.
pub proof fn oauth_credential_status_names_are_stable(k: OAuthCredentialStatus)
    ensures
        k.name() == "connected"@ <==> k == OAuthCredentialStatus::Connected,
        k.name() == "expired"@ <==> k == OAuthCredentialStatus::Expired,
        k.name() == "broken"@ <==> k == OAuthCredentialStatus::Broken,
        k.name() == "revoked"@ <==> k == OAuthCredentialStatus::Revoked,
{
    if k.name() == "connected"@ {
        oauth_credential_status_names_differ(k, OAuthCredentialStatus::Connected);
    }
    if k.name() == "expired"@ {
        oauth_credential_status_names_differ(k, OAuthCredentialStatus::Expired);
    }
    if k.name() == "broken"@ {
        oauth_credential_status_names_differ(k, OAuthCredentialStatus::Broken);
    }
    if k.name() == "revoked"@ {
        oauth_credential_status_names_differ(k, OAuthCredentialStatus::Revoked);
    }
}

/// The stable names are the ones that are stored and sent: each is that of one value and of no
/// other.
pub proof fn oauth_flow_status_names_are_stable(k: OAuthFlowStatus)
    ensures
        k.name() == "pending"@ <==> k == OAuthFlowStatus::Pending,
        k.name() == "succeeded"@ <==> k == OAuthFlowStatus::Succeeded,
        k.name() == "denied"@ <==> k == OAuthFlowStatus::Denied,
        k.name() == "cancelled"@ <==> k == OAuthFlowStatus::Cancelled,
        k.name() == "expired"@ <==> k == OAuthFlowStatus::Expired,
        k.name() == "owner_lost"@ <==> k == OAuthFlowStatus::OwnerLost,
        k.name() == "failed"@ <==> k == OAuthFlowStatus::Failed,
{
    if k.name() == "pending"@ {
        oauth_flow_status_names_differ(k, OAuthFlowStatus::Pending);
    }
    if k.name() == "succeeded"@ {
        oauth_flow_status_names_differ(k, OAuthFlowStatus::Succeeded);
    }
    if k.name() == "denied"@ {
        oauth_flow_status_names_differ(k, OAuthFlowStatus::Denied);
    }
    if k.name() == "cancelled"@ {
        oauth_flow_status_names_differ(k, OAuthFlowStatus::Cancelled);
    }
    if k.name() == "expired"@ {
        oauth_flow_status_names_differ(k, OAuthFlowStatus::Expired);
    }
    if k.name() == "owner_lost"@ {
        oauth_flow_status_names_differ(k, OAuthFlowStatus::OwnerLost);
    }
    if k.name() == "failed"@ {
        oauth_flow_status_names_differ(k, OAuthFlowStatus::Failed);
    }
}

} // verus!

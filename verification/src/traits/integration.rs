//! Provider integrations: credentials, and what an administrator configures for them.
use crate::time::Timestamp;
use vstd::prelude::*;

verus! {

/// A credential that soon expires, for exactly what was asked.
#[derive(Clone, Debug)]
pub enum ScopedCredential {
    /// A user name and a password.
    Basic { username: String, password: String, expires_at: Timestamp },
    /// A bearer token.
    Bearer { token: String, expires_at: Timestamp },
    /// Temporary credentials of a cloud account.
    AwsSts {
        access_key_id: String,
        secret_access_key: String,
        session_token: String,
        expires_at: Timestamp,
    },
}

/// What a credential is made for.
#[derive(Clone, Debug)]
pub struct CredentialHint {
    /// The provider's own host, where the caller knows it.
    pub served_host: Option<String>,
    /// The organisation or user.
    pub owner: Option<String>,
}

impl Default for CredentialHint {
    fn default() -> (res: CredentialHint)
        ensures
            res.served_host is None,
            res.owner is None,
    {
        CredentialHint { served_host: None, owner: None }
    }
}

/// How an administrator enters a field.
#[derive(Clone, Copy, Debug, PartialEq, Eq, Structural)]
pub enum MintFieldKind {
    /// Plain configuration.
    Config,
    /// A credential, which is masked and sealed.
    SealedSecret,
}

/// A field that an administrator fills in.
#[derive(Clone, Debug)]
pub struct MintFieldSchema {
    pub name: &'static str,
    pub label: &'static str,
    pub field_kind: MintFieldKind,
    pub required: bool,
}

} // verus!

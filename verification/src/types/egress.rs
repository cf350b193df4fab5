//! What the egress proxy of a host enforces for a session.
use crate::types::ids::{SandboxId, SessionId};
use crate::types::image::SecretMode;
use vstd::prelude::*;

verus! {

/// The rules for one session.
#[derive(Clone, Debug)]
pub struct SessionEgressPolicy {
    pub session_id: SessionId,
    pub sandbox_id: SandboxId,
    /// The address of the guest: the four bytes of an IPv4 address.
    pub guest_ip: [u8; 4],
    pub network_allow_hosts: Vec<String>,
    pub network_allow_host_patterns: Vec<String>,
    pub secrets: Vec<EgressSecretEntry>,
    pub injects: Vec<EgressInjectEntry>,
    pub observes: Vec<EgressObserveEntry>,
    pub secret_mode: SecretMode,
}

/// A placeholder that the proxy replaces.
#[derive(Clone, Debug)]
pub struct EgressSecretEntry {
    pub placeholder: String,
    pub real_value: String,
    pub allow_hosts: Vec<String>,
    pub allow_host_patterns: Vec<String>,
}

/// A header that the proxy adds.
#[derive(Clone, Debug)]
pub struct EgressInjectEntry {
    pub secret: String,
    pub header_name: String,
    pub header_template: String,
    pub allow_hosts: Vec<String>,
    pub allow_host_patterns: Vec<String>,
    pub methods: Vec<String>,
    pub path_prefixes: Vec<String>,
}

/// What the proxy reports.
#[derive(Clone, Debug)]
pub struct EgressObserveEntry {
    pub allow_hosts: Vec<String>,
    pub allow_host_patterns: Vec<String>,
    pub methods: Vec<String>,
    pub path_prefixes: Vec<String>,
    pub provider: String,
    pub asset_kind: String,
    pub surface: String,
    pub success_status_class: Option<String>,
    pub data: Vec<(String, String)>,
    pub fetchable: Option<String>,
}

/// An application in the guest that can be reached from outside.
#[derive(Clone, Debug, PartialEq, Eq)]
pub struct AppEndpoint {
    pub hostname: String,
    pub port: u16,
}

/// The addresses of a guest.
#[derive(Clone, Debug, PartialEq, Eq)]
pub struct GuestEndpoints {
    /// The address under which the egress proxy knows the guest.
    pub egress_identity: [u8; 4],
    /// The address under which the host reaches the guest.
    pub dial_ip: [u8; 4],
    pub netns: Option<String>,
    pub vsock_uds: Option<String>,
}

} // verus!

//! Core of the session platform: shared types, their rules, and the decisions that the
//! coordinator, the host agent and the storage back ends have in common.
//!
//! Nothing here performs I/O. Values that come from the outside (a parsed document, the
//! current time, the answer of a store) enter as plain arguments.
use vstd::prelude::*;

pub mod document;
pub mod error;
pub mod invariants;
pub mod socket;
pub mod text;
pub mod text_map;
pub mod time;
pub mod traits;
pub mod types;
pub mod wire;

pub use error::{
    BackendError, BlobError, GitForgeError, IntegrationError, MetaError, SandboxError, SecretError,
};
pub use types::ids::{
    AgentCommitId, CaptureJobId, HostId, MessageId, SandboxId, SessionId, SnapshotId, ToolCallId,
    UserId,
};

verus! {

} // verus!

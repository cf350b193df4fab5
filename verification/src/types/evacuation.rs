//! The move of a session to another host.
use crate::types::ids::{HostId, SandboxId};
use vstd::prelude::*;

verus! {

/// Where a session went.
#[derive(Clone, Debug, PartialEq, Eq)]
pub struct EvacReceipt {
    pub new_host_id: HostId,
    pub new_sandbox_id: SandboxId,
    pub loss: EvacLoss,
}

/// What a session lost on its way.
#[derive(Clone, Debug, PartialEq, Eq)]
pub enum EvacLoss {
    Lossless,
    Memory { reason: String },
}

impl EvacLoss {
    /// The stable name.
    pub fn as_str(&self) -> (res: &'static str)
        ensures
            res@ == (match self {
                EvacLoss::Lossless => "none"@,
                EvacLoss::Memory { .. } => "memory"@,
            }),
    {
        match self {
            EvacLoss::Lossless => "none",
            EvacLoss::Memory { .. } => "memory",
        }
    }
}

} // verus!

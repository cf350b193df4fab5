//! Secrets of the organisation.
use crate::time::Timestamp;
use vstd::prelude::*;

verus! {

/// A secret, sealed.
#[derive(Clone, Debug)]
pub struct SealedOrgSecret {
    pub name: String,
    pub wrapped_dek: Vec<u8>,
    pub nonce: Vec<u8>,
    pub ciphertext: Vec<u8>,
    pub key_id: String,
}

/// What is told of a secret.
#[derive(Clone, Debug)]
pub struct OrgSecret {
    pub name: String,
    pub key_id: String,
    pub created_at: Timestamp,
    pub updated_at: Timestamp,
}

impl SealedOrgSecret {
    /// What is told of the secret, with the times at which it was made and changed.
    pub fn described(self, created_at: Timestamp, updated_at: Timestamp) -> (res: OrgSecret)
        ensures
            res.name == self.name,
            res.key_id == self.key_id,
            res.created_at == created_at,
            res.updated_at == updated_at,
    {
        OrgSecret { name: self.name, key_id: self.key_id, created_at, updated_at }
    }
}

} // verus!

//! The seams of the platform: what their implementations share.
use vstd::prelude::*;

pub mod clock;
pub mod git;
pub mod integration;
pub mod metadata;
pub mod sandbox;
pub mod secrets;
pub mod storage;

verus! {

} // verus!

//! The documents in which records are stored and sent.
use vstd::prelude::*;

pub mod capture;
pub mod harness;
pub mod host;
pub mod ids;
pub mod registry;
pub mod sandbox;
pub mod session;

verus! {

} // verus!

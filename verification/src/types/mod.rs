//! The domain types.
use vstd::prelude::*;

pub mod capability;
pub mod capture_job;
pub mod capture_progress;
pub mod catalog;
pub mod connector_oauth;
pub mod cow_state;
pub mod egress;
pub mod evacuation;
pub mod event;
pub mod harness;
pub mod host;
pub mod ids;
pub mod image;
pub mod integration;
pub mod manifest;
pub mod materialize;
pub mod oauth;
pub mod org_secret;
pub mod outbox;
pub mod registry;
pub mod runtime_spec;
pub mod sandbox;
pub mod session;
pub mod session_op;
pub mod shell;
pub mod snapshot;

verus! {

} // verus!

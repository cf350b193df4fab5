//! What a session runs, as it is kept across restarts.
use crate::types::egress::AppEndpoint;
use vstd::prelude::*;

verus! {

/// What a session runs.
#[derive(Clone, Debug, PartialEq, Eq)]
pub struct RuntimeSpec {
    /// The version of this record.
    pub v: u32,
    pub selected_skills: Vec<String>,
    pub selected_harness: Option<String>,
    pub workdir: Option<String>,
    pub apps: Vec<AppEndpoint>,
}

impl RuntimeSpec {
    /// A record of the current version.
    pub fn new(
        selected_skills: Vec<String>,
        selected_harness: Option<String>,
        workdir: Option<String>,
        apps: Vec<AppEndpoint>,
    ) -> (res: RuntimeSpec)
        ensures
            res == (RuntimeSpec { v: 1, selected_skills, selected_harness, workdir, apps }),
    {
        RuntimeSpec { v: 1, selected_skills, selected_harness, workdir, apps }
    }
}

} // verus!

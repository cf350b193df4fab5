//! How the capture of a base snapshot goes, and how it fails.
use crate::text::same;
use crate::time::Timestamp;
use crate::types::ids::SandboxId;
use vstd::prelude::*;
use vstd::string::*;

verus! {

/// The part of a capture that runs.
#[derive(Clone, Copy, Debug, PartialEq, Eq, Structural)]
pub enum CapturePhase {
    /// The machine boots.
    Boot,
    /// The warm-up hook runs.
    Warm,
    /// The snapshot is taken.
    Snapshot,
}

impl CapturePhase {
    /// The stable name.
    pub open spec fn name(self) -> Seq<char> {
        match self {
            CapturePhase::Boot => "boot"@,
            CapturePhase::Warm => "warm"@,
            CapturePhase::Snapshot => "snapshot"@,
        }
    }

    /// The stable name.
    pub fn as_str(&self) -> (res: &'static str)
        ensures
            res@ == self.name(),
    {
        match self {
            CapturePhase::Boot => "boot",
            CapturePhase::Warm => "warm",
            CapturePhase::Snapshot => "snapshot",
        }
    }
}

/// Different phases of a capture have different names.
pub proof fn capture_phase_names_differ(a: CapturePhase, b: CapturePhase)
    requires
        a.name() == b.name(),
    ensures
        a == b,
{
    reveal_strlit("boot");
    reveal_strlit("warm");
    reveal_strlit("snapshot");
    assert("boot"@.len() == 4);
    assert("warm"@.len() == 4);
    assert("snapshot"@.len() == 8);
    assert("boot"@[0] != "warm"@[0]);
}

/// A stage that the warm-up hook reported.
#[derive(Clone, Debug, PartialEq, Eq)]
pub struct WarmStageRecord {
    pub name: String,
    pub started_at: Timestamp,
    /// `None` while the stage is open.
    pub ended_at: Option<Timestamp>,
    pub outcome: WarmStageOutcome,
}

/// How a stage ended.
#[derive(Clone, Copy, Debug, PartialEq, Eq, Structural)]
pub enum WarmStageOutcome {
    Running,
    Done,
    Failed,
}

/// How far a capture is.
#[derive(Clone, Debug)]
pub struct CaptureProgress {
    pub phase: CapturePhase,
    pub sandbox_id: Option<SandboxId>,
    pub warm_stage: Option<String>,
    pub detail: Option<String>,
    /// The end of what the hook printed.
    pub output_tail: String,
    pub warm_stages: Vec<WarmStageRecord>,
}

/// Why a capture failed.
#[derive(Clone, Copy, Debug, PartialEq, Eq, Structural)]
pub enum CaptureFailureKind {
    /// The hook ended with a status other than zero.
    WarmExitNonZero,
    /// The hook fell silent.
    WarmStall,
    /// A stage of the hook took too long.
    WarmStageDeadline,
    /// The hook took too long.
    WarmGlobalTimeout,
    /// The hook was killed long before its time was up.
    WarmKilled,
    /// The connection was lost while the hook ran.
    WarmExecTransport,
    /// The snapshot could not be taken.
    SnapshotFailed,
    /// The host cannot do what the capture needs.
    ColdBaseCapabilityMismatch,
}

impl CaptureFailureKind {
    /// The stable name.
    pub open spec fn name(self) -> Seq<char> {
        match self {
            CaptureFailureKind::WarmExitNonZero => "warm_exit_non_zero"@,
            CaptureFailureKind::WarmStall => "warm_stall"@,
            CaptureFailureKind::WarmStageDeadline => "warm_stage_deadline"@,
            CaptureFailureKind::WarmGlobalTimeout => "warm_global_timeout"@,
            CaptureFailureKind::WarmKilled => "warm_killed"@,
            CaptureFailureKind::WarmExecTransport => "warm_exec_transport"@,
            CaptureFailureKind::SnapshotFailed => "snapshot_failed"@,
            CaptureFailureKind::ColdBaseCapabilityMismatch => "cold_base_capability_mismatch"@,
        }
    }

    /// The stable name.
    pub fn as_str(&self) -> (res: &'static str)
        ensures
            res@ == self.name(),
    {
        match self {
            CaptureFailureKind::WarmExitNonZero => "warm_exit_non_zero",
            CaptureFailureKind::WarmStall => "warm_stall",
            CaptureFailureKind::WarmStageDeadline => "warm_stage_deadline",
            CaptureFailureKind::WarmGlobalTimeout => "warm_global_timeout",
            CaptureFailureKind::WarmKilled => "warm_killed",
            CaptureFailureKind::WarmExecTransport => "warm_exec_transport",
            CaptureFailureKind::SnapshotFailed => "snapshot_failed",
            CaptureFailureKind::ColdBaseCapabilityMismatch => "cold_base_capability_mismatch",
        }
    }

    /// The reason of that name, if there is one.
    pub fn parse(s: &str) -> (res: Option<CaptureFailureKind>)
        ensures
            res is Some ==> res->0.name() == s@,
            res is None ==> forall|k: CaptureFailureKind| k.name() != s@,
    {
        if same(s, "warm_exit_non_zero") {
            Some(CaptureFailureKind::WarmExitNonZero)
        } else if same(s, "warm_stall") {
            Some(CaptureFailureKind::WarmStall)
        } else if same(s, "warm_stage_deadline") {
            Some(CaptureFailureKind::WarmStageDeadline)
        } else if same(s, "warm_global_timeout") {
            Some(CaptureFailureKind::WarmGlobalTimeout)
        } else if same(s, "warm_killed") {
            Some(CaptureFailureKind::WarmKilled)
        } else if same(s, "warm_exec_transport") {
            Some(CaptureFailureKind::WarmExecTransport)
        } else if same(s, "snapshot_failed") {
            Some(CaptureFailureKind::SnapshotFailed)
        } else if same(s, "cold_base_capability_mismatch") {
            Some(CaptureFailureKind::ColdBaseCapabilityMismatch)
        } else {
            None
        }
    }
}

impl CaptureFailureKind {
    /// Whether another attempt can help: only after a lost connection.
    pub fn is_retryable(&self) -> (res: bool)
        ensures
            res == (*self == CaptureFailureKind::WarmExecTransport),
    {
        matches!(self, CaptureFailureKind::WarmExecTransport)
    }
}

impl CaptureFailureKind {
    /// The stable name.
    pub fn to_string(&self) -> (res: String)
        ensures
            res@ == self.name(),
    {
        String::from_str(self.as_str())
    }
}

/// Different reasons of a failed capture have different names.
pub proof fn capture_failure_kind_names_differ(a: CaptureFailureKind, b: CaptureFailureKind)
    requires
        a.name() == b.name(),
    ensures
        a == b,
{
    reveal_strlit("warm_exit_non_zero");
    reveal_strlit("warm_stall");
    reveal_strlit("warm_stage_deadline");
    reveal_strlit("warm_global_timeout");
    reveal_strlit("warm_killed");
    reveal_strlit("warm_exec_transport");
    reveal_strlit("snapshot_failed");
    reveal_strlit("cold_base_capability_mismatch");
    assert("warm_exit_non_zero"@.len() == 18);
    assert("warm_stall"@.len() == 10);
    assert("warm_stage_deadline"@.len() == 19);
    assert("warm_global_timeout"@.len() == 19);
    assert("warm_killed"@.len() == 11);
    assert("warm_exec_transport"@.len() == 19);
    assert("snapshot_failed"@.len() == 15);
    assert("cold_base_capability_mismatch"@.len() == 29);
    assert("warm_stage_deadline"@[5] != "warm_global_timeout"@[5]);
    assert("warm_stage_deadline"@[5] != "warm_exec_transport"@[5]);
    assert("warm_global_timeout"@[5] != "warm_exec_transport"@[5]);
}

/// A failed capture.
#[derive(Clone, Debug)]
pub struct CaptureFailure {
    pub kind: CaptureFailureKind,
    /// The stage that was open.
    pub stage: Option<String>,
    /// The end of what the hook printed.
    pub tail: String,
    pub message: String,
}

impl CaptureFailure {
    /// The failure in words.
    pub open spec fn text(self) -> Seq<char> {
        match self.stage {
            Some(stage) => "base-snapshot capture failed ("@ + self.kind.name()
                + ") at [warm] stage `"@ + stage@ + "`: "@ + self.message@,
            None => "base-snapshot capture failed ("@ + self.kind.name() + "): "@ + self.message@,
        }
    }

    /// The failure in words.
    pub fn to_string(&self) -> (res: String)
        ensures
            res@ == self.text(),
    {
        let mut text = String::from_str("base-snapshot capture failed (");
        text.append(self.kind.as_str());
        if let Some(stage) = &self.stage {
            text.append(") at [warm] stage `");
            text.append(stage.as_str());
            text.append("`: ");
        } else {
            text.append("): ");
        }
        text.append(self.message.as_str());
        text
    }
}

/// The text of a failure ends with its message and names its kind and, where there is one, its
/// stage.
pub proof fn failures_are_told_in_full(f: CaptureFailure)
    ensures
        f.message@.is_suffix_of(f.text()),
        exists|a: Seq<char>, b: Seq<char>| #[trigger] (a + f.kind.name() + b) == f.text(),
        f.stage is Some ==> exists|a: Seq<char>, b: Seq<char>| #[trigger]
            (a + (f.stage->0)@ + b) == f.text(),
{
    let m = f.message@;
    let open = "base-snapshot capture failed ("@;
    match f.stage {
        Some(stage) => {
            let at = ") at [warm] stage `"@;
            let tick = "`: "@;
            assert(f.text().subrange(f.text().len() - m.len(), f.text().len() as int) =~= m);
            assert(open + f.kind.name() + (at + stage@ + tick + m) =~= f.text());
            assert((open + f.kind.name() + at) + stage@ + (tick + m) =~= f.text());
        },
        None => {
            let end = "): "@;
            assert(f.text().subrange(f.text().len() - m.len(), f.text().len() as int) =~= m);
            assert(open + f.kind.name() + (end + m) =~= f.text());
        },
    }
}

/// The stable names are the ones that are stored and sent: each is that of one value and of no
/// other.
pub proof fn capture_phase_names_are_stable(k: CapturePhase)
    ensures
        k.name() == "boot"@ <==> k == CapturePhase::Boot,
        k.name() == "warm"@ <==> k == CapturePhase::Warm,
        k.name() == "snapshot"@ <==> k == CapturePhase::Snapshot,
{
    if k.name() == "boot"@ {
        capture_phase_names_differ(k, CapturePhase::Boot);
    }
    if k.name() == "warm"@ {
        capture_phase_names_differ(k, CapturePhase::Warm);
    }
    if k.name() == "snapshot"@ {
        capture_phase_names_differ(k, CapturePhase::Snapshot);
    }
}

/// The stable names are the ones that are stored and sent: each is that of one value and of no
/// other.
pub proof fn capture_failure_kind_names_are_stable(k: CaptureFailureKind)
    ensures
        k.name() == "warm_exit_non_zero"@ <==> k == CaptureFailureKind::WarmExitNonZero,
        k.name() == "warm_stall"@ <==> k == CaptureFailureKind::WarmStall,
        k.name() == "warm_stage_deadline"@ <==> k == CaptureFailureKind::WarmStageDeadline,
        k.name() == "warm_global_timeout"@ <==> k == CaptureFailureKind::WarmGlobalTimeout,
        k.name() == "warm_killed"@ <==> k == CaptureFailureKind::WarmKilled,
        k.name() == "warm_exec_transport"@ <==> k == CaptureFailureKind::WarmExecTransport,
        k.name() == "snapshot_failed"@ <==> k == CaptureFailureKind::SnapshotFailed,
        k.name() == "cold_base_capability_mismatch"@ <==> k
            == CaptureFailureKind::ColdBaseCapabilityMismatch,
{
    if k.name() == "warm_exit_non_zero"@ {
        capture_failure_kind_names_differ(k, CaptureFailureKind::WarmExitNonZero);
    }
    if k.name() == "warm_stall"@ {
        capture_failure_kind_names_differ(k, CaptureFailureKind::WarmStall);
    }
    if k.name() == "warm_stage_deadline"@ {
        capture_failure_kind_names_differ(k, CaptureFailureKind::WarmStageDeadline);
    }
    if k.name() == "warm_global_timeout"@ {
        capture_failure_kind_names_differ(k, CaptureFailureKind::WarmGlobalTimeout);
    }
    if k.name() == "warm_killed"@ {
        capture_failure_kind_names_differ(k, CaptureFailureKind::WarmKilled);
    }
    if k.name() == "warm_exec_transport"@ {
        capture_failure_kind_names_differ(k, CaptureFailureKind::WarmExecTransport);
    }
    if k.name() == "snapshot_failed"@ {
        capture_failure_kind_names_differ(k, CaptureFailureKind::SnapshotFailed);
    }
    if k.name() == "cold_base_capability_mismatch"@ {
        capture_failure_kind_names_differ(k, CaptureFailureKind::ColdBaseCapabilityMismatch);
    }
}

} // verus!

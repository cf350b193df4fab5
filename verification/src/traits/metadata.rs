//! The metadata store: what it records, the guards on its writes, and what is read off its rows.
use crate::error::MetaError;
use crate::time::Timestamp;
use crate::types::capability::Capability;
use crate::types::host::HostRecord;
use crate::types::ids::{HostId, SandboxId, SessionId};
use crate::types::manifest::ManifestRef;
use crate::types::registry::SessionSecrets;
use crate::types::runtime_spec::RuntimeSpec;
use crate::types::session::{SandboxAssignment, Session, SessionSpec, SessionState};
use crate::types::snapshot::SnapshotRecord;
use vstd::prelude::*;

verus! {

/// What became of a request to disable an image.
#[derive(Clone, Debug, PartialEq, Eq)]
pub enum DisableEnabledImageOutcome {
    Disabled,
    AlreadyDisabled,
    /// Sessions still use the image, each with its state.
    Blocked(Vec<(SessionId, String)>),
}

/// All that is written when a session is created.
#[derive(Clone, Debug)]
pub struct SessionCreateWriteSet {
    pub session_id: SessionId,
    pub spec: SessionSpec,
    pub mem_budget_mib: i64,
    pub cpu_budget_vcpus: i32,
    pub sealed_secrets: Option<SessionSecrets>,
    pub capabilities: Vec<Capability>,
    pub integration_policy_json: Option<String>,
    pub runtime_spec: RuntimeSpec,
}

/// Why a session does not fit on a host.
#[derive(Clone, Debug, PartialEq, Eq)]
pub struct PlacementNoFit {
    pub host_id: HostId,
    pub reason: &'static str,
    pub free_mib: i64,
    pub free_vcpus: i64,
}

/// Where a session that is created goes.
#[derive(Clone, Copy, Debug, PartialEq, Eq, Structural)]
pub enum CreateDisposition {
    Placed(HostId),
    Queued,
}

/// A session that may be idle.
#[derive(Clone, Debug, PartialEq, Eq)]
pub struct IdleScanCandidate {
    pub session_id: SessionId,
    pub sandbox_id: Option<SandboxId>,
    pub host_id: Option<HostId>,
    pub last_event_at: Timestamp,
    pub last_event_kind: Option<String>,
    pub shell_pinned_until: Option<Timestamp>,
}

/// How many snapshots there are, and how large they are together.
#[derive(Clone, Copy, Debug, PartialEq, Eq, Structural)]
pub struct SnapshotTotals {
    pub count: u64,
    pub total_bytes: u64,
}

impl Default for SnapshotTotals {
    fn default() -> (res: SnapshotTotals)
        ensures
            res == (SnapshotTotals { count: 0, total_bytes: 0 }),
    {
        SnapshotTotals { count: 0, total_bytes: 0 }
    }
}

/// A chunk that no manifest was seen to use.
#[derive(Clone, Debug, PartialEq, Eq)]
pub struct GcCandidateRow {
    pub content_hash: [u8; 32],
    pub first_seen_at: Timestamp,
    pub last_seen_at: Timestamp,
}

/// What became of an update.
#[derive(Clone, Copy, Debug, PartialEq, Eq, Structural)]
pub enum UpdateOutcome {
    Applied,
    /// The row has moved on.
    DroppedStale,
}

/// A write to the row of a session that may be made only while the row is as expected.
#[derive(Clone, Copy, Debug, PartialEq, Eq, Structural)]
pub enum GuardedWrite {
    AssignSandbox,
    AssignHost,
    Rebind,
}

/// A sandbox that may be none, as it is shown in messages.
pub open spec fn sandbox_shown(id: Option<SandboxId>) -> Seq<char> {
    match id {
        Some(id) => "Some(SandboxId("@ + crate::types::ids::uuid_text(id.0.bits) + "))"@,
        None => "None"@,
    }
}

/// A sandbox that may be none, as it is shown in messages.
fn show_sandbox(id: Option<SandboxId>) -> (res: String)
    ensures
        res@ == sandbox_shown(id),
{
    match id {
        Some(id) => {
            let mut text = String::from_str("Some(SandboxId(");
            text.append(id.to_string().as_str());
            text.append("))");
            text
        },
        None => String::from_str("None"),
    }
}

/// A state of a session, as it is shown in lists.
pub open spec fn state_shown(s: SessionState) -> Seq<char> {
    match s {
        SessionState::Pending => "Pending"@,
        SessionState::Created => "Created"@,
        SessionState::GuestReady => "GuestReady"@,
        SessionState::Active => "Active"@,
        SessionState::Idle => "Idle"@,
        SessionState::HostLost => "HostLost"@,
        SessionState::Evacuating => "Evacuating"@,
        SessionState::Evicting => "Evicting"@,
        SessionState::Failed => "Failed"@,
        SessionState::Completed => "Completed"@,
        SessionState::Dead => "Dead"@,
    }
}

/// A state of a session, as it is shown in lists.
fn show_state(s: SessionState) -> (res: &'static str)
    ensures
        res@ == state_shown(s),
{
    match s {
        SessionState::Pending => "Pending",
        SessionState::Created => "Created",
        SessionState::GuestReady => "GuestReady",
        SessionState::Active => "Active",
        SessionState::Idle => "Idle",
        SessionState::HostLost => "HostLost",
        SessionState::Evacuating => "Evacuating",
        SessionState::Evicting => "Evicting",
        SessionState::Failed => "Failed",
        SessionState::Completed => "Completed",
        SessionState::Dead => "Dead",
    }
}

/// States in a row, with commas between them.
pub open spec fn states_listed(states: Seq<SessionState>) -> Seq<char>
    decreases states.len(),
{
    if states.len() == 0 {
        Seq::empty()
    } else if states.len() == 1 {
        state_shown(states[0])
    } else {
        states_listed(states.drop_last()) + ", "@ + state_shown(states.last())
    }
}

/// States in a row, in brackets.
fn show_states(states: &Vec<SessionState>) -> (res: String)
    ensures
        res@ == "["@ + states_listed(states@) + "]"@,
{
    let mut text = String::from_str("[");
    let mut i: usize = 0;
    assert(text@ =~= "["@ + states_listed(states@.take(0)));
    while i < states.len()
        invariant
            i <= states.len(),
            text@ == "["@ + states_listed(states@.take(i as int)),
        decreases states.len() - i,
    {
        let ghost before = text@;
        if i > 0 {
            text.append(", ");
        }
        text.append(show_state(states[i]));
        i += 1;
        assert(states@.take(i as int).drop_last() =~= states@.take(i - 1));
        assert(text@ =~= "["@ + states_listed(states@.take(i as int)));
    }
    assert(states@.take(i as int) =~= states@);
    text.append("]");
    text
}

/// Whether `s` is in `states`.
fn contains_state(states: &Vec<SessionState>, s: SessionState) -> (res: bool)
    ensures
        res == states@.contains(s),
{
    let mut i: usize = 0;
    while i < states.len()
        invariant
            i <= states.len(),
            forall|j: int| 0 <= j < i ==> states@[j] != s,
        decreases states.len() - i,
    {
        if states[i] == s {
            return true;
        }
        i += 1;
    }
    false
}

impl GuardedWrite {
    /// The stable name.
    pub open spec fn name(self) -> Seq<char> {
        match self {
            GuardedWrite::AssignSandbox => "assign_session_sandbox"@,
            GuardedWrite::AssignHost => "assign_session_host"@,
            GuardedWrite::Rebind => "rebind_session"@,
        }
    }

    /// The stable name.
    pub fn as_str(&self) -> (res: &'static str)
        ensures
            res@ == self.name(),
    {
        match self {
            GuardedWrite::AssignSandbox => "assign_session_sandbox",
            GuardedWrite::AssignHost => "assign_session_host",
            GuardedWrite::Rebind => "rebind_session",
        }
    }

    /// Why the write may not be made: the session has another sandbox than the expected one
    /// (where one is expected), or its state is not among the allowed ones (where any are
    /// named).
    pub open spec fn refusal(
        self,
        sandbox_id: Option<SandboxId>,
        status: SessionState,
        expected_current: Option<Option<SandboxId>>,
        allowed_states: Seq<SessionState>,
    ) -> Option<Seq<char>> {
        if expected_current is Some && expected_current->0 != sandbox_id {
            Some(
                self.name() + " guard: sandbox_id is "@ + sandbox_shown(sandbox_id)
                    + ", expected "@ + sandbox_shown(expected_current->0),
            )
        } else if allowed_states.len() > 0 && !allowed_states.contains(status) {
            Some(
                self.name() + " guard: status is "@ + status.name() + ", not in ["@
                    + states_listed(allowed_states) + "]"@,
            )
        } else {
            None
        }
    }

    /// Lets the write pass, or says why it may not be made.
    pub fn check(
        &self,
        session: &Session,
        expected_current: Option<Option<SandboxId>>,
        allowed_states: &Vec<SessionState>,
    ) -> (res: Result<(), MetaError>)
        ensures
            match self.refusal(
                session.sandbox_id,
                session.status,
                expected_current,
                allowed_states@,
            ) {
                None => res is Ok,
                Some(text) => res is Err && res->Err_0 is Conflict && res->Err_0->Conflict_0@
                    == text,
            },
    {
        if let Some(expected) = expected_current {
            let matches = match (expected, session.sandbox_id) {
                (Some(a), Some(b)) => a == b,
                (None, None) => true,
                _ => false,
            };
            if !matches {
                let mut text = self.as_str().to_owned();
                text.append(" guard: sandbox_id is ");
                text.append(show_sandbox(session.sandbox_id).as_str());
                text.append(", expected ");
                text.append(show_sandbox(expected).as_str());
                return Err(MetaError::Conflict(text));
            }
        }
        if allowed_states.len() > 0 && !contains_state(allowed_states, session.status) {
            let mut text = self.as_str().to_owned();
            text.append(" guard: status is ");
            text.append(session.status.as_str());
            text.append(", not in ");
            text.append(show_states(allowed_states).as_str());
            assert(text@ =~= self.name() + " guard: status is "@ + session.status.name()
                + ", not in ["@ + states_listed(allowed_states@) + "]"@) by {
                reveal_strlit(", not in ");
                reveal_strlit(", not in [");
                reveal_strlit("[");
                assert(", not in ["@ =~= ", not in "@ + "["@);
            }
            return Err(MetaError::Conflict(text));
        }
        Ok(())
    }
}

/// A write passes its guard exactly where the row is as expected: the expected sandbox, where
/// one is expected, and one of the allowed states, where any are named.
pub proof fn guard_passes_as_expected(
    write: GuardedWrite,
    sandbox_id: Option<SandboxId>,
    status: SessionState,
    expected_current: Option<Option<SandboxId>>,
    allowed_states: Seq<SessionState>,
)
    ensures
        write.refusal(sandbox_id, status, expected_current, allowed_states) is None <==> {
            &&& expected_current is Some ==> expected_current->0 == sandbox_id
            &&& allowed_states.len() == 0 || allowed_states.contains(status)
        },
{
}

/// The sandbox that serves an active session on `host_id`.
pub open spec fn serving(s: Session, host_id: HostId) -> Option<SandboxId> {
    if s.status == SessionState::Active && s.host_id == Some(host_id) {
        s.sandbox_id
    } else {
        None
    }
}

/// The sandbox that serves an active session on `host_id`.
fn serving_sandbox(s: &Session, host_id: HostId) -> (res: Option<SandboxId>)
    ensures
        res == serving(*s, host_id),
{
    match (s.status, s.host_id) {
        (SessionState::Active, Some(h)) => if h == host_id {
            s.sandbox_id
        } else {
            None
        },
        _ => None,
    }
}

/// The active sessions on `host_id` that have a sandbox, in their order.
pub open spec fn served(sessions: Seq<Session>, host_id: HostId) -> Seq<Session> {
    sessions.filter(|s: Session| serving(s, host_id) is Some)
}

/// One more session.
proof fn served_grows(sessions: Seq<Session>, host_id: HostId, i: int)
    requires
        0 <= i < sessions.len(),
    ensures
        served(sessions.take(i + 1), host_id) == if serving(sessions[i], host_id) is Some {
            served(sessions.take(i), host_id).push(sessions[i])
        } else {
            served(sessions.take(i), host_id)
        },
{
    reveal(Seq::filter);
    assert(sessions.take(i + 1).drop_last() =~= sessions.take(i));
}

/// The active sessions on a host, each with its sandbox.
pub fn list_active_sandbox_assignments_on_host(sessions: &Vec<Session>, host_id: HostId) -> (res: Vec<
    (SessionId, SandboxId),
>)
    ensures
        res@ == served(sessions@, host_id).map_values(
            |s: Session| (s.id, serving(s, host_id)->0),
        ),
{
    let ghost f = |s: Session| (s.id, serving(s, host_id)->0);
    let mut out: Vec<(SessionId, SandboxId)> = Vec::new();
    let mut i: usize = 0;
    assert(out@ =~= served(sessions@.take(0), host_id).map_values(f)) by {
        reveal(Seq::filter);
    }
    while i < sessions.len()
        invariant
            i <= sessions.len(),
            f == (|s: Session| (s.id, serving(s, host_id)->0)),
            out@ == served(sessions@.take(i as int), host_id).map_values(f),
        decreases sessions.len() - i,
    {
        proof {
            served_grows(sessions@, host_id, i as int);
        }
        if let Some(sandbox_id) = serving_sandbox(&sessions[i], host_id) {
            out.push((sessions[i].id, sandbox_id));
        }
        i += 1;
        assert(out@ =~= served(sessions@.take(i as int), host_id).map_values(f));
    }
    assert(sessions@.take(i as int) =~= sessions@);
    out
}

/// The active sessions on a host, for a store that keeps no budgets: nothing is reserved.
pub fn list_active_assignments_with_budgets_on_host(
    sessions: &Vec<Session>,
    host_id: HostId,
) -> (res: Vec<SandboxAssignment>)
    ensures
        res@ == served(sessions@, host_id).map_values(
            |s: Session|
                SandboxAssignment {
                    session_id: s.id,
                    sandbox_id: serving(s, host_id)->0,
                    mem_budget_mib: 0,
                    cpu_budget_vcpus: 0,
                },
        ),
{
    let ghost f = |s: Session|
        SandboxAssignment {
            session_id: s.id,
            sandbox_id: serving(s, host_id)->0,
            mem_budget_mib: 0,
            cpu_budget_vcpus: 0,
        };
    let mut out: Vec<SandboxAssignment> = Vec::new();
    let mut i: usize = 0;
    assert(out@ =~= served(sessions@.take(0), host_id).map_values(f)) by {
        reveal(Seq::filter);
    }
    while i < sessions.len()
        invariant
            i <= sessions.len(),
            f == (|s: Session|
                SandboxAssignment {
                    session_id: s.id,
                    sandbox_id: serving(s, host_id)->0,
                    mem_budget_mib: 0,
                    cpu_budget_vcpus: 0,
                }),
            out@ == served(sessions@.take(i as int), host_id).map_values(f),
        decreases sessions.len() - i,
    {
        proof {
            served_grows(sessions@, host_id, i as int);
        }
        if let Some(sandbox_id) = serving_sandbox(&sessions[i], host_id) {
            out.push(
                SandboxAssignment {
                    session_id: sessions[i].id,
                    sandbox_id,
                    mem_budget_mib: 0,
                    cpu_budget_vcpus: 0,
                },
            );
        }
        i += 1;
        assert(out@ =~= served(sessions@.take(i as int), host_id).map_values(f));
    }
    assert(sessions@.take(i as int) =~= sessions@);
    out
}

/// The session can be resumed from the snapshot.
pub open spec fn resumes(r: SnapshotRecord, session_id: SessionId) -> bool {
    r.recoverable && r.session_id == Some(session_id)
}

/// Snapshot `i` is the latest from which the session can be resumed; of several that were taken
/// at one time, the last.
pub open spec fn is_latest(snapshots: Seq<SnapshotRecord>, session_id: SessionId, i: int) -> bool {
    &&& 0 <= i < snapshots.len()
    &&& resumes(snapshots[i], session_id)
    &&& forall|j: int|
        0 <= j < snapshots.len() && #[trigger] resumes(snapshots[j], session_id)
            ==> snapshots[j].metadata.created_at.not_after(snapshots[i].metadata.created_at) && (j
            > i ==> snapshots[j].metadata.created_at != snapshots[i].metadata.created_at)
}

/// The disk manifest of the latest snapshot from which the session can be resumed.
pub open spec fn latest_recoverable(
    snapshots: Seq<SnapshotRecord>,
    session_id: SessionId,
) -> Option<ManifestRef> {
    if exists|i: int| is_latest(snapshots, session_id, i) {
        snapshots[choose|i: int| is_latest(snapshots, session_id, i)].metadata.disk_manifest
    } else {
        None
    }
}

/// There is one latest snapshot.
proof fn latest_is_one(snapshots: Seq<SnapshotRecord>, session_id: SessionId, i: int, j: int)
    requires
        is_latest(snapshots, session_id, i),
        is_latest(snapshots, session_id, j),
    ensures
        i == j,
{
    assert(resumes(snapshots[i], session_id));
    assert(resumes(snapshots[j], session_id));
}

/// The disk manifest of the latest snapshot from which the session can be resumed.
fn latest_recoverable_manifest(snapshots: &Vec<SnapshotRecord>, session_id: SessionId) -> (res:
    Option<ManifestRef>)
    ensures
        res == latest_recoverable(snapshots@, session_id),
{
    let mut best: Option<usize> = None;
    let mut i: usize = 0;
    while i < snapshots.len()
        invariant
            i <= snapshots.len(),
            best is None ==> forall|j: int|
                0 <= j < i ==> !#[trigger] resumes(snapshots@[j], session_id),
            best is Some ==> best->0 < i && is_latest(
                snapshots@.take(i as int),
                session_id,
                best->0 as int,
            ),
        decreases snapshots.len() - i,
    {
        let ghost before = snapshots@.take(i as int);
        let ghost after = snapshots@.take(i + 1);
        let r = &snapshots[i];
        let found = match r.session_id {
            Some(id) => r.recoverable && id == session_id,
            None => false,
        };
        let replaces = match best {
            None => found,
            Some(b) => found && snapshots[b].metadata.created_at.at_or_before(
                &r.metadata.created_at,
            ),
        };
        proof {
            assert forall|j: int|
                0 <= j < after.len() && #[trigger] resumes(after[j], session_id) implies (j < i
                && before[j] == after[j] && resumes(before[j], session_id)) || (j == i && found) by {
                if j < i {
                    assert(before[j] == after[j]);
                }
            }
            if best is Some {
                assert(after[best->0 as int] == before[best->0 as int]);
            }
        }
        if replaces {
            best = Some(i);
            assert(after[i as int] == snapshots@[i as int]);
            assert(is_latest(after, session_id, i as int));
        } else if best.is_some() {
            assert(is_latest(after, session_id, best->0 as int));
        }
        i += 1;
    }
    assert(snapshots@.take(i as int) =~= snapshots@);
    match best {
        Some(b) => {
            proof {
                latest_is_one(
                    snapshots@,
                    session_id,
                    b as int,
                    choose|k: int| is_latest(snapshots@, session_id, k),
                );
            }
            snapshots[b].metadata.disk_manifest
        },
        None => None,
    }
}

/// The newer of the manifest that the host published last and that of a snapshot: the one that
/// exists, or the one with the higher version.
pub open spec fn effective(live: Option<ManifestRef>, snapshot: Option<ManifestRef>) -> Option<
    ManifestRef,
> {
    match (live, snapshot) {
        (Some(l), Some(s)) => if s.version > l.version {
            Some(s)
        } else {
            Some(l)
        },
        (Some(l), None) => Some(l),
        (None, s) => s,
    }
}

/// The newer of the manifest that the host published last and that of a snapshot.
fn effective_manifest(live: Option<ManifestRef>, snapshot: Option<ManifestRef>) -> (res: Option<
    ManifestRef,
>)
    ensures
        res == effective(live, snapshot),
{
    match (live, snapshot) {
        (Some(l), Some(s)) => if s.version > l.version {
            Some(s)
        } else {
            Some(l)
        },
        (Some(l), None) => Some(l),
        (None, s) => s,
    }
}

/// The active sessions on a host, each with its sandbox and the disk manifest from which to
/// rebuild its disk: the newer of the one that the host published last and that of the latest
/// snapshot from which the session can be resumed.
pub fn list_active_sandboxes_on_host_with_disk_manifest(
    sessions: &Vec<Session>,
    snapshots: &Vec<SnapshotRecord>,
    host_id: HostId,
) -> (res: Vec<(SessionId, SandboxId, Option<ManifestRef>)>)
    ensures
        res@ == served(sessions@, host_id).map_values(
            |s: Session|
                (
                    s.id,
                    serving(s, host_id)->0,
                    effective(s.live_disk_manifest, latest_recoverable(snapshots@, s.id)),
                ),
        ),
{
    let ghost f = |s: Session|
        (
            s.id,
            serving(s, host_id)->0,
            effective(s.live_disk_manifest, latest_recoverable(snapshots@, s.id)),
        );
    let mut out: Vec<(SessionId, SandboxId, Option<ManifestRef>)> = Vec::new();
    let mut i: usize = 0;
    assert(out@ =~= served(sessions@.take(0), host_id).map_values(f)) by {
        reveal(Seq::filter);
    }
    while i < sessions.len()
        invariant
            i <= sessions.len(),
            f == (|s: Session|
                (
                    s.id,
                    serving(s, host_id)->0,
                    effective(s.live_disk_manifest, latest_recoverable(snapshots@, s.id)),
                )),
            out@ == served(sessions@.take(i as int), host_id).map_values(f),
        decreases sessions.len() - i,
    {
        proof {
            served_grows(sessions@, host_id, i as int);
        }
        if let Some(sandbox_id) = serving_sandbox(&sessions[i], host_id) {
            let latest = latest_recoverable_manifest(snapshots, sessions[i].id);
            let manifest = effective_manifest(sessions[i].live_disk_manifest, latest);
            out.push((sessions[i].id, sandbox_id, manifest));
        }
        i += 1;
        assert(out@ =~= served(sessions@.take(i as int), host_id).map_values(f));
    }
    assert(sessions@.take(i as int) =~= sessions@);
    out
}

/// A session has no disk manifest only where the host published none and the latest snapshot
/// from which it can be resumed, if there is one, has none; and it is never an older one than
/// either of the two.
pub proof fn effective_is_the_newer(live: Option<ManifestRef>, snapshot: Option<ManifestRef>)
    ensures
        effective(live, snapshot) is None <==> live is None && snapshot is None,
        live is Some ==> live->0.version <= effective(live, snapshot)->0.version,
        snapshot is Some ==> snapshot->0.version <= effective(live, snapshot)->0.version,
        effective(live, snapshot) == live || effective(live, snapshot) == snapshot,
{
}

/// Session `s` is bound to a host and to `sandbox_id`.
pub open spec fn bound_to(s: Session, sandbox_id: SandboxId) -> bool {
    s.host_id is Some && s.sandbox_id == Some(sandbox_id)
}

/// The host of a sandbox, and the state of the session that it serves: from the first session
/// that is bound to it.
pub fn host_for_sandbox(sessions: &Vec<Session>, sandbox_id: SandboxId) -> (res: Option<
    (HostId, SessionState),
>)
    ensures
        match res {
            Some((host, status)) => exists|i: int|
                {
                    &&& 0 <= i < sessions@.len()
                    &&& #[trigger] bound_to(sessions@[i], sandbox_id)
                    &&& sessions@[i].host_id == Some(host)
                    &&& sessions@[i].status == status
                    &&& forall|j: int| 0 <= j < i ==> !#[trigger] bound_to(sessions@[j], sandbox_id)
                },
            None => forall|j: int|
                0 <= j < sessions@.len() ==> !#[trigger] bound_to(sessions@[j], sandbox_id),
        },
{
    let mut i: usize = 0;
    while i < sessions.len()
        invariant
            i <= sessions.len(),
            forall|j: int| 0 <= j < i ==> !#[trigger] bound_to(sessions@[j], sandbox_id),
        decreases sessions.len() - i,
    {
        if let (Some(host), Some(sandbox)) = (sessions[i].host_id, sessions[i].sandbox_id) {
            if sandbox == sandbox_id {
                assert(bound_to(sessions@[i as int], sandbox_id));
                return Some((host, sessions[i].status));
            }
        }
        i += 1;
    }
    None
}

/// The version of the snapshots that a host takes: as the first record of that host says.
pub fn fc_snapshot_version_for_host(hosts: &Vec<HostRecord>, host_id: HostId) -> (res: Option<
    String,
>)
    ensures
        (exists|i: int|
            {
                &&& 0 <= i < hosts@.len()
                &&& (#[trigger] hosts@[i]).id == host_id
                &&& forall|j: int| 0 <= j < i ==> (#[trigger] hosts@[j]).id != host_id
                &&& res.deep_view() == hosts@[i].capabilities.fc_snapshot_version.deep_view()
            }) || (res is None && forall|j: int|
            0 <= j < hosts@.len() ==> (#[trigger] hosts@[j]).id != host_id),
{
    let mut i: usize = 0;
    while i < hosts.len()
        invariant
            i <= hosts.len(),
            forall|j: int| 0 <= j < i ==> (#[trigger] hosts@[j]).id != host_id,
        decreases hosts.len() - i,
    {
        if hosts[i].id == host_id {
            return hosts[i].capabilities.fc_snapshot_version.clone();
        }
        i += 1;
    }
    None
}

/// The host for a queued session, for a store that keeps no budgets: the first candidate.
pub fn first_candidate(candidates: &Vec<HostId>) -> (res: Option<HostId>)
    ensures
        res == (if candidates@.len() > 0 {
            Some(candidates@[0])
        } else {
            None
        }),
{
    if candidates.len() > 0 {
        Some(candidates[0])
    } else {
        None
    }
}

/// A session is served on a host exactly if it is active, bound to that host, and has a sandbox;
/// that sandbox serves it.
pub proof fn served_sessions_are_active_there(s: Session, host_id: HostId, sandbox: SandboxId)
    ensures
        serving(s, host_id) == Some(sandbox) <==> {
            &&& s.status == SessionState::Active
            &&& s.host_id == Some(host_id)
            &&& s.sandbox_id == Some(sandbox)
        },
{
}

/// A list of sessions lists exactly those that are served on the host, each as often as it occurs
/// and in order: the lists of two rows of sessions make up the list of both.
pub proof fn served_lists_add_up(a: Seq<Session>, b: Seq<Session>, s: Session, host_id: HostId)
    ensures
        served(a + b, host_id) == served(a, host_id) + served(b, host_id),
        served(seq![s], host_id) == (if s.status == SessionState::Active && s.host_id == Some(
            host_id,
        ) && s.sandbox_id is Some {
            seq![s]
        } else {
            Seq::empty()
        }),
    decreases b.len(),
{
    reveal(Seq::filter);
    assert(seq![s].drop_last() =~= Seq::<Session>::empty());
    reveal_with_fuel(Seq::filter, 2);
    if serving(s, host_id) is Some {
        assert(served(seq![s], host_id) =~= seq![s]);
    }
    if b.len() == 0 {
        assert(a + b =~= a);
        assert(served(a, host_id) + served(b, host_id) =~= served(a, host_id));
    } else {
        served_lists_add_up(a, b.drop_last(), s, host_id);
        assert((a + b).drop_last() =~= a + b.drop_last());
        assert((a + b).last() == b.last());
        assert(served(a + b, host_id) =~= served(a, host_id) + served(b, host_id));
    }
}

/// The latest snapshot from which a session can be resumed gives its disk: one that is its own and
/// recoverable, and no such one was taken later. One that is not recoverable, or is another
/// session's, does not count.
pub proof fn the_latest_recoverable_snapshot_counts(
    snapshots: Seq<SnapshotRecord>,
    session_id: SessionId,
    i: int,
)
    requires
        0 <= i < snapshots.len(),
        snapshots[i].recoverable,
        snapshots[i].session_id == Some(session_id),
        forall|j: int| #![trigger snapshots[j]]
            0 <= j < snapshots.len() && j != i && snapshots[j].recoverable
                && snapshots[j].session_id == Some(session_id) ==> {
                ||| snapshots[j].metadata.created_at.secs < snapshots[i].metadata.created_at.secs
                ||| snapshots[j].metadata.created_at.secs == snapshots[i].metadata.created_at.secs
                    && snapshots[j].metadata.created_at.nanos
                    < snapshots[i].metadata.created_at.nanos
            },
    ensures
        latest_recoverable(snapshots, session_id) == snapshots[i].metadata.disk_manifest,
{
    assert forall|j: int|
        0 <= j < snapshots.len() && #[trigger] resumes(
            snapshots[j],
            session_id,
        ) implies snapshots[j].metadata.created_at.not_after(snapshots[i].metadata.created_at) && (j
        > i ==> snapshots[j].metadata.created_at != snapshots[i].metadata.created_at) by {
        if j != i {
            assert(snapshots[j].recoverable);
        }
    }
    assert(is_latest(snapshots, session_id, i));
    latest_is_one(
        snapshots,
        session_id,
        i,
        choose|k: int| is_latest(snapshots, session_id, k),
    );
}

/// Without a recoverable snapshot of its own a session gets no disk from a snapshot.
pub proof fn no_recoverable_snapshot_no_disk(snapshots: Seq<SnapshotRecord>, session_id: SessionId)
    requires
        forall|j: int|
            0 <= j < snapshots.len() ==> !(#[trigger] snapshots[j]).recoverable
                || snapshots[j].session_id != Some(session_id),
    ensures
        latest_recoverable(snapshots, session_id) is None,
{
    if exists|i: int| is_latest(snapshots, session_id, i) {
        let i = choose|i: int| is_latest(snapshots, session_id, i);
        assert(!snapshots[i].recoverable || snapshots[i].session_id != Some(session_id));
    }
}

/// Of two manifests of one version the one that the host published counts; else the higher.
pub proof fn the_higher_version_counts(live: ManifestRef, snapshot: ManifestRef)
    ensures
        snapshot.version > live.version ==> effective(Some(live), Some(snapshot)) == Some(snapshot),
        snapshot.version <= live.version ==> effective(Some(live), Some(snapshot)) == Some(live),
        effective(Some(live), None) == Some(live),
        effective(None, Some(snapshot)) == Some(snapshot),
        effective(None, None) is None,
{
}

/// A session is bound to a sandbox exactly if it has that sandbox and a host.
pub proof fn bound_sessions_have_host_and_sandbox(s: Session, sandbox_id: SandboxId, host: HostId)
    ensures
        s.host_id == Some(host) && s.sandbox_id == Some(sandbox_id) ==> bound_to(s, sandbox_id),
        s.host_id is None || s.sandbox_id is None ==> !bound_to(s, sandbox_id),
        s.sandbox_id is Some && s.sandbox_id->0 != sandbox_id ==> !bound_to(s, sandbox_id),
{
}

/// A refusal begins with the name of the write; it ends with what was expected.
pub proof fn refusals_name_the_write(
    write: GuardedWrite,
    sandbox_id: Option<SandboxId>,
    status: SessionState,
    expected: Option<SandboxId>,
    allowed_states: Seq<SessionState>,
)
    ensures
        (write == GuardedWrite::AssignSandbox) <==> write.name() == "assign_session_sandbox"@,
        (write == GuardedWrite::AssignHost) <==> write.name() == "assign_session_host"@,
        (write == GuardedWrite::Rebind) <==> write.name() == "rebind_session"@,
        expected != sandbox_id ==> ({
            let text = write.refusal(sandbox_id, status, Some(expected), allowed_states);
            &&& text is Some
            &&& write.name().is_prefix_of(text->0)
            &&& sandbox_shown(expected).is_suffix_of(text->0)
        }),
        allowed_states.len() > 0 && !allowed_states.contains(status) ==> ({
            let text = write.refusal(sandbox_id, status, None, allowed_states);
            &&& text is Some
            &&& write.name().is_prefix_of(text->0)
            &&& (states_listed(allowed_states) + "]"@).is_suffix_of(text->0)
        }),
{
    reveal_strlit("assign_session_sandbox");
    reveal_strlit("assign_session_host");
    reveal_strlit("rebind_session");
    assert("assign_session_sandbox"@.len() == 22);
    assert("assign_session_host"@.len() == 19);
    assert("rebind_session"@.len() == 14);
    let n = write.name();
    if expected != sandbox_id {
        let text = write.refusal(sandbox_id, status, Some(expected), allowed_states)->0;
        let end = sandbox_shown(expected);
        assert(text.subrange(0, n.len() as int) =~= n);
        assert(text.subrange(text.len() - end.len(), text.len() as int) =~= end);
    }
    if allowed_states.len() > 0 && !allowed_states.contains(status) {
        let text = write.refusal(sandbox_id, status, None, allowed_states)->0;
        let end = states_listed(allowed_states) + "]"@;
        assert(text.subrange(0, n.len() as int) =~= n);
        assert(text.subrange(text.len() - end.len(), text.len() as int) =~= end);
    }
}

/// States are listed in order with commas between them, and a sandbox is shown by its identifier.
pub proof fn states_and_sandboxes_are_shown(
    states: Seq<SessionState>,
    s: SessionState,
    id: SandboxId,
)
    ensures
        states_listed(seq![s]) == state_shown(s),
        states.len() > 0 ==> states_listed(states.push(s)) == states_listed(states) + ", "@
            + state_shown(s),
        sandbox_shown(None) == "None"@,
        sandbox_shown(Some(id)) == "Some(SandboxId("@ + crate::types::ids::uuid_text(id.0.bits)
            + "))"@,
        s is HostLost ==> state_shown(s) == "HostLost"@,
        s is GuestReady ==> state_shown(s) == "GuestReady"@,
        s is Pending ==> state_shown(s) == "Pending"@,
        s is Created ==> state_shown(s) == "Created"@,
        s is Active ==> state_shown(s) == "Active"@,
        s is Idle ==> state_shown(s) == "Idle"@,
        s is Evacuating ==> state_shown(s) == "Evacuating"@,
        s is Evicting ==> state_shown(s) == "Evicting"@,
        s is Failed ==> state_shown(s) == "Failed"@,
        s is Completed ==> state_shown(s) == "Completed"@,
        s is Dead ==> state_shown(s) == "Dead"@,
{
    assert(states.push(s).drop_last() =~= states);
}

} // verus!

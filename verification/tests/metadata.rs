use engram_core::error::MetaError;
use engram_core::time::Timestamp;
use engram_core::traits::metadata::{
    first_candidate, host_for_sandbox, list_active_assignments_with_budgets_on_host,
    list_active_sandbox_assignments_on_host, list_active_sandboxes_on_host_with_disk_manifest,
    GuardedWrite, SnapshotTotals,
};
use engram_core::types::ids::{HostId, SandboxId, SessionId, SnapshotId, Uuid};
use engram_core::types::manifest::ManifestRef;
use engram_core::types::session::{Session, SessionMode, SessionState};
use engram_core::types::snapshot::{SnapshotMetadata, SnapshotRecord};

fn host(n: u128) -> HostId {
    HostId(Uuid::from_u128(n))
}

fn sandbox(n: u128) -> SandboxId {
    SandboxId(Uuid::from_u128(n))
}

fn session(
    n: u128,
    status: SessionState,
    host_id: Option<HostId>,
    sandbox_id: Option<SandboxId>,
) -> Session {
    Session {
        id: SessionId(Uuid::from_u128(n)),
        user_id: None,
        status,
        host_id,
        sandbox_id,
        image: "r/i:t".into(),
        mode: SessionMode::Agent,
        created_at: Timestamp { secs: 1, nanos: 0 },
        last_active_at: Timestamp { secs: 1, nanos: 0 },
        live_disk_manifest: Some(ManifestRef {
            manifest_id: Uuid::from_u128(n),
            version: 1,
        }),
    }
}

fn sessions() -> Vec<Session> {
    vec![
        session(1, SessionState::Active, Some(host(1)), Some(sandbox(11))),
        session(2, SessionState::Idle, Some(host(1)), Some(sandbox(12))),
        session(3, SessionState::Active, Some(host(2)), Some(sandbox(13))),
        session(4, SessionState::Active, Some(host(1)), None),
        session(5, SessionState::Active, None, Some(sandbox(15))),
        session(6, SessionState::Active, Some(host(1)), Some(sandbox(16))),
    ]
}

#[test]
fn active_sandboxes_of_a_host_are_listed() {
    let all = sessions();
    let pairs = list_active_sandbox_assignments_on_host(&all, host(1));
    assert_eq!(
        pairs,
        vec![(all[0].id, sandbox(11)), (all[5].id, sandbox(16))]
    );
    let budgets = list_active_assignments_with_budgets_on_host(&all, host(2));
    assert_eq!(budgets.len(), 1);
    assert_eq!(budgets[0].session_id, all[2].id);
    assert_eq!((budgets[0].mem_budget_mib, budgets[0].cpu_budget_vcpus), (0, 0));
    let disks = list_active_sandboxes_on_host_with_disk_manifest(&all, &vec![], host(1));
    assert_eq!(disks[1], (all[5].id, sandbox(16), all[5].live_disk_manifest));
    assert!(list_active_sandbox_assignments_on_host(&all, host(3)).is_empty());
}

fn manifest(n: u128, version: u64) -> Option<ManifestRef> {
    Some(ManifestRef { manifest_id: Uuid::from_u128(n), version })
}

fn snapshot(of: u128, at: i64, recoverable: bool, disk: Option<ManifestRef>) -> SnapshotRecord {
    SnapshotRecord {
        session_id: Some(SessionId(Uuid::from_u128(of))),
        metadata: SnapshotMetadata {
            id: SnapshotId(Uuid::from_u128(at as u128)),
            sandbox_id: sandbox(1),
            disk_manifest: disk,
            memory_manifest: None,
            aux_bundles: vec![],
            created_at: Timestamp { secs: at, nanos: 0 },
        },
        recoverable,
    }
}

fn disk_of(live: Option<ManifestRef>, snapshots: Vec<SnapshotRecord>) -> Option<ManifestRef> {
    let row = Session {
        live_disk_manifest: live,
        ..session(1, SessionState::Active, Some(host(1)), Some(sandbox(11)))
    };
    let all = list_active_sandboxes_on_host_with_disk_manifest(&vec![row], &snapshots, host(1));
    assert_eq!((all.len(), all[0].1), (1, sandbox(11)));
    all[0].2
}

#[test]
fn the_newer_disk_manifest_is_listed() {
    let snap = |v| snapshot(1, 10, true, manifest(2, v));
    assert_eq!(disk_of(None, vec![]), None);
    assert_eq!(disk_of(None, vec![snap(3)]), manifest(2, 3));
    assert_eq!(disk_of(manifest(1, 2), vec![]), manifest(1, 2));
    assert_eq!(disk_of(manifest(1, 2), vec![snap(3)]), manifest(2, 3));
    assert_eq!(disk_of(manifest(1, 3), vec![snap(3)]), manifest(1, 3));
    assert_eq!(disk_of(manifest(1, 4), vec![snap(3)]), manifest(1, 4));
}

#[test]
fn only_the_latest_recoverable_snapshot_of_the_session_counts() {
    let none = disk_of(
        None,
        vec![
            snapshot(1, 10, false, manifest(2, 9)),
            snapshot(2, 10, true, manifest(3, 9)),
        ],
    );
    assert_eq!(none, None);
    let latest = disk_of(
        manifest(1, 1),
        vec![
            snapshot(1, 10, true, manifest(2, 9)),
            snapshot(1, 20, true, manifest(3, 5)),
            snapshot(1, 15, true, manifest(4, 8)),
            snapshot(1, 30, false, manifest(5, 10)),
        ],
    );
    assert_eq!(latest, manifest(3, 5));
    let bare = disk_of(
        manifest(1, 1),
        vec![
            snapshot(1, 10, true, manifest(2, 9)),
            snapshot(1, 20, true, None),
        ],
    );
    assert_eq!(bare, manifest(1, 1));
}

#[test]
fn host_of_a_sandbox_is_found() {
    let all = sessions();
    assert_eq!(
        host_for_sandbox(&all, sandbox(12)),
        Some((host(1), SessionState::Idle))
    );
    assert_eq!(host_for_sandbox(&all, sandbox(15)), None);
    assert_eq!(host_for_sandbox(&all, sandbox(99)), None);
}

#[test]
fn guards_let_expected_rows_pass() {
    let s = session(1, SessionState::Active, Some(host(1)), Some(sandbox(11)));
    let write = GuardedWrite::AssignSandbox;
    assert!(write.check(&s, None, &vec![]).is_ok());
    assert!(write
        .check(&s, Some(Some(sandbox(11))), &vec![SessionState::Active])
        .is_ok());
    let idle = session(1, SessionState::Idle, None, None);
    assert!(write.check(&idle, Some(None), &vec![]).is_ok());
}

fn conflict(r: Result<(), MetaError>) -> String {
    match r {
        Err(MetaError::Conflict(m)) => m,
        other => panic!("expected a conflict, got {other:?}"),
    }
}

#[test]
fn guards_say_what_is_not_as_expected() {
    let s = session(1, SessionState::HostLost, Some(host(1)), Some(sandbox(1)));
    assert_eq!(
        conflict(GuardedWrite::AssignSandbox.check(&s, Some(None), &vec![])),
        "assign_session_sandbox guard: sandbox_id is \
         Some(SandboxId(00000000-0000-0000-0000-000000000001)), expected None"
    );
    assert_eq!(
        conflict(GuardedWrite::Rebind.check(&s, Some(Some(sandbox(2))), &vec![])),
        "rebind_session guard: sandbox_id is \
         Some(SandboxId(00000000-0000-0000-0000-000000000001)), expected \
         Some(SandboxId(00000000-0000-0000-0000-000000000002))"
    );
    assert_eq!(
        conflict(GuardedWrite::AssignHost.check(
            &s,
            None,
            &vec![SessionState::Active, SessionState::GuestReady]
        )),
        "assign_session_host guard: status is host_lost, not in [Active, GuestReady]"
    );
    assert_eq!(
        conflict(GuardedWrite::AssignHost.check(&s, None, &vec![SessionState::Idle])),
        "assign_session_host guard: status is host_lost, not in [Idle]"
    );
}

#[test]
fn first_candidate_is_taken() {
    assert_eq!(first_candidate(&vec![host(3), host(1)]), Some(host(3)));
    assert_eq!(first_candidate(&vec![]), None);
    assert_eq!(SnapshotTotals::default().count, 0);
}

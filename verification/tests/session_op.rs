use engram_core::document::{Member, Value};
use engram_core::time::{Duration, Timestamp};
use engram_core::types::ids::{SessionId, Uuid};
use engram_core::types::session_op::{
    EnqueueOutcome, InMemoryOpLog, OpKind, OpState, SessionOp,
};

fn session(n: u128) -> SessionId {
    SessionId(Uuid::from_u128(n))
}

fn at(secs: i64) -> Timestamp {
    Timestamp { secs, nanos: 0 }
}

fn empty() -> Value {
    Value::Table(vec![])
}

fn claimed(outcome: EnqueueOutcome) -> SessionOp {
    match outcome {
        EnqueueOutcome::Claimed(op) => op,
        other => panic!("expected a claim, got {other:?}"),
    }
}

fn queued(outcome: EnqueueOutcome) -> SessionOp {
    match outcome {
        EnqueueOutcome::Queued(op) => op,
        other => panic!("expected a queued row, got {other:?}"),
    }
}

#[test]
fn verbs_and_states_are_read_back() {
    for k in [
        OpKind::CreateBoot,
        OpKind::Resume,
        OpKind::Evict,
        OpKind::Deliver,
        OpKind::Destroy,
        OpKind::CheckpointFinalize,
        OpKind::Teleport,
    ] {
        assert_eq!(OpKind::parse(k.as_str()), Some(k));
    }
    assert_eq!(OpKind::parse("create"), None);
    for s in [
        OpState::Queued,
        OpState::Running,
        OpState::Done,
        OpState::Failed,
        OpState::Cancelled,
    ] {
        assert_eq!(OpState::parse(s.as_str()), Some(s));
    }
    assert_eq!(OpState::parse("lost"), None);
}

#[test]
fn one_row_runs_and_the_next_waits() {
    let mut log = InMemoryOpLog::default();
    let s = session(1);
    let first = claimed(log.enqueue_and_claim(s, OpKind::Resume, empty(), None, "pod-a"));
    assert_eq!((first.id, first.state, first.epoch, first.attempts), (1, OpState::Running, Some(1), 1));
    assert_eq!(first.claimed_by.as_deref(), Some("pod-a"));
    let second = queued(log.enqueue_and_claim(s, OpKind::Evict, empty(), None, "pod-a"));
    assert_eq!((second.id, second.state, second.epoch), (2, OpState::Queued, None));
    assert!(log.claim_head(s, "pod-b").is_none());
    assert!(log.finish(first.id, 1, OpState::Done, None));
    let next = log.claim_head(s, "pod-b").unwrap();
    assert_eq!((next.id, next.epoch), (2, Some(2)));
    assert_eq!(log.current_epoch(s), 2);
    assert_eq!(log.running_for(s).unwrap().id, 2);
    assert_eq!(log.all().len(), 2);
}

#[test]
fn sessions_do_not_wait_for_each_other() {
    let mut log = InMemoryOpLog::default();
    claimed(log.enqueue_and_claim(session(1), OpKind::Resume, empty(), None, "p"));
    claimed(log.enqueue_and_claim(session(2), OpKind::Resume, empty(), None, "p"));
}

#[test]
fn a_key_in_use_is_a_duplicate() {
    let mut log = InMemoryOpLog::default();
    let s = session(1);
    let op = claimed(log.enqueue_and_claim(s, OpKind::Deliver, empty(), Some("k"), "p"));
    assert!(matches!(
        log.enqueue_and_claim(s, OpKind::Deliver, empty(), Some("k"), "p"),
        EnqueueOutcome::Duplicate
    ));
    queued(log.enqueue_and_claim(s, OpKind::Evict, empty(), Some("k"), "p"));
    assert!(log.finish(op.id, op.epoch.unwrap(), OpState::Failed, Some("lost")));
    assert_eq!(log.get(op.id).unwrap().error.as_deref(), Some("lost"));
    queued(log.enqueue_and_claim(s, OpKind::Deliver, empty(), Some("k"), "p"));
}

#[test]
fn a_stale_epoch_is_refused() {
    let mut log = InMemoryOpLog::default();
    let s = session(1);
    let op = claimed(log.enqueue_and_claim(s, OpKind::Resume, empty(), None, "p"));
    assert!(log.heartbeat(op.id, 1));
    assert!(!log.heartbeat(op.id, 0));
    assert!(log.record_step(op.id, 1, "restore"));
    assert!(!log.record_step(op.id, 2, "other"));
    assert_eq!(log.get(op.id).unwrap().step.as_deref(), Some("restore"));
    assert!(!log.finish(op.id, 2, OpState::Done, None));
    assert_eq!(log.get(op.id).unwrap().state, OpState::Running);
}

#[test]
fn exclusive_enqueue_takes_a_free_session_only() {
    let mut log = InMemoryOpLog::default();
    let s = session(1);
    let op = log
        .enqueue_and_claim_exclusive(s, OpKind::Teleport, empty(), "p")
        .unwrap();
    assert!(log.enqueue_and_claim_exclusive(s, OpKind::Evict, empty(), "p").is_none());
    assert_eq!(log.all().len(), 1);
    assert!(log.finish(op.id, 1, OpState::Done, None));
    assert!(log.enqueue_and_claim_exclusive(s, OpKind::Evict, empty(), "p").is_some());
}

#[test]
fn a_requeued_row_sleeps_until_its_time_or_a_wake() {
    let mut log = InMemoryOpLog::default();
    let s = session(1);
    let op = claimed(log.enqueue_and_claim_at(s, OpKind::Resume, empty(), None, "p", at(100)));
    assert!(log.requeue_with_backoff_at(op.id, 1, Duration::from_secs(30), "busy", at(100)));
    let row = log.get(op.id).unwrap();
    assert_eq!(row.state, OpState::Queued);
    assert_eq!(row.not_before, Some(at(130)));
    assert_eq!(row.error.as_deref(), Some("busy"));
    assert_eq!(row.epoch, None);
    assert!(log.due_sessions_at(at(129)).is_empty());
    assert_eq!(log.due_sessions_at(at(130)), vec![s]);
    assert!(log.claim_head_at(s, "p", at(129)).is_none());
    assert_eq!(log.wake_queued_kind_at(s, OpKind::Evict, at(110)), 0);
    assert_eq!(log.wake_queued_kind_at(s, OpKind::Resume, at(110)), 1);
    let again = log.claim_head_at(s, "p", at(110)).unwrap();
    assert_eq!((again.epoch, again.attempts), (Some(2), 2));
    assert!(!log.finish_at(op.id, 1, OpState::Done, None, at(111)));
    assert!(log.finish_at(op.id, 2, OpState::Done, None, at(111)));
    assert_eq!(log.get(op.id).unwrap().finished_at, Some(at(111)));
}

#[test]
fn queued_rows_can_be_cancelled() {
    let mut log = InMemoryOpLog::default();
    let s = session(1);
    let running = claimed(log.enqueue_and_claim(s, OpKind::Resume, empty(), None, "p"));
    let a = queued(log.enqueue_and_claim(s, OpKind::Evict, empty(), None, "p"));
    let b = queued(log.enqueue_and_claim(s, OpKind::Deliver, empty(), None, "p"));
    assert!(log.pending_exists(s, OpKind::Evict));
    assert!(log.cancel_queued(s, OpKind::Evict));
    assert!(!log.cancel_queued(s, OpKind::Evict));
    assert!(!log.pending_exists(s, OpKind::Evict));
    assert_eq!(log.get(a.id).unwrap().state, OpState::Cancelled);
    assert!(log.cancel_by_id(b.id));
    assert!(!log.cancel_by_id(running.id));
    assert!(log.get(99).is_none());
}

#[test]
fn a_running_row_can_be_asked_to_stop() {
    let mut log = InMemoryOpLog::default();
    let s = session(1);
    let payload = Value::Table(vec![Member {
        key: "snapshot".into(),
        value: Value::Text("x".into()),
    }]);
    let op = claimed(log.enqueue_and_claim(s, OpKind::CreateBoot, payload, None, "p"));
    assert!(!log.cancel_requested(op.id));
    assert!(!log.request_cancel_running(s, OpKind::Resume));
    assert!(log.request_cancel_running(s, OpKind::CreateBoot));
    assert!(log.cancel_requested(op.id));
    let payload = log.get(op.id).unwrap().payload;
    assert_eq!(payload.get("snapshot"), Some(&Value::Text("x".into())));
}

#[test]
fn rows_can_be_set_up_for_tests() {
    let mut log = InMemoryOpLog::default();
    let s = session(1);
    let op = log.seed_running(s, OpKind::Evict);
    assert_eq!(log.running_for(s).unwrap().id, op.id);
    log.force_attempts_and_step(op.id, 5, Some("upload"));
    let row = log.get(op.id).unwrap();
    assert_eq!((row.attempts, row.step.as_deref()), (5, Some("upload")));
}

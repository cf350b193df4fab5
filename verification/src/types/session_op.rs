//! The per-session log of lifecycle operations.
//!
//! Every lifecycle verb of a session is a row of the log. At most one row per session runs at a
//! time; queued rows are claimed in the order of their ids. Claiming a row raises the session's
//! epoch and stamps it on the row: a writer that still holds an older epoch is refused.
use crate::document::{Member, Tree, Value};
use crate::text::same;
use crate::time::{now, to_low_64_bits, Duration, Timestamp};
use crate::types::ids::SessionId;
use std::collections::HashMap;
use vstd::prelude::*;

verus! {

broadcast use vstd::std_specs::hash::group_hash_axioms;

/// The lifecycle verb that a row stands for.
#[derive(Clone, Copy, Debug, PartialEq, Eq, Structural, Hash)]
pub enum OpKind {
    /// Boot a placed or queued session.
    CreateBoot,
    /// Bring an idle or parked session back to active.
    Resume,
    /// The idle-eviction pipeline.
    Evict,
    /// Forward the head row of the outbox.
    Deliver,
    /// Tear the session down.
    Destroy,
    /// A manual snapshot.
    CheckpointFinalize,
    /// A live migration to another host.
    Teleport,
}

impl OpKind {
    /// The stable name.
    pub open spec fn name(self) -> Seq<char> {
        match self {
            OpKind::CreateBoot => "create_boot"@,
            OpKind::Resume => "resume"@,
            OpKind::Evict => "evict"@,
            OpKind::Deliver => "deliver"@,
            OpKind::Destroy => "destroy"@,
            OpKind::CheckpointFinalize => "checkpoint_finalize"@,
            OpKind::Teleport => "teleport"@,
        }
    }

    /// The stable name.
    pub fn as_str(&self) -> (res: &'static str)
        ensures
            res@ == self.name(),
    {
        match self {
            OpKind::CreateBoot => "create_boot",
            OpKind::Resume => "resume",
            OpKind::Evict => "evict",
            OpKind::Deliver => "deliver",
            OpKind::Destroy => "destroy",
            OpKind::CheckpointFinalize => "checkpoint_finalize",
            OpKind::Teleport => "teleport",
        }
    }

    /// The verb of that name, if there is one.
    pub fn parse(s: &str) -> (res: Option<OpKind>)
        ensures
            res is Some ==> res->0.name() == s@,
            res is None ==> forall|k: OpKind| k.name() != s@,
    {
        if same(s, "create_boot") {
            Some(OpKind::CreateBoot)
        } else if same(s, "resume") {
            Some(OpKind::Resume)
        } else if same(s, "evict") {
            Some(OpKind::Evict)
        } else if same(s, "deliver") {
            Some(OpKind::Deliver)
        } else if same(s, "destroy") {
            Some(OpKind::Destroy)
        } else if same(s, "checkpoint_finalize") {
            Some(OpKind::CheckpointFinalize)
        } else if same(s, "teleport") {
            Some(OpKind::Teleport)
        } else {
            None
        }
    }
}

/// Different verbs have different names.
pub proof fn op_kind_names_differ(a: OpKind, b: OpKind)
    requires
        a.name() == b.name(),
    ensures
        a == b,
{
    reveal_strlit("create_boot");
    reveal_strlit("resume");
    reveal_strlit("evict");
    reveal_strlit("deliver");
    reveal_strlit("destroy");
    reveal_strlit("checkpoint_finalize");
    reveal_strlit("teleport");
    assert("create_boot"@.len() == 11);
    assert("resume"@.len() == 6);
    assert("evict"@.len() == 5);
    assert("deliver"@.len() == 7);
    assert("destroy"@.len() == 7);
    assert("checkpoint_finalize"@.len() == 19);
    assert("teleport"@.len() == 8);
    assert("deliver"@[2] != "destroy"@[2]);
}

/// Where a row stands: `Queued` to `Running` to `Done` or `Failed`, `Queued` to `Cancelled`,
/// and back from `Running` to `Queued` after a failure that can be retried.
#[derive(Clone, Copy, Debug, PartialEq, Eq, Structural)]
pub enum OpState {
    Queued,
    Running,
    Done,
    Failed,
    Cancelled,
}

impl OpState {
    /// The stable name.
    pub open spec fn name(self) -> Seq<char> {
        match self {
            OpState::Queued => "queued"@,
            OpState::Running => "running"@,
            OpState::Done => "done"@,
            OpState::Failed => "failed"@,
            OpState::Cancelled => "cancelled"@,
        }
    }

    /// The stable name.
    pub fn as_str(&self) -> (res: &'static str)
        ensures
            res@ == self.name(),
    {
        match self {
            OpState::Queued => "queued",
            OpState::Running => "running",
            OpState::Done => "done",
            OpState::Failed => "failed",
            OpState::Cancelled => "cancelled",
        }
    }

    /// The state of that name, if there is one.
    pub fn parse(s: &str) -> (res: Option<OpState>)
        ensures
            res is Some ==> res->0.name() == s@,
            res is None ==> forall|k: OpState| k.name() != s@,
    {
        if same(s, "queued") {
            Some(OpState::Queued)
        } else if same(s, "running") {
            Some(OpState::Running)
        } else if same(s, "done") {
            Some(OpState::Done)
        } else if same(s, "failed") {
            Some(OpState::Failed)
        } else if same(s, "cancelled") {
            Some(OpState::Cancelled)
        } else {
            None
        }
    }
}

/// Different states of a row have different names.
pub proof fn op_state_names_differ(a: OpState, b: OpState)
    requires
        a.name() == b.name(),
    ensures
        a == b,
{
    reveal_strlit("queued");
    reveal_strlit("running");
    reveal_strlit("done");
    reveal_strlit("failed");
    reveal_strlit("cancelled");
    assert("queued"@.len() == 6);
    assert("running"@.len() == 7);
    assert("done"@.len() == 4);
    assert("failed"@.len() == 6);
    assert("cancelled"@.len() == 9);
    assert("queued"@[0] != "failed"@[0]);
}

impl OpState {
    /// Queued or running: the row still takes part.
    pub open spec fn active(self) -> bool {
        self == OpState::Queued || self == OpState::Running
    }

    /// Whether the row still takes part.
    fn is_active(&self) -> (res: bool)
        ensures
            res == self.active(),
    {
        matches!(self, OpState::Queued | OpState::Running)
    }
}

/// The characters of an optional text.
pub open spec fn text_of(s: Option<String>) -> Option<Seq<char>> {
    match s {
        Some(t) => Some(t@),
        None => None,
    }
}

/// A row of the log.
#[derive(Debug)]
pub struct SessionOp {
    pub id: i64,
    pub session_id: SessionId,
    pub kind: OpKind,
    pub payload: Value,
    pub state: OpState,
    /// The last step that was recorded: where to go on after an interruption.
    pub step: Option<String>,
    /// The session's epoch at the claim; `None` while the row waits for its first claim.
    pub epoch: Option<i64>,
    pub attempts: i32,
    /// The row is not claimed before this time.
    pub not_before: Option<Timestamp>,
    pub idempotency_key: Option<String>,
    pub claimed_by: Option<String>,
    pub error: Option<String>,
    pub created_at: Timestamp,
    pub finished_at: Option<Timestamp>,
}

/// What a [`SessionOp`] stands for.
#[verifier::ext_equal]
pub ghost struct OpRow {
    pub id: i64,
    pub session_id: SessionId,
    pub kind: OpKind,
    pub payload: Tree,
    pub state: OpState,
    pub step: Option<Seq<char>>,
    pub epoch: Option<i64>,
    pub attempts: i32,
    pub not_before: Option<Timestamp>,
    pub idempotency_key: Option<Seq<char>>,
    pub claimed_by: Option<Seq<char>>,
    pub error: Option<Seq<char>>,
    pub created_at: Timestamp,
    pub finished_at: Option<Timestamp>,
}

impl View for SessionOp {
    type V = OpRow;

    open spec fn view(&self) -> OpRow {
        OpRow {
            id: self.id,
            session_id: self.session_id,
            kind: self.kind,
            payload: self.payload@,
            state: self.state,
            step: text_of(self.step),
            epoch: self.epoch,
            attempts: self.attempts,
            not_before: self.not_before,
            idempotency_key: text_of(self.idempotency_key),
            claimed_by: text_of(self.claimed_by),
            error: text_of(self.error),
            created_at: self.created_at,
            finished_at: self.finished_at,
        }
    }
}

impl Clone for SessionOp {
    fn clone(&self) -> (res: SessionOp)
        ensures
            res@ == self@,
    {
        SessionOp {
            id: self.id,
            session_id: self.session_id,
            kind: self.kind,
            payload: self.payload.clone(),
            state: self.state,
            step: self.step.clone(),
            epoch: self.epoch,
            attempts: self.attempts,
            not_before: self.not_before,
            idempotency_key: self.idempotency_key.clone(),
            claimed_by: self.claimed_by.clone(),
            error: self.error.clone(),
            created_at: self.created_at,
            finished_at: self.finished_at,
        }
    }
}

impl OpRow {
    /// The row is queued for `session` and its time has come.
    pub open spec fn due(self, session: SessionId, at: Timestamp) -> bool {
        &&& self.session_id == session
        &&& self.state == OpState::Queued
        &&& self.not_before is Some ==> self.not_before->0.not_after(at)
    }

    /// The row runs under `epoch`.
    pub open spec fn owned(self, op_id: i64, epoch: i64) -> bool {
        self.id == op_id && self.epoch == Some(epoch) && self.state == OpState::Running
    }

    /// The row, queued, is of the verb `kind` for `session`.
    pub open spec fn waits(self, session: SessionId, kind: OpKind) -> bool {
        self.session_id == session && self.kind == kind && self.state == OpState::Queued
    }

    /// The row after a claim by `by` under `epoch`.
    pub open spec fn claimed(self, by: Seq<char>, epoch: i64) -> OpRow {
        OpRow {
            state: OpState::Running,
            epoch: Some(epoch),
            attempts: (self.attempts + 1) as i32,
            claimed_by: Some(by),
            ..self
        }
    }

    /// The row after its owner recorded `step`.
    pub open spec fn stepped(self, op_id: i64, epoch: i64, step: Seq<char>) -> OpRow {
        if self.owned(op_id, epoch) {
            OpRow { step: Some(step), ..self }
        } else {
            self
        }
    }

    /// The row after its owner gave it up as `state`.
    pub open spec fn finished(
        self,
        op_id: i64,
        epoch: i64,
        state: OpState,
        error: Option<Seq<char>>,
        at: Timestamp,
    ) -> OpRow {
        if self.owned(op_id, epoch) {
            OpRow { state, error, finished_at: Some(at), ..self }
        } else {
            self
        }
    }

    /// The row after its owner put it back into the queue until `until`.
    pub open spec fn requeued(
        self,
        op_id: i64,
        epoch: i64,
        until: Timestamp,
        error: Seq<char>,
    ) -> OpRow {
        if self.owned(op_id, epoch) {
            OpRow {
                state: OpState::Queued,
                not_before: Some(until),
                error: Some(error),
                epoch: None,
                claimed_by: None,
                ..self
            }
        } else {
            self
        }
    }

    /// The row waits for `session` and `kind` and is not due yet.
    pub open spec fn sleeps(self, session: SessionId, kind: OpKind, at: Timestamp) -> bool {
        self.waits(session, kind) && self.not_before is Some && !self.not_before->0.not_after(at)
    }

    /// The row, made due at once if it sleeps.
    pub open spec fn woken(self, session: SessionId, kind: OpKind, at: Timestamp) -> OpRow {
        if self.sleeps(session, kind, at) {
            OpRow { not_before: Some(at), ..self }
        } else {
            self
        }
    }

    /// The row runs the verb `kind` for `session`.
    pub open spec fn runs(self, session: SessionId, kind: OpKind) -> bool {
        self.session_id == session && self.kind == kind && self.state == OpState::Running
    }

    /// The row with the mark that asks the running verb to stop.
    pub open spec fn asked_to_stop(self, session: SessionId, kind: OpKind) -> OpRow {
        if self.runs(session, kind) {
            OpRow { payload: self.payload.with_member("_cancel"@, Tree::Bool(true)), ..self }
        } else {
            self
        }
    }

    /// The row after it was cancelled.
    pub open spec fn cancelled(self, at: Timestamp) -> OpRow {
        OpRow { state: OpState::Cancelled, finished_at: Some(at), ..self }
    }

    /// A fresh row.
    pub open spec fn fresh(
        id: i64,
        session_id: SessionId,
        kind: OpKind,
        payload: Tree,
        idempotency_key: Option<Seq<char>>,
        created_at: Timestamp,
    ) -> OpRow {
        OpRow {
            id,
            session_id,
            kind,
            payload,
            state: OpState::Queued,
            step: None,
            epoch: None,
            attempts: 0,
            not_before: None,
            idempotency_key,
            claimed_by: None,
            error: None,
            created_at,
            finished_at: None,
        }
    }
}

/// What an [`InMemoryOpLog`] stands for: the rows in the order of their ids, and the epoch of
/// every session that had a claim.
#[verifier::ext_equal]
pub ghost struct OpLog {
    pub next_id: i64,
    pub rows: Seq<OpRow>,
    pub epochs: Map<u128, i64>,
}

impl OpLog {
    /// The session's epoch; zero before its first claim.
    pub open spec fn epoch_of(self, session: SessionId) -> i64 {
        if self.epochs.contains_key(session.0.bits) {
            self.epochs[session.0.bits]
        } else {
            0
        }
    }

    /// Ids grow from row to row; at most one row per session runs, under the session's current
    /// epoch; no epoch is ahead of its session, and no two rows of a session share one.
    pub open spec fn wf(self) -> bool {
        &&& 0 <= self.next_id
        &&& forall|i: int|
            0 <= i < self.rows.len() ==> 1 <= (#[trigger] self.rows[i]).id <= self.next_id
        &&& forall|i: int, j: int|
            0 <= i < j < self.rows.len() ==> (#[trigger] self.rows[i]).id < (
            #[trigger] self.rows[j]).id
        &&& forall|i: int, j: int|
            0 <= i < self.rows.len() && 0 <= j < self.rows.len() && (
            #[trigger] self.rows[i]).session_id == (#[trigger] self.rows[j]).session_id
                && self.rows[i].state == OpState::Running && self.rows[j].state == OpState::Running
                ==> i == j
        &&& forall|i: int|
            0 <= i < self.rows.len() && (#[trigger] self.rows[i]).state == OpState::Running
                ==> self.rows[i].epoch == Some(self.epoch_of(self.rows[i].session_id))
        &&& forall|i: int|
            0 <= i < self.rows.len() && (#[trigger] self.rows[i]).epoch is Some ==> 1
                <= self.rows[i].epoch->0 <= self.epoch_of(self.rows[i].session_id)
        &&& forall|i: int, j: int|
            0 <= i < self.rows.len() && 0 <= j < self.rows.len() && (
            #[trigger] self.rows[i]).session_id == (#[trigger] self.rows[j]).session_id
                && self.rows[i].epoch is Some && self.rows[i].epoch == self.rows[j].epoch ==> i == j
        &&& forall|k: u128| #[trigger] self.epochs.contains_key(k) ==> 1 <= self.epochs[k]
    }

    /// A row runs for the session.
    pub open spec fn running(self, session: SessionId) -> bool {
        exists|i: int|
            0 <= i < self.rows.len() && (#[trigger] self.rows[i]).session_id == session
                && self.rows[i].state == OpState::Running
    }

    /// No row of the session is queued or runs.
    pub open spec fn lane_free(self, session: SessionId) -> bool {
        forall|i: int|
            0 <= i < self.rows.len() && (#[trigger] self.rows[i]).session_id == session
                ==> !self.rows[i].state.active()
    }

    /// An active row of the session has this verb and this key.
    pub open spec fn key_in_use(self, session: SessionId, kind: OpKind, key: Seq<char>) -> bool {
        exists|i: int|
            0 <= i < self.rows.len() && (#[trigger] self.rows[i]).session_id == session
                && self.rows[i].kind == kind && self.rows[i].idempotency_key == Some(key)
                && self.rows[i].state.active()
    }

    /// Row `i` is the due row of the session with the smallest id.
    pub open spec fn is_head(self, session: SessionId, at: Timestamp, i: int) -> bool {
        &&& 0 <= i < self.rows.len()
        &&& self.rows[i].due(session, at)
        &&& forall|j: int|
            0 <= j < self.rows.len() && (#[trigger] self.rows[j]).due(session, at)
                ==> self.rows[i].id <= self.rows[j].id
    }

    /// A row of the session is due.
    pub open spec fn has_due(self, session: SessionId, at: Timestamp) -> bool {
        exists|i: int| 0 <= i < self.rows.len() && (#[trigger] self.rows[i]).due(session, at)
    }

    /// Every row changed by `f`.
    pub open spec fn each(self, f: spec_fn(OpRow) -> OpRow) -> OpLog {
        OpLog { rows: self.rows.map_values(f), ..self }
    }

    /// Some row meets `p`.
    pub open spec fn any(self, p: spec_fn(OpRow) -> bool) -> bool {
        exists|i: int| 0 <= i < self.rows.len() && p(#[trigger] self.rows[i])
    }

    /// The log with one more row, queued.
    pub open spec fn with_queued(self, row: OpRow) -> OpLog {
        OpLog { next_id: row.id, rows: self.rows.push(row), ..self }
    }

    /// The log with one more row, claimed at once by `by`.
    pub open spec fn with_claimed(self, row: OpRow, by: Seq<char>) -> OpLog {
        let epoch = (self.epoch_of(row.session_id) + 1) as i64;
        OpLog {
            next_id: row.id,
            rows: self.rows.push(row.claimed(by, epoch)),
            epochs: self.epochs.insert(row.session_id.0.bits, epoch),
        }
    }

    /// The log after row `i` was claimed by `by`.
    pub open spec fn claim(self, i: int, by: Seq<char>) -> OpLog {
        let session = self.rows[i].session_id;
        let epoch = (self.epoch_of(session) + 1) as i64;
        OpLog {
            next_id: self.next_id,
            rows: self.rows.update(i, self.rows[i].claimed(by, epoch)),
            epochs: self.epochs.insert(session.0.bits, epoch),
        }
    }
}

/// The outcome of an enqueue.
#[derive(Clone, Debug)]
pub enum EnqueueOutcome {
    /// Inserted and claimed at once: nothing else was active for the session.
    Claimed(SessionOp),
    /// Inserted behind an active row.
    Queued(SessionOp),
    /// An active row with the same session, verb and key exists; nothing was inserted.
    Duplicate,
}

/// What an [`EnqueueOutcome`] stands for.
#[verifier::ext_equal]
pub ghost enum EnqueueResult {
    Claimed(OpRow),
    Queued(OpRow),
    Duplicate,
}

impl View for EnqueueOutcome {
    type V = EnqueueResult;

    open spec fn view(&self) -> EnqueueResult {
        match self {
            EnqueueOutcome::Claimed(op) => EnqueueResult::Claimed(op@),
            EnqueueOutcome::Queued(op) => EnqueueResult::Queued(op@),
            EnqueueOutcome::Duplicate => EnqueueResult::Duplicate,
        }
    }
}

/// The log, held in memory.
#[derive(Debug)]
pub struct InMemoryOpLog {
    next_id: i64,
    ops: Vec<SessionOp>,
    epochs: HashMap<u128, i64>,
}

/// The rows that a list of operations stands for.
pub open spec fn rows_of(ops: Seq<SessionOp>) -> Seq<OpRow> {
    Seq::new(ops.len(), |i: int| ops[i]@)
}

impl View for InMemoryOpLog {
    type V = OpLog;

    closed spec fn view(&self) -> OpLog {
        OpLog { next_id: self.next_id, rows: rows_of(self.ops@), epochs: self.epochs@ }
    }
}

impl Default for InMemoryOpLog {
    fn default() -> (res: InMemoryOpLog)
        ensures
            res@ == (OpLog { next_id: 0, rows: Seq::empty(), epochs: Map::empty() }),
            res@.wf(),
    {
        let res = InMemoryOpLog { next_id: 0, ops: Vec::new(), epochs: HashMap::new() };
        assert(res@.rows =~= Seq::empty());
        res
    }
}

/// An optional text, owned.
fn owned_text(s: Option<&str>) -> (res: Option<String>)
    ensures
        text_of(res) == (match s {
            Some(t) => Some(t@),
            None => None,
        }),
{
    match s {
        Some(t) => Some(t.to_owned()),
        None => None,
    }
}

impl InMemoryOpLog {
    /// The session's epoch; zero before its first claim.
    pub fn current_epoch(&self, session_id: SessionId) -> (res: i64)
        ensures
            res == self@.epoch_of(session_id),
    {
        match self.epochs.get(&session_id.0.bits) {
            Some(e) => *e,
            None => 0,
        }
    }

    /// Whether ids and epochs are left for one more row of the session.
    pub fn has_room(&self, session_id: SessionId) -> (res: bool)
        ensures
            res == (self@.next_id < i64::MAX && self@.epoch_of(session_id) < i64::MAX),
    {
        self.next_id < i64::MAX && self.current_epoch(session_id) < i64::MAX
    }

    /// Whether one more claim of the session's rows can be counted.
    pub fn can_claim(&self, session_id: SessionId) -> (res: bool)
        ensures
            res == (self@.epoch_of(session_id) < i64::MAX && forall|i: int|
                0 <= i < self@.rows.len() && (#[trigger] self@.rows[i]).session_id == session_id
                    ==> self@.rows[i].attempts < i32::MAX),
    {
        let mut i: usize = 0;
        while i < self.ops.len()
            invariant
                i <= self.ops@.len(),
                forall|j: int|
                    0 <= j < i && (#[trigger] self@.rows[j]).session_id == session_id
                        ==> self@.rows[j].attempts < i32::MAX,
            decreases self.ops.len() - i,
        {
            assert(self@.rows[i as int] == self.ops@[i as int]@);
            if self.ops[i].session_id == session_id && self.ops[i].attempts == i32::MAX {
                return false;
            }
            i += 1;
        }
        self.current_epoch(session_id) < i64::MAX
    }

    /// Raises the session's epoch and returns it.
    fn raise_epoch(&mut self, session_id: SessionId) -> (res: i64)
        requires
            old(self)@.epoch_of(session_id) < i64::MAX,
        ensures
            res == old(self)@.epoch_of(session_id) + 1,
            final(self)@ == (OpLog {
                epochs: old(self)@.epochs.insert(session_id.0.bits, res),
                ..old(self)@
            }),
    {
        let epoch: i64 = self.current_epoch(session_id) + 1;
        self.epochs.insert(session_id.0.bits, epoch);
        epoch
    }

    /// Whether a row of the session is queued or runs.
    fn lane_is_busy(&self, session_id: SessionId) -> (res: bool)
        ensures
            res == !self@.lane_free(session_id),
    {
        let mut i: usize = 0;
        while i < self.ops.len()
            invariant
                i <= self.ops@.len(),
                forall|j: int|
                    0 <= j < i && (#[trigger] self@.rows[j]).session_id == session_id
                        ==> !self@.rows[j].state.active(),
            decreases self.ops.len() - i,
        {
            assert(self@.rows[i as int] == self.ops@[i as int]@);
            if self.ops[i].session_id == session_id && self.ops[i].state.is_active() {
                return true;
            }
            i += 1;
        }
        false
    }

    /// Whether a row of the session runs.
    fn has_running(&self, session_id: SessionId) -> (res: bool)
        ensures
            res == self@.running(session_id),
    {
        let mut i: usize = 0;
        while i < self.ops.len()
            invariant
                i <= self.ops@.len(),
                forall|j: int|
                    0 <= j < i && (#[trigger] self@.rows[j]).session_id == session_id
                        ==> self@.rows[j].state != OpState::Running,
            decreases self.ops.len() - i,
        {
            assert(self@.rows[i as int] == self.ops@[i as int]@);
            if self.ops[i].session_id == session_id && self.ops[i].state == OpState::Running {
                return true;
            }
            i += 1;
        }
        false
    }

    /// Whether an active row of the session has this verb and this key.
    fn has_key(&self, session_id: SessionId, kind: OpKind, key: &str) -> (res: bool)
        ensures
            res == self@.key_in_use(session_id, kind, key@),
    {
        let mut i: usize = 0;
        while i < self.ops.len()
            invariant
                i <= self.ops@.len(),
                forall|j: int|
                    0 <= j < i && (#[trigger] self@.rows[j]).session_id == session_id
                        && self@.rows[j].kind == kind && self@.rows[j].idempotency_key == Some(key@)
                        ==> !self@.rows[j].state.active(),
            decreases self.ops.len() - i,
        {
            assert(self@.rows[i as int] == self.ops@[i as int]@);
            let op = &self.ops[i];
            if op.session_id == session_id && op.kind == kind && op.state.is_active() {
                if let Some(own) = &op.idempotency_key {
                    if same(own.as_str(), key) {
                        return true;
                    }
                }
            }
            i += 1;
        }
        false
    }

    /// Inserts a row at the time `at`. It is claimed at once where no other row of the session
    /// is active. A row with the key of an active row of the same session and verb is not
    /// inserted; a key whose row has ended can be used again.
    pub fn enqueue_and_claim_at(
        &mut self,
        session_id: SessionId,
        kind: OpKind,
        payload: Value,
        idempotency_key: Option<&str>,
        claimed_by: &str,
        at: Timestamp,
    ) -> (res: EnqueueOutcome)
        requires
            old(self)@.wf(),
            old(self)@.next_id < i64::MAX,
            old(self)@.epoch_of(session_id) < i64::MAX,
        ensures
            final(self)@.wf(),
            ({
                let key = match idempotency_key {
                    Some(k) => Some(k@),
                    None => None,
                };
                let row = OpRow::fresh(
                    (old(self)@.next_id + 1) as i64,
                    session_id,
                    kind,
                    payload@,
                    key,
                    at,
                );
                if key is Some && old(self)@.key_in_use(session_id, kind, key->0) {
                    res@ == EnqueueResult::Duplicate && final(self)@ == old(self)@
                } else if old(self)@.lane_free(session_id) {
                    &&& final(self)@ == old(self)@.with_claimed(row, claimed_by@)
                    &&& res@ == EnqueueResult::Claimed(final(self)@.rows.last())
                } else {
                    res@ == EnqueueResult::Queued(row) && final(self)@ == old(self)@.with_queued(
                        row,
                    )
                }
            }),
    {
        if let Some(key) = idempotency_key {
            if self.has_key(session_id, kind, key) {
                return EnqueueOutcome::Duplicate;
            }
        }
        let claimable = !self.lane_is_busy(session_id);
        self.next_id = self.next_id + 1;
        let mut op = SessionOp {
            id: self.next_id,
            session_id,
            kind,
            payload,
            state: OpState::Queued,
            step: None,
            epoch: None,
            attempts: 0,
            not_before: None,
            idempotency_key: owned_text(idempotency_key),
            claimed_by: None,
            error: None,
            created_at: at,
            finished_at: None,
        };
        let ghost row = op@;
        if claimable {
            let epoch: i64 = self.raise_epoch(session_id);
            op.state = OpState::Running;
            op.epoch = Some(epoch);
            op.attempts = 1;
            op.claimed_by = Some(claimed_by.to_owned());
            let claimed = op.clone();
            self.ops.push(op);
            proof {
                assert(claimed@ == row.claimed(claimed_by@, epoch));
                assert(self@.rows =~= old(self)@.rows.push(claimed@));
                assert(self@ =~= old(self)@.with_claimed(row, claimed_by@));
                claimed_row_keeps_wf(old(self)@, row, claimed_by@);
            }
            EnqueueOutcome::Claimed(claimed)
        } else {
            let queued = op.clone();
            self.ops.push(op);
            proof {
                assert(self@.rows =~= old(self)@.rows.push(row));
                assert(self@ =~= old(self)@.with_queued(row));
            }
            EnqueueOutcome::Queued(queued)
        }
    }

    /// [`InMemoryOpLog::enqueue_and_claim_at`] at the current time.
    pub fn enqueue_and_claim(
        &mut self,
        session_id: SessionId,
        kind: OpKind,
        payload: Value,
        idempotency_key: Option<&str>,
        claimed_by: &str,
    ) -> (res: EnqueueOutcome)
        requires
            old(self)@.wf(),
            old(self)@.next_id < i64::MAX,
            old(self)@.epoch_of(session_id) < i64::MAX,
        ensures
            final(self)@.wf(),
            exists|at: Timestamp|
                #[trigger] at.in_calendar() && ({
                    let key = match idempotency_key {
                        Some(k) => Some(k@),
                        None => None,
                    };
                    let row = OpRow::fresh(
                        (old(self)@.next_id + 1) as i64,
                        session_id,
                        kind,
                        payload@,
                        key,
                        at,
                    );
                    if key is Some && old(self)@.key_in_use(session_id, kind, key->0) {
                        res@ == EnqueueResult::Duplicate && final(self)@ == old(self)@
                    } else if old(self)@.lane_free(session_id) {
                        &&& final(self)@ == old(self)@.with_claimed(row, claimed_by@)
                        &&& res@ == EnqueueResult::Claimed(final(self)@.rows.last())
                    } else {
                        res@ == EnqueueResult::Queued(row) && final(self)@
                            == old(self)@.with_queued(row)
                    }
                }),
    {
        let at = now();
        assert(at.in_calendar());
        self.enqueue_and_claim_at(session_id, kind, payload, idempotency_key, claimed_by, at)
    }

    /// Inserts a row at the time `at` and claims it, if the session has no active row; else
    /// changes nothing.
    pub fn enqueue_and_claim_exclusive_at(
        &mut self,
        session_id: SessionId,
        kind: OpKind,
        payload: Value,
        claimed_by: &str,
        at: Timestamp,
    ) -> (res: Option<SessionOp>)
        requires
            old(self)@.wf(),
            old(self)@.next_id < i64::MAX,
            old(self)@.epoch_of(session_id) < i64::MAX,
        ensures
            final(self)@.wf(),
            res is Some <==> old(self)@.lane_free(session_id),
            res is None ==> final(self)@ == old(self)@,
            res is Some ==> final(self)@ == old(self)@.with_claimed(
                OpRow::fresh(
                    (old(self)@.next_id + 1) as i64,
                    session_id,
                    kind,
                    payload@,
                    None,
                    at,
                ),
                claimed_by@,
            ),
            res is Some ==> res->0@ == final(self)@.rows.last(),
    {
        if self.lane_is_busy(session_id) {
            return None;
        }
        self.next_id = self.next_id + 1;
        let epoch: i64 = self.raise_epoch(session_id);
        let op = SessionOp {
            id: self.next_id,
            session_id,
            kind,
            payload,
            state: OpState::Running,
            step: None,
            epoch: Some(epoch),
            attempts: 1,
            not_before: None,
            idempotency_key: None,
            claimed_by: Some(claimed_by.to_owned()),
            error: None,
            created_at: at,
            finished_at: None,
        };
        let claimed = op.clone();
        self.ops.push(op);
        proof {
            let row = OpRow::fresh(
                (old(self)@.next_id + 1) as i64,
                session_id,
                kind,
                payload@,
                None,
                at,
            );
            assert(claimed@ == row.claimed(claimed_by@, epoch));
            assert(self@.rows =~= old(self)@.rows.push(claimed@));
            assert(self@ =~= old(self)@.with_claimed(row, claimed_by@));
            claimed_row_keeps_wf(old(self)@, row, claimed_by@);
        }
        Some(claimed)
    }

    /// [`InMemoryOpLog::enqueue_and_claim_exclusive_at`] at the current time.
    pub fn enqueue_and_claim_exclusive(
        &mut self,
        session_id: SessionId,
        kind: OpKind,
        payload: Value,
        claimed_by: &str,
    ) -> (res: Option<SessionOp>)
        requires
            old(self)@.wf(),
            old(self)@.next_id < i64::MAX,
            old(self)@.epoch_of(session_id) < i64::MAX,
        ensures
            final(self)@.wf(),
            res is Some <==> old(self)@.lane_free(session_id),
            res is None ==> final(self)@ == old(self)@,
            res is Some ==> exists|at: Timestamp|
                #[trigger] at.in_calendar() && final(self)@ == old(self)@.with_claimed(
                    OpRow::fresh(
                        (old(self)@.next_id + 1) as i64,
                        session_id,
                        kind,
                        payload@,
                        None,
                        at,
                    ),
                    claimed_by@,
                ),
            res is Some ==> res->0@ == final(self)@.rows.last(),
    {
        let at = now();
        assert(at.in_calendar());
        self.enqueue_and_claim_exclusive_at(session_id, kind, payload, claimed_by, at)
    }

    /// Claims, at the time `at`, the due row of the session with the smallest id, unless a row
    /// of the session runs.
    pub fn claim_head_at(&mut self, session_id: SessionId, claimed_by: &str, at: Timestamp) -> (res:
        Option<SessionOp>)
        requires
            old(self)@.wf(),
            old(self)@.epoch_of(session_id) < i64::MAX,
            forall|i: int|
                0 <= i < old(self)@.rows.len() && (#[trigger] old(self)@.rows[i]).due(
                    session_id,
                    at,
                ) ==> old(self)@.rows[i].attempts < i32::MAX,
        ensures
            final(self)@.wf(),
            res is Some <==> !old(self)@.running(session_id) && old(self)@.has_due(session_id, at),
            res is None ==> final(self)@ == old(self)@,
            res is Some ==> exists|i: int| #[trigger]
                old(self)@.is_head(session_id, at, i) && final(self)@ == old(self)@.claim(
                    i,
                    claimed_by@,
                ) && res->0@ == final(self)@.rows[i],
    {
        if self.has_running(session_id) {
            return None;
        }
        let mut i: usize = 0;
        while i < self.ops.len()
            invariant
                i <= self.ops@.len(),
                self@ == old(self)@,
                self@.wf(),
                !self@.running(session_id),
                self@.epoch_of(session_id) < i64::MAX,
                forall|j: int|
                    0 <= j < self@.rows.len() && (#[trigger] self@.rows[j]).due(session_id, at)
                        ==> self@.rows[j].attempts < i32::MAX,
                forall|j: int| 0 <= j < i ==> !(#[trigger] self@.rows[j]).due(session_id, at),
            decreases self.ops.len() - i,
        {
            assert(self@.rows[i as int] == self.ops@[i as int]@);
            let op = &self.ops[i];
            let open = match &op.not_before {
                Some(nb) => nb.at_or_before(&at),
                None => true,
            };
            if op.session_id == session_id && op.state == OpState::Queued && open {
                assert(self@.rows[i as int].due(session_id, at));
                assert(self@.is_head(session_id, at, i as int));
                let epoch: i64 = self.raise_epoch(session_id);
                let attempts: i32 = self.ops[i].attempts + 1;
                self.ops[i].state = OpState::Running;
                self.ops[i].epoch = Some(epoch);
                self.ops[i].attempts = attempts;
                self.ops[i].claimed_by = Some(claimed_by.to_owned());
                proof {
                    let row = old(self)@.rows[i as int];
                    assert(self@.rows[i as int] =~= row.claimed(claimed_by@, epoch));
                    assert(self@.rows =~= old(self)@.rows.update(
                        i as int,
                        row.claimed(claimed_by@, epoch),
                    ));
                    assert(self@ =~= old(self)@.claim(i as int, claimed_by@));
                    claim_keeps_wf(old(self)@, i as int, claimed_by@);
                }
                return Some(self.ops[i].clone());
            }
            i += 1;
        }
        None
    }

    /// [`InMemoryOpLog::claim_head_at`] at the current time.
    pub fn claim_head(&mut self, session_id: SessionId, claimed_by: &str) -> (res: Option<
        SessionOp,
    >)
        requires
            old(self)@.wf(),
            old(self)@.epoch_of(session_id) < i64::MAX,
            forall|i: int|
                0 <= i < old(self)@.rows.len() && (#[trigger] old(self)@.rows[i]).session_id
                    == session_id ==> old(self)@.rows[i].attempts < i32::MAX,
        ensures
            final(self)@.wf(),
            exists|at: Timestamp| #[trigger]
                at.in_calendar() && (res is Some <==> !old(self)@.running(session_id)
                    && old(self)@.has_due(session_id, at)) && (res is Some ==> exists|i: int|
                 #[trigger]
                    old(self)@.is_head(session_id, at, i) && final(self)@ == old(self)@.claim(
                        i,
                        claimed_by@,
                    ) && res->0@ == final(self)@.rows[i]),
            res is None ==> final(self)@ == old(self)@,
    {
        let at = now();
        assert(at.in_calendar());
        self.claim_head_at(session_id, claimed_by, at)
    }

    /// The sessions that have a due row at the time `at` and no running row, each once, in the
    /// order of their identifiers.
    pub fn due_sessions_at(&self, at: Timestamp) -> (res: Vec<SessionId>)
        ensures
            forall|i: int, j: int| 0 <= i < j < res@.len() ==> res@[i].0.bits < res@[j].0.bits,
            forall|s: SessionId|
                res@.contains(s) <==> self@.has_due(s, at) && !self@.running(s),
    {
        let mut due: Vec<SessionId> = Vec::new();
        let mut i: usize = 0;
        while i < self.ops.len()
            invariant
                i <= self.ops@.len(),
                forall|a: int, b: int| 0 <= a < b < due@.len() ==> due@[a].0.bits < due@[b].0.bits,
                forall|s: SessionId| #[trigger]
                    due@.contains(s) <==> (exists|j: int|
                        0 <= j < i && (#[trigger] self@.rows[j]).due(s, at)) && !self@.running(s),
            decreases self.ops.len() - i,
        {
            assert(self@.rows[i as int] == self.ops@[i as int]@);
            let op = &self.ops[i];
            let session = op.session_id;
            let open = match &op.not_before {
                Some(nb) => nb.at_or_before(&at),
                None => true,
            };
            let ghost before = due@;
            if op.state == OpState::Queued && open && !self.has_running(session) {
                assert(self@.rows[i as int].due(session, at));
                insert_in_order(&mut due, session);
                assert forall|s: SessionId| #[trigger] due@.contains(s) <==> (exists|j: int|
                    0 <= j < i + 1 && (#[trigger] self@.rows[j]).due(s, at)) && !self@.running(
                    s,
                ) by {
                    assert(due@.contains(s) <==> before.contains(s) || s == session);
                }
            } else {
                assert forall|s: SessionId| #[trigger] due@.contains(s) <==> (exists|j: int|
                    0 <= j < i + 1 && (#[trigger] self@.rows[j]).due(s, at)) && !self@.running(
                    s,
                ) by {
                    assert(self@.rows[i as int].due(s, at) ==> s == session && self@.running(s));
                    if exists|j: int| 0 <= j < i + 1 && (#[trigger] self@.rows[j]).due(s, at) {
                        let j = choose|j: int|
                            0 <= j < i + 1 && (#[trigger] self@.rows[j]).due(s, at);
                        assert(j < i || self@.running(s));
                    }
                }
            }
            i += 1;
        }
        due
    }

    /// [`InMemoryOpLog::due_sessions_at`] at the current time.
    pub fn due_sessions(&self) -> (res: Vec<SessionId>)
        ensures
            forall|i: int, j: int| 0 <= i < j < res@.len() ==> res@[i].0.bits < res@[j].0.bits,
            exists|at: Timestamp| #[trigger]
                at.in_calendar() && forall|s: SessionId|
                    res@.contains(s) <==> self@.has_due(s, at) && !self@.running(s),
    {
        let at = now();
        assert(at.in_calendar());
        self.due_sessions_at(at)
    }

    /// The place of the row that runs under this id and epoch.
    fn owned_place(&self, op_id: i64, epoch: i64) -> (res: Option<usize>)
        ensures
            res is Some ==> res->0 < self.ops@.len() && self@.rows[res->0 as int].owned(
                op_id,
                epoch,
            ),
            res is None ==> !self@.any(|r: OpRow| r.owned(op_id, epoch)),
    {
        let mut i: usize = 0;
        while i < self.ops.len()
            invariant
                i <= self.ops@.len(),
                forall|j: int| 0 <= j < i ==> !(#[trigger] self@.rows[j]).owned(op_id, epoch),
            decreases self.ops.len() - i,
        {
            assert(self@.rows[i as int] == self.ops@[i as int]@);
            let op = &self.ops[i];
            let stamped = match op.epoch {
                Some(e) => e == epoch,
                None => false,
            };
            if op.id == op_id && stamped && op.state == OpState::Running {
                return Some(i);
            }
            i += 1;
        }
        None
    }

    /// The place of the row with this id.
    fn place(&self, op_id: i64) -> (res: Option<usize>)
        ensures
            res is Some ==> res->0 < self.ops@.len() && self@.rows[res->0 as int].id == op_id,
            res is None ==> !self@.any(|r: OpRow| r.id == op_id),
    {
        let mut i: usize = 0;
        while i < self.ops.len()
            invariant
                i <= self.ops@.len(),
                forall|j: int| 0 <= j < i ==> (#[trigger] self@.rows[j]).id != op_id,
            decreases self.ops.len() - i,
        {
            assert(self@.rows[i as int] == self.ops@[i as int]@);
            if self.ops[i].id == op_id {
                return Some(i);
            }
            i += 1;
        }
        None
    }

    /// Records a step of a running row. Refused, with nothing changed, unless the row runs
    /// under `epoch`.
    pub fn record_step(&mut self, op_id: i64, epoch: i64, step: &str) -> (res: bool)
        requires
            old(self)@.wf(),
        ensures
            final(self)@.wf(),
            res == old(self)@.any(|r: OpRow| r.owned(op_id, epoch)),
            final(self)@ == old(self)@.each(|r: OpRow| r.stepped(op_id, epoch, step@)),
    {
        let ghost f = |r: OpRow| r.stepped(op_id, epoch, step@);
        match self.owned_place(op_id, epoch) {
            Some(i) => {
                self.ops[i].step = Some(step.to_owned());
                proof {
                    one_row_changed(old(self)@, f, i as int, self@);
                }
                true
            },
            None => {
                proof {
                    no_row_changed(old(self)@, f);
                }
                false
            },
        }
    }

    /// Whether the row still runs under `epoch`.
    pub fn heartbeat(&self, op_id: i64, epoch: i64) -> (res: bool)
        ensures
            res == self@.any(|r: OpRow| r.owned(op_id, epoch)),
    {
        self.owned_place(op_id, epoch).is_some()
    }

    /// Ends a running row as `state`, at the time `at`. Refused, with nothing changed, unless
    /// the row runs under `epoch`.
    pub fn finish_at(
        &mut self,
        op_id: i64,
        epoch: i64,
        state: OpState,
        error: Option<&str>,
        at: Timestamp,
    ) -> (res: bool)
        requires
            old(self)@.wf(),
        ensures
            final(self)@.wf(),
            res == old(self)@.any(|r: OpRow| r.owned(op_id, epoch)),
            final(self)@ == old(self)@.each(
                |r: OpRow| r.finished(op_id, epoch, state, borrowed_text(error), at),
            ),
    {
        let ghost f = |r: OpRow| r.finished(op_id, epoch, state, borrowed_text(error), at);
        match self.owned_place(op_id, epoch) {
            Some(i) => {
                self.ops[i].state = state;
                self.ops[i].error = owned_text(error);
                self.ops[i].finished_at = Some(at);
                proof {
                    one_row_changed(old(self)@, f, i as int, self@);
                }
                true
            },
            None => {
                proof {
                    no_row_changed(old(self)@, f);
                }
                false
            },
        }
    }

    /// [`InMemoryOpLog::finish_at`] at the current time.
    pub fn finish(&mut self, op_id: i64, epoch: i64, state: OpState, error: Option<&str>) -> (res:
        bool)
        requires
            old(self)@.wf(),
        ensures
            final(self)@.wf(),
            res == old(self)@.any(|r: OpRow| r.owned(op_id, epoch)),
            exists|at: Timestamp| #[trigger]
                at.in_calendar() && final(self)@ == old(self)@.each(
                    |r: OpRow| r.finished(op_id, epoch, state, borrowed_text(error), at),
                ),
    {
        let at = now();
        assert(at.in_calendar());
        self.finish_at(op_id, epoch, state, error, at)
    }

    /// Puts a running row back into the queue, at the time `at`: it is due again when `backoff`
    /// has passed (its whole milliseconds, as a 64-bit number). Refused, with nothing changed,
    /// unless the row runs under `epoch`.
    pub fn requeue_with_backoff_at(
        &mut self,
        op_id: i64,
        epoch: i64,
        backoff: Duration,
        error: &str,
        at: Timestamp,
    ) -> (res: bool)
        requires
            old(self)@.wf(),
            at.in_calendar(),
        ensures
            final(self)@.wf(),
            res == old(self)@.any(|r: OpRow| r.owned(op_id, epoch)),
            exists|until: Timestamp| #[trigger]
                until.wf() && until.total() == at.total() + crate::time::low_64_bits(backoff.millis())
                    * 1_000_000 && final(self)@ == old(self)@.each(
                    |r: OpRow| r.requeued(op_id, epoch, until, error@),
                ),
    {
        let until = at.plus_millis(to_low_64_bits(backoff.as_millis()));
        let ghost f = |r: OpRow| r.requeued(op_id, epoch, until, error@);
        assert(until.wf());
        match self.owned_place(op_id, epoch) {
            Some(i) => {
                self.ops[i].state = OpState::Queued;
                self.ops[i].not_before = Some(until);
                self.ops[i].error = Some(error.to_owned());
                self.ops[i].epoch = None;
                self.ops[i].claimed_by = None;
                proof {
                    one_row_changed(old(self)@, f, i as int, self@);
                }
                true
            },
            None => {
                proof {
                    no_row_changed(old(self)@, f);
                }
                false
            },
        }
    }

    /// [`InMemoryOpLog::requeue_with_backoff_at`] at the current time.
    pub fn requeue_with_backoff(
        &mut self,
        op_id: i64,
        epoch: i64,
        backoff: Duration,
        error: &str,
    ) -> (res: bool)
        requires
            old(self)@.wf(),
        ensures
            final(self)@.wf(),
            res == old(self)@.any(|r: OpRow| r.owned(op_id, epoch)),
            exists|at: Timestamp, until: Timestamp|
                #![trigger at.in_calendar(), until.wf()]
                at.in_calendar() && until.wf() && until.total() == at.total() + crate::time::low_64_bits(
                    backoff.millis(),
                ) * 1_000_000 && final(self)@ == old(self)@.each(
                    |r: OpRow| r.requeued(op_id, epoch, until, error@),
                ),
    {
        let at = now();
        assert(at.in_calendar());
        self.requeue_with_backoff_at(op_id, epoch, backoff, error, at)
    }

    /// Cancels the queued rows of the session with this verb, at the time `at`. Tells whether
    /// there were any.
    pub fn cancel_queued_at(&mut self, session_id: SessionId, kind: OpKind, at: Timestamp) -> (res:
        bool)
        requires
            old(self)@.wf(),
        ensures
            final(self)@.wf(),
            res == old(self)@.any(|r: OpRow| r.waits(session_id, kind)),
            final(self)@ == old(self)@.each(
                |r: OpRow|
                    if r.waits(session_id, kind) {
                        r.cancelled(at)
                    } else {
                        r
                    },
            ),
    {
        let ghost f = |r: OpRow|
            if r.waits(session_id, kind) {
                r.cancelled(at)
            } else {
                r
            };
        let mut any = false;
        let mut i: usize = 0;
        while i < self.ops.len()
            invariant
                i <= self.ops@.len() == old(self)@.rows.len(),
                f == (|r: OpRow|
                    if r.waits(session_id, kind) {
                        r.cancelled(at)
                    } else {
                        r
                    }),
                self@.next_id == old(self)@.next_id,
                self@.epochs == old(self)@.epochs,
                forall|j: int| 0 <= j < i ==> #[trigger] self@.rows[j] == f(old(self)@.rows[j]),
                forall|j: int|
                    i <= j < self.ops@.len() ==> #[trigger] self@.rows[j] == old(self)@.rows[j],
                any == exists|j: int|
                    0 <= j < i && (#[trigger] old(self)@.rows[j]).waits(session_id, kind),
            decreases self.ops.len() - i,
        {
            let ghost before = self@;
            assert(self@.rows[i as int] == self.ops@[i as int]@);
            if self.ops[i].session_id == session_id && self.ops[i].kind == kind
                && self.ops[i].state == OpState::Queued {
                assert(old(self)@.rows[i as int].waits(session_id, kind));
                self.ops[i].state = OpState::Cancelled;
                self.ops[i].finished_at = Some(at);
                any = true;
                assert(self@.rows[i as int] =~= f(old(self)@.rows[i as int]));
                assert(forall|j: int|
                    0 <= j < self.ops@.len() && j != i ==> #[trigger] self@.rows[j]
                        == before.rows[j]);
            }
            i += 1;
        }
        proof {
            assert(self@ =~= old(self)@.each(f));
            rows_keep_wf(old(self)@, f);
        }
        any
    }

    /// [`InMemoryOpLog::cancel_queued_at`] at the current time.
    pub fn cancel_queued(&mut self, session_id: SessionId, kind: OpKind) -> (res: bool)
        requires
            old(self)@.wf(),
        ensures
            final(self)@.wf(),
            res == old(self)@.any(|r: OpRow| r.waits(session_id, kind)),
            exists|at: Timestamp| #[trigger]
                at.in_calendar() && final(self)@ == old(self)@.each(
                    |r: OpRow|
                        if r.waits(session_id, kind) {
                            r.cancelled(at)
                        } else {
                            r
                        },
                ),
    {
        let at = now();
        assert(at.in_calendar());
        self.cancel_queued_at(session_id, kind, at)
    }

    /// Makes the queued rows of the session with this verb due at the time `at`, where they
    /// were to wait longer. Returns their number.
    pub fn wake_queued_kind_at(&mut self, session_id: SessionId, kind: OpKind, at: Timestamp) -> (
    res: u64)
        requires
            old(self)@.wf(),
        ensures
            final(self)@.wf(),
            res == old(self)@.rows.filter(|r: OpRow| r.sleeps(session_id, kind, at)).len(),
            final(self)@ == old(self)@.each(|r: OpRow| r.woken(session_id, kind, at)),
    {
        let ghost f = |r: OpRow| r.woken(session_id, kind, at);
        let ghost p = |r: OpRow| r.sleeps(session_id, kind, at);
        let mut woken: u64 = 0;
        let mut i: usize = 0;
        assert(old(self)@.rows.take(0) =~= Seq::empty());
        reveal(Seq::filter);
        while i < self.ops.len()
            invariant
                i <= self.ops@.len() == old(self)@.rows.len(),
                f == (|r: OpRow| r.woken(session_id, kind, at)),
                p == (|r: OpRow| r.sleeps(session_id, kind, at)),
                self@.next_id == old(self)@.next_id,
                self@.epochs == old(self)@.epochs,
                forall|j: int| 0 <= j < i ==> #[trigger] self@.rows[j] == f(old(self)@.rows[j]),
                forall|j: int|
                    i <= j < self.ops@.len() ==> #[trigger] self@.rows[j] == old(self)@.rows[j],
                woken == old(self)@.rows.take(i as int).filter(p).len(),
                woken <= i,
            decreases self.ops.len() - i,
        {
            let ghost before = self@;
            assert(self@.rows[i as int] == self.ops@[i as int]@);
            proof {
                let taken = old(self)@.rows.take(i + 1);
                assert(taken.drop_last() =~= old(self)@.rows.take(i as int));
                reveal(Seq::filter);
            }
            let late = match &self.ops[i].not_before {
                Some(nb) => !nb.at_or_before(&at),
                None => false,
            };
            if self.ops[i].session_id == session_id && self.ops[i].kind == kind
                && self.ops[i].state == OpState::Queued && late {
                assert(p(old(self)@.rows[i as int]));
                self.ops[i].not_before = Some(at);
                woken = woken + 1;
                assert(self@.rows[i as int] =~= f(old(self)@.rows[i as int]));
                assert(forall|j: int|
                    0 <= j < self.ops@.len() && j != i ==> #[trigger] self@.rows[j]
                        == before.rows[j]);
            } else {
                assert(!p(old(self)@.rows[i as int]));
            }
            i += 1;
        }
        proof {
            assert(old(self)@.rows.take(i as int) =~= old(self)@.rows);
            assert(self@ =~= old(self)@.each(f));
            rows_keep_wf(old(self)@, f);
        }
        woken
    }

    /// [`InMemoryOpLog::wake_queued_kind_at`] at the current time.
    pub fn wake_queued_kind(&mut self, session_id: SessionId, kind: OpKind) -> (res: u64)
        requires
            old(self)@.wf(),
        ensures
            final(self)@.wf(),
            exists|at: Timestamp| #[trigger]
                at.in_calendar() && final(self)@ == old(self)@.each(
                    |r: OpRow| r.woken(session_id, kind, at),
                ) && res == old(self)@.rows.filter(
                    |r: OpRow| r.sleeps(session_id, kind, at),
                ).len(),
    {
        let at = now();
        assert(at.in_calendar());
        self.wake_queued_kind_at(session_id, kind, at)
    }

    /// Whether an active row of the session has this verb.
    pub fn pending_exists(&self, session_id: SessionId, kind: OpKind) -> (res: bool)
        ensures
            res == self@.any(
                |r: OpRow| r.session_id == session_id && r.kind == kind && r.state.active(),
            ),
    {
        let mut i: usize = 0;
        while i < self.ops.len()
            invariant
                i <= self.ops@.len(),
                forall|j: int|
                    0 <= j < i && (#[trigger] self@.rows[j]).session_id == session_id
                        && self@.rows[j].kind == kind ==> !self@.rows[j].state.active(),
            decreases self.ops.len() - i,
        {
            assert(self@.rows[i as int] == self.ops@[i as int]@);
            if self.ops[i].session_id == session_id && self.ops[i].kind == kind
                && self.ops[i].state.is_active() {
                return true;
            }
            i += 1;
        }
        false
    }

    /// Cancels a queued row, at the time `at`. Tells whether the row was queued.
    pub fn cancel_by_id_at(&mut self, op_id: i64, at: Timestamp) -> (res: bool)
        requires
            old(self)@.wf(),
        ensures
            final(self)@.wf(),
            res == old(self)@.any(|r: OpRow| r.id == op_id && r.state == OpState::Queued),
            final(self)@ == old(self)@.each(
                |r: OpRow|
                    if r.id == op_id && r.state == OpState::Queued {
                        r.cancelled(at)
                    } else {
                        r
                    },
            ),
    {
        let ghost f = |r: OpRow|
            if r.id == op_id && r.state == OpState::Queued {
                r.cancelled(at)
            } else {
                r
            };
        match self.place(op_id) {
            Some(i) => {
                assert(self@.rows[i as int] == self.ops@[i as int]@);
                if self.ops[i].state == OpState::Queued {
                    self.ops[i].state = OpState::Cancelled;
                    self.ops[i].finished_at = Some(at);
                    proof {
                        one_row_changed(old(self)@, f, i as int, self@);
                    }
                    true
                } else {
                    proof {
                        assert forall|j: int| 0 <= j < self@.rows.len() implies f(
                            #[trigger] self@.rows[j],
                        ) == self@.rows[j] by {
                            if j < i {
                            }
                        }
                        no_row_changed(old(self)@, f);
                    }
                    false
                }
            },
            None => {
                proof {
                    no_row_changed(old(self)@, f);
                }
                false
            },
        }
    }

    /// [`InMemoryOpLog::cancel_by_id_at`] at the current time.
    pub fn cancel_by_id(&mut self, op_id: i64) -> (res: bool)
        requires
            old(self)@.wf(),
        ensures
            final(self)@.wf(),
            res == old(self)@.any(|r: OpRow| r.id == op_id && r.state == OpState::Queued),
            exists|at: Timestamp| #[trigger]
                at.in_calendar() && final(self)@ == old(self)@.each(
                    |r: OpRow|
                        if r.id == op_id && r.state == OpState::Queued {
                            r.cancelled(at)
                        } else {
                            r
                        },
                ),
    {
        let at = now();
        assert(at.in_calendar());
        self.cancel_by_id_at(op_id, at)
    }

    /// Marks the payload of the session's running row of this verb, asking the verb to stop.
    /// Tells whether there is such a row.
    pub fn request_cancel_running(&mut self, session_id: SessionId, kind: OpKind) -> (res: bool)
        requires
            old(self)@.wf(),
            forall|i: int|
                0 <= i < old(self)@.rows.len() && (#[trigger] old(self)@.rows[i]).runs(
                    session_id,
                    kind,
                ) ==> old(self)@.rows[i].payload.takes_members(),
        ensures
            final(self)@.wf(),
            res == old(self)@.any(|r: OpRow| r.runs(session_id, kind)),
            final(self)@ == old(self)@.each(|r: OpRow| r.asked_to_stop(session_id, kind)),
    {
        let ghost f = |r: OpRow| r.asked_to_stop(session_id, kind);
        let mut i: usize = 0;
        while i < self.ops.len()
            invariant
                i <= self.ops@.len(),
                self@ == old(self)@,
                self@.wf(),
                f == (|r: OpRow| r.asked_to_stop(session_id, kind)),
                forall|j: int|
                    0 <= j < self@.rows.len() && (#[trigger] self@.rows[j]).runs(session_id, kind)
                        ==> self@.rows[j].payload.takes_members(),
                forall|j: int| 0 <= j < i ==> !(#[trigger] self@.rows[j]).runs(session_id, kind),
            decreases self.ops.len() - i,
        {
            assert(self@.rows[i as int] == self.ops@[i as int]@);
            if self.ops[i].session_id == session_id && self.ops[i].kind == kind
                && self.ops[i].state == OpState::Running {
                assert(self@.rows[i as int].runs(session_id, kind));
                let payload = self.ops[i].payload.clone();
                self.ops[i].payload = payload.with_member("_cancel", Value::Bool(true));
                proof {
                    let before = old(self)@;
                    assert(self@.rows[i as int] =~= f(before.rows[i as int]));
                    assert forall|j: int| 0 <= j < before.rows.len() && j != i implies f(
                        #[trigger] before.rows[j],
                    ) == before.rows[j] by {
                        assert(!before.rows[j].runs(session_id, kind));
                    }
                    assert(self@.rows =~= before.rows.map_values(f));
                    assert(self@ =~= before.each(f));
                    rows_keep_wf(before, f);
                }
                return true;
            }
            i += 1;
        }
        proof {
            no_row_changed(old(self)@, f);
        }
        false
    }

    /// Whether the row's payload carries the mark that asks its verb to stop.
    pub fn cancel_requested(&self, op_id: i64) -> (res: bool)
        requires
            self@.wf(),
        ensures
            res == self@.any(
                |r: OpRow|
                    r.id == op_id && r.payload.member("_cancel"@) == Some(Tree::Bool(true)),
            ),
    {
        match self.place(op_id) {
            Some(i) => {
                proof {
                    assert(self@.rows[i as int] == self.ops@[i as int]@);
                    assert forall|j: int|
                        0 <= j < self@.rows.len() && (#[trigger] self@.rows[j]).id
                            == op_id implies j == i by {
                        let a = self@.rows[i as int];
                        let b = self@.rows[j];
                    }
                }
                match self.ops[i].payload.get("_cancel") {
                    Some(Value::Bool(b)) => *b,
                    _ => false,
                }
            },
            None => false,
        }
    }

    /// The running row of the session.
    pub fn running_for(&self, session_id: SessionId) -> (res: Option<SessionOp>)
        ensures
            res is Some <==> self@.running(session_id),
            res is Some ==> res->0@.session_id == session_id && res->0@.state == OpState::Running
                && self@.rows.contains(res->0@),
    {
        let mut i: usize = 0;
        while i < self.ops.len()
            invariant
                i <= self.ops@.len(),
                forall|j: int|
                    0 <= j < i && (#[trigger] self@.rows[j]).session_id == session_id
                        ==> self@.rows[j].state != OpState::Running,
            decreases self.ops.len() - i,
        {
            assert(self@.rows[i as int] == self.ops@[i as int]@);
            if self.ops[i].session_id == session_id && self.ops[i].state == OpState::Running {
                return Some(self.ops[i].clone());
            }
            i += 1;
        }
        None
    }

    /// The row with this id.
    pub fn get(&self, op_id: i64) -> (res: Option<SessionOp>)
        ensures
            res is Some <==> self@.any(|r: OpRow| r.id == op_id),
            res is Some ==> res->0@.id == op_id && self@.rows.contains(res->0@),
    {
        match self.place(op_id) {
            Some(i) => {
                assert(self@.rows[i as int] == self.ops@[i as int]@);
                Some(self.ops[i].clone())
            },
            None => None,
        }
    }

    /// All rows, in the order of their ids.
    pub fn all(&self) -> (res: Vec<SessionOp>)
        ensures
            rows_of(res@) == self@.rows,
    {
        let mut out: Vec<SessionOp> = Vec::new();
        let mut i: usize = 0;
        while i < self.ops.len()
            invariant
                i <= self.ops@.len(),
                out@.len() == i,
                forall|j: int| 0 <= j < i ==> (#[trigger] out@[j])@ == self.ops@[j]@,
            decreases self.ops.len() - i,
        {
            out.push(self.ops[i].clone());
            i += 1;
        }
        assert(rows_of(out@) =~= self@.rows);
        out
    }

    /// Sets the attempts and the step of a row. Tells whether the row exists.
    pub fn force_attempts_and_step(&mut self, op_id: i64, attempts: i32, step: Option<&str>) -> (
    res: bool)
        requires
            old(self)@.wf(),
        ensures
            final(self)@.wf(),
            res == old(self)@.any(|r: OpRow| r.id == op_id),
            final(self)@ == old(self)@.each(
                |r: OpRow|
                    if r.id == op_id {
                        OpRow { attempts, step: borrowed_text(step), ..r }
                    } else {
                        r
                    },
            ),
    {
        let ghost f = |r: OpRow|
            if r.id == op_id {
                OpRow { attempts, step: borrowed_text(step), ..r }
            } else {
                r
            };
        match self.place(op_id) {
            Some(i) => {
                self.ops[i].attempts = attempts;
                self.ops[i].step = owned_text(step);
                proof {
                    assert(self@.rows[i as int] =~= f(old(self)@.rows[i as int]));
                    one_row_changed(old(self)@, f, i as int, self@);
                }
                true
            },
            None => {
                proof {
                    no_row_changed(old(self)@, f);
                }
                false
            },
        }
    }

    /// Inserts a running row, as if another claimant held the session.
    pub fn seed_running(&mut self, session_id: SessionId, kind: OpKind) -> (res: SessionOp)
        requires
            old(self)@.wf(),
            old(self)@.lane_free(session_id),
            old(self)@.next_id < i64::MAX,
            old(self)@.epoch_of(session_id) < i64::MAX,
        ensures
            final(self)@.wf(),
            exists|at: Timestamp| #[trigger]
                at.in_calendar() && final(self)@ == old(self)@.with_claimed(
                    OpRow::fresh(
                        (old(self)@.next_id + 1) as i64,
                        session_id,
                        kind,
                        Tree::Table(Seq::empty()),
                        None,
                        at,
                    ),
                    "rival-pod"@,
                ),
            res@ == final(self)@.rows.last(),
    {
        let members: Vec<Member> = Vec::new();
        assert(crate::document::table_view(members@) =~= Seq::empty());
        let at = now();
        assert(at.in_calendar());
        match self.enqueue_and_claim_exclusive_at(
            session_id,
            kind,
            Value::Table(members),
            "rival-pod",
            at,
        ) {
            Some(op) => op,
            None => {
                proof {
                    assert(false);
                }
                vstd::pervasive::unreached()
            },
        }
    }
}

/// Adding a row that is claimed at once keeps the log well formed.
proof fn claimed_row_keeps_wf(log: OpLog, row: OpRow, by: Seq<char>)
    requires
        log.wf(),
        log.lane_free(row.session_id),
        log.next_id < i64::MAX,
        row.id == log.next_id + 1,
        log.epoch_of(row.session_id) < i64::MAX,
    ensures
        log.with_claimed(row, by).wf(),
{
    let after = log.with_claimed(row, by);
    assert forall|k: SessionId| k != row.session_id implies after.epoch_of(k) == log.epoch_of(k) by {
        assert(k.0.bits != row.session_id.0.bits);
    }
    assert forall|i: int| 0 <= i < log.rows.len() implies after.rows[i] == log.rows[i] by {
    }
    assert forall|i: int|
        0 <= i < log.rows.len() && log.rows[i].epoch is Some implies log.rows[i].epoch->0
        <= log.epoch_of(log.rows[i].session_id) by {
    }
}

/// Claiming a waiting row keeps the log well formed.
proof fn claim_keeps_wf(log: OpLog, i: int, by: Seq<char>)
    requires
        log.wf(),
        0 <= i < log.rows.len(),
        !log.running(log.rows[i].session_id),
        log.epoch_of(log.rows[i].session_id) < i64::MAX,
    ensures
        log.claim(i, by).wf(),
{
    let session = log.rows[i].session_id;
    let after = log.claim(i, by);
    assert forall|k: SessionId| k != session implies after.epoch_of(k) == log.epoch_of(k) by {
        assert(k.0.bits != session.0.bits);
    }
    assert forall|j: int| 0 <= j < log.rows.len() && j != i implies after.rows[j]
        == log.rows[j] by {
    }
}

/// Puts `session` into the ascending list, unless it is there.
fn insert_in_order(list: &mut Vec<SessionId>, session: SessionId)
    requires
        forall|a: int, b: int|
            0 <= a < b < old(list)@.len() ==> old(list)@[a].0.bits < old(list)@[b].0.bits,
    ensures
        forall|a: int, b: int|
            0 <= a < b < final(list)@.len() ==> final(list)@[a].0.bits < final(list)@[b].0.bits,
        forall|s: SessionId| #[trigger]
            final(list)@.contains(s) <==> old(list)@.contains(s) || s == session,
{
    let mut k: usize = 0;
    while k < list.len() && list[k].0.bits < session.0.bits
        invariant
            k <= list@.len(),
            list@ == old(list)@,
            forall|a: int| 0 <= a < k ==> list@[a].0.bits < session.0.bits,
        decreases list.len() - k,
    {
        k += 1;
    }
    let ghost before = list@;
    if k < list.len() && list[k].0.bits == session.0.bits {
        assert(list@[k as int] == session);
        assert(before.contains(session));
        assert(forall|s: SessionId| #[trigger] list@.contains(s) <==> before.contains(s) || s == session);
    } else {
        list.insert(k, session);
        assert(list@ =~= before.insert(k as int, session));
        assert forall|s: SessionId| #[trigger] list@.contains(s) <==> before.contains(s) || s
            == session by {
            if before.contains(s) {
                let a = choose|a: int| 0 <= a < before.len() && before[a] == s;
                assert(list@[if a < k { a } else { a + 1 }] == s);
            }
            if s == session {
                assert(list@[k as int] == s);
            }
            if list@.contains(s) {
                let a = choose|a: int| 0 <= a < list@.len() && list@[a] == s;
                if a < k {
                    assert(before[a] == s);
                } else if a > k {
                    assert(before[a - 1] == s);
                }
            }
        }
    }
}

/// The characters of an optional borrowed text.
pub open spec fn borrowed_text(s: Option<&str>) -> Option<Seq<char>> {
    match s {
        Some(t) => Some(t@),
        None => None,
    }
}

/// A change of rows that keeps ids and sessions, starts no row and stamps no epoch keeps the
/// log well formed.
proof fn rows_keep_wf(log: OpLog, f: spec_fn(OpRow) -> OpRow)
    requires
        log.wf(),
        forall|i: int|
            0 <= i < log.rows.len() ==> {
                let r = #[trigger] log.rows[i];
                let t = f(r);
                &&& t.id == r.id
                &&& t.session_id == r.session_id
                &&& t.state == OpState::Running ==> r.state == OpState::Running && t.epoch
                    == r.epoch
                &&& t.epoch is Some ==> t.epoch == r.epoch
            },
    ensures
        log.each(f).wf(),
{
    let after = log.each(f);
    assert forall|i: int| 0 <= i < log.rows.len() implies #[trigger] after.rows[i] == f(
        log.rows[i],
    ) by {
    }
    assert(forall|s: SessionId| after.epoch_of(s) == log.epoch_of(s));
    assert forall|i: int, j: int| 0 <= i < j < after.rows.len() implies (
    #[trigger] after.rows[i]).id < (#[trigger] after.rows[j]).id by {
        assert(log.rows[i].id < log.rows[j].id);
    }
    assert forall|i: int| 0 <= i < after.rows.len() implies 1 <= (#[trigger] after.rows[i]).id
        <= after.next_id by {
        assert(1 <= log.rows[i].id <= log.next_id);
    }
    assert forall|i: int, j: int|
        0 <= i < after.rows.len() && 0 <= j < after.rows.len() && (
        #[trigger] after.rows[i]).session_id == (#[trigger] after.rows[j]).session_id
            && after.rows[i].state == OpState::Running && after.rows[j].state
            == OpState::Running implies i == j by {
        assert(log.rows[i].session_id == log.rows[j].session_id);
    }
    assert forall|i: int|
        0 <= i < after.rows.len() && (#[trigger] after.rows[i]).state
            == OpState::Running implies after.rows[i].epoch == Some(
        after.epoch_of(after.rows[i].session_id),
    ) by {
        assert(log.rows[i].state == OpState::Running);
    }
    assert forall|i: int|
        0 <= i < after.rows.len() && (#[trigger] after.rows[i]).epoch is Some implies 1
        <= after.rows[i].epoch->0 <= after.epoch_of(after.rows[i].session_id) by {
        assert(log.rows[i].epoch is Some);
    }
    assert forall|i: int, j: int|
        0 <= i < after.rows.len() && 0 <= j < after.rows.len() && (
        #[trigger] after.rows[i]).session_id == (#[trigger] after.rows[j]).session_id
            && after.rows[i].epoch is Some && after.rows[i].epoch
            == after.rows[j].epoch implies i == j by {
        assert(log.rows[i].session_id == log.rows[j].session_id);
        assert(log.rows[i].epoch == log.rows[j].epoch);
    }
}

/// Where `f` leaves every row but `i` alone, changing row `i` is applying `f` to all.
proof fn one_row_changed(log: OpLog, f: spec_fn(OpRow) -> OpRow, i: int, after: OpLog)
    requires
        log.wf(),
        0 <= i < log.rows.len(),
        after.next_id == log.next_id,
        after.epochs == log.epochs,
        after.rows.len() == log.rows.len(),
        after.rows[i] == f(log.rows[i]),
        forall|j: int| 0 <= j < log.rows.len() && j != i ==> #[trigger] after.rows[j] == log.rows[j],
        forall|r: OpRow| r.id != log.rows[i].id ==> #[trigger] f(r) == r,
        forall|r: OpRow|
            {
                let t = #[trigger] f(r);
                &&& t.id == r.id
                &&& t.session_id == r.session_id
                &&& t.state == OpState::Running ==> r.state == OpState::Running && t.epoch
                    == r.epoch
                &&& t.epoch is Some ==> t.epoch == r.epoch
            },
    ensures
        after == log.each(f),
        after.wf(),
{
    assert forall|j: int| 0 <= j < log.rows.len() implies #[trigger] after.rows[j] == f(
        log.rows[j],
    ) by {
        if j != i {
            assert(log.rows[j].id != log.rows[i].id);
        }
    }
    assert(after.rows =~= log.rows.map_values(f));
    rows_keep_wf(log, f);
}

/// Where `f` leaves every row alone, applying it changes nothing.
proof fn no_row_changed(log: OpLog, f: spec_fn(OpRow) -> OpRow)
    requires
        forall|i: int| 0 <= i < log.rows.len() ==> f(#[trigger] log.rows[i]) == log.rows[i],
    ensures
        log.each(f) == log,
{
    assert(log.rows.map_values(f) =~= log.rows);
}

/// At most one row of a session runs.
pub proof fn at_most_one_row_runs(log: OpLog, i: int, j: int)
    requires
        log.wf(),
        0 <= i < log.rows.len(),
        0 <= j < log.rows.len(),
        log.rows[i].session_id == log.rows[j].session_id,
        log.rows[i].state == OpState::Running,
        log.rows[j].state == OpState::Running,
    ensures
        i == j,
{
}

/// A claim raises the session's epoch by one, and no other session's.
pub proof fn claim_raises_the_epoch(log: OpLog, i: int, row: OpRow, by: Seq<char>, other: SessionId)
    requires
        log.wf(),
        0 <= i < log.rows.len(),
        log.epoch_of(log.rows[i].session_id) < i64::MAX,
        log.epoch_of(row.session_id) < i64::MAX,
    ensures
        log.claim(i, by).epoch_of(log.rows[i].session_id) == log.epoch_of(log.rows[i].session_id)
            + 1,
        log.with_claimed(row, by).epoch_of(row.session_id) == log.epoch_of(row.session_id) + 1,
        other != log.rows[i].session_id ==> log.claim(i, by).epoch_of(other) == log.epoch_of(other),
        other != row.session_id ==> log.with_claimed(row, by).epoch_of(other) == log.epoch_of(
            other,
        ),
{
    assert(other != row.session_id ==> other.0.bits != row.session_id.0.bits);
    assert(other != log.rows[i].session_id ==> other.0.bits != log.rows[i].session_id.0.bits);
}

/// A writer whose epoch is not the session's current one is refused, and its write changes
/// nothing.
pub proof fn stale_epoch_is_refused(
    log: OpLog,
    session: SessionId,
    op_id: i64,
    epoch: i64,
    step: Seq<char>,
    state: OpState,
    error: Option<Seq<char>>,
    at: Timestamp,
)
    requires
        log.wf(),
        forall|i: int|
            0 <= i < log.rows.len() && (#[trigger] log.rows[i]).id == op_id
                ==> log.rows[i].session_id == session,
        epoch != log.epoch_of(session),
    ensures
        !log.any(|r: OpRow| r.owned(op_id, epoch)),
        log.each(|r: OpRow| r.stepped(op_id, epoch, step)) == log,
        log.each(|r: OpRow| r.finished(op_id, epoch, state, error, at)) == log,
        log.each(|r: OpRow| r.requeued(op_id, epoch, at, step)) == log,
{
    assert forall|i: int| 0 <= i < log.rows.len() implies !(#[trigger] log.rows[i]).owned(
        op_id,
        epoch,
    ) by {
    }
    no_row_changed(log, |r: OpRow| r.stepped(op_id, epoch, step));
    no_row_changed(log, |r: OpRow| r.finished(op_id, epoch, state, error, at));
    no_row_changed(log, |r: OpRow| r.requeued(op_id, epoch, at, step));
}

/// After a claim, the claimant owns the row under the new epoch, and whoever owned a row of the
/// session under an earlier epoch is refused.
pub proof fn claim_shuts_out_earlier_owners(
    log: OpLog,
    i: int,
    by: Seq<char>,
    op_id: i64,
    epoch: i64,
)
    requires
        log.wf(),
        0 <= i < log.rows.len(),
        !log.running(log.rows[i].session_id),
        log.epoch_of(log.rows[i].session_id) < i64::MAX,
        forall|j: int|
            0 <= j < log.rows.len() && (#[trigger] log.rows[j]).id == op_id
                ==> log.rows[j].session_id == log.rows[i].session_id,
        epoch <= log.epoch_of(log.rows[i].session_id),
    ensures
        log.claim(i, by).rows[i].owned(
            log.rows[i].id,
            (log.epoch_of(log.rows[i].session_id) + 1) as i64,
        ),
        !log.claim(i, by).any(|r: OpRow| r.owned(op_id, epoch)),
{
    let after = log.claim(i, by);
    claim_keeps_wf(log, i, by);
    assert forall|j: int| 0 <= j < after.rows.len() implies !(#[trigger] after.rows[j]).owned(
        op_id,
        epoch,
    ) by {
        if j != i {
            assert(after.rows[j] == log.rows[j]);
        }
    }
}

/// Whoever ended a row or put it back does not own it any more: a second write under the same
/// epoch is refused.
pub proof fn giving_up_a_row_ends_ownership(
    log: OpLog,
    op_id: i64,
    epoch: i64,
    state: OpState,
    error: Option<Seq<char>>,
    text: Seq<char>,
    at: Timestamp,
)
    requires
        state != OpState::Running,
    ensures
        !log.each(|r: OpRow| r.finished(op_id, epoch, state, error, at)).any(
            |r: OpRow| r.owned(op_id, epoch),
        ),
        !log.each(|r: OpRow| r.requeued(op_id, epoch, at, text)).any(
            |r: OpRow| r.owned(op_id, epoch),
        ),
{
    let f = |r: OpRow| r.finished(op_id, epoch, state, error, at);
    let g = |r: OpRow| r.requeued(op_id, epoch, at, text);
    assert forall|i: int| 0 <= i < log.rows.len() implies !(#[trigger] log.each(f).rows[i]).owned(
        op_id,
        epoch,
    ) by {
    }
    assert forall|i: int| 0 <= i < log.rows.len() implies !(#[trigger] log.each(g).rows[i]).owned(
        op_id,
        epoch,
    ) by {
    }
}

/// While a keyed row is active, its key is in use, so that a second enqueue is a duplicate; and
/// the lane is not free, so that an exclusive claim is refused.
pub proof fn enqueued_key_is_in_use(log: OpLog, row: OpRow, by: Seq<char>)
    requires
        row.idempotency_key is Some,
        row.state == OpState::Queued,
    ensures
        log.with_queued(row).key_in_use(row.session_id, row.kind, row.idempotency_key->0),
        log.with_claimed(row, by).key_in_use(row.session_id, row.kind, row.idempotency_key->0),
        !log.with_queued(row).lane_free(row.session_id),
        !log.with_claimed(row, by).lane_free(row.session_id),
{
    let n = log.rows.len() as int;
    assert(log.with_queued(row).rows[n] == row);
    assert(log.with_claimed(row, by).rows[n].session_id == row.session_id);
    assert(log.with_claimed(row, by).rows[n].state == OpState::Running);
}

/// A key is free again once every row that carries it has ended.
pub proof fn ended_rows_free_their_key(log: OpLog, session: SessionId, kind: OpKind, key: Seq<char>)
    requires
        forall|i: int|
            0 <= i < log.rows.len() && (#[trigger] log.rows[i]).session_id == session
                && log.rows[i].kind == kind && log.rows[i].idempotency_key == Some(key)
                ==> !log.rows[i].state.active(),
    ensures
        !log.key_in_use(session, kind, key),
{
}

/// A row that has ended is final: no writer changes it, and it is neither claimed nor cancelled
/// again.
pub proof fn ended_rows_stay_ended(
    row: OpRow,
    op_id: i64,
    epoch: i64,
    text: Seq<char>,
    state: OpState,
    error: Option<Seq<char>>,
    session: SessionId,
    kind: OpKind,
    at: Timestamp,
)
    requires
        !row.state.active(),
    ensures
        row.stepped(op_id, epoch, text) == row,
        row.finished(op_id, epoch, state, error, at) == row,
        row.requeued(op_id, epoch, at, text) == row,
        row.woken(session, kind, at) == row,
        row.asked_to_stop(session, kind) == row,
        !row.due(session, at),
        !row.waits(session, kind),
{
}

/// The row that is claimed is older than every other due row of its session.
pub proof fn claims_go_in_id_order(
    log: OpLog,
    session: SessionId,
    at: Timestamp,
    i: int,
    j: int,
)
    requires
        log.wf(),
        log.is_head(session, at, i),
        0 <= j < log.rows.len(),
        log.rows[j].due(session, at),
        j != i,
    ensures
        i < j,
        log.rows[i].id < log.rows[j].id,
{
}

/// A row that was woken is due at once; a row that was cancelled never is.
pub proof fn woken_rows_are_due(row: OpRow, session: SessionId, kind: OpKind, at: Timestamp, t: Timestamp)
    ensures
        row.sleeps(session, kind, at) ==> row.woken(session, kind, at).due(session, at),
        !row.cancelled(at).due(session, t),
{
}

/// A running verb that was asked to stop carries the mark.
pub proof fn asked_to_stop_is_seen(row: OpRow, session: SessionId, kind: OpKind)
    requires
        row.runs(session, kind),
        row.payload.takes_members(),
    ensures
        row.asked_to_stop(session, kind).payload.member("_cancel"@) == Some(Tree::Bool(true)),
        row.asked_to_stop(session, kind).id == row.id,
{
    crate::document::set_member_is_found(row.payload, "_cancel"@, Tree::Bool(true), "_cancel"@);
}

/// A finish that is accepted leaves exactly what its owner said: the state that was passed, the
/// error that was passed, and the time; all else of the row stays. Every other row, and a row that
/// does not run under this epoch, stays as it was.
pub proof fn finishing_records_the_outcome(
    log: OpLog,
    op_id: i64,
    epoch: i64,
    state: OpState,
    error: Option<Seq<char>>,
    at: Timestamp,
    i: int,
)
    requires
        0 <= i < log.rows.len(),
    ensures
        ({
            let was = log.rows[i];
            let after = log.each(|r: OpRow| r.finished(op_id, epoch, state, error, at));
            let is = after.rows[i];
            let accepted = was.id == op_id && was.epoch == Some(epoch) && was.state
                == OpState::Running;
            &&& after.rows.len() == log.rows.len()
            &&& after.next_id == log.next_id
            &&& after.epochs == log.epochs
            &&& !accepted ==> is == was
            &&& accepted ==> is.state == state && is.error == error && is.finished_at == Some(at)
            &&& same_request(is, was)
            &&& is.step == was.step
            &&& is.epoch == was.epoch
            &&& is.attempts == was.attempts
            &&& is.not_before == was.not_before
            &&& is.claimed_by == was.claimed_by
        }),
{
}

/// Two rows ask for the same: one id, session, verb, payload, key and time of creation.
pub open spec fn same_request(a: OpRow, b: OpRow) -> bool {
    &&& a.id == b.id
    &&& a.session_id == b.session_id
    &&& a.kind == b.kind
    &&& a.payload == b.payload
    &&& a.idempotency_key == b.idempotency_key
    &&& a.created_at == b.created_at
}

/// A recorded step is the step of the row from then on, and nothing else changes.
pub proof fn recording_keeps_all_but_the_step(
    log: OpLog,
    op_id: i64,
    epoch: i64,
    step: Seq<char>,
    i: int,
)
    requires
        0 <= i < log.rows.len(),
    ensures
        ({
            let was = log.rows[i];
            let after = log.each(|r: OpRow| r.stepped(op_id, epoch, step));
            let is = after.rows[i];
            let accepted = was.id == op_id && was.epoch == Some(epoch) && was.state
                == OpState::Running;
            &&& after.rows.len() == log.rows.len()
            &&& after.next_id == log.next_id
            &&& after.epochs == log.epochs
            &&& !accepted ==> is == was
            &&& accepted ==> is.step == Some(step)
            &&& same_request(is, was)
            &&& is.state == was.state
            &&& is.epoch == was.epoch
            &&& is.attempts == was.attempts
            &&& is.not_before == was.not_before
            &&& is.claimed_by == was.claimed_by
            &&& is.error == was.error
            &&& is.finished_at == was.finished_at
        }),
{
}

/// A row that is put back waits again, for nobody, with the error and the time that its owner
/// gave, and keeps its step and its count of attempts: it goes on where it stopped.
pub proof fn requeueing_keeps_the_progress(
    log: OpLog,
    op_id: i64,
    epoch: i64,
    until: Timestamp,
    error: Seq<char>,
    i: int,
)
    requires
        0 <= i < log.rows.len(),
    ensures
        ({
            let was = log.rows[i];
            let after = log.each(|r: OpRow| r.requeued(op_id, epoch, until, error));
            let is = after.rows[i];
            let accepted = was.id == op_id && was.epoch == Some(epoch) && was.state
                == OpState::Running;
            &&& after.rows.len() == log.rows.len()
            &&& after.next_id == log.next_id
            &&& after.epochs == log.epochs
            &&& !accepted ==> is == was
            &&& accepted ==> {
                &&& is.state == OpState::Queued
                &&& is.error == Some(error)
                &&& is.not_before == Some(until)
                &&& is.epoch is None
                &&& is.claimed_by is None
            }
            &&& same_request(is, was)
            &&& is.step == was.step
            &&& is.attempts == was.attempts
            &&& is.finished_at == was.finished_at
        }),
{
}

/// A row that was put back is due from the end of its wait on, and not before.
pub proof fn requeued_rows_wait(
    row: OpRow,
    op_id: i64,
    epoch: i64,
    until: Timestamp,
    error: Seq<char>,
    session: SessionId,
    at: Timestamp,
)
    requires
        row.id == op_id,
        row.epoch == Some(epoch),
        row.state == OpState::Running,
        until.nanos < 1_000_000_000,
        at.nanos < 1_000_000_000,
    ensures
        row.requeued(op_id, epoch, until, error).due(session, at) <==> row.session_id == session
            && until.secs * 1_000_000_000 + until.nanos <= at.secs * 1_000_000_000 + at.nanos,
{
}

/// A row is due exactly if it is queued for the session and does not wait for a later time.
pub proof fn due_rows_are_queued_and_open(row: OpRow, session: SessionId, at: Timestamp)
    requires
        at.nanos < 1_000_000_000,
        row.not_before is Some ==> row.not_before->0.nanos < 1_000_000_000,
    ensures
        row.due(session, at) <==> {
            &&& row.session_id == session
            &&& row.state == OpState::Queued
            &&& row.not_before is None || row.not_before->0.secs * 1_000_000_000
                + row.not_before->0.nanos <= at.secs * 1_000_000_000 + at.nanos
        },
{
}

/// Whether a write is accepted: exactly if some row has the id, runs, and runs under the epoch.
pub proof fn writes_need_a_running_row(log: OpLog, op_id: i64, epoch: i64)
    ensures
        log.any(|r: OpRow| r.owned(op_id, epoch)) <==> exists|i: int|
            0 <= i < log.rows.len() && (#[trigger] log.rows[i]).id == op_id && log.rows[i].epoch
                == Some(epoch) && log.rows[i].state == OpState::Running,
{
    let p = |r: OpRow| r.owned(op_id, epoch);
    if exists|i: int|
        0 <= i < log.rows.len() && (#[trigger] log.rows[i]).id == op_id && log.rows[i].epoch
            == Some(epoch) && log.rows[i].state == OpState::Running {
        let i = choose|i: int|
            0 <= i < log.rows.len() && (#[trigger] log.rows[i]).id == op_id && log.rows[i].epoch
                == Some(epoch) && log.rows[i].state == OpState::Running;
        assert(p(log.rows[i]));
    }
}

/// A claimed row runs for its claimant under the next epoch of its session and has had one more
/// attempt; it keeps what it asks for, its step and its error. No other row changes, no row is
/// added, and no id is used up.
pub proof fn claiming_starts_one_row(log: OpLog, i: int, by: Seq<char>, j: int)
    requires
        0 <= i < log.rows.len(),
        0 <= j < log.rows.len(),
        log.epoch_of(log.rows[i].session_id) < i64::MAX,
        log.rows[i].attempts < i32::MAX,
    ensures
        ({
            let was = log.rows[i];
            let after = log.claim(i, by);
            let is = after.rows[i];
            &&& after.next_id == log.next_id
            &&& after.rows.len() == log.rows.len()
            &&& j != i ==> after.rows[j] == log.rows[j]
            &&& is.state == OpState::Running
            &&& is.epoch == Some(after.epoch_of(was.session_id))
            &&& after.epoch_of(was.session_id) == log.epoch_of(was.session_id) + 1
            &&& is.claimed_by == Some(by)
            &&& is.attempts == was.attempts + 1
            &&& same_request(is, was)
            &&& is.step == was.step
            &&& is.error == was.error
            &&& is.not_before == was.not_before
            &&& is.finished_at == was.finished_at
        }),
{
}

/// An enqueued row asks for what the caller asked for, under the next id; it is the last row, and
/// every row before it stays. Claimed at once, it runs for the claimant, as its first attempt,
/// under the next epoch of its session; else it waits, and no epoch changes.
pub proof fn enqueueing_adds_one_row(
    log: OpLog,
    session: SessionId,
    kind: OpKind,
    payload: Tree,
    key: Option<Seq<char>>,
    at: Timestamp,
    by: Seq<char>,
    j: int,
)
    requires
        0 <= j < log.rows.len(),
        0 <= log.next_id < i64::MAX,
        log.epoch_of(session) < i64::MAX,
    ensures
        ({
            let id = (log.next_id + 1) as i64;
            let row = OpRow::fresh(id, session, kind, payload, key, at);
            let queued = log.with_queued(row);
            let claimed = log.with_claimed(row, by);
            let n = log.rows.len() as int;
            &&& queued.rows.len() == n + 1 && claimed.rows.len() == n + 1
            &&& queued.rows[j] == log.rows[j] && claimed.rows[j] == log.rows[j]
            &&& queued.next_id == log.next_id + 1 && claimed.next_id == log.next_id + 1
            &&& same_request(queued.rows[n], claimed.rows[n])
            &&& queued.rows[n].id == log.next_id + 1
            &&& queued.rows[n].session_id == session
            &&& queued.rows[n].kind == kind
            &&& queued.rows[n].payload == payload
            &&& queued.rows[n].idempotency_key == key
            &&& queued.rows[n].created_at == at
            &&& queued.rows[n].state == OpState::Queued
            &&& queued.rows[n].epoch is None && queued.rows[n].claimed_by is None
            &&& queued.rows[n].attempts == 0
            &&& queued.epochs == log.epochs
            &&& claimed.rows[n].state == OpState::Running
            &&& claimed.rows[n].claimed_by == Some(by)
            &&& claimed.rows[n].attempts == 1
            &&& claimed.rows[n].epoch == Some(claimed.epoch_of(session))
            &&& claimed.epoch_of(session) == log.epoch_of(session) + 1
            &&& nothing_happened(queued.rows[n]) && nothing_happened(claimed.rows[n])
        }),
{
}

/// The row has no step, no error, no wait and no end yet.
pub open spec fn nothing_happened(row: OpRow) -> bool {
    row.step is None && row.error is None && row.not_before is None && row.finished_at is None
}

/// A session that never had a claim is at epoch zero; else its epoch is the one of its last claim.
pub proof fn epochs_begin_at_zero(log: OpLog, session: SessionId)
    ensures
        !log.epochs.contains_key(session.0.bits) ==> log.epoch_of(session) == 0,
        log.epochs.contains_key(session.0.bits) ==> log.epoch_of(session)
            == log.epochs[session.0.bits],
{
}

/// The lane of a session is free exactly if all its rows have ended: done, failed or cancelled.
pub proof fn free_lanes_have_ended(log: OpLog, session: SessionId)
    ensures
        log.lane_free(session) <==> forall|i: int|
            0 <= i < log.rows.len() && (#[trigger] log.rows[i]).session_id == session
                ==> log.rows[i].state == OpState::Done || log.rows[i].state == OpState::Failed
                || log.rows[i].state == OpState::Cancelled,
{
}

/// A key is in use exactly if a row of the session with this verb carries it and waits or runs.
pub proof fn keys_are_used_by_open_rows(log: OpLog, session: SessionId, kind: OpKind, key: Seq<char>)
    ensures
        log.key_in_use(session, kind, key) <==> exists|i: int|
            0 <= i < log.rows.len() && (#[trigger] log.rows[i]).session_id == session
                && log.rows[i].kind == kind && log.rows[i].idempotency_key == Some(key) && (
            log.rows[i].state == OpState::Queued || log.rows[i].state == OpState::Running),
{
    if log.key_in_use(session, kind, key) {
        let i = choose|i: int|
            0 <= i < log.rows.len() && (#[trigger] log.rows[i]).session_id == session
                && log.rows[i].kind == kind && log.rows[i].idempotency_key == Some(key)
                && log.rows[i].state.active();
        assert(log.rows[i].state == OpState::Queued || log.rows[i].state == OpState::Running);
    }
}

/// A session runs exactly if one of its rows does.
pub proof fn sessions_run_by_their_rows(log: OpLog, session: SessionId)
    ensures
        log.running(session) <==> exists|i: int|
            0 <= i < log.rows.len() && (#[trigger] log.rows[i]).session_id == session
                && log.rows[i].state == OpState::Running,
        log.running(session) ==> !log.lane_free(session),
{
}

/// Where rows of a session are due, one of them is the head, and there is no other: the due row
/// that was enqueued first. Where none is due, there is no head.
pub proof fn due_rows_have_one_head(log: OpLog, session: SessionId, at: Timestamp)
    requires
        log.wf(),
    ensures
        log.has_due(session, at) <==> exists|i: int| log.is_head(session, at, i),
        forall|i: int, j: int|
            #![trigger log.is_head(session, at, i), log.is_head(session, at, j)]
            log.is_head(session, at, i) && log.is_head(session, at, j) ==> i == j,
        forall|i: int, j: int|
            #![trigger log.is_head(session, at, i), log.rows[j]]
            log.is_head(session, at, i) && 0 <= j < i ==> !log.rows[j].due(session, at),
{
    if log.has_due(session, at) {
        let k = choose|i: int| 0 <= i < log.rows.len() && (#[trigger] log.rows[i]).due(session, at);
        first_due(log, session, at, k);
    }
    if exists|i: int| log.is_head(session, at, i) {
        let i = choose|i: int| log.is_head(session, at, i);
        assert(log.rows[i].due(session, at));
    }
}

/// There is a first due row up to row `k`.
proof fn first_due(log: OpLog, session: SessionId, at: Timestamp, k: int)
    requires
        log.wf(),
        0 <= k < log.rows.len(),
        log.rows[k].due(session, at),
    ensures
        exists|i: int| log.is_head(session, at, i),
    decreases k,
{
    if exists|j: int| 0 <= j < k && (#[trigger] log.rows[j]).due(session, at) {
        let j = choose|j: int| 0 <= j < k && (#[trigger] log.rows[j]).due(session, at);
        first_due(log, session, at, j);
    } else {
        assert forall|j: int|
            0 <= j < log.rows.len() && (#[trigger] log.rows[j]).due(
                session,
                at,
            ) implies log.rows[k].id <= log.rows[j].id by {
            assert(j >= k);
        }
        assert(log.is_head(session, at, k));
    }
}

/// Cancelling ends the queued rows of the session with this verb, at the given time, and no other
/// row: neither one that runs nor one of another session or verb. All else of the rows stays.
pub proof fn cancelling_ends_waiting_rows(
    log: OpLog,
    session: SessionId,
    kind: OpKind,
    at: Timestamp,
    i: int,
)
    requires
        0 <= i < log.rows.len(),
    ensures
        ({
            let was = log.rows[i];
            let is = if was.waits(session, kind) {
                was.cancelled(at)
            } else {
                was
            };
            let meant = was.session_id == session && was.kind == kind && was.state
                == OpState::Queued;
            &&& meant ==> is.state == OpState::Cancelled && is.finished_at == Some(at)
            &&& !meant ==> is == was
        }),
        cancelling_keeps_the_rest(log.rows[i], log.rows[i].cancelled(at)),
        log.rows[i].cancelled(at).state == OpState::Cancelled,
        log.rows[i].cancelled(at).finished_at == Some(at),
{
}

/// The rows agree in all but the state and the time of the end.
pub open spec fn cancelling_keeps_the_rest(was: OpRow, is: OpRow) -> bool {
    &&& same_request(is, was)
    &&& is.step == was.step
    &&& is.epoch == was.epoch
    &&& is.attempts == was.attempts
    &&& is.not_before == was.not_before
    &&& is.claimed_by == was.claimed_by
    &&& is.error == was.error
}

/// Waking makes the queued rows of the session with this verb due at the given time, where they
/// would be due later, and leaves every other row alone. A row that is due already keeps its time.
pub proof fn waking_brings_rows_forward(
    row: OpRow,
    session: SessionId,
    kind: OpKind,
    at: Timestamp,
)
    requires
        at.nanos < 1_000_000_000,
        row.not_before is Some ==> row.not_before->0.nanos < 1_000_000_000,
    ensures
        ({
            let is = row.woken(session, kind, at);
            let meant = row.session_id == session && row.kind == kind && row.state
                == OpState::Queued && row.not_before is Some && row.not_before->0.secs
                * 1_000_000_000 + row.not_before->0.nanos > at.secs * 1_000_000_000 + at.nanos;
            &&& row.sleeps(session, kind, at) <==> meant
            &&& !meant ==> is == row
            &&& meant ==> is.not_before == Some(at)
            &&& same_request(is, row)
            &&& is.state == row.state
            &&& is.step == row.step
            &&& is.epoch == row.epoch
            &&& is.attempts == row.attempts
            &&& is.claimed_by == row.claimed_by
            &&& is.error == row.error
            &&& is.finished_at == row.finished_at
        }),
{
}

/// The mark that asks a verb to stop goes to the running row of the session with this verb and to
/// no other; every other member of the payload stays, and so does the rest of the row.
pub proof fn asking_to_stop_marks_the_running_row(
    row: OpRow,
    session: SessionId,
    kind: OpKind,
    other: Seq<char>,
)
    requires
        row.payload.takes_members(),
        other != "_cancel"@,
    ensures
        ({
            let is = row.asked_to_stop(session, kind);
            let meant = row.session_id == session && row.kind == kind && row.state
                == OpState::Running;
            &&& !meant ==> is == row
            &&& meant ==> is.payload.member("_cancel"@) == Some(Tree::Bool(true))
                && is.payload.member(other) == row.payload.member(other)
            &&& is.id == row.id
            &&& is.session_id == row.session_id
            &&& is.kind == row.kind
            &&& is.state == row.state
            &&& is.step == row.step
            &&& is.epoch == row.epoch
            &&& is.attempts == row.attempts
            &&& is.not_before == row.not_before
            &&& is.idempotency_key == row.idempotency_key
            &&& is.claimed_by == row.claimed_by
            &&& is.error == row.error
            &&& is.created_at == row.created_at
            &&& is.finished_at == row.finished_at
        }),
{
    crate::document::set_member_is_found(row.payload, "_cancel"@, Tree::Bool(true), other);
}

/// A row shows its operation, field by field.
pub proof fn rows_show_their_operations(op: SessionOp, s: String)
    ensures
        op@.id == op.id,
        op@.session_id == op.session_id,
        op@.kind == op.kind,
        op@.payload == op.payload@,
        op@.state == op.state,
        op@.epoch == op.epoch,
        op@.attempts == op.attempts,
        op@.not_before == op.not_before,
        op@.created_at == op.created_at,
        op@.finished_at == op.finished_at,
        op.step is Some ==> op@.step == Some((op.step->0)@),
        op.step is None ==> op@.step is None,
        op.error is Some ==> op@.error == Some((op.error->0)@),
        op.error is None ==> op@.error is None,
        op.idempotency_key is Some ==> op@.idempotency_key == Some((op.idempotency_key->0)@),
        op.idempotency_key is None ==> op@.idempotency_key is None,
        op.claimed_by is Some ==> op@.claimed_by == Some((op.claimed_by->0)@),
        op.claimed_by is None ==> op@.claimed_by is None,
        borrowed_text(None) is None,
{
}

/// A text that is handed over is taken over as it is.
pub proof fn texts_are_taken_over(s: &str)
    ensures
        borrowed_text(Some(s)) == Some(s@),
{
}

/// The stable names are the ones that are stored and sent: each is that of one value and of no
/// other.
pub proof fn op_kind_names_are_stable(k: OpKind)
    ensures
        k.name() == "create_boot"@ <==> k == OpKind::CreateBoot,
        k.name() == "resume"@ <==> k == OpKind::Resume,
        k.name() == "evict"@ <==> k == OpKind::Evict,
        k.name() == "deliver"@ <==> k == OpKind::Deliver,
        k.name() == "destroy"@ <==> k == OpKind::Destroy,
        k.name() == "checkpoint_finalize"@ <==> k == OpKind::CheckpointFinalize,
        k.name() == "teleport"@ <==> k == OpKind::Teleport,
{
    if k.name() == "create_boot"@ {
        op_kind_names_differ(k, OpKind::CreateBoot);
    }
    if k.name() == "resume"@ {
        op_kind_names_differ(k, OpKind::Resume);
    }
    if k.name() == "evict"@ {
        op_kind_names_differ(k, OpKind::Evict);
    }
    if k.name() == "deliver"@ {
        op_kind_names_differ(k, OpKind::Deliver);
    }
    if k.name() == "destroy"@ {
        op_kind_names_differ(k, OpKind::Destroy);
    }
    if k.name() == "checkpoint_finalize"@ {
        op_kind_names_differ(k, OpKind::CheckpointFinalize);
    }
    if k.name() == "teleport"@ {
        op_kind_names_differ(k, OpKind::Teleport);
    }
}

/// The stable names are the ones that are stored and sent: each is that of one value and of no
/// other.
pub proof fn op_state_names_are_stable(k: OpState)
    ensures
        k.name() == "queued"@ <==> k == OpState::Queued,
        k.name() == "running"@ <==> k == OpState::Running,
        k.name() == "done"@ <==> k == OpState::Done,
        k.name() == "failed"@ <==> k == OpState::Failed,
        k.name() == "cancelled"@ <==> k == OpState::Cancelled,
{
    if k.name() == "queued"@ {
        op_state_names_differ(k, OpState::Queued);
    }
    if k.name() == "running"@ {
        op_state_names_differ(k, OpState::Running);
    }
    if k.name() == "done"@ {
        op_state_names_differ(k, OpState::Done);
    }
    if k.name() == "failed"@ {
        op_state_names_differ(k, OpState::Failed);
    }
    if k.name() == "cancelled"@ {
        op_state_names_differ(k, OpState::Cancelled);
    }
}

} // verus!

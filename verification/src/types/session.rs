//! Sessions: the states they pass through, and how they use their image.
use crate::text::same;
use crate::time::Timestamp;
use crate::types::ids::{HostId, SandboxId, SessionId};
use crate::types::manifest::ManifestRef;
use vstd::prelude::*;
use vstd::string::*;

verus! {

/// Where a session stands in its life.
#[derive(Clone, Copy, Debug, PartialEq, Eq, Structural, Hash)]
pub enum SessionState {
    /// The request was accepted; nothing is placed yet.
    Pending,
    /// A sandbox on a host is bound; nothing more is known of it.
    Created,
    /// The agent in the guest can be reached.
    GuestReady,
    /// The harness runs, or the guest is ready where there is none.
    Active,
    /// The sandbox was evicted to a snapshot.
    Idle,
    /// The host stopped reporting.
    HostLost,
    /// The session is being moved to another host.
    Evacuating,
    /// The session is marked for eviction; its sandbox may still run.
    Evicting,
    /// Terminal: the session could not be created.
    Failed,
    /// Terminal: the session was deleted.
    Completed,
    /// Terminal: the session cannot be resumed.
    Dead,
}

impl SessionState {
    /// The stable name.
    pub open spec fn name(self) -> Seq<char> {
        match self {
            SessionState::Pending => "pending"@,
            SessionState::Created => "created"@,
            SessionState::GuestReady => "guest_ready"@,
            SessionState::Active => "active"@,
            SessionState::Idle => "idle"@,
            SessionState::HostLost => "host_lost"@,
            SessionState::Evacuating => "evacuating"@,
            SessionState::Evicting => "evicting"@,
            SessionState::Completed => "completed"@,
            SessionState::Failed => "failed"@,
            SessionState::Dead => "dead"@,
        }
    }

    /// The stable name.
    pub fn as_str(&self) -> (res: &'static str)
        ensures
            res@ == self.name(),
    {
        match self {
            SessionState::Pending => "pending",
            SessionState::Created => "created",
            SessionState::GuestReady => "guest_ready",
            SessionState::Active => "active",
            SessionState::Idle => "idle",
            SessionState::HostLost => "host_lost",
            SessionState::Evacuating => "evacuating",
            SessionState::Evicting => "evicting",
            SessionState::Completed => "completed",
            SessionState::Failed => "failed",
            SessionState::Dead => "dead",
        }
    }

    /// The state with the name `s`, if there is one.
    pub fn parse(s: &str) -> (res: Option<SessionState>)
        ensures
            res is Some ==> res->0.name() == s@,
            res is None ==> forall|k: SessionState| k.name() != s@,
    {
        if same(s, "pending") {
            Some(SessionState::Pending)
        } else if same(s, "created") {
            Some(SessionState::Created)
        } else if same(s, "guest_ready") {
            Some(SessionState::GuestReady)
        } else if same(s, "active") {
            Some(SessionState::Active)
        } else if same(s, "idle") {
            Some(SessionState::Idle)
        } else if same(s, "host_lost") {
            Some(SessionState::HostLost)
        } else if same(s, "evacuating") {
            Some(SessionState::Evacuating)
        } else if same(s, "evicting") {
            Some(SessionState::Evicting)
        } else if same(s, "completed") {
            Some(SessionState::Completed)
        } else if same(s, "failed") {
            Some(SessionState::Failed)
        } else if same(s, "dead") {
            Some(SessionState::Dead)
        } else {
            None
        }
    }
}

impl SessionState {
    /// No transition leads out of the state.
    pub open spec fn terminal(self) -> bool {
        self == SessionState::Failed || self == SessionState::Completed || self
            == SessionState::Dead
    }

    /// The state can be followed by `target`.
    pub open spec fn legal_next(self, target: SessionState) -> bool {
        match self {
            SessionState::Pending => target is Created || target is Failed,
            SessionState::Created => target is GuestReady || target is Active || target is Failed
                || target is HostLost,
            SessionState::GuestReady => target is Active || target is Failed || target is HostLost,
            SessionState::Active => target is Idle || target is HostLost || target is Evacuating
                || target is Evicting || target is Failed || target is Completed || target is Dead,
            SessionState::Idle => target is Created || target is Dead || target is Completed,
            SessionState::HostLost => target is Created || target is Idle || target is Evacuating
                || target is Dead || target is Completed,
            SessionState::Evacuating => target is Created || target is Idle || target is Dead
                || target is Completed,
            SessionState::Evicting => target is Idle || target is HostLost || target is Dead
                || target is Completed,
            SessionState::Failed | SessionState::Completed | SessionState::Dead => false,
        }
    }

    /// Whether no transition leads out of the state.
    pub fn is_terminal(&self) -> (res: bool)
        ensures
            res == self.terminal(),
    {
        matches!(self, SessionState::Failed | SessionState::Completed | SessionState::Dead)
    }

    /// Whether the session counts as live: not terminal, and its host not lost.
    pub fn is_live(&self) -> (res: bool)
        ensures
            res == (!self.terminal() && *self != SessionState::HostLost),
    {
        !self.is_terminal() && !matches!(self, SessionState::HostLost)
    }

    /// Whether the state can be followed by `target`.
    pub fn can_transition_to(&self, target: SessionState) -> (res: bool)
        ensures
            res == self.legal_next(target),
    {
        match self {
            SessionState::Pending => matches!(target, SessionState::Created | SessionState::Failed),
            SessionState::Created => matches!(
                target,
                SessionState::GuestReady | SessionState::Active | SessionState::Failed
                    | SessionState::HostLost
            ),
            SessionState::GuestReady => matches!(
                target,
                SessionState::Active | SessionState::Failed | SessionState::HostLost
            ),
            SessionState::Active => matches!(
                target,
                SessionState::Idle | SessionState::HostLost | SessionState::Evacuating
                    | SessionState::Evicting | SessionState::Failed | SessionState::Completed
                    | SessionState::Dead
            ),
            SessionState::Idle => matches!(
                target,
                SessionState::Created | SessionState::Dead | SessionState::Completed
            ),
            SessionState::HostLost => matches!(
                target,
                SessionState::Created | SessionState::Idle | SessionState::Evacuating
                    | SessionState::Dead | SessionState::Completed
            ),
            SessionState::Evacuating => matches!(
                target,
                SessionState::Created | SessionState::Idle | SessionState::Dead
                    | SessionState::Completed
            ),
            SessionState::Evicting => matches!(
                target,
                SessionState::Idle | SessionState::HostLost | SessionState::Dead
                    | SessionState::Completed
            ),
            SessionState::Failed | SessionState::Completed | SessionState::Dead => false,
        }
    }

    /// Moves to `target`, if it can follow.
    pub fn try_transition_to(self, target: SessionState) -> (res: Result<
        SessionState,
        IllegalTransition,
    >)
        ensures
            res == (if self.legal_next(target) {
                Ok::<SessionState, IllegalTransition>(target)
            } else {
                Err::<SessionState, IllegalTransition>(IllegalTransition { from: self, to: target })
            }),
    {
        if self.can_transition_to(target) {
            Ok(target)
        } else {
            Err(IllegalTransition { from: self, to: target })
        }
    }

    /// The terminal state in which a session is ended on request: `Completed` where it can
    /// follow, else `Failed`; none for a session that has ended.
    pub fn terminal_target(&self) -> (res: Option<SessionState>)
        ensures
            res == (if self.legal_next(SessionState::Completed) {
                Some(SessionState::Completed)
            } else if self.legal_next(SessionState::Failed) {
                Some(SessionState::Failed)
            } else {
                None::<SessionState>
            }),
            res is None <==> self.terminal(),
    {
        if self.can_transition_to(SessionState::Completed) {
            Some(SessionState::Completed)
        } else if self.can_transition_to(SessionState::Failed) {
            Some(SessionState::Failed)
        } else {
            None
        }
    }
}

/// Different states of a session have different names.
pub proof fn session_state_names_differ(a: SessionState, b: SessionState)
    requires
        a.name() == b.name(),
    ensures
        a == b,
{
    reveal_strlit("pending");
    reveal_strlit("created");
    reveal_strlit("guest_ready");
    reveal_strlit("active");
    reveal_strlit("idle");
    reveal_strlit("host_lost");
    reveal_strlit("evacuating");
    reveal_strlit("evicting");
    reveal_strlit("completed");
    reveal_strlit("failed");
    reveal_strlit("dead");
    assert("pending"@.len() == 7);
    assert("created"@.len() == 7);
    assert("guest_ready"@.len() == 11);
    assert("active"@.len() == 6);
    assert("idle"@.len() == 4);
    assert("host_lost"@.len() == 9);
    assert("evacuating"@.len() == 10);
    assert("evicting"@.len() == 8);
    assert("completed"@.len() == 9);
    assert("failed"@.len() == 6);
    assert("dead"@.len() == 4);
    assert("pending"@[0] != "created"@[0]);
    assert("active"@[0] != "failed"@[0]);
    assert("idle"@[0] != "dead"@[0]);
    assert("host_lost"@[0] != "completed"@[0]);
}

/// A terminal state is the end; every other state has a way to a terminal one in one step.
pub proof fn terminal_states_are_final(from: SessionState, to: SessionState)
    ensures
        from.terminal() ==> !from.legal_next(to),
        !from.terminal() ==> exists|t: SessionState| t.terminal() && from.legal_next(t),
{
    if !from.terminal() {
        assert(SessionState::Completed.terminal() && SessionState::Failed.terminal());
        assert(from.legal_next(SessionState::Completed) || from.legal_next(SessionState::Failed));
    }
}

/// No state follows itself, and none is followed by `Pending`.
pub proof fn transitions_are_observable(from: SessionState)
    ensures
        !from.legal_next(from),
        !from.legal_next(SessionState::Pending),
{
}

/// A transition that is not in the table.
#[derive(Clone, Copy, Debug, PartialEq, Eq, Structural)]
pub struct IllegalTransition {
    pub from: SessionState,
    pub to: SessionState,
}

impl IllegalTransition {
    /// Both states, in words.
    pub fn to_string(&self) -> (res: String)
        ensures
            res@ == "illegal session state transition: "@ + self.from.name() + " -> "@
                + self.to.name(),
    {
        let mut text = String::from_str("illegal session state transition: ");
        text.append(self.from.as_str());
        text.append(" -> ");
        text.append(self.to.as_str());
        text
    }
}

/// The full reference of an image: registry, path and tag.
pub type ImageRef = String;

/// `i` is the last place of `c` in `s`.
pub open spec fn is_last(s: Seq<char>, c: char, i: int) -> bool {
    &&& 0 <= i < s.len()
    &&& s[i] == c
    &&& forall|j: int| i < j < s.len() ==> #[trigger] s[j] != c
}

/// `i` is where the tag is cut off: the last colon, with no slash behind it, and with no `@`
/// between the last slash and it. A colon behind an `@` belongs to a digest.
pub open spec fn is_tag_cut(s: Seq<char>, i: int) -> bool {
    &&& is_last(s, ':', i)
    &&& forall|j: int| i < j < s.len() ==> #[trigger] s[j] != '/'
    &&& forall|j: int|
        0 <= j < i && #[trigger] s[j] == '@' ==> exists|k: int| j < k < i && #[trigger] s[k] == '/'
}

/// Whether no `@` stands between the last slash before `end` and `end`.
fn is_free_of_digest(chars: &Vec<char>, end: usize) -> (res: bool)
    requires
        end <= chars@.len(),
    ensures
        res == (forall|j: int|
            0 <= j < end && #[trigger] chars@[j] == '@' ==> exists|k: int|
                j < k < end && #[trigger] chars@[k] == '/'),
{
    let mut i: usize = end;
    while i > 0
        invariant
            i <= end <= chars@.len(),
            forall|j: int| i <= j < end ==> #[trigger] chars@[j] != '@' && chars@[j] != '/',
        decreases i,
    {
        i -= 1;
        if chars[i] == '/' {
            assert(chars@[i as int] == '/');
            return true;
        }
        if chars[i] == '@' {
            assert(chars@[i as int] == '@');
            return false;
        }
    }
    true
}

/// The path and the tag of an image reference; without a tag, the whole and nothing. A
/// reference by digest is not taken apart.
pub fn split_image_ref(uri: &str) -> (res: (&str, &str))
    ensures
        forall|i: int| #[trigger]
            is_tag_cut(uri@, i) ==> res.0@ == uri@.subrange(0, i) && res.1@ == uri@.subrange(
                i + 1,
                uri@.len() as int,
            ),
        (forall|i: int| !is_tag_cut(uri@, i)) ==> res.0@ == uri@ && res.1@ == Seq::<char>::empty(),
{
    let chars = crate::text::chars_of(uri);
    let n: usize = chars.len();
    let mut i: usize = n;
    proof {
        reveal_strlit("");
    }
    assert(""@ =~= Seq::<char>::empty());
    while i > 0
        invariant
            chars@ == uri@,
            n == chars@.len(),
            i <= n,
            ""@ == Seq::<char>::empty(),
            forall|j: int| i <= j < n ==> #[trigger] chars@[j] != ':' && chars@[j] != '/',
        decreases i,
    {
        i -= 1;
        if chars[i] == ':' {
            assert forall|k: int| #[trigger] is_tag_cut(uri@, k) implies k == i by {
                assert(uri@[k] == ':');
            }
            if is_free_of_digest(&chars, i) {
                assert(is_tag_cut(uri@, i as int));
                return (uri.substring_char(0, i), uri.substring_char(i + 1, n));
            }
            assert(!is_tag_cut(uri@, i as int));
            return (uri, "");
        }
        if chars[i] == '/' {
            assert forall|k: int| !is_tag_cut(uri@, k) by {
                if is_tag_cut(uri@, k) {
                    assert(uri@[k] == ':');
                    assert(uri@[i as int] != '/');
                }
            }
            return (uri, "");
        }
    }
    assert forall|k: int| !is_tag_cut(uri@, k) by {
        if is_tag_cut(uri@, k) {
            assert(uri@[k] == ':');
        }
    }
    (uri, "")
}

/// Where a tag is cut off, path, colon and tag make up the reference, and the tag has neither a
/// colon nor a slash.
pub proof fn image_ref_is_recomposed(s: Seq<char>, i: int)
    requires
        is_tag_cut(s, i),
    ensures
        s.subrange(0, i) + seq![':'] + s.subrange(i + 1, s.len() as int) == s,
        !s.subrange(i + 1, s.len() as int).contains(':'),
        !s.subrange(i + 1, s.len() as int).contains('/'),
{
    assert(s.subrange(0, i) + seq![':'] + s.subrange(i + 1, s.len() as int) =~= s);
    let tag = s.subrange(i + 1, s.len() as int);
    assert forall|c: char| tag.contains(c) implies c != ':' && c != '/' by {
        let k = choose|k: int| 0 <= k < tag.len() && tag[k] == c;
        assert(s[i + 1 + k] == c);
    }
}

/// How a session uses its image.
#[derive(Clone, Copy, Debug, PartialEq, Eq, Structural)]
pub enum SessionMode {
    /// Run the image's harness, if it has one.
    Agent,
    /// Use the machine without driving its harness.
    DevVm,
}

impl Default for SessionMode {
    fn default() -> (res: SessionMode)
        ensures
            res == SessionMode::Agent,
    {
        SessionMode::Agent
    }
}

impl SessionMode {
    /// Whether the machine is used without its harness.
    pub fn is_dev_vm(self) -> (res: bool)
        ensures
            res == (self == SessionMode::DevVm),
    {
        matches!(self, SessionMode::DevVm)
    }
}

impl SessionMode {
    /// The stable name.
    pub open spec fn name(self) -> Seq<char> {
        match self {
            SessionMode::Agent => "agent"@,
            SessionMode::DevVm => "dev_vm"@,
        }
    }

    /// The stable name.
    pub fn as_str(&self) -> (res: &'static str)
        ensures
            res@ == self.name(),
    {
        match self {
            SessionMode::Agent => "agent",
            SessionMode::DevVm => "dev_vm",
        }
    }

    /// The mode with the name `s`, if there is one.
    pub fn parse(s: &str) -> (res: Option<SessionMode>)
        ensures
            res is Some ==> res->0.name() == s@,
            res is None ==> forall|k: SessionMode| k.name() != s@,
    {
        if same(s, "agent") {
            Some(SessionMode::Agent)
        } else if same(s, "dev_vm") {
            Some(SessionMode::DevVm)
        } else {
            None
        }
    }
}

/// Different session modes have different names.
pub proof fn session_mode_names_differ(a: SessionMode, b: SessionMode)
    requires
        a.name() == b.name(),
    ensures
        a == b,
{
    reveal_strlit("agent");
    reveal_strlit("dev_vm");
    assert("agent"@.len() == 5);
    assert("dev_vm"@.len() == 6);
}

/// The request for a session.
#[derive(Clone, Debug)]
pub struct SessionSpec {
    pub image: ImageRef,
    pub mode: SessionMode,
    pub user_id: Option<String>,
}

/// A session.
#[derive(Clone, Debug)]
pub struct Session {
    pub id: SessionId,
    pub user_id: Option<String>,
    pub status: SessionState,
    pub host_id: Option<HostId>,
    /// The sandbox that serves the session; none while it is idle, lost or ended.
    pub sandbox_id: Option<SandboxId>,
    pub image: ImageRef,
    pub mode: SessionMode,
    pub created_at: Timestamp,
    pub last_active_at: Timestamp,
    /// The disk manifest that the host published last.
    pub live_disk_manifest: Option<ManifestRef>,
}

/// A sandbox that serves a session, with what is reserved for it.
#[derive(Clone, Copy, Debug, PartialEq, Eq, Structural)]
pub struct SandboxAssignment {
    pub session_id: SessionId,
    pub sandbox_id: SandboxId,
    pub mem_budget_mib: i64,
    pub cpu_budget_vcpus: i32,
}

/// From where a session comes into each state: a session is bound from a request or from a place
/// where it has no sandbox, is ready or active only after it was bound, is evicted or moved only
/// while it is served or lost, and ends from wherever that end makes sense.
pub proof fn states_are_entered_from(from: SessionState, to: SessionState)
    ensures
        from.legal_next(to) <==> match to {
            SessionState::Pending => false,
            SessionState::Created => from is Pending || from is Idle || from is HostLost
                || from is Evacuating,
            SessionState::GuestReady => from is Created,
            SessionState::Active => from is Created || from is GuestReady,
            SessionState::Idle => from is Active || from is HostLost || from is Evacuating
                || from is Evicting,
            SessionState::HostLost => from is Created || from is GuestReady || from is Active
                || from is Evicting,
            SessionState::Evacuating => from is Active || from is HostLost,
            SessionState::Evicting => from is Active,
            SessionState::Failed => from is Pending || from is Created || from is GuestReady
                || from is Active,
            SessionState::Completed => from is Active || from is Idle || from is HostLost
                || from is Evacuating || from is Evicting,
            SessionState::Dead => from is Active || from is Idle || from is HostLost
                || from is Evacuating || from is Evicting,
        },
{
}

/// A state is terminal exactly if no state follows it.
pub proof fn terminal_states_have_no_successor(s: SessionState)
    ensures
        s.terminal() <==> forall|to: SessionState| !#[trigger] s.legal_next(to),
        s.terminal() <==> s is Failed || s is Completed || s is Dead,
{
    assert(SessionState::Pending.legal_next(SessionState::Failed));
    assert(SessionState::Created.legal_next(SessionState::Failed));
    assert(SessionState::GuestReady.legal_next(SessionState::Failed));
    assert(SessionState::Active.legal_next(SessionState::Failed));
    assert(SessionState::Idle.legal_next(SessionState::Dead));
    assert(SessionState::HostLost.legal_next(SessionState::Dead));
    assert(SessionState::Evacuating.legal_next(SessionState::Dead));
    assert(SessionState::Evicting.legal_next(SessionState::Dead));
}

/// A path with a tag is cut between the two: where the tag has neither a colon nor a slash, and
/// the last segment of the path names no digest. It is cut there and nowhere else.
pub proof fn tags_are_cut_off(path: Seq<char>, tag: Seq<char>, i: int)
    requires
        !tag.contains(':'),
        !tag.contains('/'),
        forall|j: int|
            0 <= j < path.len() && #[trigger] path[j] == '@' ==> exists|k: int|
                j < k < path.len() && #[trigger] path[k] == '/',
    ensures
        is_tag_cut(path + seq![':'] + tag, i) <==> i == path.len(),
{
    let s = path + seq![':'] + tag;
    let n = path.len() as int;
    assert(s[n] == ':');
    assert forall|j: int| n < j < s.len() implies #[trigger] s[j] != ':' && s[j] != '/' by {
        assert(s[j] == tag[j - n - 1]);
        assert(tag.contains(tag[j - n - 1]));
    }
    assert forall|j: int| 0 <= j < n && #[trigger] s[j] == '@' implies exists|k: int|
        j < k < n && #[trigger] s[k] == '/' by {
        assert(path[j] == '@');
        let k = choose|k: int| j < k < path.len() && #[trigger] path[k] == '/';
        assert(s[k] == '/');
    }
    assert(is_tag_cut(s, n));
    if is_tag_cut(s, i) && i != n {
        if i < n {
            assert(s[n] != ':');
        } else {
            assert(s[i] == ':');
        }
    }
}

/// A reference is left whole where its last segment has no colon, and where an `@` stands in the
/// last segment before its last colon: that colon belongs to a digest.
pub proof fn untagged_references_stay_whole(head: Seq<char>, last: Seq<char>, i: int)
    requires
        head.len() == 0 || head.last() == '/',
        !last.contains('/'),
        !last.contains(':') || exists|j: int|
            0 <= j < last.len() && #[trigger] last[j] == '@' && forall|k: int|
                0 <= k < j ==> #[trigger] last[k] != ':',
    ensures
        !is_tag_cut(head + last, i),
{
    let s = head + last;
    let n = head.len() as int;
    if is_tag_cut(s, i) {
        if i < n {
            assert(s[n - 1] == '/');
            if i < n - 1 {
                assert(s[n - 1] != '/');
            }
        } else {
            assert(last[i - n] == ':');
            assert(last.contains(last[i - n]));
            let j = choose|j: int|
                0 <= j < last.len() && #[trigger] last[j] == '@' && forall|k: int|
                    0 <= k < j ==> #[trigger] last[k] != ':';
            assert(s[n + j] == '@');
            assert(j <= i - n);
            let k = choose|k: int| n + j < k < i && #[trigger] s[k] == '/';
            assert(last[k - n] == '/');
            assert(last.contains(last[k - n]));
        }
    }
}

/// The stable names are the ones that are stored and sent: each is that of one value and of no
/// other.
pub proof fn session_state_names_are_stable(k: SessionState)
    ensures
        k.name() == "pending"@ <==> k == SessionState::Pending,
        k.name() == "created"@ <==> k == SessionState::Created,
        k.name() == "guest_ready"@ <==> k == SessionState::GuestReady,
        k.name() == "active"@ <==> k == SessionState::Active,
        k.name() == "idle"@ <==> k == SessionState::Idle,
        k.name() == "host_lost"@ <==> k == SessionState::HostLost,
        k.name() == "evacuating"@ <==> k == SessionState::Evacuating,
        k.name() == "evicting"@ <==> k == SessionState::Evicting,
        k.name() == "completed"@ <==> k == SessionState::Completed,
        k.name() == "failed"@ <==> k == SessionState::Failed,
        k.name() == "dead"@ <==> k == SessionState::Dead,
{
    if k.name() == "pending"@ {
        session_state_names_differ(k, SessionState::Pending);
    }
    if k.name() == "created"@ {
        session_state_names_differ(k, SessionState::Created);
    }
    if k.name() == "guest_ready"@ {
        session_state_names_differ(k, SessionState::GuestReady);
    }
    if k.name() == "active"@ {
        session_state_names_differ(k, SessionState::Active);
    }
    if k.name() == "idle"@ {
        session_state_names_differ(k, SessionState::Idle);
    }
    if k.name() == "host_lost"@ {
        session_state_names_differ(k, SessionState::HostLost);
    }
    if k.name() == "evacuating"@ {
        session_state_names_differ(k, SessionState::Evacuating);
    }
    if k.name() == "evicting"@ {
        session_state_names_differ(k, SessionState::Evicting);
    }
    if k.name() == "completed"@ {
        session_state_names_differ(k, SessionState::Completed);
    }
    if k.name() == "failed"@ {
        session_state_names_differ(k, SessionState::Failed);
    }
    if k.name() == "dead"@ {
        session_state_names_differ(k, SessionState::Dead);
    }
}

/// The stable names are the ones that are stored and sent: each is that of one value and of no
/// other.
pub proof fn session_mode_names_are_stable(k: SessionMode)
    ensures
        k.name() == "agent"@ <==> k == SessionMode::Agent,
        k.name() == "dev_vm"@ <==> k == SessionMode::DevVm,
{
    if k.name() == "agent"@ {
        session_mode_names_differ(k, SessionMode::Agent);
    }
    if k.name() == "dev_vm"@ {
        session_mode_names_differ(k, SessionMode::DevVm);
    }
}

} // verus!

//! The documents of sessions and of their moves.
use crate::document::{
    member, missing_text, read_json, text_value, write_json, wrong_kind_text, Decode, Encode,
    Member, Value,
};
use crate::text::same;
use crate::time::{write_time, Timestamp};
use crate::types::connector_oauth::read_need_time;
use crate::types::evacuation::{EvacLoss, EvacReceipt};
use crate::types::ids::{HostId, SandboxId, SessionId, Uuid};
use crate::types::manifest::ManifestRef;
use crate::types::session::{Session, SessionMode, SessionState};
use crate::wire::ids::{
    id_value, manifest_value, read_need_id, read_opt_id, read_opt_manifest,
};
use vstd::prelude::*;

verus! {

/// What an [`EvacLoss`] stands for: the reason for which memory was lost, if it was.
#[verifier::ext_equal]
pub ghost enum LossView {
    Lossless,
    Memory(Seq<char>),
}

impl View for EvacLoss {
    type V = LossView;

    open spec fn view(&self) -> LossView {
        match self {
            EvacLoss::Lossless => LossView::Lossless,
            EvacLoss::Memory { reason } => LossView::Memory(reason@),
        }
    }
}

impl Decode for EvacLoss {
    open spec fn decoded(t: crate::document::Tree) -> Result<LossView, Seq<char>> {
        let t = if t.begins("none"@) {
            t.in_order(seq!["kind"@], 1)
        } else {
            t.in_order(seq!["kind"@, "reason"@], 2)
        };
        let kind = t.need_text("kind"@);
        match crate::document::earlier(
            crate::document::error_of(t.table("loss"@)),
            crate::document::error_of(kind),
        ) {
            Some(e) => Err(e),
            None => if kind->Ok_0 == "none"@ {
                Ok(LossView::Lossless)
            } else if kind->Ok_0 == "memory"@ {
                match t.need_text("reason"@) {
                    Ok(reason) => Ok(LossView::Memory(reason)),
                    Err(e) => Err(e),
                }
            } else {
                Err(crate::document::wrong_kind("kind"@, "`none` or `memory`"@))
            },
        }
    }

    fn decode(doc: &Value) -> (res: Result<EvacLoss, String>) {
        let bare: [&str; 1] = ["kind"];
        let with_reason: [&str; 2] = ["kind", "reason"];
        let bare = bare.as_slice();
        assert(bare.deep_view() =~= seq!["kind"@]);
        let with_reason = with_reason.as_slice();
        assert(with_reason.deep_view() =~= seq!["kind"@, "reason"@]);
        let table = if doc.begins("none") {
            doc.in_order(bare, 1)
        } else {
            doc.in_order(with_reason, 2)
        };
        let doc = &table;
        if let Err(e) = doc.check_kind("loss") {
            return Err(e);
        }
        let kind = match doc.need_text("kind") {
            Ok(v) => v,
            Err(e) => return Err(e),
        };
        if same(kind.as_str(), "none") {
            Ok(EvacLoss::Lossless)
        } else if same(kind.as_str(), "memory") {
            match doc.need_text("reason") {
                Ok(reason) => Ok(EvacLoss::Memory { reason }),
                Err(e) => Err(e),
            }
        } else {
            Err(wrong_kind_text("kind", "`none` or `memory`"))
        }
    }
}

impl Encode for EvacLoss {
    open spec fn tree(v: LossView) -> crate::document::Tree {
        crate::document::Tree::Table(
            match v {
                LossView::Lossless => seq![
                    crate::document::named("kind"@, crate::document::Tree::Text("none"@)),
                ],
                LossView::Memory(reason) => seq![
                    crate::document::named("kind"@, crate::document::Tree::Text("memory"@)),
                    crate::document::named("reason"@, crate::document::Tree::Text(reason)),
                ],
            },
        )
    }

    open spec fn depth() -> nat {
        2
    }

    fn encode(&self) -> (res: Value) {
        let mut members: Vec<Member> = Vec::new();
        members.push(member("kind", Value::Text(self.as_str().to_owned())));
        if let EvacLoss::Memory { reason } = self {
            members.push(member("reason", Value::Text(reason.clone())));
        }
        assert(crate::document::table_view(members@) =~= EvacLoss::tree(self@)->Table_0);
        Value::Table(members)
    }

    proof fn is_read_back(v: LossView) {
        reveal_strlit("kind");
        reveal_strlit("reason");
        reveal_strlit("none");
        reveal_strlit("memory");
        assert("kind"@.len() == 4);
        assert("reason"@.len() == 6);
        assert("none"@.len() == 4);
        assert("memory"@.len() == 6);
        assert("kind"@[0] != "none"@[0]);
        assert("reason"@[0] != "memory"@[0]);
        let members = EvacLoss::tree(v)->Table_0;
        assert(crate::document::distinct_names(members));
        crate::document::distinct_member_is_found(members, 0);
        if v is Memory {
            crate::document::distinct_member_is_found(members, 1);
        }
        assert forall|i: int| 0 <= i < members.len() implies crate::document::plain(
            (#[trigger] members[i]).value,
            1,
        ) by {
        }
    }
}

/// What an [`EvacReceipt`] stands for.
#[verifier::ext_equal]
pub ghost struct ReceiptView {
    pub new_host_id: Uuid,
    pub new_sandbox_id: Uuid,
    pub loss: LossView,
}

impl View for EvacReceipt {
    type V = ReceiptView;

    open spec fn view(&self) -> ReceiptView {
        ReceiptView {
            new_host_id: self.new_host_id.0,
            new_sandbox_id: self.new_sandbox_id.0,
            loss: self.loss@,
        }
    }
}

impl ReceiptView {
    /// The receipt as a document.
    pub open spec fn tree(self) -> crate::document::Tree {
        crate::document::Tree::Table(
            seq![
                crate::document::named("new_host_id"@, crate::wire::ids::id_tree(self.new_host_id)),
                crate::document::named("new_sandbox_id"@, crate::wire::ids::id_tree(self.new_sandbox_id)),
                crate::document::named("loss"@, EvacLoss::tree(self.loss)),
            ],
        )
    }

    /// The receipt that a document stands for, or the reason why it stands for none.
    pub open spec fn decoded(t: crate::document::Tree) -> Result<ReceiptView, Seq<char>> {
        let t = t.in_order(seq!["new_host_id"@, "new_sandbox_id"@, "loss"@], 3);
        let new_host_id = crate::wire::ids::need_id(t, "new_host_id"@);
        let new_sandbox_id = crate::wire::ids::need_id(t, "new_sandbox_id"@);
        let loss = match t.member("loss"@) {
            None => Err(crate::document::missing("loss"@)),
            Some(sub) => EvacLoss::decoded(sub),
        };
        match crate::document::earlier(
            crate::document::earlier(
                crate::document::earlier(
                    crate::document::error_of(t.table("receipt"@)),
                    crate::document::error_of(new_host_id),
                ),
                crate::document::error_of(new_sandbox_id),
            ),
            crate::document::error_of(loss),
        ) {
            Some(e) => Err(e),
            None => Ok(
                ReceiptView {
                    new_host_id: new_host_id->Ok_0,
                    new_sandbox_id: new_sandbox_id->Ok_0,
                    loss: loss->Ok_0,
                },
            ),
        }
    }
}

/// The document of a receipt has what the receipt holds.
proof fn receipt_members(r: ReceiptView)
    ensures
        crate::document::plain(r.tree(), 100),
        r.tree().member("new_host_id"@) == Some(crate::wire::ids::id_tree(r.new_host_id)),
        r.tree().member("new_sandbox_id"@) == Some(crate::wire::ids::id_tree(r.new_sandbox_id)),
        r.tree().member("loss"@) == Some(EvacLoss::tree(r.loss)),
        EvacLoss::decoded(EvacLoss::tree(r.loss)) == Ok::<LossView, Seq<char>>(r.loss),
{
    reveal_strlit("new_host_id");
    reveal_strlit("new_sandbox_id");
    reveal_strlit("loss");
    assert("new_host_id"@.len() == 11);
    assert("new_sandbox_id"@.len() == 14);
    assert("loss"@.len() == 4);
    let members = r.tree()->Table_0;
    assert(crate::document::distinct_names(members));
    crate::document::distinct_member_is_found(members, 0);
    crate::document::distinct_member_is_found(members, 1);
    crate::document::distinct_member_is_found(members, 2);
    EvacLoss::is_read_back(r.loss);
    crate::document::plain_within(EvacLoss::tree(r.loss), 2, 99);
    assert forall|i: int| 0 <= i < members.len() implies crate::document::plain(
        (#[trigger] members[i]).value,
        99,
    ) by {
    }
}

impl EvacReceipt {
    /// Writes the receipt as JSON.
    pub fn to_json(&self) -> (res: String)
        ensures
            res@ == crate::document::json_written(self@.tree()),
    {
        let mut members: Vec<Member> = Vec::new();
        members.push(member("new_host_id", id_value(self.new_host_id.0)));
        members.push(member("new_sandbox_id", id_value(self.new_sandbox_id.0)));
        members.push(member("loss", self.loss.encode()));
        assert(crate::document::table_view(members@) =~= self@.tree()->Table_0);
        let doc = Value::Table(members);
        proof {
            receipt_members(self@);
        }
        write_json(&doc)
    }

    /// Reads a receipt from a document. What was written is read back.
    pub fn from_document(doc: &Value) -> (res: Result<EvacReceipt, String>)
        ensures
            res is Ok <==> ReceiptView::decoded(doc@) is Ok,
            res is Ok ==> ReceiptView::decoded(doc@)->Ok_0 == res->Ok_0@,
            res is Err ==> ReceiptView::decoded(doc@)->Err_0 == res->Err_0@,
            forall|r: ReceiptView| doc@ == #[trigger] r.tree() ==> res is Ok && res->Ok_0@ == r,
    {
        proof {
            assert forall|r: ReceiptView| doc@ == #[trigger] r.tree() implies doc@.member(
                "new_host_id"@,
            ) == Some(crate::wire::ids::id_tree(r.new_host_id)) && doc@.member("new_sandbox_id"@) == Some(
                crate::wire::ids::id_tree(r.new_sandbox_id),
            ) && doc@.member("loss"@) == Some(EvacLoss::tree(r.loss)) && EvacLoss::decoded(
                EvacLoss::tree(r.loss),
            ) == Ok::<LossView, Seq<char>>(r.loss) by {
                receipt_members(r);
            }
        }
        let order: [&str; 3] = ["new_host_id", "new_sandbox_id", "loss"];
        let names = order.as_slice();
        assert(names.deep_view() =~= seq!["new_host_id"@, "new_sandbox_id"@, "loss"@]);
        let table = doc.in_order(names, 3);
        let doc = &table;
        if let Err(e) = doc.check_kind("receipt") {
            return Err(e);
        }
        let new_host_id = match read_need_id(doc, "new_host_id") {
            Ok(v) => HostId(v),
            Err(e) => return Err(e),
        };
        let new_sandbox_id = match read_need_id(doc, "new_sandbox_id") {
            Ok(v) => SandboxId(v),
            Err(e) => return Err(e),
        };
        let loss = match doc.get("loss") {
            None => return Err(missing_text("loss")),
            Some(sub) => match EvacLoss::decode(sub) {
                Ok(v) => v,
                Err(e) => return Err(e),
            },
        };
        Ok(EvacReceipt { new_host_id, new_sandbox_id, loss })
    }

    /// Reads a receipt from JSON. What was written is read back. Of a name that is repeated, the
    /// last value counts.
    pub fn from_json(text: &str) -> (res: Result<EvacReceipt, String>)
        ensures
            match crate::document::json_read(text@) {
                Ok(t) => {
                    &&& res is Ok <==> ReceiptView::decoded(t) is Ok
                    &&& res is Ok ==> ReceiptView::decoded(t)->Ok_0 == res->Ok_0@
                    &&& res is Err ==> ReceiptView::decoded(t)->Err_0 == res->Err_0@
                },
                Err(e) => res is Err && res->Err_0@ == e,
            },
            forall|r: ReceiptView|
                text@ == crate::document::json_written(#[trigger] r.tree()) ==> res is Ok
                    && res->Ok_0@ == r,
    {
        proof {
            assert forall|r: ReceiptView| text@ == crate::document::json_written(
                #[trigger] r.tree(),
            ) implies crate::document::plain(r.tree(), 100) by {
                receipt_members(r);
            }
        }
        match read_json(text) {
            Ok(doc) => EvacReceipt::from_document(&doc),
            Err(e) => Err(e),
        }
    }
}

/// What a [`Session`] stands for.
#[verifier::ext_equal]
pub ghost struct SessionView {
    pub id: Uuid,
    pub user_id: Option<Seq<char>>,
    pub status: SessionState,
    pub host_id: Option<Uuid>,
    pub sandbox_id: Option<Uuid>,
    pub image: Seq<char>,
    pub mode: SessionMode,
    pub created_at: Timestamp,
    pub last_active_at: Timestamp,
    pub live_disk_manifest: Option<ManifestRef>,
}

/// The identifier of a host, if there is one.
pub open spec fn host_bits(id: Option<HostId>) -> Option<Uuid> {
    match id {
        Some(id) => Some(id.0),
        None => None,
    }
}

/// The identifier of a sandbox, if there is one.
pub open spec fn sandbox_bits(id: Option<SandboxId>) -> Option<Uuid> {
    match id {
        Some(id) => Some(id.0),
        None => None,
    }
}

impl View for Session {
    type V = SessionView;

    open spec fn view(&self) -> SessionView {
        SessionView {
            id: self.id.0,
            user_id: self.user_id.deep_view(),
            status: self.status,
            host_id: host_bits(self.host_id),
            sandbox_id: sandbox_bits(self.sandbox_id),
            image: self.image@,
            mode: self.mode,
            created_at: self.created_at,
            last_active_at: self.last_active_at,
            live_disk_manifest: self.live_disk_manifest,
        }
    }
}

/// The state of a session, as a document says it.
pub open spec fn decoded_status(t: crate::document::Tree) -> Result<SessionState, Seq<char>> {
    match t.need_name("status"@) {
        Err(e) => Err(e),
        Ok(s) => if exists|k: SessionState| #[trigger] k.name() == s {
            Ok(choose|k: SessionState| #[trigger] k.name() == s)
        } else {
            Err(crate::document::wrong_kind("status"@, "a state of a session"@))
        },
    }
}

/// Reads the state of a session.
fn decode_status(doc: &Value) -> (res: Result<SessionState, String>)
    ensures
        res is Ok <==> decoded_status(doc@) is Ok,
        res is Ok ==> decoded_status(doc@)->Ok_0 == res->Ok_0,
        res is Err ==> decoded_status(doc@)->Err_0 == res->Err_0@,
{
    match doc.need_name("status") {
        Err(e) => Err(e),
        Ok(s) => match SessionState::parse(s.as_str()) {
            Some(k) => {
                proof {
                    crate::types::session::session_state_names_differ(
                        k,
                        choose|k: SessionState| #[trigger] k.name() == s@,
                    );
                }
                Ok(k)
            },
            None => Err(wrong_kind_text("status", "a state of a session")),
        },
    }
}

/// The mode of a session, as a document says it; `Agent`, if it says nothing.
pub open spec fn decoded_session_mode(t: crate::document::Tree) -> Result<SessionMode, Seq<char>> {
    match t.member("mode"@) {
        None => Ok(SessionMode::Agent),
        Some(sub) => match sub.bare_name() {
            Some(s) => if exists|k: SessionMode| #[trigger] k.name() == s {
                Ok(choose|k: SessionMode| #[trigger] k.name() == s)
            } else {
                Err(crate::document::wrong_kind("mode"@, "a mode of a session"@))
            },
            None => Err(crate::document::wrong_kind("mode"@, "a mode of a session"@)),
        },
    }
}

/// Reads the mode of a session.
fn decode_session_mode(doc: &Value) -> (res: Result<SessionMode, String>)
    ensures
        res is Ok <==> decoded_session_mode(doc@) is Ok,
        res is Ok ==> decoded_session_mode(doc@)->Ok_0 == res->Ok_0,
        res is Err ==> decoded_session_mode(doc@)->Err_0 == res->Err_0@,
{
    match doc.get("mode") {
        None => Ok(SessionMode::Agent),
        Some(sub) => match sub.bare_name() {
            Some(s) => match SessionMode::parse(s) {
                Some(k) => {
                    proof {
                        crate::types::session::session_mode_names_differ(
                            k,
                            choose|k: SessionMode| #[trigger] k.name() == s@,
                        );
                    }
                    Ok(k)
                },
                None => Err(wrong_kind_text("mode", "a mode of a session")),
            },
            None => Err(wrong_kind_text("mode", "a mode of a session")),
        },
    }
}

impl SessionView {
    /// The session as a document.
    pub open spec fn tree(self) -> crate::document::Tree {
        crate::document::Tree::Table(
            seq![
                crate::document::named("id"@, crate::wire::ids::id_tree(self.id)),
                crate::document::named("user_id"@, crate::document::text_tree(self.user_id)),
                crate::document::named("status"@, crate::document::Tree::Text(self.status.name())),
                crate::document::named("host_id"@, crate::wire::ids::opt_id_tree(self.host_id)),
                crate::document::named("sandbox_id"@, crate::wire::ids::opt_id_tree(self.sandbox_id)),
                crate::document::named("image"@, crate::document::Tree::Text(self.image)),
                crate::document::named("mode"@, crate::document::Tree::Text(self.mode.name())),
                crate::document::named("created_at"@, crate::types::connector_oauth::time_tree(self.created_at)),
                crate::document::named("last_active_at"@, crate::types::connector_oauth::time_tree(self.last_active_at)),
                crate::document::named("live_disk_manifest"@, crate::wire::ids::opt_manifest_tree(self.live_disk_manifest)),
            ],
        )
    }

    /// The points in time lie in the calendar.
    pub open spec fn wf(self) -> bool {
        self.created_at.covered() && self.last_active_at.covered()
    }

    /// The session that a document stands for, or the reason why it stands for none.
    pub open spec fn decoded(t: crate::document::Tree) -> Result<SessionView, Seq<char>> {
        let t = t.in_order(
            seq![
                "id"@,
                "user_id"@,
                "status"@,
                "host_id"@,
                "sandbox_id"@,
                "image"@,
                "mode"@,
                "created_at"@,
                "last_active_at"@,
                "live_disk_manifest"@,
            ],
            9,
        );
        let id = crate::wire::ids::need_id(t, "id"@);
        let user_id = t.opt_text("user_id"@, true);
        let status = decoded_status(t);
        let host_id = crate::wire::ids::opt_id(t, "host_id"@);
        let sandbox_id = crate::wire::ids::opt_id(t, "sandbox_id"@);
        let image = t.need_text("image"@);
        let mode = decoded_session_mode(t);
        let created_at = crate::types::connector_oauth::need_time(t, "created_at"@);
        let last_active_at = crate::types::connector_oauth::need_time(t, "last_active_at"@);
        let live_disk_manifest = crate::wire::ids::opt_manifest(t, "live_disk_manifest"@);
        match crate::document::earlier(
            crate::document::earlier(
                crate::document::earlier(
                    crate::document::earlier(
                        crate::document::earlier(
                            crate::document::earlier(
                                crate::document::earlier(
                                    crate::document::earlier(
                                        crate::document::earlier(
                                            crate::document::earlier(
                                                crate::document::error_of(t.table("session"@)),
                                                crate::document::error_of(id),
                                            ),
                                            crate::document::error_of(user_id),
                                        ),
                                        crate::document::error_of(status),
                                    ),
                                    crate::document::error_of(host_id),
                                ),
                                crate::document::error_of(sandbox_id),
                            ),
                            crate::document::error_of(image),
                        ),
                        crate::document::error_of(mode),
                    ),
                    crate::document::error_of(created_at),
                ),
                crate::document::error_of(last_active_at),
            ),
            crate::document::error_of(live_disk_manifest),
        ) {
            Some(e) => Err(e),
            None => Ok(
                SessionView {
                    id: id->Ok_0,
                    user_id: user_id->Ok_0,
                    status: status->Ok_0,
                    host_id: host_id->Ok_0,
                    sandbox_id: sandbox_id->Ok_0,
                    image: image->Ok_0,
                    mode: mode->Ok_0,
                    created_at: created_at->Ok_0,
                    last_active_at: last_active_at->Ok_0,
                    live_disk_manifest: live_disk_manifest->Ok_0,
                },
            ),
        }
    }
}

/// The document `t` has what the session `s` holds.
spec fn has_session(t: crate::document::Tree, s: SessionView) -> bool {
    &&& t is Table
    &&& t.member("id"@) == Some(crate::wire::ids::id_tree(s.id))
    &&& t.member("user_id"@) == Some(crate::document::text_tree(s.user_id))
    &&& t.member("status"@) == Some(crate::document::Tree::Text(s.status.name()))
    &&& t.member("host_id"@) == Some(crate::wire::ids::opt_id_tree(s.host_id))
    &&& t.member("sandbox_id"@) == Some(crate::wire::ids::opt_id_tree(s.sandbox_id))
    &&& t.member("image"@) == Some(crate::document::Tree::Text(s.image))
    &&& t.member("mode"@) == Some(crate::document::Tree::Text(s.mode.name()))
    &&& t.member("created_at"@) == Some(crate::types::connector_oauth::time_tree(s.created_at))
    &&& t.member("last_active_at"@) == Some(crate::types::connector_oauth::time_tree(s.last_active_at))
    &&& t.member("live_disk_manifest"@) == Some(crate::wire::ids::opt_manifest_tree(s.live_disk_manifest))
}

/// The document of a session has what the session holds.
proof fn session_members(s: SessionView)
    ensures
        crate::document::plain(s.tree(), 100),
        has_session(s.tree(), s),
{
    reveal_strlit("id");
    reveal_strlit("user_id");
    reveal_strlit("status");
    reveal_strlit("host_id");
    reveal_strlit("sandbox_id");
    reveal_strlit("image");
    reveal_strlit("mode");
    reveal_strlit("created_at");
    reveal_strlit("last_active_at");
    reveal_strlit("live_disk_manifest");
    assert("id"@.len() == 2);
    assert("user_id"@.len() == 7);
    assert("status"@.len() == 6);
    assert("host_id"@.len() == 7);
    assert("sandbox_id"@.len() == 10);
    assert("image"@.len() == 5);
    assert("mode"@.len() == 4);
    assert("created_at"@.len() == 10);
    assert("last_active_at"@.len() == 14);
    assert("live_disk_manifest"@.len() == 18);
    assert("user_id"@[0] != "host_id"@[0]);
    assert("sandbox_id"@[0] != "created_at"@[0]);
    let members = s.tree()->Table_0;
    assert(crate::document::distinct_names(members));
    crate::document::distinct_member_is_found(members, 0);
    crate::document::distinct_member_is_found(members, 1);
    crate::document::distinct_member_is_found(members, 2);
    crate::document::distinct_member_is_found(members, 3);
    crate::document::distinct_member_is_found(members, 4);
    crate::document::distinct_member_is_found(members, 5);
    crate::document::distinct_member_is_found(members, 6);
    crate::document::distinct_member_is_found(members, 7);
    crate::document::distinct_member_is_found(members, 8);
    crate::document::distinct_member_is_found(members, 9);
    if s.live_disk_manifest is Some {
        crate::wire::ids::manifest_members(s.live_disk_manifest->0);
        crate::document::plain_within(crate::wire::ids::manifest_tree(s.live_disk_manifest->0), 2, 99);
    }
    assert forall|i: int| 0 <= i < members.len() implies crate::document::plain(
        (#[trigger] members[i]).value,
        99,
    ) by {
    }
}

/// The name of a state and of a mode are read back.
proof fn names_are_read_back(t: crate::document::Tree, status: SessionState, mode: SessionMode)
    requires
        t.member("status"@) == Some(crate::document::Tree::Text(status.name())),
        t.member("mode"@) == Some(crate::document::Tree::Text(mode.name())),
    ensures
        decoded_status(t) == Ok::<SessionState, Seq<char>>(status),
        decoded_session_mode(t) == Ok::<SessionMode, Seq<char>>(mode),
{
    crate::types::session::session_state_names_differ(
        status,
        choose|k: SessionState| #[trigger] k.name() == status.name(),
    );
    crate::types::session::session_mode_names_differ(
        mode,
        choose|k: SessionMode| #[trigger] k.name() == mode.name(),
    );
}

impl Session {
    /// Writes the session as JSON.
    pub fn to_json(&self) -> (res: String)
        requires
            self@.wf(),
        ensures
            res@ == crate::document::json_written(self@.tree()),
    {
        let host_id = match self.host_id {
            Some(id) => id_value(id.0),
            None => Value::Null,
        };
        let sandbox_id = match self.sandbox_id {
            Some(id) => id_value(id.0),
            None => Value::Null,
        };
        let live_disk_manifest = match &self.live_disk_manifest {
            Some(m) => manifest_value(m),
            None => Value::Null,
        };
        let mut members: Vec<Member> = Vec::new();
        members.push(member("id", id_value(self.id.0)));
        members.push(member("user_id", text_value(&self.user_id)));
        members.push(member("status", Value::Text(self.status.as_str().to_owned())));
        members.push(member("host_id", host_id));
        members.push(member("sandbox_id", sandbox_id));
        members.push(member("image", Value::Text(self.image.clone())));
        members.push(member("mode", Value::Text(self.mode.as_str().to_owned())));
        members.push(member("created_at", Value::Text(write_time(self.created_at))));
        members.push(member("last_active_at", Value::Text(write_time(self.last_active_at))));
        members.push(member("live_disk_manifest", live_disk_manifest));
        assert(crate::document::table_view(members@) =~= self@.tree()->Table_0);
        let doc = Value::Table(members);
        proof {
            session_members(self@);
        }
        write_json(&doc)
    }

    /// Reads a session from a document. What was written is read back.
    pub fn from_document(doc: &Value) -> (res: Result<Session, String>)
        ensures
            res is Ok <==> SessionView::decoded(doc@) is Ok,
            res is Ok ==> SessionView::decoded(doc@)->Ok_0 == res->Ok_0@,
            res is Err ==> SessionView::decoded(doc@)->Err_0 == res->Err_0@,
            res is Ok ==> res->Ok_0@.wf(),
            forall|s: SessionView|
                s.wf() && doc@ == #[trigger] s.tree() ==> res is Ok && res->Ok_0@ == s,
    {
        proof {
            assert forall|s: SessionView| doc@ == #[trigger] s.tree() implies has_session(doc@, s)
                && decoded_status(doc@) == Ok::<SessionState, Seq<char>>(s.status)
                && decoded_session_mode(doc@) == Ok::<SessionMode, Seq<char>>(s.mode) by {
                session_members(s);
                names_are_read_back(doc@, s.status, s.mode);
            }
        }
        let order: [&str; 10] = [
            "id",
            "user_id",
            "status",
            "host_id",
            "sandbox_id",
            "image",
            "mode",
            "created_at",
            "last_active_at",
            "live_disk_manifest",
        ];
        let names = order.as_slice();
        assert(names.deep_view() =~= seq![
            "id"@,
            "user_id"@,
            "status"@,
            "host_id"@,
            "sandbox_id"@,
            "image"@,
            "mode"@,
            "created_at"@,
            "last_active_at"@,
            "live_disk_manifest"@,
        ]);
        let table = doc.in_order(names, 9);
        let doc = &table;
        if let Err(e) = doc.check_kind("session") {
            return Err(e);
        }
        let id = match read_need_id(doc, "id") {
            Ok(v) => SessionId(v),
            Err(e) => return Err(e),
        };
        let user_id = match doc.opt_text("user_id", true) {
            Ok(v) => v,
            Err(e) => return Err(e),
        };
        let status = match decode_status(doc) {
            Ok(v) => v,
            Err(e) => return Err(e),
        };
        let host_id = match read_opt_id(doc, "host_id") {
            Ok(v) => match v {
                Some(id) => Some(HostId(id)),
                None => None,
            },
            Err(e) => return Err(e),
        };
        let sandbox_id = match read_opt_id(doc, "sandbox_id") {
            Ok(v) => match v {
                Some(id) => Some(SandboxId(id)),
                None => None,
            },
            Err(e) => return Err(e),
        };
        let image = match doc.need_text("image") {
            Ok(v) => v,
            Err(e) => return Err(e),
        };
        let mode = match decode_session_mode(doc) {
            Ok(v) => v,
            Err(e) => return Err(e),
        };
        let created_at = match read_need_time(doc, "created_at") {
            Ok(v) => v,
            Err(e) => return Err(e),
        };
        let last_active_at = match read_need_time(doc, "last_active_at") {
            Ok(v) => v,
            Err(e) => return Err(e),
        };
        let live_disk_manifest = match read_opt_manifest(doc, "live_disk_manifest") {
            Ok(v) => v,
            Err(e) => return Err(e),
        };
        Ok(
            Session {
                id,
                user_id,
                status,
                host_id,
                sandbox_id,
                image,
                mode,
                created_at,
                last_active_at,
                live_disk_manifest,
            },
        )
    }

    /// Reads a session from JSON. What was written is read back. Of a name that is repeated, the
    /// last value counts.
    pub fn from_json(text: &str) -> (res: Result<Session, String>)
        ensures
            match crate::document::json_read(text@) {
                Ok(t) => {
                    &&& res is Ok <==> SessionView::decoded(t) is Ok
                    &&& res is Ok ==> SessionView::decoded(t)->Ok_0 == res->Ok_0@
                    &&& res is Err ==> SessionView::decoded(t)->Err_0 == res->Err_0@
                },
                Err(e) => res is Err && res->Err_0@ == e,
            },
            res is Ok ==> res->Ok_0@.wf(),
            forall|s: SessionView|
                s.wf() && text@ == crate::document::json_written(#[trigger] s.tree())
                    ==> res is Ok && res->Ok_0@ == s,
    {
        proof {
            assert forall|s: SessionView| text@ == crate::document::json_written(
                #[trigger] s.tree(),
            ) implies crate::document::plain(s.tree(), 100) by {
                session_members(s);
            }
        }
        match read_json(text) {
            Ok(doc) => Session::from_document(&doc),
            Err(e) => Err(e),
        }
    }
}

/// A loss is what its kind says: none, or memory with its reason.
pub proof fn losses_are_read_by_kind(t: crate::document::Tree, v: LossView)
    requires
        t is Table,
    ensures
        EvacLoss::decoded(t) == Ok::<LossView, Seq<char>>(v) <==> match v {
            LossView::Lossless => t.member("kind"@) == Some(crate::document::Tree::Text("none"@)),
            LossView::Memory(reason) => t.member("kind"@) == Some(
                crate::document::Tree::Text("memory"@),
            ) && t.member("reason"@) == Some(crate::document::Tree::Text(reason)),
        },
{
    reveal_strlit("none");
    reveal_strlit("memory");
    assert("none"@.len() == 4);
    assert("memory"@.len() == 6);
}

/// A receipt is what stands under its names.
pub proof fn receipts_are_read_by_name(t: crate::document::Tree, v: ReceiptView)
    requires
        t is Table,
    ensures
        ReceiptView::decoded(t) == Ok::<ReceiptView, Seq<char>>(v) <==> {
            &&& crate::wire::ids::is_id(t, "new_host_id"@, v.new_host_id)
            &&& crate::wire::ids::is_id(t, "new_sandbox_id"@, v.new_sandbox_id)
            &&& t.member("loss"@) is Some
            &&& EvacLoss::decoded(t.member("loss"@)->0) == Ok::<LossView, Seq<char>>(v.loss)
        },
{
}

/// A session is what stands under its names; a session of which no mode is told is an agent's.
#[verifier::rlimit(40)]
pub proof fn sessions_are_read_by_name(t: crate::document::Tree, s: SessionView)
    requires
        t is Table,
    ensures
        SessionView::decoded(t) == Ok::<SessionView, Seq<char>>(s) <==> {
            &&& crate::wire::ids::is_id(t, "id"@, s.id)
            &&& crate::document::says(t, "user_id"@, s.user_id)
            &&& t.member("status"@) is Some && t.member("status"@)->0.bare_name() == Some(
                s.status.name(),
            )
            &&& crate::wire::ids::is_opt_id(t, "host_id"@, s.host_id)
            &&& crate::wire::ids::is_opt_id(t, "sandbox_id"@, s.sandbox_id)
            &&& t.member("image"@) == Some(crate::document::Tree::Text(s.image))
            &&& (t.member("mode"@) is None && s.mode == SessionMode::Agent) || (t.member("mode"@)
                is Some && t.member("mode"@)->0.bare_name() == Some(s.mode.name()))
            &&& crate::wire::ids::is_time(t, "created_at"@, s.created_at)
            &&& crate::wire::ids::is_time(t, "last_active_at"@, s.last_active_at)
            &&& match s.live_disk_manifest {
                None => crate::document::says(t, "live_disk_manifest"@, None),
                Some(m) => t.member("live_disk_manifest"@) is Some && !(t.member(
                    "live_disk_manifest"@,
                )->0 is Null) && crate::wire::ids::manifest_of(t.member("live_disk_manifest"@)->0)
                    == Ok::<ManifestRef, Seq<char>>(m),
            }
        },
{
    if decoded_status(t) is Ok {
        assert forall|k: SessionState| #[trigger]
            k.name() == t.need_name("status"@)->Ok_0 implies k == decoded_status(t)->Ok_0 by {
            crate::types::session::session_state_names_differ(k, decoded_status(t)->Ok_0);
        }
    }
    assert(s.status.name() == s.status.name());
    assert(s.mode.name() == s.mode.name());
    if decoded_session_mode(t) is Ok && t.member("mode"@) is Some {
        assert forall|k: SessionMode| #[trigger]
            k.name() == t.member("mode"@)->0.bare_name()->0 implies k == decoded_session_mode(
            t,
        )->Ok_0 by {
            crate::types::session::session_mode_names_differ(k, decoded_session_mode(t)->Ok_0);
        }
    }
}

} // verus!

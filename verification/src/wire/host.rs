//! The documents of what a host can do.
use crate::document::{member, text_value, wrong_kind_text, Decode, Encode, Member, Value};
use crate::text::same;
use crate::types::host::{CapStatus, HostCapabilities};
use vstd::prelude::*;

verus! {

/// What a [`CapStatus`] stands for.
#[verifier::ext_equal]
pub ghost enum CapView {
    Unknown,
    Healthy(Option<Seq<char>>),
    Failed(Seq<char>),
    NotApplicable,
}

impl View for CapStatus {
    type V = CapView;

    open spec fn view(&self) -> CapView {
        match self {
            CapStatus::Unknown => CapView::Unknown,
            CapStatus::Healthy(note) => CapView::Healthy(note.deep_view()),
            CapStatus::Failed(why) => CapView::Failed(why@),
            CapStatus::NotApplicable => CapView::NotApplicable,
        }
    }
}

/// Nothing stands under `detail`.
pub open spec fn no_detail(t: crate::document::Tree) -> Result<(), Seq<char>> {
    match t.member("detail"@) {
        None => Ok(()),
        Some(sub) => if sub is Null {
            Ok(())
        } else {
            Err(crate::document::wrong_kind("detail"@, "absent"@))
        },
    }
}

/// Tells whether nothing stands under `detail`; if not, why.
fn check_no_detail(doc: &Value) -> (res: Result<(), String>)
    ensures
        res is Ok <==> no_detail(doc@) is Ok,
        res is Err ==> no_detail(doc@)->Err_0 == res->Err_0@,
{
    match doc.get("detail") {
        None => Ok(()),
        Some(Value::Null) => Ok(()),
        Some(_) => Err(wrong_kind_text("detail", "absent")),
    }
}

impl Decode for CapStatus {
    open spec fn decoded(t: crate::document::Tree) -> Result<CapView, Seq<char>> {
        let t = t.in_order(seq!["status"@, "detail"@], 2);
        let status = t.need_text("status"@);
        match crate::document::earlier(
            crate::document::error_of(t.table("capability"@)),
            crate::document::error_of(status),
        ) {
            Some(e) => Err(e),
            None => if status->Ok_0 == "unknown"@ {
                match no_detail(t) {
                    Ok(_) => Ok(CapView::Unknown),
                    Err(e) => Err(e),
                }
            } else if status->Ok_0 == "ok"@ {
                match t.opt_text("detail"@, true) {
                    Ok(note) => Ok(CapView::Healthy(note)),
                    Err(e) => Err(e),
                }
            } else if status->Ok_0 == "failed"@ {
                match t.need_text("detail"@) {
                    Ok(why) => Ok(CapView::Failed(why)),
                    Err(e) => Err(e),
                }
            } else if status->Ok_0 == "not_applicable"@ {
                match no_detail(t) {
                    Ok(_) => Ok(CapView::NotApplicable),
                    Err(e) => Err(e),
                }
            } else {
                Err(
                    crate::document::wrong_kind(
                        "status"@,
                        "`unknown`, `ok`, `failed` or `not_applicable`"@,
                    ),
                )
            },
        }
    }

    fn decode(doc: &Value) -> (res: Result<CapStatus, String>) {
        let order: [&str; 2] = ["status", "detail"];
        let names = order.as_slice();
        assert(names.deep_view() =~= seq!["status"@, "detail"@]);
        let table = doc.in_order(names, 2);
        let doc = &table;
        if let Err(e) = doc.check_kind("capability") {
            return Err(e);
        }
        let status = match doc.need_text("status") {
            Ok(v) => v,
            Err(e) => return Err(e),
        };
        if same(status.as_str(), "unknown") {
            match check_no_detail(doc) {
                Ok(_) => Ok(CapStatus::Unknown),
                Err(e) => Err(e),
            }
        } else if same(status.as_str(), "ok") {
            match doc.opt_text("detail", true) {
                Ok(note) => Ok(CapStatus::Healthy(note)),
                Err(e) => Err(e),
            }
        } else if same(status.as_str(), "failed") {
            match doc.need_text("detail") {
                Ok(why) => Ok(CapStatus::Failed(why)),
                Err(e) => Err(e),
            }
        } else if same(status.as_str(), "not_applicable") {
            match check_no_detail(doc) {
                Ok(_) => Ok(CapStatus::NotApplicable),
                Err(e) => Err(e),
            }
        } else {
            Err(wrong_kind_text("status", "`unknown`, `ok`, `failed` or `not_applicable`"))
        }
    }
}

impl Encode for CapStatus {
    open spec fn tree(v: CapView) -> crate::document::Tree {
        crate::document::Tree::Table(
            match v {
                CapView::Unknown => seq![
                    crate::document::named("status"@, crate::document::Tree::Text("unknown"@)),
                ],
                CapView::Healthy(note) => seq![
                    crate::document::named("status"@, crate::document::Tree::Text("ok"@)),
                    crate::document::named("detail"@, crate::document::text_tree(note)),
                ],
                CapView::Failed(why) => seq![
                    crate::document::named("status"@, crate::document::Tree::Text("failed"@)),
                    crate::document::named("detail"@, crate::document::Tree::Text(why)),
                ],
                CapView::NotApplicable => seq![
                    crate::document::named(
                        "status"@,
                        crate::document::Tree::Text("not_applicable"@),
                    ),
                ],
            },
        )
    }

    open spec fn depth() -> nat {
        2
    }

    fn encode(&self) -> (res: Value) {
        let mut members: Vec<Member> = Vec::new();
        match self {
            CapStatus::Unknown => {
                members.push(member("status", Value::Text("unknown".to_owned())));
            },
            CapStatus::Healthy(note) => {
                members.push(member("status", Value::Text("ok".to_owned())));
                members.push(member("detail", text_value(note)));
            },
            CapStatus::Failed(why) => {
                members.push(member("status", Value::Text("failed".to_owned())));
                members.push(member("detail", Value::Text(why.clone())));
            },
            CapStatus::NotApplicable => {
                members.push(member("status", Value::Text("not_applicable".to_owned())));
            },
        }
        assert(crate::document::table_view(members@) =~= CapStatus::tree(self@)->Table_0);
        Value::Table(members)
    }

    proof fn is_read_back(v: CapView) {
        reveal_strlit("status");
        reveal_strlit("detail");
        reveal_strlit("unknown");
        reveal_strlit("ok");
        reveal_strlit("failed");
        reveal_strlit("not_applicable");
        assert("status"@.len() == 6);
        assert("detail"@.len() == 6);
        assert("unknown"@.len() == 7);
        assert("ok"@.len() == 2);
        assert("failed"@.len() == 6);
        assert("not_applicable"@.len() == 14);
        assert("status"@[0] != "detail"@[0]);
        assert("status"@[0] != "failed"@[0]);
        assert("detail"@[0] != "failed"@[0]);
        let t = CapStatus::tree(v);
        let members = t->Table_0;
        assert(crate::document::distinct_names(members));
        crate::document::distinct_member_is_found(members, 0);
        if members.len() == 2 {
            crate::document::distinct_member_is_found(members, 1);
        } else {
            assert(members[0].key != "detail"@);
            assert(t.member("detail"@) is None);
        }
        assert forall|i: int| 0 <= i < members.len() implies crate::document::plain(
            (#[trigger] members[i]).value,
            1,
        ) by {
        }
    }
}

/// What [`HostCapabilities`] stand for.
#[verifier::ext_equal]
pub ghost struct CapabilitiesView {
    pub schema: u32,
    pub backend: Seq<char>,
    pub grpc_self_connect: CapView,
    pub base_shm_tmpfs: CapView,
    pub uffd_minor_shmem: CapView,
    pub nbd: CapView,
    pub bundle_stamp: CapView,
    pub fc_snapshot_version: Option<Seq<char>>,
    pub wire_version: u32,
}

impl View for HostCapabilities {
    type V = CapabilitiesView;

    open spec fn view(&self) -> CapabilitiesView {
        CapabilitiesView {
            schema: self.schema,
            backend: self.backend@,
            grpc_self_connect: self.grpc_self_connect@,
            base_shm_tmpfs: self.base_shm_tmpfs@,
            uffd_minor_shmem: self.uffd_minor_shmem@,
            nbd: self.nbd@,
            bundle_stamp: self.bundle_stamp@,
            fc_snapshot_version: self.fc_snapshot_version.deep_view(),
            wire_version: self.wire_version,
        }
    }
}

/// The state of the capability under `key`; unknown, if there is none.
pub open spec fn decoded_cap(t: crate::document::Tree, key: Seq<char>) -> Result<CapView, Seq<char>> {
    match t.member(key) {
        None => Ok(CapView::Unknown),
        Some(sub) => CapStatus::decoded(sub),
    }
}

/// Reads the state of the capability under `key`.
fn decode_cap(doc: &Value, key: &str) -> (res: Result<CapStatus, String>)
    ensures
        res is Ok <==> decoded_cap(doc@, key@) is Ok,
        res is Ok ==> decoded_cap(doc@, key@)->Ok_0 == res->Ok_0@,
        res is Err ==> decoded_cap(doc@, key@)->Err_0 == res->Err_0@,
{
    match doc.get(key) {
        None => Ok(CapStatus::Unknown),
        Some(sub) => CapStatus::decode(sub),
    }
}

/// The number of 32 bits under `key`; zero, if there is none.
pub open spec fn number_or_zero(t: crate::document::Tree, key: Seq<char>) -> Result<u32, Seq<char>> {
    if t.member(key) is None {
        Ok(0)
    } else {
        t.need_u32(key)
    }
}

/// Reads the number of 32 bits under `key`; zero, if there is none.
fn read_number_or_zero(doc: &Value, key: &str) -> (res: Result<u32, String>)
    ensures
        res is Ok <==> number_or_zero(doc@, key@) is Ok,
        res is Ok ==> number_or_zero(doc@, key@)->Ok_0 == res->Ok_0,
        res is Err ==> number_or_zero(doc@, key@)->Err_0 == res->Err_0@,
{
    match doc.get(key) {
        None => Ok(0),
        Some(_) => doc.need_u32(key),
    }
}

impl Decode for HostCapabilities {
    open spec fn decoded(t: crate::document::Tree) -> Result<CapabilitiesView, Seq<char>> {
        let t = t.in_order(
            seq![
                "schema"@,
                "backend"@,
                "grpc_self_connect"@,
                "base_shm_tmpfs"@,
                "uffd_minor_shmem"@,
                "nbd"@,
                "bundle_stamp"@,
                "fc_snapshot_version"@,
                "wire_version"@,
            ],
            0,
        );
        let shape = t.table("capabilities"@);
        let schema = number_or_zero(t, "schema"@);
        let backend = t.text_or_empty("backend"@);
        let grpc_self_connect = decoded_cap(t, "grpc_self_connect"@);
        let base_shm_tmpfs = decoded_cap(t, "base_shm_tmpfs"@);
        let uffd_minor_shmem = decoded_cap(t, "uffd_minor_shmem"@);
        let nbd = decoded_cap(t, "nbd"@);
        let bundle_stamp = decoded_cap(t, "bundle_stamp"@);
        let fc_snapshot_version = t.opt_text("fc_snapshot_version"@, true);
        let wire_version = number_or_zero(t, "wire_version"@);
        match crate::document::earlier(
            crate::document::earlier(
                crate::document::earlier(
                    crate::document::earlier(
                        crate::document::earlier(
                            crate::document::earlier(
                                crate::document::earlier(
                                    crate::document::earlier(
                                        crate::document::earlier(
                                            crate::document::error_of(shape),
                                            crate::document::error_of(schema),
                                        ),
                                        crate::document::error_of(backend),
                                    ),
                                    crate::document::error_of(grpc_self_connect),
                                ),
                                crate::document::error_of(base_shm_tmpfs),
                            ),
                            crate::document::error_of(uffd_minor_shmem),
                        ),
                        crate::document::error_of(nbd),
                    ),
                    crate::document::error_of(bundle_stamp),
                ),
                crate::document::error_of(fc_snapshot_version),
            ),
            crate::document::error_of(wire_version),
        ) {
            Some(e) => Err(e),
            None => Ok(
                CapabilitiesView {
                    schema: schema->Ok_0,
                    backend: backend->Ok_0,
                    grpc_self_connect: grpc_self_connect->Ok_0,
                    base_shm_tmpfs: base_shm_tmpfs->Ok_0,
                    uffd_minor_shmem: uffd_minor_shmem->Ok_0,
                    nbd: nbd->Ok_0,
                    bundle_stamp: bundle_stamp->Ok_0,
                    fc_snapshot_version: fc_snapshot_version->Ok_0,
                    wire_version: wire_version->Ok_0,
                },
            ),
        }
    }

    fn decode(doc: &Value) -> (res: Result<HostCapabilities, String>) {
        let order: [&str; 9] = [
            "schema",
            "backend",
            "grpc_self_connect",
            "base_shm_tmpfs",
            "uffd_minor_shmem",
            "nbd",
            "bundle_stamp",
            "fc_snapshot_version",
            "wire_version",
        ];
        let names = order.as_slice();
        assert(names.deep_view() =~= seq![
            "schema"@,
            "backend"@,
            "grpc_self_connect"@,
            "base_shm_tmpfs"@,
            "uffd_minor_shmem"@,
            "nbd"@,
            "bundle_stamp"@,
            "fc_snapshot_version"@,
            "wire_version"@,
        ]);
        let table = doc.in_order(names, 0);
        let doc = &table;
        if let Err(e) = doc.check_kind("capabilities") {
            return Err(e);
        }
        let schema = match read_number_or_zero(doc, "schema") {
            Ok(v) => v,
            Err(e) => return Err(e),
        };
        let backend = match doc.text_or_empty("backend") {
            Ok(v) => v,
            Err(e) => return Err(e),
        };
        let grpc_self_connect = match decode_cap(doc, "grpc_self_connect") {
            Ok(v) => v,
            Err(e) => return Err(e),
        };
        let base_shm_tmpfs = match decode_cap(doc, "base_shm_tmpfs") {
            Ok(v) => v,
            Err(e) => return Err(e),
        };
        let uffd_minor_shmem = match decode_cap(doc, "uffd_minor_shmem") {
            Ok(v) => v,
            Err(e) => return Err(e),
        };
        let nbd = match decode_cap(doc, "nbd") {
            Ok(v) => v,
            Err(e) => return Err(e),
        };
        let bundle_stamp = match decode_cap(doc, "bundle_stamp") {
            Ok(v) => v,
            Err(e) => return Err(e),
        };
        let fc_snapshot_version = match doc.opt_text("fc_snapshot_version", true) {
            Ok(v) => v,
            Err(e) => return Err(e),
        };
        let wire_version = match read_number_or_zero(doc, "wire_version") {
            Ok(v) => v,
            Err(e) => return Err(e),
        };
        Ok(
            HostCapabilities {
                schema,
                backend,
                grpc_self_connect,
                base_shm_tmpfs,
                uffd_minor_shmem,
                nbd,
                bundle_stamp,
                fc_snapshot_version,
                wire_version,
            },
        )
    }
}

impl Encode for HostCapabilities {
    open spec fn tree(v: CapabilitiesView) -> crate::document::Tree {
        crate::document::Tree::Table(
            seq![
                crate::document::named("schema"@, crate::document::Tree::Integer(v.schema as int)),
                crate::document::named("backend"@, crate::document::Tree::Text(v.backend)),
                crate::document::named("grpc_self_connect"@, CapStatus::tree(v.grpc_self_connect)),
                crate::document::named("base_shm_tmpfs"@, CapStatus::tree(v.base_shm_tmpfs)),
                crate::document::named("uffd_minor_shmem"@, CapStatus::tree(v.uffd_minor_shmem)),
                crate::document::named("nbd"@, CapStatus::tree(v.nbd)),
                crate::document::named("bundle_stamp"@, CapStatus::tree(v.bundle_stamp)),
                crate::document::named("fc_snapshot_version"@, crate::document::text_tree(v.fc_snapshot_version)),
                crate::document::named("wire_version"@, crate::document::Tree::Integer(v.wire_version as int)),
            ],
        )
    }

    open spec fn depth() -> nat {
        3
    }

    fn encode(&self) -> (res: Value) {
        let mut members: Vec<Member> = Vec::new();
        members.push(member("schema", Value::Integer(self.schema as i128)));
        members.push(member("backend", Value::Text(self.backend.clone())));
        members.push(member("grpc_self_connect", self.grpc_self_connect.encode()));
        members.push(member("base_shm_tmpfs", self.base_shm_tmpfs.encode()));
        members.push(member("uffd_minor_shmem", self.uffd_minor_shmem.encode()));
        members.push(member("nbd", self.nbd.encode()));
        members.push(member("bundle_stamp", self.bundle_stamp.encode()));
        members.push(member("fc_snapshot_version", text_value(&self.fc_snapshot_version)));
        members.push(member("wire_version", Value::Integer(self.wire_version as i128)));
        assert(crate::document::table_view(members@) =~= HostCapabilities::tree(self@)->Table_0);
        Value::Table(members)
    }

    proof fn is_read_back(v: CapabilitiesView) {
        reveal_strlit("schema");
        reveal_strlit("backend");
        reveal_strlit("grpc_self_connect");
        reveal_strlit("base_shm_tmpfs");
        reveal_strlit("uffd_minor_shmem");
        reveal_strlit("nbd");
        reveal_strlit("bundle_stamp");
        reveal_strlit("fc_snapshot_version");
        reveal_strlit("wire_version");
        assert("schema"@.len() == 6);
        assert("backend"@.len() == 7);
        assert("grpc_self_connect"@.len() == 17);
        assert("base_shm_tmpfs"@.len() == 14);
        assert("uffd_minor_shmem"@.len() == 16);
        assert("nbd"@.len() == 3);
        assert("bundle_stamp"@.len() == 12);
        assert("fc_snapshot_version"@.len() == 19);
        assert("wire_version"@.len() == 12);
        assert("bundle_stamp"@[0] != "wire_version"@[0]);
        let t = HostCapabilities::tree(v);
        let members = t->Table_0;
        assert(crate::document::distinct_names(members));
        crate::document::distinct_member_is_found(members, 0);
        crate::document::distinct_member_is_found(members, 1);
        crate::document::distinct_member_is_found(members, 2);
        crate::document::distinct_member_is_found(members, 3);
        crate::document::distinct_member_is_found(members, 4);
        crate::document::distinct_member_is_found(members, 5);
        crate::document::distinct_member_is_found(members, 6);
        crate::document::distinct_member_is_found(members, 7);
        crate::document::distinct_member_is_found(members, 8);
        CapStatus::is_read_back(v.grpc_self_connect);
        CapStatus::is_read_back(v.base_shm_tmpfs);
        CapStatus::is_read_back(v.uffd_minor_shmem);
        CapStatus::is_read_back(v.nbd);
        CapStatus::is_read_back(v.bundle_stamp);
        assert forall|i: int| 0 <= i < members.len() implies crate::document::plain(
            (#[trigger] members[i]).value,
            2,
        ) by {
        }
    }
}

/// What a host reports is what stands under its names; what it does not speak of is unknown.
#[verifier::rlimit(40)]
pub proof fn reports_are_read_by_name(t: crate::document::Tree, v: CapabilitiesView)
    requires
        t is Table,
    ensures
        HostCapabilities::decoded(t) == Ok::<CapabilitiesView, Seq<char>>(v) <==> {
            &&& crate::document::says_count(t, "schema"@, v.schema as int)
            &&& crate::document::says_or_nothing(t, "backend"@, v.backend)
            &&& (t.member("grpc_self_connect"@) is None && v.grpc_self_connect == CapView::Unknown)
                || (t.member("grpc_self_connect"@) is Some
                && CapStatus::decoded(t.member("grpc_self_connect"@)->0)
                == Ok::<CapView, Seq<char>>(v.grpc_self_connect))
            &&& (t.member("base_shm_tmpfs"@) is None && v.base_shm_tmpfs == CapView::Unknown)
                || (t.member("base_shm_tmpfs"@) is Some
                && CapStatus::decoded(t.member("base_shm_tmpfs"@)->0)
                == Ok::<CapView, Seq<char>>(v.base_shm_tmpfs))
            &&& (t.member("uffd_minor_shmem"@) is None && v.uffd_minor_shmem == CapView::Unknown)
                || (t.member("uffd_minor_shmem"@) is Some
                && CapStatus::decoded(t.member("uffd_minor_shmem"@)->0)
                == Ok::<CapView, Seq<char>>(v.uffd_minor_shmem))
            &&& (t.member("nbd"@) is None && v.nbd == CapView::Unknown) || (t.member("nbd"@) is Some
                && CapStatus::decoded(t.member("nbd"@)->0) == Ok::<CapView, Seq<char>>(v.nbd))
            &&& (t.member("bundle_stamp"@) is None && v.bundle_stamp == CapView::Unknown)
                || (t.member("bundle_stamp"@) is Some
                && CapStatus::decoded(t.member("bundle_stamp"@)->0)
                == Ok::<CapView, Seq<char>>(v.bundle_stamp))
            &&& crate::document::says(t, "fc_snapshot_version"@, v.fc_snapshot_version)
            &&& crate::document::says_count(t, "wire_version"@, v.wire_version as int)
        },
{
    if v.backend.len() == 0 {
        assert(v.backend =~= Seq::empty());
    }
}

/// A capability is what its status says, with the detail that goes with it: a note that may be
/// absent, or the reason of a failure; no detail with the others.
pub proof fn capabilities_are_read_by_status(t: crate::document::Tree, v: CapView)
    requires
        t is Table,
    ensures
        CapStatus::decoded(t) == Ok::<CapView, Seq<char>>(v) <==> match v {
            CapView::Unknown => t.member("status"@) == Some(
                crate::document::Tree::Text("unknown"@),
            ) && crate::document::says(t, "detail"@, None),
            CapView::Healthy(note) => t.member("status"@) == Some(
                crate::document::Tree::Text("ok"@),
            ) && crate::document::says(t, "detail"@, note),
            CapView::Failed(why) => t.member("status"@) == Some(
                crate::document::Tree::Text("failed"@),
            ) && t.member("detail"@) == Some(crate::document::Tree::Text(why)),
            CapView::NotApplicable => t.member("status"@) == Some(
                crate::document::Tree::Text("not_applicable"@),
            ) && crate::document::says(t, "detail"@, None),
        },
{
    reveal_strlit("unknown");
    reveal_strlit("ok");
    reveal_strlit("failed");
    reveal_strlit("not_applicable");
    assert("unknown"@.len() == 7);
    assert("ok"@.len() == 2);
    assert("failed"@.len() == 6);
    assert("not_applicable"@.len() == 14);
}

} // verus!

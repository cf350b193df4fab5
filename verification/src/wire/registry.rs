//! The documents of registry credentials.
use crate::document::{
    bytes_value, member, text_value, wrong_kind_text, Decode, Encode, Member, Value,
};
use crate::text::same;
use crate::types::registry::RegistryAuthSpec;
use vstd::prelude::*;

verus! {

/// What a [`RegistryAuthSpec`] stands for.
#[verifier::ext_equal]
pub ghost enum AuthSpecView {
    Static {
        username: Seq<char>,
        wrapped_dek: Seq<u8>,
        nonce: Seq<u8>,
        ciphertext: Seq<u8>,
        key_id: Seq<char>,
    },
    GcpWorkloadIdentity(Option<Seq<char>>),
    Anonymous,
}

impl View for RegistryAuthSpec {
    type V = AuthSpecView;

    open spec fn view(&self) -> AuthSpecView {
        match self {
            RegistryAuthSpec::Static { username, wrapped_dek, nonce, ciphertext, key_id } => {
                AuthSpecView::Static {
                    username: username@,
                    wrapped_dek: wrapped_dek@,
                    nonce: nonce@,
                    ciphertext: ciphertext@,
                    key_id: key_id@,
                }
            },
            RegistryAuthSpec::GcpWorkloadIdentity { impersonate_sa } => {
                AuthSpecView::GcpWorkloadIdentity(impersonate_sa.deep_view())
            },
            RegistryAuthSpec::Anonymous => AuthSpecView::Anonymous,
        }
    }
}

/// A user name and a sealed password, as a document says it.
pub open spec fn decoded_static(t: crate::document::Tree) -> Result<AuthSpecView, Seq<char>> {
    let username = t.need_text("username"@);
    let wrapped_dek = t.need_bytes("wrapped_dek"@);
    let nonce = t.need_bytes("nonce"@);
    let ciphertext = t.need_bytes("ciphertext"@);
    let key_id = t.need_text("key_id"@);
    match crate::document::earlier(
        crate::document::earlier(
            crate::document::earlier(
                crate::document::earlier(
                    crate::document::error_of(username),
                    crate::document::error_of(wrapped_dek),
                ),
                crate::document::error_of(nonce),
            ),
            crate::document::error_of(ciphertext),
        ),
        crate::document::error_of(key_id),
    ) {
        Some(e) => Err(e),
        None => Ok(
            AuthSpecView::Static {
                username: username->Ok_0,
                wrapped_dek: wrapped_dek->Ok_0,
                nonce: nonce->Ok_0,
                ciphertext: ciphertext->Ok_0,
                key_id: key_id->Ok_0,
            },
        ),
    }
}

/// Reads a user name and a sealed password.
fn decode_static(doc: &Value) -> (res: Result<RegistryAuthSpec, String>)
    ensures
        res is Ok <==> decoded_static(doc@) is Ok,
        res is Ok ==> decoded_static(doc@)->Ok_0 == res->Ok_0@,
        res is Err ==> decoded_static(doc@)->Err_0 == res->Err_0@,
{
    let username = match doc.need_text("username") {
        Ok(v) => v,
        Err(e) => return Err(e),
    };
    let wrapped_dek = match doc.need_bytes("wrapped_dek") {
        Ok(v) => v,
        Err(e) => return Err(e),
    };
    let nonce = match doc.need_bytes("nonce") {
        Ok(v) => v,
        Err(e) => return Err(e),
    };
    let ciphertext = match doc.need_bytes("ciphertext") {
        Ok(v) => v,
        Err(e) => return Err(e),
    };
    let key_id = match doc.need_text("key_id") {
        Ok(v) => v,
        Err(e) => return Err(e),
    };
    Ok(RegistryAuthSpec::Static { username, wrapped_dek, nonce, ciphertext, key_id })
}

impl Decode for RegistryAuthSpec {
    open spec fn decoded(t: crate::document::Tree) -> Result<AuthSpecView, Seq<char>> {
        let t = if t.begins("anonymous"@) {
            t.in_order(seq!["kind"@], 1)
        } else if t.begins("gcp_workload_identity"@) {
            t.in_order(seq!["kind"@, "impersonate_sa"@], 1)
        } else {
            t.in_order(
                seq![
                    "kind"@,
                    "username"@,
                    "wrapped_dek"@,
                    "nonce"@,
                    "ciphertext"@,
                    "key_id"@,
                ],
                6,
            )
        };
        let kind = t.need_text("kind"@);
        match crate::document::earlier(
            crate::document::error_of(t.table("auth"@)),
            crate::document::error_of(kind),
        ) {
            Some(e) => Err(e),
            None => if kind->Ok_0 == "static"@ {
                decoded_static(t)
            } else if kind->Ok_0 == "gcp_workload_identity"@ {
                match t.opt_text("impersonate_sa"@, true) {
                    Ok(sa) => Ok(AuthSpecView::GcpWorkloadIdentity(sa)),
                    Err(e) => Err(e),
                }
            } else if kind->Ok_0 == "anonymous"@ {
                Ok(AuthSpecView::Anonymous)
            } else {
                Err(
                    crate::document::wrong_kind(
                        "kind"@,
                        "`static`, `gcp_workload_identity` or `anonymous`"@,
                    ),
                )
            },
        }
    }

    fn decode(doc: &Value) -> (res: Result<RegistryAuthSpec, String>) {
        let bare: [&str; 1] = ["kind"];
        let ambient: [&str; 2] = ["kind", "impersonate_sa"];
        let sealed: [&str; 6] = [
            "kind",
            "username",
            "wrapped_dek",
            "nonce",
            "ciphertext",
            "key_id",
        ];
        let bare = bare.as_slice();
        assert(bare.deep_view() =~= seq!["kind"@]);
        let ambient = ambient.as_slice();
        assert(ambient.deep_view() =~= seq!["kind"@, "impersonate_sa"@]);
        let sealed = sealed.as_slice();
        assert(sealed.deep_view() =~= seq![
            "kind"@,
            "username"@,
            "wrapped_dek"@,
            "nonce"@,
            "ciphertext"@,
            "key_id"@,
        ]);
        let table = if doc.begins("anonymous") {
            doc.in_order(bare, 1)
        } else if doc.begins("gcp_workload_identity") {
            doc.in_order(ambient, 1)
        } else {
            doc.in_order(sealed, 6)
        };
        let doc = &table;
        if let Err(e) = doc.check_kind("auth") {
            return Err(e);
        }
        let kind = match doc.need_text("kind") {
            Ok(v) => v,
            Err(e) => return Err(e),
        };
        if same(kind.as_str(), "static") {
            decode_static(doc)
        } else if same(kind.as_str(), "gcp_workload_identity") {
            match doc.opt_text("impersonate_sa", true) {
                Ok(impersonate_sa) => Ok(RegistryAuthSpec::GcpWorkloadIdentity { impersonate_sa }),
                Err(e) => Err(e),
            }
        } else if same(kind.as_str(), "anonymous") {
            Ok(RegistryAuthSpec::Anonymous)
        } else {
            Err(wrong_kind_text("kind", "`static`, `gcp_workload_identity` or `anonymous`"))
        }
    }
}

impl Encode for RegistryAuthSpec {
    open spec fn tree(v: AuthSpecView) -> crate::document::Tree {
        crate::document::Tree::Table(
            match v {
                AuthSpecView::Static { username, wrapped_dek, nonce, ciphertext, key_id } => seq![
                    crate::document::named("kind"@, crate::document::Tree::Text("static"@)),
                    crate::document::named("username"@, crate::document::Tree::Text(username)),
                    crate::document::named("wrapped_dek"@, crate::document::bytes_tree(wrapped_dek)),
                    crate::document::named("nonce"@, crate::document::bytes_tree(nonce)),
                    crate::document::named("ciphertext"@, crate::document::bytes_tree(ciphertext)),
                    crate::document::named("key_id"@, crate::document::Tree::Text(key_id)),
                ],
                AuthSpecView::GcpWorkloadIdentity(sa) => seq![
                    crate::document::named(
                        "kind"@,
                        crate::document::Tree::Text("gcp_workload_identity"@),
                    ),
                    crate::document::named("impersonate_sa"@, crate::document::text_tree(sa)),
                ],
                AuthSpecView::Anonymous => seq![
                    crate::document::named("kind"@, crate::document::Tree::Text("anonymous"@)),
                ],
            },
        )
    }

    open spec fn depth() -> nat {
        3
    }

    fn encode(&self) -> (res: Value) {
        let mut members: Vec<Member> = Vec::new();
        members.push(member("kind", Value::Text(self.kind().to_owned())));
        match self {
            RegistryAuthSpec::Static { username, wrapped_dek, nonce, ciphertext, key_id } => {
                members.push(member("username", Value::Text(username.clone())));
                members.push(member("wrapped_dek", bytes_value(wrapped_dek)));
                members.push(member("nonce", bytes_value(nonce)));
                members.push(member("ciphertext", bytes_value(ciphertext)));
                members.push(member("key_id", Value::Text(key_id.clone())));
            },
            RegistryAuthSpec::GcpWorkloadIdentity { impersonate_sa } => {
                members.push(member("impersonate_sa", text_value(impersonate_sa)));
            },
            RegistryAuthSpec::Anonymous => {},
        }
        assert(crate::document::table_view(members@) =~= RegistryAuthSpec::tree(self@)->Table_0);
        Value::Table(members)
    }

    proof fn is_read_back(v: AuthSpecView) {
        reveal_strlit("kind");
        reveal_strlit("username");
        reveal_strlit("wrapped_dek");
        reveal_strlit("nonce");
        reveal_strlit("ciphertext");
        reveal_strlit("key_id");
        reveal_strlit("impersonate_sa");
        assert("kind"@.len() == 4);
        assert("username"@.len() == 8);
        assert("wrapped_dek"@.len() == 11);
        assert("nonce"@.len() == 5);
        assert("ciphertext"@.len() == 10);
        assert("key_id"@.len() == 6);
        assert("impersonate_sa"@.len() == 14);
        reveal_strlit("static");
        reveal_strlit("gcp_workload_identity");
        reveal_strlit("anonymous");
        assert("static"@.len() == 6);
        assert("gcp_workload_identity"@.len() == 21);
        assert("anonymous"@.len() == 9);
        let t = RegistryAuthSpec::tree(v);
        let members = t->Table_0;
        assert(crate::document::distinct_names(members));
        crate::document::distinct_member_is_found(members, 0);
        match v {
            AuthSpecView::Static { username, wrapped_dek, nonce, ciphertext, key_id } => {
                crate::document::distinct_member_is_found(members, 1);
                crate::document::distinct_member_is_found(members, 2);
                crate::document::distinct_member_is_found(members, 3);
                crate::document::distinct_member_is_found(members, 4);
                crate::document::distinct_member_is_found(members, 5);
                crate::document::bytes_are_read_back(t, "wrapped_dek"@, wrapped_dek);
                crate::document::bytes_are_read_back(t, "nonce"@, nonce);
                crate::document::bytes_are_read_back(t, "ciphertext"@, ciphertext);
            },
            AuthSpecView::GcpWorkloadIdentity(_) => {
                crate::document::distinct_member_is_found(members, 1);
            },
            AuthSpecView::Anonymous => {},
        }
        assert forall|i: int| 0 <= i < members.len() implies crate::document::plain(
            (#[trigger] members[i]).value,
            2,
        ) by {
        }
    }
}

/// A way to log in is what its kind says, with what stands under the names that go with it.
pub proof fn ways_are_read_by_kind(t: crate::document::Tree, account: Option<Seq<char>>)
    requires
        t is Table,
    ensures
        RegistryAuthSpec::decoded(t) == Ok::<AuthSpecView, Seq<char>>(AuthSpecView::Anonymous)
            <==> t.member("kind"@) == Some(crate::document::Tree::Text("anonymous"@)),
        RegistryAuthSpec::decoded(t) == Ok::<AuthSpecView, Seq<char>>(
            AuthSpecView::GcpWorkloadIdentity(account),
        ) <==> t.member("kind"@) == Some(crate::document::Tree::Text("gcp_workload_identity"@))
            && crate::document::says(t, "impersonate_sa"@, account),
        RegistryAuthSpec::decoded(t) is Ok && RegistryAuthSpec::decoded(t)->Ok_0 is Static ==> ({
            let v = RegistryAuthSpec::decoded(t)->Ok_0;
            &&& t.member("kind"@) == Some(crate::document::Tree::Text("static"@))
            &&& t.member("username"@) == Some(crate::document::Tree::Text(v->username))
            &&& crate::document::says_bytes(t, "wrapped_dek"@, v->wrapped_dek)
            &&& crate::document::says_bytes(t, "nonce"@, v->nonce)
            &&& crate::document::says_bytes(t, "ciphertext"@, v->ciphertext)
            &&& t.member("key_id"@) == Some(crate::document::Tree::Text(v->key_id))
        }),
{
    reveal_strlit("static");
    reveal_strlit("gcp_workload_identity");
    reveal_strlit("anonymous");
    assert("static"@.len() == 6);
    assert("gcp_workload_identity"@.len() == 21);
    assert("anonymous"@.len() == 9);
    if RegistryAuthSpec::decoded(t) is Ok && RegistryAuthSpec::decoded(t)->Ok_0 is Static {
        let v = RegistryAuthSpec::decoded(t)->Ok_0;
        crate::document::bytes_are_read_in_place(t, "wrapped_dek"@, v->wrapped_dek);
        crate::document::bytes_are_read_in_place(t, "nonce"@, v->nonce);
        crate::document::bytes_are_read_in_place(t, "ciphertext"@, v->ciphertext);
    }
}

/// A sealed password is accepted where it has its two texts and its three lists of bytes.
pub proof fn sealed_passwords_are_accepted(
    t: crate::document::Tree,
    wrapped_dek: Seq<u8>,
    nonce: Seq<u8>,
    ciphertext: Seq<u8>,
)
    requires
        t is Table,
        t.member("kind"@) == Some(crate::document::Tree::Text("static"@)),
        t.member("username"@) is Some && t.member("username"@)->0 is Text,
        t.member("key_id"@) is Some && t.member("key_id"@)->0 is Text,
        crate::document::says_bytes(t, "wrapped_dek"@, wrapped_dek),
        crate::document::says_bytes(t, "nonce"@, nonce),
        crate::document::says_bytes(t, "ciphertext"@, ciphertext),
    ensures
        RegistryAuthSpec::decoded(t) is Ok,
{
    crate::document::bytes_are_read_in_place(t, "wrapped_dek"@, wrapped_dek);
    crate::document::bytes_are_read_in_place(t, "nonce"@, nonce);
    crate::document::bytes_are_read_in_place(t, "ciphertext"@, ciphertext);
}

} // verus!

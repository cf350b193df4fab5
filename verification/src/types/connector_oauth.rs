//! The sealed record of a connector's OAuth credential.
use crate::document::{
    member, missing_text, read_json, text_value, write_json, wrong_kind_text, Decode, Member, Value,
};
use crate::text::{push_decimal, same, trim, utf8_text};
use crate::time::{read_time, write_time, Timestamp};
use vstd::prelude::*;
use vstd::string::*;

verus! {

/// The version of the record that is written. A newer one is not read; names that are not known
/// are skipped.
pub const CONNECTOR_OAUTH_BUNDLE_VERSION: u32 = 1;

/// How a credential was obtained.
#[derive(Clone, Copy, Debug, PartialEq, Eq, Structural)]
pub enum ConnectorOAuthKind {
    Oauth2AuthorizationCode,
}

/// How to obtain a new token.
#[derive(Debug, PartialEq, Eq)]
pub struct ConnectorOAuthRefreshSpec {
    pub token_url: String,
    /// The name of the secret that holds the client id.
    pub client_id_ref: String,
    /// The name of the secret that holds the client secret.
    pub client_secret_ref: String,
}

/// The record.
#[derive(Debug, PartialEq, Eq)]
pub struct ConnectorOAuthBundle {
    /// The version of this record.
    pub v: u32,
    pub kind: ConnectorOAuthKind,
    pub access_token: String,
    pub token_type: String,
    pub refresh_token: Option<String>,
    pub scope: Option<String>,
    pub obtained_at: Timestamp,
    pub expires_at: Option<Timestamp>,
    /// How to obtain a new token; absent, where tokens do not expire.
    pub refresh: Option<ConnectorOAuthRefreshSpec>,
}

/// What a [`ConnectorOAuthRefreshSpec`] stands for.
#[verifier::ext_equal]
pub ghost struct RefreshView {
    pub token_url: Seq<char>,
    pub client_id_ref: Seq<char>,
    pub client_secret_ref: Seq<char>,
}

impl View for ConnectorOAuthRefreshSpec {
    type V = RefreshView;

    open spec fn view(&self) -> RefreshView {
        RefreshView {
            token_url: self.token_url@,
            client_id_ref: self.client_id_ref@,
            client_secret_ref: self.client_secret_ref@,
        }
    }
}

impl Clone for ConnectorOAuthRefreshSpec {
    fn clone(&self) -> (res: ConnectorOAuthRefreshSpec)
        ensures
            res@ == self@,
    {
        ConnectorOAuthRefreshSpec {
            token_url: self.token_url.clone(),
            client_id_ref: self.client_id_ref.clone(),
            client_secret_ref: self.client_secret_ref.clone(),
        }
    }
}

/// What an optional refresh stands for.
pub open spec fn refresh_view(r: Option<ConnectorOAuthRefreshSpec>) -> Option<RefreshView> {
    match r {
        Some(r) => Some(r@),
        None => None,
    }
}

/// A copy of an optional refresh.
fn clone_refresh(r: &Option<ConnectorOAuthRefreshSpec>) -> (res: Option<ConnectorOAuthRefreshSpec>)
    ensures
        refresh_view(res) == refresh_view(*r),
{
    match r {
        Some(r) => Some(r.clone()),
        None => None,
    }
}

/// What a [`ConnectorOAuthBundle`] stands for.
#[verifier::ext_equal]
pub ghost struct BundleView {
    pub v: u32,
    pub kind: ConnectorOAuthKind,
    pub access_token: Seq<char>,
    pub token_type: Seq<char>,
    pub refresh_token: Option<Seq<char>>,
    pub scope: Option<Seq<char>>,
    pub obtained_at: Timestamp,
    pub expires_at: Option<Timestamp>,
    pub refresh: Option<RefreshView>,
}

impl View for ConnectorOAuthBundle {
    type V = BundleView;

    open spec fn view(&self) -> BundleView {
        BundleView {
            v: self.v,
            kind: self.kind,
            access_token: self.access_token@,
            token_type: self.token_type@,
            refresh_token: self.refresh_token.deep_view(),
            scope: self.scope.deep_view(),
            obtained_at: self.obtained_at,
            expires_at: self.expires_at,
            refresh: refresh_view(self.refresh),
        }
    }
}

impl Clone for ConnectorOAuthBundle {
    fn clone(&self) -> (res: ConnectorOAuthBundle)
        ensures
            res@ == self@,
    {
        ConnectorOAuthBundle {
            v: self.v,
            kind: self.kind,
            access_token: self.access_token.clone(),
            token_type: self.token_type.clone(),
            refresh_token: self.refresh_token.clone(),
            scope: self.scope.clone(),
            obtained_at: self.obtained_at,
            expires_at: self.expires_at,
            refresh: clone_refresh(&self.refresh),
        }
    }
}

/// How a credential was obtained, as a document says it.
pub open spec fn decoded_kind(t: crate::document::Tree) -> Result<ConnectorOAuthKind, Seq<char>> {
    match t.need_name("kind"@) {
        Err(e) => Err(e),
        Ok(s) => if s == "oauth2_authorization_code"@ {
            Ok(ConnectorOAuthKind::Oauth2AuthorizationCode)
        } else {
            Err(crate::document::wrong_kind("kind"@, "`oauth2_authorization_code`"@))
        },
    }
}

/// Reads how a credential was obtained.
fn decode_kind(doc: &Value) -> (res: Result<ConnectorOAuthKind, String>)
    ensures
        res is Ok <==> decoded_kind(doc@) is Ok,
        res is Ok ==> decoded_kind(doc@)->Ok_0 == res->Ok_0,
        res is Err ==> decoded_kind(doc@)->Err_0 == res->Err_0@,
{
    match doc.need_name("kind") {
        Err(e) => Err(e),
        Ok(s) => if same(s.as_str(), "oauth2_authorization_code") {
            Ok(ConnectorOAuthKind::Oauth2AuthorizationCode)
        } else {
            Err(wrong_kind_text("kind", "`oauth2_authorization_code`"))
        },
    }
}

/// The point in time that a tree stands for.
pub open spec fn time_of(t: crate::document::Tree, key: Seq<char>) -> Result<Timestamp, Seq<char>> {
    match t {
        crate::document::Tree::Text(s) => match crate::time::time_read(s) {
            Some((secs, nanos)) => Ok(Timestamp { secs, nanos }),
            None => Err(crate::document::wrong_kind(key, "a point in time"@)),
        },
        _ => Err(crate::document::wrong_kind(key, "a point in time"@)),
    }
}

/// The point in time under `key`, which must be there.
pub open spec fn need_time(t: crate::document::Tree, key: Seq<char>) -> Result<
    Timestamp,
    Seq<char>,
> {
    match t.member(key) {
        None => Err(crate::document::missing(key)),
        Some(sub) => time_of(sub, key),
    }
}

/// The point in time under `key`, if there is one.
pub open spec fn opt_time(t: crate::document::Tree, key: Seq<char>) -> Result<
    Option<Timestamp>,
    Seq<char>,
> {
    match t.member(key) {
        None => Ok(None),
        Some(sub) => if sub is Null {
            Ok(None)
        } else {
            match time_of(sub, key) {
                Ok(at) => Ok(Some(at)),
                Err(e) => Err(e),
            }
        },
    }
}

/// Reads the point in time that a document stands for. What was written is read back.
fn read_time_of(doc: &Value, key: &str) -> (res: Result<Timestamp, String>)
    ensures
        res is Ok <==> time_of(doc@, key@) is Ok,
        res is Ok ==> time_of(doc@, key@)->Ok_0 == res->Ok_0,
        res is Err ==> time_of(doc@, key@)->Err_0 == res->Err_0@,
        res is Ok ==> res->Ok_0.covered(),
        forall|t: Timestamp|
            #![trigger crate::time::time_written(t.secs, t.nanos)]
            t.covered() && doc@ == time_tree(t) ==> res == Ok::<Timestamp, String>(t),
{
    match doc {
        Value::Text(s) => match read_time(s.as_str()) {
            Some(at) => Ok(at),
            None => Err(wrong_kind_text(key, "a point in time")),
        },
        _ => Err(wrong_kind_text(key, "a point in time")),
    }
}

/// A point in time as a document.
pub open spec fn time_tree(t: Timestamp) -> crate::document::Tree {
    crate::document::Tree::Text(crate::time::time_written(t.secs, t.nanos))
}

/// Reads the point in time under `key`, which must be there.
pub(crate) fn read_need_time(doc: &Value, key: &str) -> (res: Result<Timestamp, String>)
    ensures
        res is Ok <==> need_time(doc@, key@) is Ok,
        res is Ok ==> need_time(doc@, key@)->Ok_0 == res->Ok_0,
        res is Err ==> need_time(doc@, key@)->Err_0 == res->Err_0@,
        res is Ok ==> res->Ok_0.covered(),
        forall|t: Timestamp|
            #![trigger crate::time::time_written(t.secs, t.nanos)]
            t.covered() && doc@.member(key@) == Some(time_tree(t)) ==> res == Ok::<
                Timestamp,
                String,
            >(t),
{
    match doc.get(key) {
        None => Err(missing_text(key)),
        Some(sub) => read_time_of(sub, key),
    }
}

/// Reads the point in time under `key`, if there is one.
fn read_opt_time(doc: &Value, key: &str) -> (res: Result<Option<Timestamp>, String>)
    ensures
        res is Ok <==> opt_time(doc@, key@) is Ok,
        res is Ok ==> opt_time(doc@, key@)->Ok_0 == res->Ok_0,
        res is Err ==> opt_time(doc@, key@)->Err_0 == res->Err_0@,
        res is Ok && res->Ok_0 is Some ==> res->Ok_0->0.covered(),
        forall|t: Timestamp|
            #![trigger crate::time::time_written(t.secs, t.nanos)]
            t.covered() && doc@.member(key@) == Some(time_tree(t)) ==> res == Ok::<
                Option<Timestamp>,
                String,
            >(Some(t)),
{
    match doc.get(key) {
        None => Ok(None),
        Some(Value::Null) => Ok(None),
        Some(sub) => match read_time_of(sub, key) {
            Ok(at) => Ok(Some(at)),
            Err(e) => Err(e),
        },
    }
}

/// How to obtain a new token, as a document says it.
pub open spec fn decoded_refresh(t: crate::document::Tree) -> Result<
    Option<RefreshView>,
    Seq<char>,
> {
    match t.member("refresh"@) {
        None => Ok(None),
        Some(sub) => if sub is Null {
            Ok(None)
        } else {
            match ConnectorOAuthRefreshSpec::decoded(sub) {
                Ok(r) => Ok(Some(r)),
                Err(e) => Err(e),
            }
        },
    }
}

/// Reads how to obtain a new token.
fn decode_refresh(doc: &Value) -> (res: Result<Option<ConnectorOAuthRefreshSpec>, String>)
    ensures
        res is Ok <==> decoded_refresh(doc@) is Ok,
        res is Ok ==> decoded_refresh(doc@)->Ok_0 == refresh_view(res->Ok_0),
        res is Err ==> decoded_refresh(doc@)->Err_0 == res->Err_0@,
{
    match doc.get("refresh") {
        None => Ok(None),
        Some(Value::Null) => Ok(None),
        Some(sub) => match ConnectorOAuthRefreshSpec::decode(sub) {
            Ok(r) => Ok(Some(r)),
            Err(e) => Err(e),
        },
    }
}

impl Decode for ConnectorOAuthRefreshSpec {
    open spec fn decoded(t: crate::document::Tree) -> Result<RefreshView, Seq<char>> {
        let t = t.in_order(seq!["token_url"@, "client_id_ref"@, "client_secret_ref"@], 3);
        let shape = t.table("refresh"@);
        let token_url = t.need_text("token_url"@);
        let client_id_ref = t.need_text("client_id_ref"@);
        let client_secret_ref = t.need_text("client_secret_ref"@);
        match crate::document::earlier(
            crate::document::earlier(
                crate::document::earlier(
                    crate::document::error_of(shape),
                    crate::document::error_of(token_url),
                ),
                crate::document::error_of(client_id_ref),
            ),
            crate::document::error_of(client_secret_ref),
        ) {
            Some(e) => Err(e),
            None => Ok(
                RefreshView {
                    token_url: token_url->Ok_0,
                    client_id_ref: client_id_ref->Ok_0,
                    client_secret_ref: client_secret_ref->Ok_0,
                },
            ),
        }
    }

    fn decode(doc: &Value) -> (res: Result<ConnectorOAuthRefreshSpec, String>) {
        let order: [&str; 3] = ["token_url", "client_id_ref", "client_secret_ref"];
        let names = order.as_slice();
        assert(names.deep_view() =~= seq!["token_url"@, "client_id_ref"@, "client_secret_ref"@]);
        let table = doc.in_order(names, 3);
        let doc = &table;
        if let Err(e) = doc.check_kind("refresh") {
            return Err(e);
        }
        let token_url = match doc.need_text("token_url") {
            Ok(v) => v,
            Err(e) => return Err(e),
        };
        let client_id_ref = match doc.need_text("client_id_ref") {
            Ok(v) => v,
            Err(e) => return Err(e),
        };
        let client_secret_ref = match doc.need_text("client_secret_ref") {
            Ok(v) => v,
            Err(e) => return Err(e),
        };
        Ok(
            ConnectorOAuthRefreshSpec {
                token_url,
                client_id_ref,
                client_secret_ref,
            },
        )
    }
}

impl Decode for ConnectorOAuthBundle {
    open spec fn decoded(t: crate::document::Tree) -> Result<BundleView, Seq<char>> {
        let shape = t.table("bundle"@);
        let v = t.need_u32("v"@);
        let kind = decoded_kind(t);
        let access_token = t.need_text("access_token"@);
        let token_type = t.need_text("token_type"@);
        let refresh_token = t.opt_text("refresh_token"@, true);
        let scope = t.opt_text("scope"@, true);
        let obtained_at = need_time(t, "obtained_at"@);
        let expires_at = opt_time(t, "expires_at"@);
        let refresh = decoded_refresh(t);
        match crate::document::earlier(
            crate::document::earlier(
                crate::document::earlier(
                    crate::document::earlier(
                        crate::document::earlier(
                            crate::document::earlier(
                                crate::document::earlier(
                                    crate::document::earlier(
                                        crate::document::earlier(
                                            crate::document::error_of(shape),
                                            crate::document::error_of(v),
                                        ),
                                        crate::document::error_of(kind),
                                    ),
                                    crate::document::error_of(access_token),
                                ),
                                crate::document::error_of(token_type),
                            ),
                            crate::document::error_of(refresh_token),
                        ),
                        crate::document::error_of(scope),
                    ),
                    crate::document::error_of(obtained_at),
                ),
                crate::document::error_of(expires_at),
            ),
            crate::document::error_of(refresh),
        ) {
            Some(e) => Err(e),
            None => Ok(
                BundleView {
                    v: v->Ok_0,
                    kind: kind->Ok_0,
                    access_token: access_token->Ok_0,
                    token_type: token_type->Ok_0,
                    refresh_token: refresh_token->Ok_0,
                    scope: scope->Ok_0,
                    obtained_at: obtained_at->Ok_0,
                    expires_at: expires_at->Ok_0,
                    refresh: refresh->Ok_0,
                },
            ),
        }
    }

    fn decode(doc: &Value) -> (res: Result<ConnectorOAuthBundle, String>)
        ensures
            res is Ok ==> res->Ok_0@.wf(),
            forall|b: BundleView|
                b.wf() && doc@ == #[trigger] b.tree() ==> res is Ok && res->Ok_0@ == b,
    {
        proof {
            assert forall|b: BundleView| doc@ == #[trigger] b.tree() implies has_members(
                doc@,
                b,
            ) by {
                bundle_members(b);
            }
        }
        if let Err(e) = doc.check_kind("bundle") {
            return Err(e);
        }
        let v = match doc.need_u32("v") {
            Ok(v) => v,
            Err(e) => return Err(e),
        };
        let kind = match decode_kind(doc) {
            Ok(v) => v,
            Err(e) => return Err(e),
        };
        let access_token = match doc.need_text("access_token") {
            Ok(v) => v,
            Err(e) => return Err(e),
        };
        let token_type = match doc.need_text("token_type") {
            Ok(v) => v,
            Err(e) => return Err(e),
        };
        let refresh_token = match doc.opt_text("refresh_token", true) {
            Ok(v) => v,
            Err(e) => return Err(e),
        };
        let scope = match doc.opt_text("scope", true) {
            Ok(v) => v,
            Err(e) => return Err(e),
        };
        let obtained_at = match read_need_time(doc, "obtained_at") {
            Ok(v) => v,
            Err(e) => return Err(e),
        };
        let expires_at = match read_opt_time(doc, "expires_at") {
            Ok(v) => v,
            Err(e) => return Err(e),
        };
        let refresh = match decode_refresh(doc) {
            Ok(v) => v,
            Err(e) => return Err(e),
        };
        Ok(
            ConnectorOAuthBundle {
                v,
                kind,
                access_token,
                token_type,
                refresh_token,
                scope,
                obtained_at,
                expires_at,
                refresh,
            },
        )
    }
}

impl RefreshView {
    /// The refresh as a document.
    pub open spec fn tree(self) -> crate::document::Tree {
        crate::document::Tree::Table(
            seq![
                crate::document::named("token_url"@, crate::document::Tree::Text(self.token_url)),
                crate::document::named("client_id_ref"@, crate::document::Tree::Text(self.client_id_ref)),
                crate::document::named("client_secret_ref"@, crate::document::Tree::Text(self.client_secret_ref)),
            ],
        )
    }
}

impl BundleView {
    /// The record as a document.
    pub open spec fn tree(self) -> crate::document::Tree {
        crate::document::Tree::Table(
            seq![
                crate::document::named("v"@, crate::document::Tree::Integer(self.v as int)),
                crate::document::named("kind"@, crate::document::Tree::Text("oauth2_authorization_code"@)),
                crate::document::named("access_token"@, crate::document::Tree::Text(self.access_token)),
                crate::document::named("token_type"@, crate::document::Tree::Text(self.token_type)),
                crate::document::named("refresh_token"@, crate::document::text_tree(self.refresh_token)),
                crate::document::named("scope"@, crate::document::text_tree(self.scope)),
                crate::document::named("obtained_at"@, time_tree(self.obtained_at)),
                crate::document::named(
                    "expires_at"@,
                    match self.expires_at {
                        Some(at) => time_tree(at),
                        None => crate::document::Tree::Null,
                    },
                ),
                crate::document::named(
                    "refresh"@,
                    match self.refresh {
                        Some(r) => r.tree(),
                        None => crate::document::Tree::Null,
                    },
                ),
            ],
        )
    }

    /// The points in time lie in the calendar.
    pub open spec fn wf(self) -> bool {
        self.obtained_at.covered() && (self.expires_at is Some ==> self.expires_at->0.covered())
    }

    /// The record that a text stands for, or the reason why it stands for none.
    pub open spec fn parsed(text: Seq<char>) -> Result<BundleView, Seq<char>> {
        match crate::document::json_read(text) {
            Err(e) => Err("bundle version probe: "@ + e),
            Ok(t) => BundleView::accepted(t),
        }
    }

    /// The record that a document stands for, or the reason why it stands for none: a version
    /// that is not newer than the known one, and then all the rest.
    pub open spec fn accepted(t: crate::document::Tree) -> Result<BundleView, Seq<char>> {
        let version = t.need_u32("v"@);
        match crate::document::earlier(
            crate::document::error_of(t.table("bundle"@)),
            crate::document::error_of(version),
        ) {
            Some(e) => Err("bundle version probe: "@ + e),
            None => if version->Ok_0 > CONNECTOR_OAUTH_BUNDLE_VERSION {
                Err(
                    "connector OAuth bundle version "@ + crate::text::decimal(
                        version->Ok_0 as nat,
                    ) + " is newer than supported "@ + crate::text::decimal(
                        CONNECTOR_OAUTH_BUNDLE_VERSION as nat,
                    ),
                )
            } else {
                match ConnectorOAuthBundle::decoded(t) {
                    Ok(b) => Ok(b),
                    Err(e) => Err("connector OAuth bundle: "@ + e),
                }
            },
        }
    }

    /// A new token can be obtained: there is a refresh token, and it is known how to use it.
    pub open spec fn can_refresh(self) -> bool {
        self.refresh_token is Some && self.refresh is Some
    }
}

/// The document of a refresh has the names that are read.
proof fn refresh_members(r: RefreshView)
    ensures
        crate::document::plain(r.tree(), 99),
        r.tree().member("token_url"@) == Some(crate::document::Tree::Text(r.token_url)),
        r.tree().member("client_id_ref"@) == Some(crate::document::Tree::Text(r.client_id_ref)),
        r.tree().member("client_secret_ref"@) == Some(
            crate::document::Tree::Text(r.client_secret_ref),
        ),
        ConnectorOAuthRefreshSpec::decoded(r.tree()) == Ok::<RefreshView, Seq<char>>(r),
{
    reveal_strlit("token_url");
    reveal_strlit("client_id_ref");
    reveal_strlit("client_secret_ref");
    assert("token_url"@.len() == 9);
    assert("client_id_ref"@.len() == 13);
    assert("client_secret_ref"@.len() == 17);
    let members = r.tree()->Table_0;
    assert(crate::document::distinct_names(members));
    assert forall|i: int| 0 <= i < members.len() implies crate::document::plain(
        (#[trigger] members[i]).value,
        98,
    ) by {
    }
    crate::document::distinct_member_is_found(members, 0);
    crate::document::distinct_member_is_found(members, 1);
    crate::document::distinct_member_is_found(members, 2);
}

/// The document `t` has what the record `b` holds.
spec fn has_members(t: crate::document::Tree, b: BundleView) -> bool {
    &&& t is Table
    &&& t.member("v"@) == Some(crate::document::Tree::Integer(b.v as int))
    &&& t.member("kind"@) == Some(crate::document::Tree::Text("oauth2_authorization_code"@))
    &&& t.member("access_token"@) == Some(crate::document::Tree::Text(b.access_token))
    &&& t.member("token_type"@) == Some(crate::document::Tree::Text(b.token_type))
    &&& t.member("refresh_token"@) == Some(crate::document::text_tree(b.refresh_token))
    &&& t.member("scope"@) == Some(crate::document::text_tree(b.scope))
    &&& t.member("obtained_at"@) == Some(time_tree(b.obtained_at))
    &&& t.member("expires_at"@) == Some(
        match b.expires_at {
            Some(at) => time_tree(at),
            None => crate::document::Tree::Null,
        },
    )
    &&& decoded_refresh(t) == Ok::<Option<RefreshView>, Seq<char>>(b.refresh)
}

/// The document of a record has the names that are read.
proof fn bundle_members(b: BundleView)
    ensures
        crate::document::plain(b.tree(), 100),
        has_members(b.tree(), b),
{
    reveal_strlit("v");
    reveal_strlit("kind");
    reveal_strlit("access_token");
    reveal_strlit("token_type");
    reveal_strlit("refresh_token");
    reveal_strlit("scope");
    reveal_strlit("obtained_at");
    reveal_strlit("expires_at");
    reveal_strlit("refresh");
    assert("v"@.len() == 1);
    assert("kind"@.len() == 4);
    assert("access_token"@.len() == 12);
    assert("token_type"@.len() == 10);
    assert("refresh_token"@.len() == 13);
    assert("scope"@.len() == 5);
    assert("obtained_at"@.len() == 11);
    assert("expires_at"@.len() == 10);
    assert("refresh"@.len() == 7);
    assert("token_type"@[0] != "expires_at"@[0]);
    let members = b.tree()->Table_0;
    assert(crate::document::distinct_names(members));
    if b.refresh is Some {
        refresh_members(b.refresh->0);
    }
    assert forall|i: int| 0 <= i < members.len() implies crate::document::plain(
        (#[trigger] members[i]).value,
        99,
    ) by {
    }
    crate::document::distinct_member_is_found(members, 0);
    crate::document::distinct_member_is_found(members, 1);
    crate::document::distinct_member_is_found(members, 2);
    crate::document::distinct_member_is_found(members, 3);
    crate::document::distinct_member_is_found(members, 4);
    crate::document::distinct_member_is_found(members, 5);
    crate::document::distinct_member_is_found(members, 6);
    crate::document::distinct_member_is_found(members, 7);
    crate::document::distinct_member_is_found(members, 8);
}

impl ConnectorOAuthRefreshSpec {
    /// The refresh as a document.
    fn document(&self) -> (res: Value)
        ensures
            res@ == self@.tree(),
    {
        let mut members: Vec<Member> = Vec::new();
        members.push(member("token_url", Value::Text(self.token_url.clone())));
        members.push(member("client_id_ref", Value::Text(self.client_id_ref.clone())));
        members.push(member("client_secret_ref", Value::Text(self.client_secret_ref.clone())));
        assert(crate::document::table_view(members@) =~= self@.tree()->Table_0);
        Value::Table(members)
    }
}

impl ConnectorOAuthBundle {
    /// The record as a document.
    fn document(&self) -> (res: Value)
        requires
            self@.wf(),
        ensures
            res@ == self@.tree(),
    {
        let expires_at = match self.expires_at {
            Some(at) => Value::Text(write_time(at)),
            None => Value::Null,
        };
        let refresh = match &self.refresh {
            Some(r) => r.document(),
            None => Value::Null,
        };
        let mut members: Vec<Member> = Vec::new();
        members.push(member("v", Value::Integer(self.v as i128)));
        members.push(member("kind", Value::Text(String::from_str("oauth2_authorization_code"))));
        members.push(member("access_token", Value::Text(self.access_token.clone())));
        members.push(member("token_type", Value::Text(self.token_type.clone())));
        members.push(member("refresh_token", text_value(&self.refresh_token)));
        members.push(member("scope", text_value(&self.scope)));
        members.push(member("obtained_at", Value::Text(write_time(self.obtained_at))));
        members.push(member("expires_at", expires_at));
        members.push(member("refresh", refresh));
        assert(crate::document::table_view(members@) =~= self@.tree()->Table_0);
        Value::Table(members)
    }

    /// Writes the record as JSON.
    pub fn to_json(&self) -> (res: Result<Vec<u8>, String>)
        requires
            self@.wf(),
        ensures
            res is Ok,
            res->Ok_0@ == vstd::utf8::encode_utf8(crate::document::json_written(self@.tree())),
    {
        let doc = self.document();
        proof {
            bundle_members(self@);
        }
        let text = write_json(&doc);
        Ok(text.as_str().as_bytes_vec())
    }

    /// Reads a record from a document, unless its version is newer than the known one.
    pub fn from_document(doc: &Value) -> (res: Result<ConnectorOAuthBundle, String>)
        ensures
            res is Ok <==> BundleView::accepted(doc@) is Ok,
            res is Ok ==> BundleView::accepted(doc@)->Ok_0 == res->Ok_0@,
            res is Err ==> BundleView::accepted(doc@)->Err_0 == res->Err_0@,
            res is Ok ==> res->Ok_0@.wf(),
            forall|b: BundleView|
                b.wf() && b.v <= CONNECTOR_OAUTH_BUNDLE_VERSION && doc@ == #[trigger] b.tree()
                    ==> res is Ok && res->Ok_0@ == b,
    {
        proof {
            assert forall|b: BundleView| doc@ == #[trigger] b.tree() implies doc@ is Table
                && doc@.member("v"@) == Some(crate::document::Tree::Integer(b.v as int)) by {
                bundle_members(b);
            }
        }
        if let Err(e) = doc.check_kind("bundle") {
            let mut text = String::from_str("bundle version probe: ");
            text.append(e.as_str());
            return Err(text);
        }
        let version: u32 = match doc.need_u32("v") {
            Ok(v) => v,
            Err(e) => {
                let mut text = String::from_str("bundle version probe: ");
                text.append(e.as_str());
                return Err(text);
            },
        };
        if version > CONNECTOR_OAUTH_BUNDLE_VERSION {
            let mut text = String::from_str("connector OAuth bundle version ");
            push_decimal(&mut text, version as u64);
            text.append(" is newer than supported ");
            push_decimal(&mut text, CONNECTOR_OAUTH_BUNDLE_VERSION as u64);
            return Err(text);
        }
        match ConnectorOAuthBundle::decode(doc) {
            Ok(b) => Ok(b),
            Err(e) => {
                let mut text = String::from_str("connector OAuth bundle: ");
                text.append(e.as_str());
                Err(text)
            },
        }
    }

    /// Reads a record from JSON, unless its version is newer than the known one. Names that are
    /// not known are skipped; of a name that is repeated, the last value counts. A record that
    /// was written is read back.
    pub fn from_json(bytes: &[u8]) -> (res: Result<ConnectorOAuthBundle, String>)
        ensures
            !vstd::utf8::valid_utf8(bytes@) ==> res is Err && res->Err_0@
                == "bundle version probe: invalid UTF-8"@,
            vstd::utf8::valid_utf8(bytes@) ==> ({
                let parsed = BundleView::parsed(vstd::utf8::decode_utf8(bytes@));
                &&& res is Ok <==> parsed is Ok
                &&& res is Ok ==> parsed->Ok_0 == res->Ok_0@
                &&& res is Err ==> parsed->Err_0 == res->Err_0@
            }),
            res is Ok ==> res->Ok_0@.wf(),
            forall|b: BundleView|
                b.wf() && b.v <= CONNECTOR_OAUTH_BUNDLE_VERSION && bytes@
                    == vstd::utf8::encode_utf8(crate::document::json_written(#[trigger] b.tree()))
                    ==> res is Ok && res->Ok_0@ == b,
    {
        let text = match utf8_text(bytes) {
            Some(text) => text,
            None => {
                proof {
                    assert forall|b: BundleView| bytes@ == vstd::utf8::encode_utf8(
                        crate::document::json_written(#[trigger] b.tree()),
                    ) implies false by {
                        vstd::utf8::encode_utf8_valid_utf8(
                            crate::document::json_written(b.tree()),
                        );
                    }
                }
                return Err(String::from_str("bundle version probe: invalid UTF-8"));
            },
        };
        proof {
            vstd::utf8::encode_utf8_decode_utf8(text@);
            assert forall|b: BundleView| bytes@ == vstd::utf8::encode_utf8(
                crate::document::json_written(#[trigger] b.tree()),
            ) implies text@ == crate::document::json_written(b.tree())
                && crate::document::plain(b.tree(), 100) by {
                vstd::utf8::encode_utf8_decode_utf8(crate::document::json_written(b.tree()));
                bundle_members(b);
            }
        }
        match read_json(text.as_str()) {
            Err(e) => {
                let mut message = String::from_str("bundle version probe: ");
                message.append(e.as_str());
                Err(message)
            },
            Ok(doc) => ConnectorOAuthBundle::from_document(&doc),
        }
    }

    /// Whether a new token can be obtained.
    pub fn refreshable(&self) -> (res: bool)
        ensures
            res == self@.can_refresh(),
    {
        self.refresh_token.is_some() && self.refresh.is_some()
    }
}

/// A name that is not known does not change what is read.
pub proof fn unknown_names_are_skipped(
    t: crate::document::Tree,
    key: Seq<char>,
    value: crate::document::Tree,
)
    requires
        t is Table,
        key != "v"@,
        key != "kind"@,
        key != "access_token"@,
        key != "token_type"@,
        key != "refresh_token"@,
        key != "scope"@,
        key != "obtained_at"@,
        key != "expires_at"@,
        key != "refresh"@,
    ensures
        BundleView::accepted(t.with_member(key, value)) == BundleView::accepted(t),
{
    crate::document::set_member_is_found(t, key, value, "v"@);
    crate::document::set_member_is_found(t, key, value, "kind"@);
    crate::document::set_member_is_found(t, key, value, "access_token"@);
    crate::document::set_member_is_found(t, key, value, "token_type"@);
    crate::document::set_member_is_found(t, key, value, "refresh_token"@);
    crate::document::set_member_is_found(t, key, value, "scope"@);
    crate::document::set_member_is_found(t, key, value, "obtained_at"@);
    crate::document::set_member_is_found(t, key, value, "expires_at"@);
    crate::document::set_member_is_found(t, key, value, "refresh"@);
}

/// The parts of a list of scopes: its texts, trimmed, without the empty ones.
pub open spec fn scope_parts(items: Seq<crate::document::Tree>) -> Seq<Seq<char>>
    decreases items.len(),
{
    if items.len() == 0 {
        Seq::empty()
    } else {
        let most = scope_parts(items.drop_last());
        match items.last() {
            crate::document::Tree::Text(s) => if crate::text::trimmed(s).len() > 0 {
                most.push(crate::text::trimmed(s))
            } else {
                most
            },
            _ => most,
        }
    }
}

/// The parts in one text, with `delimiter` between them.
pub open spec fn joined(parts: Seq<Seq<char>>, delimiter: Seq<char>) -> Seq<char>
    decreases parts.len(),
{
    if parts.len() == 0 {
        Seq::empty()
    } else if parts.len() == 1 {
        parts[0]
    } else {
        joined(parts.drop_last(), delimiter) + delimiter + parts.last()
    }
}

/// The scopes in one text: a text trimmed, or the parts of a list; none where that is empty.
pub open spec fn normalized_scope(value: Option<crate::document::Tree>, delimiter: Seq<char>) -> Option<
    Seq<char>,
> {
    let text = match value {
        Some(crate::document::Tree::Text(s)) => crate::text::trimmed(s),
        Some(crate::document::Tree::List(items)) => joined(scope_parts(items), delimiter),
        _ => Seq::empty(),
    };
    if text.len() > 0 {
        Some(text)
    } else {
        None
    }
}

/// The scopes of a token response in one text. Providers send a text or a list.
pub fn normalize_scope(value: Option<&Value>, delimiter: &str) -> (res: Option<String>)
    ensures
        res.deep_view() == normalized_scope(
            match value {
                Some(v) => Some(v@),
                None => None,
            },
            delimiter@,
        ),
{
    let text = match value {
        Some(Value::Text(s)) => trim(s.as_str()),
        Some(Value::List(items)) => {
            let ghost trees = crate::document::list_view(items@);
            let mut out = String::new();
            let ghost mut parts = Seq::<Seq<char>>::empty();
            let mut first = true;
            let mut i: usize = 0;
            assert(trees.take(0) =~= Seq::empty());
            while i < items.len()
                invariant
                    i <= items@.len(),
                    trees == crate::document::list_view(items@),
                    parts == scope_parts(trees.take(i as int)),
                    out@ == joined(parts, delimiter@),
                    first == (parts.len() == 0),
                decreases items.len() - i,
            {
                assert(trees[i as int] == items@[i as int]@);
                assert(trees.take(i + 1).drop_last() =~= trees.take(i as int));
                if let Value::Text(s) = &items[i] {
                    let part = trim(s.as_str());
                    if !part.as_str().is_empty() {
                        if !first {
                            out.append(delimiter);
                        }
                        out.append(part.as_str());
                        proof {
                            let longer = parts.push(part@);
                            assert(longer.drop_last() =~= parts);
                            parts = longer;
                            assert(out@ =~= joined(parts, delimiter@));
                        }
                        first = false;
                    }
                }
                i += 1;
            }
            assert(trees.take(i as int) =~= trees);
            out
        },
        _ => String::new(),
    };
    if text.as_str().is_empty() {
        None
    } else {
        Some(text)
    }
}

/// A token can be renewed exactly if there is a refresh token and a way to use it.
pub proof fn renewing_takes_token_and_way(b: BundleView)
    ensures
        b.can_refresh() ==> b.refresh_token is Some,
        b.can_refresh() ==> b.refresh is Some,
        b.refresh_token is Some && b.refresh is Some ==> b.can_refresh(),
{
}

/// A record of a version beyond one is refused, whatever else it holds; one of version zero or one
/// is read as what it holds.
pub proof fn newer_records_are_refused(t: crate::document::Tree, n: int)
    requires
        t is Table,
        t.member("v"@) == Some(crate::document::Tree::Integer(n)),
        0 <= n <= u32::MAX,
    ensures
        n > 1 ==> BundleView::accepted(t) is Err,
        n <= 1 ==> (BundleView::accepted(t) is Ok <==> ConnectorOAuthBundle::decoded(t) is Ok),
        BundleView::accepted(t) is Ok ==> BundleView::accepted(t)->Ok_0
            == ConnectorOAuthBundle::decoded(t)->Ok_0,
{
}

/// What is read of a record is what stands under its names.
pub proof fn records_are_read_by_name(t: crate::document::Tree)
    requires
        BundleView::accepted(t) is Ok,
    ensures
        ({
            let b = BundleView::accepted(t)->Ok_0;
            &&& t.member("v"@) == Some(crate::document::Tree::Integer(b.v as int))
            &&& t.member("kind"@) is Some && t.member("kind"@)->0.bare_name() == Some(
                "oauth2_authorization_code"@,
            )
            &&& t.member("access_token"@) == Some(crate::document::Tree::Text(b.access_token))
            &&& t.member("token_type"@) == Some(crate::document::Tree::Text(b.token_type))
            &&& crate::document::says(t, "refresh_token"@, b.refresh_token)
            &&& crate::document::says(t, "scope"@, b.scope)
            &&& t.member("obtained_at"@) is Some
            &&& t.member("obtained_at"@)->0 is Text
            &&& crate::time::time_read(t.member("obtained_at"@)->0->Text_0) == Some(
                (b.obtained_at.secs, b.obtained_at.nanos),
            )
            &&& b.expires_at is Some ==> crate::time::time_read(
                t.member("expires_at"@)->0->Text_0,
            ) == Some((b.expires_at->0.secs, b.expires_at->0.nanos))
            &&& b.expires_at is None ==> t.member("expires_at"@) is None || t.member(
                "expires_at"@,
            )->0 is Null
            &&& b.refresh is Some <==> t.member("refresh"@) is Some && !(t.member("refresh"@)->0
                is Null)
            &&& b.refresh is Some ==> ConnectorOAuthRefreshSpec::decoded(t.member("refresh"@)->0)
                == Ok::<RefreshView, Seq<char>>(b.refresh->0)
        }),
{
}

/// How a token is renewed is what stands under the names of its parts.
pub proof fn renewals_are_read_by_name(t: crate::document::Tree)
    requires
        t is Table,
        ConnectorOAuthRefreshSpec::decoded(t) is Ok,
    ensures
        ({
            let r = ConnectorOAuthRefreshSpec::decoded(t)->Ok_0;
            &&& t.member("token_url"@) == Some(crate::document::Tree::Text(r.token_url))
            &&& t.member("client_id_ref"@) == Some(crate::document::Tree::Text(r.client_id_ref))
            &&& t.member("client_secret_ref"@) == Some(
                crate::document::Tree::Text(r.client_secret_ref),
            )
        }),
{
}

/// The scopes of a text are the text without white space around it; a text without content, and
/// what is neither a text nor a list, has none.
pub proof fn text_scopes_are_trimmed(s: Seq<char>, n: int, delimiter: Seq<char>)
    ensures
        ({
            let text = normalized_scope(Some(crate::document::Tree::Text(s)), delimiter);
            &&& text is None <==> crate::text::blank(s)
            &&& text is Some ==> text->0 == crate::text::trimmed(s) && text->0.len() > 0
        }),
        normalized_scope(None, delimiter) is None,
        normalized_scope(Some(crate::document::Tree::Null), delimiter) is None,
        normalized_scope(Some(crate::document::Tree::Integer(n)), delimiter) is None,
{
    crate::text::trimming_takes_white_space_only(s);
}

/// The parts of two lists are those of the first and then those of the second; a text that has
/// content is one part, trimmed, and anything else is none.
pub proof fn scope_parts_add_up(
    a: Seq<crate::document::Tree>,
    b: Seq<crate::document::Tree>,
    item: crate::document::Tree,
)
    ensures
        scope_parts(a + b) == scope_parts(a) + scope_parts(b),
        scope_parts(seq![item]) == (if item is Text && !crate::text::blank(item->Text_0) {
            seq![crate::text::trimmed(item->Text_0)]
        } else {
            Seq::empty()
        }),
    decreases b.len(),
{
    assert(seq![item].drop_last() =~= Seq::<crate::document::Tree>::empty());
    reveal_with_fuel(scope_parts, 2);
    if item is Text {
        crate::text::trimming_takes_white_space_only(item->Text_0);
        assert(Seq::<Seq<char>>::empty().push(crate::text::trimmed(item->Text_0)) =~= seq![
            crate::text::trimmed(item->Text_0),
        ]);
    }
    if b.len() == 0 {
        assert(a + b =~= a);
        assert(scope_parts(a) + scope_parts(b) =~= scope_parts(a));
    } else {
        scope_parts_add_up(a, b.drop_last(), item);
        assert((a + b).drop_last() =~= a + b.drop_last());
        assert((a + b).last() == b.last());
        assert(scope_parts(a + b) =~= scope_parts(a) + scope_parts(b));
    }
}

/// Parts are joined in order with the delimiter between each two, and nowhere else.
pub proof fn joining_puts_delimiters_between(
    first: Seq<char>,
    parts: Seq<Seq<char>>,
    delimiter: Seq<char>,
)
    ensures
        joined(seq![first], delimiter) == first,
        parts.len() > 0 ==> joined(seq![first] + parts, delimiter) == first + delimiter + joined(
            parts,
            delimiter,
        ),
    decreases parts.len(),
{
    if parts.len() > 0 {
        let all = seq![first] + parts;
        assert(all.last() == parts.last());
        assert(all.drop_last() =~= seq![first] + parts.drop_last());
        joining_puts_delimiters_between(first, parts.drop_last(), delimiter);
        if parts.len() == 1 {
            assert(all.drop_last() =~= seq![first]);
            assert(joined(all, delimiter) =~= first + delimiter + joined(parts, delimiter));
        } else {
            assert(joined(all, delimiter) =~= first + delimiter + joined(parts, delimiter));
        }
    }
}

/// A list of scopes gives its parts in one text; no part, no text.
pub proof fn list_scopes_are_joined(items: Seq<crate::document::Tree>, delimiter: Seq<char>)
    ensures
        ({
            let text = normalized_scope(Some(crate::document::Tree::List(items)), delimiter);
            &&& scope_parts(items).len() == 0 ==> text is None
            &&& text is Some ==> text->0 == joined(scope_parts(items), delimiter)
            &&& text is None ==> joined(scope_parts(items), delimiter).len() == 0
        }),
{
}

/// What is said of a newer record names its version and the one that is known.
pub proof fn newer_records_are_told_why(t: crate::document::Tree, n: int)
    requires
        t is Table,
        t.member("v"@) == Some(crate::document::Tree::Integer(n)),
        1 < n <= u32::MAX,
    ensures
        BundleView::accepted(t) == Err::<BundleView, Seq<char>>(
            "connector OAuth bundle version "@ + crate::text::decimal(n as nat)
                + " is newer than supported "@ + crate::text::decimal(1),
        ),
{
}

/// A record of a known version is accepted where each of its parts can be read. A part that it may
/// lack may be absent, or `Null`.
pub proof fn records_are_accepted(t: crate::document::Tree, version: int)
    requires
        t is Table,
        t.member("v"@) == Some(crate::document::Tree::Integer(version)),
        0 <= version <= 1,
        t.member("kind"@) is Some && t.member("kind"@)->0.bare_name() == Some(
            "oauth2_authorization_code"@,
        ),
        t.member("access_token"@) is Some && t.member("access_token"@)->0 is Text,
        t.member("token_type"@) is Some && t.member("token_type"@)->0 is Text,
        crate::document::may_say_text(t, "refresh_token"@),
        crate::document::may_say_text(t, "scope"@),
        t.member("obtained_at"@) is Some && t.member("obtained_at"@)->0 is Text
            && crate::time::time_read(t.member("obtained_at"@)->0->Text_0) is Some,
        t.member("expires_at"@) is Some && !(t.member("expires_at"@)->0 is Null) ==> t.member(
            "expires_at"@,
        )->0 is Text && crate::time::time_read(t.member("expires_at"@)->0->Text_0) is Some,
        t.member("refresh"@) is Some && !(t.member("refresh"@)->0 is Null)
            ==> ConnectorOAuthRefreshSpec::decoded(t.member("refresh"@)->0) is Ok,
    ensures
        BundleView::accepted(t) is Ok,
{
}

/// A way to renew is accepted where it has its three texts.
pub proof fn renewals_are_accepted(t: crate::document::Tree)
    requires
        t is Table,
        t.member("token_url"@) is Some && t.member("token_url"@)->0 is Text,
        t.member("client_id_ref"@) is Some && t.member("client_id_ref"@)->0 is Text,
        t.member("client_secret_ref"@) is Some && t.member("client_secret_ref"@)->0 is Text,
    ensures
        ConnectorOAuthRefreshSpec::decoded(t) is Ok,
{
}

} // verus!

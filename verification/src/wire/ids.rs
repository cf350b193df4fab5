//! The documents of identifiers and manifest references.
use crate::document::{member, missing_text, wrong_kind_text, Member, Value};
use crate::types::ids::Uuid;
use crate::types::manifest::ManifestRef;
use vstd::prelude::*;

verus! {

/// An identifier as a document.
pub open spec fn id_tree(id: Uuid) -> crate::document::Tree {
    crate::document::Tree::Text(crate::types::ids::uuid_text(id.bits))
}

/// An identifier as a document.
pub(crate) fn id_value(id: Uuid) -> (res: Value)
    ensures
        res@ == id_tree(id),
{
    Value::Text(id.to_string())
}

/// The identifier that a tree stands for.
pub open spec fn id_of(t: crate::document::Tree, key: Seq<char>) -> Result<Uuid, Seq<char>> {
    match t {
        crate::document::Tree::Text(s) => match crate::types::ids::uuid_parsed(s) {
            Ok(bits) => Ok(Uuid { bits }),
            Err(e) => Err(e),
        },
        _ => Err(crate::document::wrong_kind(key, "an identifier"@)),
    }
}

/// Reads the identifier that a document stands for. What was written is read back.
fn read_id(doc: &Value, key: &str) -> (res: Result<Uuid, String>)
    ensures
        res is Ok <==> id_of(doc@, key@) is Ok,
        res is Ok ==> id_of(doc@, key@)->Ok_0 == res->Ok_0,
        res is Err ==> id_of(doc@, key@)->Err_0 == res->Err_0@,
        forall|id: Uuid| doc@ == #[trigger] id_tree(id) ==> res == Ok::<Uuid, String>(id),
{
    match doc {
        Value::Text(s) => match Uuid::parse_str(s.as_str()) {
            Ok(id) => Ok(id),
            Err(e) => Err(e.message),
        },
        _ => Err(wrong_kind_text(key, "an identifier")),
    }
}

/// The identifier under `key`, which must be there.
pub open spec fn need_id(t: crate::document::Tree, key: Seq<char>) -> Result<Uuid, Seq<char>> {
    match t.member(key) {
        None => Err(crate::document::missing(key)),
        Some(sub) => id_of(sub, key),
    }
}

/// Reads the identifier under `key`, which must be there.
pub(crate) fn read_need_id(doc: &Value, key: &str) -> (res: Result<Uuid, String>)
    ensures
        res is Ok <==> need_id(doc@, key@) is Ok,
        res is Ok ==> need_id(doc@, key@)->Ok_0 == res->Ok_0,
        res is Err ==> need_id(doc@, key@)->Err_0 == res->Err_0@,
        forall|id: Uuid|
            doc@.member(key@) == Some(#[trigger] id_tree(id)) ==> res == Ok::<Uuid, String>(id),
{
    match doc.get(key) {
        None => Err(missing_text(key)),
        Some(sub) => read_id(sub, key),
    }
}

/// An identifier, or nothing.
pub open spec fn opt_id_tree(id: Option<Uuid>) -> crate::document::Tree {
    match id {
        Some(id) => id_tree(id),
        None => crate::document::Tree::Null,
    }
}

/// The identifier under `key`, if there is one.
pub open spec fn opt_id(t: crate::document::Tree, key: Seq<char>) -> Result<
    Option<Uuid>,
    Seq<char>,
> {
    match t.member(key) {
        None => Ok(None),
        Some(sub) => if sub is Null {
            Ok(None)
        } else {
            match id_of(sub, key) {
                Ok(id) => Ok(Some(id)),
                Err(e) => Err(e),
            }
        },
    }
}

/// Reads the identifier under `key`, if there is one.
pub(crate) fn read_opt_id(doc: &Value, key: &str) -> (res: Result<Option<Uuid>, String>)
    ensures
        res is Ok <==> opt_id(doc@, key@) is Ok,
        res is Ok ==> opt_id(doc@, key@)->Ok_0 == res->Ok_0,
        res is Err ==> opt_id(doc@, key@)->Err_0 == res->Err_0@,
        forall|id: Option<Uuid>|
            doc@.member(key@) == Some(#[trigger] opt_id_tree(id)) ==> res == Ok::<
                Option<Uuid>,
                String,
            >(id),
{
    match doc.get(key) {
        None => Ok(None),
        Some(Value::Null) => Ok(None),
        Some(sub) => match read_id(sub, key) {
            Ok(id) => {
                assert forall|i: Option<Uuid>| sub@ == #[trigger] opt_id_tree(i) implies i == Some(
                    id,
                ) by {
                    assert(sub@ == id_tree(i->0));
                }
                Ok(Some(id))
            },
            Err(e) => {
                assert forall|i: Option<Uuid>| sub@ == #[trigger] opt_id_tree(i) implies false by {
                    assert(sub@ == id_tree(i->0));
                }
                Err(e)
            },
        },
    }
}

/// A manifest reference as a document.
pub open spec fn manifest_tree(m: ManifestRef) -> crate::document::Tree {
    crate::document::Tree::Table(
        seq![
            crate::document::named("manifest_id"@, id_tree(m.manifest_id)),
            crate::document::named("version"@, crate::document::Tree::Integer(m.version as int)),
        ],
    )
}

/// The document of a manifest reference has what the reference holds.
pub(crate) proof fn manifest_members(m: ManifestRef)
    ensures
        crate::document::plain(manifest_tree(m), 2),
        manifest_tree(m).member("manifest_id"@) == Some(id_tree(m.manifest_id)),
        manifest_tree(m).member("version"@) == Some(
            crate::document::Tree::Integer(m.version as int),
        ),
{
    reveal_strlit("manifest_id");
    reveal_strlit("version");
    assert("manifest_id"@.len() == 11);
    assert("version"@.len() == 7);
    let members = manifest_tree(m)->Table_0;
    assert(crate::document::distinct_names(members));
    crate::document::distinct_member_is_found(members, 0);
    crate::document::distinct_member_is_found(members, 1);
    assert forall|i: int| 0 <= i < members.len() implies crate::document::plain(
        (#[trigger] members[i]).value,
        1,
    ) by {
    }
}

/// A manifest reference as a document.
pub(crate) fn manifest_value(m: &ManifestRef) -> (res: Value)
    ensures
        res@ == manifest_tree(*m),
{
    let mut members: Vec<Member> = Vec::new();
    members.push(member("manifest_id", id_value(m.manifest_id)));
    members.push(member("version", Value::Integer(m.version as i128)));
    assert(crate::document::table_view(members@) =~= manifest_tree(*m)->Table_0);
    Value::Table(members)
}

/// The number of 64 bits under `key`, which must be there.
pub open spec fn need_u64(t: crate::document::Tree, key: Seq<char>) -> Result<u64, Seq<char>> {
    match t.opt_u64(key) {
        Ok(Some(n)) => Ok(n),
        Ok(None) => Err(crate::document::missing(key)),
        Err(e) => Err(e),
    }
}

/// Reads the number of 64 bits under `key`, which must be there.
pub(crate) fn read_need_u64(doc: &Value, key: &str) -> (res: Result<u64, String>)
    ensures
        res is Ok <==> need_u64(doc@, key@) is Ok,
        res is Ok ==> need_u64(doc@, key@)->Ok_0 == res->Ok_0,
        res is Err ==> need_u64(doc@, key@)->Err_0 == res->Err_0@,
{
    match doc.opt_u64(key) {
        Ok(Some(n)) => Ok(n),
        Ok(None) => Err(missing_text(key)),
        Err(e) => Err(e),
    }
}

/// The manifest reference that a tree stands for.
pub open spec fn manifest_of(t: crate::document::Tree) -> Result<ManifestRef, Seq<char>> {
    let t = t.in_order(seq!["manifest_id"@, "version"@], 2);
    let manifest_id = need_id(t, "manifest_id"@);
    let version = need_u64(t, "version"@);
    match crate::document::earlier(
        crate::document::earlier(
            crate::document::error_of(t.table("manifest"@)),
            crate::document::error_of(manifest_id),
        ),
        crate::document::error_of(version),
    ) {
        Some(e) => Err(e),
        None => Ok(ManifestRef { manifest_id: manifest_id->Ok_0, version: version->Ok_0 }),
    }
}

/// Reads a manifest reference. What was written is read back.
fn read_manifest(doc: &Value) -> (res: Result<ManifestRef, String>)
    ensures
        res is Ok <==> manifest_of(doc@) is Ok,
        res is Ok ==> manifest_of(doc@)->Ok_0 == res->Ok_0,
        res is Err ==> manifest_of(doc@)->Err_0 == res->Err_0@,
        forall|m: ManifestRef|
            doc@ == #[trigger] manifest_tree(m) ==> res == Ok::<ManifestRef, String>(m),
{
    proof {
        assert forall|m: ManifestRef| doc@ == #[trigger] manifest_tree(m) implies doc@.member(
            "manifest_id"@,
        ) == Some(id_tree(m.manifest_id)) && doc@.member("version"@) == Some(
            crate::document::Tree::Integer(m.version as int),
        ) by {
            manifest_members(m);
        }
    }
    let order: [&str; 2] = ["manifest_id", "version"];
    let names = order.as_slice();
    assert(names.deep_view() =~= seq!["manifest_id"@, "version"@]);
    let table = doc.in_order(names, 2);
    let doc = &table;
    if let Err(e) = doc.check_kind("manifest") {
        return Err(e);
    }
    let manifest_id = match read_need_id(doc, "manifest_id") {
        Ok(v) => v,
        Err(e) => return Err(e),
    };
    let version = match read_need_u64(doc, "version") {
        Ok(v) => v,
        Err(e) => return Err(e),
    };
    Ok(ManifestRef { manifest_id, version })
}

/// A manifest reference, or nothing.
pub open spec fn opt_manifest_tree(m: Option<ManifestRef>) -> crate::document::Tree {
    match m {
        Some(m) => manifest_tree(m),
        None => crate::document::Tree::Null,
    }
}

/// The manifest reference under `key`, if there is one.
pub open spec fn opt_manifest(t: crate::document::Tree, key: Seq<char>) -> Result<
    Option<ManifestRef>,
    Seq<char>,
> {
    match t.member(key) {
        None => Ok(None),
        Some(sub) => if sub is Null {
            Ok(None)
        } else {
            match manifest_of(sub) {
                Ok(m) => Ok(Some(m)),
                Err(e) => Err(e),
            }
        },
    }
}

/// Reads the manifest reference under `key`, if there is one.
pub(crate) fn read_opt_manifest(doc: &Value, key: &str) -> (res: Result<Option<ManifestRef>, String>)
    ensures
        res is Ok <==> opt_manifest(doc@, key@) is Ok,
        res is Ok ==> opt_manifest(doc@, key@)->Ok_0 == res->Ok_0,
        res is Err ==> opt_manifest(doc@, key@)->Err_0 == res->Err_0@,
        forall|m: Option<ManifestRef>|
            doc@.member(key@) == Some(#[trigger] opt_manifest_tree(m)) ==> res == Ok::<
                Option<ManifestRef>,
                String,
            >(m),
{
    match doc.get(key) {
        None => Ok(None),
        Some(Value::Null) => Ok(None),
        Some(sub) => match read_manifest(sub) {
            Ok(m) => {
                assert forall|i: Option<ManifestRef>| sub@ == #[trigger] opt_manifest_tree(
                    i,
                ) implies i == Some(m) by {
                    assert(sub@ == manifest_tree(i->0));
                }
                Ok(Some(m))
            },
            Err(e) => {
                assert forall|i: Option<ManifestRef>| sub@ == #[trigger] opt_manifest_tree(
                    i,
                ) implies false by {
                    assert(sub@ == manifest_tree(i->0));
                }
                Err(e)
            },
        },
    }
}

/// Under `key` stands a text that is read as the identifier `id`.
pub open spec fn is_id(t: crate::document::Tree, key: Seq<char>, id: Uuid) -> bool {
    &&& t.member(key) is Some
    &&& t.member(key)->0 is Text
    &&& crate::types::ids::uuid_parsed(t.member(key)->0->Text_0) == Ok::<u128, Seq<char>>(id.bits)
}

/// Under `key` stands the identifier `id`; where `id` is none, nothing does, or `Null`.
pub open spec fn is_opt_id(t: crate::document::Tree, key: Seq<char>, id: Option<Uuid>) -> bool {
    match id {
        Some(id) => is_id(t, key, id),
        None => t.member(key) is None || t.member(key) == Some(crate::document::Tree::Null),
    }
}

/// Under `key` stands a text that is read as the point in time `at`.
pub open spec fn is_time(
    t: crate::document::Tree,
    key: Seq<char>,
    at: crate::time::Timestamp,
) -> bool {
    &&& t.member(key) is Some
    &&& t.member(key)->0 is Text
    &&& crate::time::time_read(t.member(key)->0->Text_0) == Some((at.secs, at.nanos))
}

/// A manifest reference is the identifier and the version that stand under their names.
pub proof fn manifests_are_read_by_name(t: crate::document::Tree, m: ManifestRef)
    requires
        t is Table,
    ensures
        manifest_of(t) == Ok::<ManifestRef, Seq<char>>(m) <==> {
            &&& is_id(t, "manifest_id"@, m.manifest_id)
            &&& t.member("version"@) == Some(crate::document::Tree::Integer(m.version as int))
        },
{
}

} // verus!

//! References to versioned chunk manifests.
use crate::text::push_decimal;
use crate::types::ids::Uuid;
use vstd::prelude::*;
use vstd::string::*;

verus! {

/// One version of a manifest. The id stays; the version grows as the manifest changes.
#[derive(Clone, Copy, Debug, PartialEq, Eq, Structural, Hash)]
pub struct ManifestRef {
    pub manifest_id: Uuid,
    pub version: u64,
}

/// The path under which all versions of a manifest are stored.
pub open spec fn manifest_prefix(id: Uuid) -> Seq<char> {
    "manifests/"@ + crate::types::ids::uuid_text(id.bits) + "/"@
}

impl ManifestRef {
    /// The key under which this version is stored.
    pub open spec fn key(self) -> Seq<char> {
        manifest_prefix(self.manifest_id) + "v"@ + crate::text::decimal(self.version as nat)
            + ".json"@
    }

    /// The text `id@vN`.
    pub open spec fn text(self) -> Seq<char> {
        crate::types::ids::uuid_text(self.manifest_id.bits) + "@v"@ + crate::text::decimal(
            self.version as nat,
        )
    }

    /// A fresh manifest, at version 1.
    pub fn new() -> (res: ManifestRef)
        ensures
            res.manifest_id.is_random(),
            res.version == 1,
    {
        ManifestRef { manifest_id: Uuid::new_v4(), version: 1 }
    }

    /// The next version of the same manifest.
    pub fn next_version(self) -> (res: ManifestRef)
        requires
            self.version < u64::MAX,
        ensures
            res.manifest_id == self.manifest_id,
            res.version == self.version + 1,
    {
        ManifestRef { manifest_id: self.manifest_id, version: self.version + 1 }
    }

    /// The key under which this version is stored.
    pub fn storage_key(&self) -> (res: String)
        ensures
            res@ == self.key(),
    {
        let mut text = ManifestRef::id_prefix(self.manifest_id);
        text.append("v");
        push_decimal(&mut text, self.version);
        text.append(".json");
        text
    }

    /// The path under which all versions of a manifest are stored.
    pub fn id_prefix(manifest_id: Uuid) -> (res: String)
        ensures
            res@ == manifest_prefix(manifest_id),
    {
        let mut text = String::from_str("manifests/");
        text.append(manifest_id.to_string().as_str());
        text.append("/");
        text
    }

    /// The text `id@vN`.
    pub fn to_string(&self) -> (res: String)
        ensures
            res@ == self.text(),
    {
        let mut text = self.manifest_id.to_string();
        text.append("@v");
        push_decimal(&mut text, self.version);
        text
    }
}

impl Default for ManifestRef {
    fn default() -> (res: ManifestRef)
        ensures
            res.manifest_id.is_random(),
            res.version == 1,
    {
        ManifestRef::new()
    }
}

/// Every version is stored under the path of its manifest.
pub proof fn key_lies_under_prefix(m: ManifestRef)
    ensures
        manifest_prefix(m.manifest_id).is_prefix_of(m.key()),
{
    let p = manifest_prefix(m.manifest_id);
    assert(m.key().subrange(0, p.len() as int) =~= p);
}

/// Different references have different keys and different texts.
pub proof fn keys_tell_references_apart(a: ManifestRef, b: ManifestRef)
    ensures
        a.key() == b.key() ==> a == b,
        a.text() == b.text() ==> a == b,
{
    let ia = crate::types::ids::uuid_text(a.manifest_id.bits);
    let ib = crate::types::ids::uuid_text(b.manifest_id.bits);
    let da = crate::text::decimal(a.version as nat);
    let db = crate::text::decimal(b.version as nat);
    if a.key() == b.key() {
        reveal_strlit("manifests/");
        reveal_strlit("/");
        reveal_strlit("v");
        reveal_strlit(".json");
        assert("manifests/"@.len() == 10 && "/"@.len() == 1 && "v"@.len() == 1 && ".json"@.len()
            == 5);
        assert(ia =~= a.key().subrange(10, 46));
        assert(ib =~= b.key().subrange(10, 46));
        assert(da =~= a.key().subrange(48, a.key().len() - 5));
        assert(db =~= b.key().subrange(48, b.key().len() - 5));
        crate::types::ids::uuid_text_is_injective(a.manifest_id.bits, b.manifest_id.bits);
        crate::text::decimal_is_injective(a.version as nat, b.version as nat);
    }
    if a.text() == b.text() {
        reveal_strlit("@v");
        assert("@v"@.len() == 2);
        assert(ia =~= a.text().subrange(0, 36));
        assert(ib =~= b.text().subrange(0, 36));
        assert(da =~= a.text().subrange(38, a.text().len() as int));
        assert(db =~= b.text().subrange(38, b.text().len() as int));
        crate::types::ids::uuid_text_is_injective(a.manifest_id.bits, b.manifest_id.bits);
        crate::text::decimal_is_injective(a.version as nat, b.version as nat);
    }
}

} // verus!

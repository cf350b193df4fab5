//! The document of the request for a sandbox.
use crate::document::{
    decode_list, encode_list, map_value, member, missing_text, number_value_32, read_json,
    text_value, write_json, wrong_kind_text, Decode, Encode, Member, Value,
};
use crate::text_map::TextMap;
use crate::time::Duration;
use crate::types::image::NetworkPolicy;
use crate::types::integration::decode_network;
use crate::types::manifest::ManifestRef;
use crate::types::sandbox::{AuxRoDrive, CpuLimit, DiskLimit, MemoryLimit, SandboxSpec};
use crate::wire::ids::{manifest_value, read_opt_manifest};
use vstd::prelude::*;

verus! {

/// What a [`AuxRoDrive`] stands for.
#[verifier::ext_equal]
pub ghost struct DriveView {
    pub drive_id: Seq<char>,
    pub guest_mount: Seq<char>,
    pub fs_type: Seq<char>,
    pub sha256: Option<Seq<char>>,
}

impl View for AuxRoDrive {
    type V = DriveView;

    open spec fn view(&self) -> DriveView {
        DriveView {
            drive_id: self.drive_id@,
            guest_mount: self.guest_mount@,
            fs_type: self.fs_type@,
            sha256: self.sha256.deep_view(),
        }
    }
}

impl Decode for AuxRoDrive {
    open spec fn decoded(t: crate::document::Tree) -> Result<DriveView, Seq<char>> {
        let t = t.in_order(
            seq!["drive_id"@, "guest_mount"@, "fs_type"@, "sha256"@],
            3,
        );
        let shape = t.table("drive"@);
        let drive_id = t.need_text("drive_id"@);
        let guest_mount = t.need_text("guest_mount"@);
        let fs_type = t.need_text("fs_type"@);
        let sha256 = t.opt_text("sha256"@, true);
        match crate::document::earlier(
            crate::document::earlier(
                crate::document::earlier(
                    crate::document::earlier(
                        crate::document::error_of(shape),
                        crate::document::error_of(drive_id),
                    ),
                    crate::document::error_of(guest_mount),
                ),
                crate::document::error_of(fs_type),
            ),
            crate::document::error_of(sha256),
        ) {
            Some(e) => Err(e),
            None => Ok(
                DriveView {
                    drive_id: drive_id->Ok_0,
                    guest_mount: guest_mount->Ok_0,
                    fs_type: fs_type->Ok_0,
                    sha256: sha256->Ok_0,
                },
            ),
        }
    }

    fn decode(doc: &Value) -> (res: Result<AuxRoDrive, String>) {
        let order: [&str; 4] = ["drive_id", "guest_mount", "fs_type", "sha256"];
        let names = order.as_slice();
        assert(names.deep_view() =~= seq!["drive_id"@, "guest_mount"@, "fs_type"@, "sha256"@]);
        let table = doc.in_order(names, 3);
        let doc = &table;
        if let Err(e) = doc.check_kind("drive") {
            return Err(e);
        }
        let drive_id = match doc.need_text("drive_id") {
            Ok(v) => v,
            Err(e) => return Err(e),
        };
        let guest_mount = match doc.need_text("guest_mount") {
            Ok(v) => v,
            Err(e) => return Err(e),
        };
        let fs_type = match doc.need_text("fs_type") {
            Ok(v) => v,
            Err(e) => return Err(e),
        };
        let sha256 = match doc.opt_text("sha256", true) {
            Ok(v) => v,
            Err(e) => return Err(e),
        };
        Ok(
            AuxRoDrive {
                drive_id,
                guest_mount,
                fs_type,
                sha256,
            },
        )
    }
}

impl Encode for AuxRoDrive {
    open spec fn tree(v: DriveView) -> crate::document::Tree {
        crate::document::Tree::Table(
            seq![
                crate::document::named(
                    "drive_id"@,
                    crate::document::Tree::Text(v.drive_id),
                ),
                crate::document::named(
                    "guest_mount"@,
                    crate::document::Tree::Text(v.guest_mount),
                ),
                crate::document::named(
                    "fs_type"@,
                    crate::document::Tree::Text(v.fs_type),
                ),
                crate::document::named(
                    "sha256"@,
                    crate::document::text_tree(v.sha256),
                ),
            ],
        )
    }

    open spec fn depth() -> nat {
        2
    }

    fn encode(&self) -> (res: Value) {
        let mut members: Vec<Member> = Vec::new();
        members.push(member("drive_id", Value::Text(self.drive_id.clone())));
        members.push(member("guest_mount", Value::Text(self.guest_mount.clone())));
        members.push(member("fs_type", Value::Text(self.fs_type.clone())));
        members.push(member("sha256", text_value(&self.sha256)));
        assert(crate::document::table_view(members@) =~= AuxRoDrive::tree(self@)->Table_0);
        Value::Table(members)
    }

    proof fn is_read_back(v: DriveView) {
        reveal_strlit("drive_id");
        reveal_strlit("guest_mount");
        reveal_strlit("fs_type");
        reveal_strlit("sha256");
        assert("drive_id"@.len() == 8);
        assert("guest_mount"@.len() == 11);
        assert("fs_type"@.len() == 7);
        assert("sha256"@.len() == 6);
        let t = AuxRoDrive::tree(v);
        let members = t->Table_0;
        assert(crate::document::distinct_names(members));
        crate::document::distinct_member_is_found(members, 0);
        crate::document::distinct_member_is_found(members, 1);
        crate::document::distinct_member_is_found(members, 2);
        crate::document::distinct_member_is_found(members, 3);
        assert forall|i: int| 0 <= i < members.len() implies crate::document::plain(
            (#[trigger] members[i]).value,
            1,
        ) by {
        }
    }
}

/// The number in the table under `key`: `{"field": n}`.
pub open spec fn limit_of(t: crate::document::Tree, key: Seq<char>, field: Seq<char>) -> Result<
    u32,
    Seq<char>,
> {
    match t.member(key) {
        None => Err(crate::document::missing(key)),
        Some(sub) => {
            let limit = sub.in_order(seq![field], 1);
            match limit.table(key) {
                Ok(_) => limit.need_u32(field),
                Err(e) => Err(e),
            }
        },
    }
}

/// Reads the number in the table under `key`.
fn read_limit(doc: &Value, key: &str, field: &str) -> (res: Result<u32, String>)
    ensures
        res is Ok <==> limit_of(doc@, key@, field@) is Ok,
        res is Ok ==> limit_of(doc@, key@, field@)->Ok_0 == res->Ok_0,
        res is Err ==> limit_of(doc@, key@, field@)->Err_0 == res->Err_0@,
{
    match doc.get(key) {
        None => Err(missing_text(key)),
        Some(sub) => {
            let order: [&str; 1] = [field];
            let names = order.as_slice();
            assert(names.deep_view() =~= seq![field@]);
            let limit = sub.in_order(names, 1);
            match limit.check_kind(key) {
                Ok(_) => limit.need_u32(field),
                Err(e) => Err(e),
            }
        },
    }
}

/// A table with one number.
pub open spec fn limit_tree(field: Seq<char>, n: u32) -> crate::document::Tree {
    crate::document::Tree::Table(
        seq![crate::document::named(field, crate::document::Tree::Integer(n as int))],
    )
}

/// A table with one number.
fn limit_value(field: &str, n: u32) -> (res: Value)
    ensures
        res@ == limit_tree(field@, n),
{
    let mut members: Vec<Member> = Vec::new();
    members.push(member(field, Value::Integer(n as i128)));
    assert(crate::document::table_view(members@) =~= limit_tree(field@, n)->Table_0);
    Value::Table(members)
}

/// A table with one number is read back.
proof fn limit_is_read_back(t: crate::document::Tree, key: Seq<char>, field: Seq<char>, n: u32)
    requires
        t.member(key) == Some(limit_tree(field, n)),
    ensures
        limit_of(t, key, field) == Ok::<u32, Seq<char>>(n),
        crate::document::plain(limit_tree(field, n), 2),
{
    let members = limit_tree(field, n)->Table_0;
    assert(crate::document::distinct_names(members));
    crate::document::distinct_member_is_found(members, 0);
    assert forall|i: int| 0 <= i < members.len() implies crate::document::plain(
        (#[trigger] members[i]).value,
        1,
    ) by {
    }
}

/// A span of time as a document.
pub open spec fn span_tree(d: Duration) -> crate::document::Tree {
    crate::document::Tree::Table(
        seq![
            crate::document::named("secs"@, crate::document::Tree::Integer(d.secs as int)),
            crate::document::named("nanos"@, crate::document::Tree::Integer(d.nanos as int)),
        ],
    )
}

/// A span of time as a document.
fn span_value(d: Duration) -> (res: Value)
    ensures
        res@ == span_tree(d),
{
    let mut members: Vec<Member> = Vec::new();
    members.push(member("secs", Value::Integer(d.secs as i128)));
    members.push(member("nanos", Value::Integer(d.nanos as i128)));
    assert(crate::document::table_view(members@) =~= span_tree(d)->Table_0);
    Value::Table(members)
}

/// The span of time that a tree stands for. Nanoseconds that make up whole seconds are carried
/// over.
pub open spec fn span_of(t: crate::document::Tree) -> Result<Duration, Seq<char>> {
    let t = t.in_order(seq!["secs"@, "nanos"@], 2);
    let shape = t.table_of("ttl"@, seq!["secs"@, "nanos"@]);
    let secs = crate::wire::ids::need_u64(t, "secs"@);
    let nanos = t.need_u32("nanos"@);
    match crate::document::earlier(
        crate::document::earlier(crate::document::error_of(shape), crate::document::error_of(secs)),
        crate::document::error_of(nanos),
    ) {
        Some(e) => Err(e),
        None => {
            let whole = secs->Ok_0 + nanos->Ok_0 / 1_000_000_000;
            if whole > u64::MAX {
                Err(crate::document::wrong_kind("ttl"@, "a span of time"@))
            } else {
                Ok(Duration { secs: whole as u64, nanos: (nanos->Ok_0 % 1_000_000_000) as u32 })
            }
        },
    }
}

/// Reads a span of time.
fn read_span(doc: &Value) -> (res: Result<Duration, String>)
    ensures
        res is Ok <==> span_of(doc@) is Ok,
        res is Ok ==> span_of(doc@)->Ok_0 == res->Ok_0,
        res is Err ==> span_of(doc@)->Err_0 == res->Err_0@,
{
    let fields: [&str; 2] = ["secs", "nanos"];
    let names = fields.as_slice();
    assert(names.deep_view() =~= seq!["secs"@, "nanos"@]);
    let table = doc.in_order(names, 2);
    let doc = &table;
    if let Err(e) = doc.check_table("ttl", names) {
        return Err(e);
    }
    let secs: u64 = match crate::wire::ids::read_need_u64(doc, "secs") {
        Ok(v) => v,
        Err(e) => return Err(e),
    };
    let nanos: u32 = match doc.need_u32("nanos") {
        Ok(v) => v,
        Err(e) => return Err(e),
    };
    let carry: u64 = (nanos / 1_000_000_000) as u64;
    if secs > u64::MAX - carry {
        return Err(wrong_kind_text("ttl", "a span of time"));
    }
    Ok(Duration { secs: secs + carry, nanos: nanos % 1_000_000_000 })
}

/// A span of time is read back.
proof fn span_is_read_back(d: Duration)
    requires
        d.nanos < 1_000_000_000,
    ensures
        span_of(span_tree(d)) == Ok::<Duration, Seq<char>>(d),
        crate::document::plain(span_tree(d), 2),
{
    reveal_strlit("secs");
    reveal_strlit("nanos");
    assert("secs"@.len() == 4);
    assert("nanos"@.len() == 5);
    let members = span_tree(d)->Table_0;
    assert(crate::document::distinct_names(members));
    crate::document::distinct_member_is_found(members, 0);
    crate::document::distinct_member_is_found(members, 1);
    let allowed = seq!["secs"@, "nanos"@];
    assert forall|i: int| 0 <= i < members.len() implies allowed.contains(
        (#[trigger] members[i]).key,
    ) by {
        assert(allowed[i] == members[i].key);
    }
    crate::document::no_stranger(members, allowed, 0);
    assert forall|i: int| 0 <= i < members.len() implies crate::document::plain(
        (#[trigger] members[i]).value,
        1,
    ) by {
    }
}

/// How long a sandbox lives, as a document says it.
pub open spec fn decoded_ttl(t: crate::document::Tree) -> Result<Option<Duration>, Seq<char>> {
    match t.member("ttl"@) {
        None => Ok(None),
        Some(sub) => if sub is Null {
            Ok(None)
        } else {
            match span_of(sub) {
                Ok(d) => Ok(Some(d)),
                Err(e) => Err(e),
            }
        },
    }
}

/// Reads how long a sandbox lives.
fn decode_ttl(doc: &Value) -> (res: Result<Option<Duration>, String>)
    ensures
        res is Ok <==> decoded_ttl(doc@) is Ok,
        res is Ok ==> decoded_ttl(doc@)->Ok_0 == res->Ok_0,
        res is Err ==> decoded_ttl(doc@)->Err_0 == res->Err_0@,
{
    match doc.get("ttl") {
        None => Ok(None),
        Some(Value::Null) => Ok(None),
        Some(sub) => match read_span(sub) {
            Ok(d) => Ok(Some(d)),
            Err(e) => Err(e),
        },
    }
}

/// The texts of the table under `env`, which must be there.
pub open spec fn decoded_env(t: crate::document::Tree) -> Result<
    Map<Seq<char>, Seq<char>>,
    Seq<char>,
> {
    if t.member("env"@) is None {
        Err(crate::document::missing("env"@))
    } else {
        t.text_table("env"@)
    }
}

/// Reads the texts of the table under `env`, which must be there.
fn decode_env(doc: &Value) -> (res: Result<TextMap, String>)
    ensures
        res is Ok <==> decoded_env(doc@) is Ok,
        res is Ok ==> decoded_env(doc@)->Ok_0 == res->Ok_0@,
        res is Err ==> decoded_env(doc@)->Err_0 == res->Err_0@,
{
    match doc.get("env") {
        None => Err(missing_text("env")),
        Some(_) => doc.text_table("env"),
    }
}

/// What a [`SandboxSpec`] stands for.
#[verifier::ext_equal]
pub ghost struct SpecView {
    pub image: Seq<char>,
    pub rootfs_source: Option<Seq<char>>,
    pub image_uri: Option<Seq<char>>,
    pub rootfs_manifest: Option<ManifestRef>,
    pub cpu: u32,
    pub memory: u32,
    pub disk: u32,
    pub ttl: Option<Duration>,
    pub env: Map<Seq<char>, Seq<char>>,
    pub workdir: Option<Seq<char>>,
    pub network: crate::types::image::NetworkView,
    pub aux_ro_drives: Seq<DriveView>,
    pub swap_mib: Option<u32>,
}

impl View for SandboxSpec {
    type V = SpecView;

    open spec fn view(&self) -> SpecView {
        SpecView {
            image: self.image@,
            rootfs_source: self.rootfs_source.deep_view(),
            image_uri: self.image_uri.deep_view(),
            rootfs_manifest: self.rootfs_manifest,
            cpu: self.cpu.vcpus,
            memory: self.memory.max_mib,
            disk: self.disk.max_gib,
            ttl: self.ttl,
            env: self.env@,
            workdir: self.workdir.deep_view(),
            network: self.network@,
            aux_ro_drives: crate::text::views(self.aux_ro_drives@),
            swap_mib: self.swap_mib,
        }
    }
}

impl SpecView {
    /// The request that a document stands for, or the reason why it stands for none.
    pub open spec fn decoded(t: crate::document::Tree) -> Result<SpecView, Seq<char>> {
        SpecView::of_table(
            t.in_order(
                seq![
                    "image"@,
                    "rootfs_source"@,
                    "image_uri"@,
                    "rootfs_manifest"@,
                    "cpu"@,
                    "memory"@,
                    "disk"@,
                    "ttl"@,
                    "env"@,
                    "workdir"@,
                    "network"@,
                    "aux_ro_drives"@,
                    "swap_mib"@,
                ],
                10,
            ),
        )
    }

    /// The request that a table stands for, or the reason why it stands for none.
    pub open spec fn of_table(t: crate::document::Tree) -> Result<SpecView, Seq<char>> {
        let image = t.need_text("image"@);
        let rootfs_source = t.opt_text("rootfs_source"@, true);
        let image_uri = t.opt_text("image_uri"@, true);
        let rootfs_manifest = crate::wire::ids::opt_manifest(t, "rootfs_manifest"@);
        let cpu = limit_of(t, "cpu"@, "vcpus"@);
        let memory = limit_of(t, "memory"@, "max_mib"@);
        let disk = limit_of(t, "disk"@, "max_gib"@);
        let ttl = decoded_ttl(t);
        let env = decoded_env(t);
        let workdir = t.opt_text("workdir"@, true);
        let network = crate::types::integration::decoded_network(t);
        let aux_ro_drives = crate::document::decoded_list::<AuxRoDrive>(t, "aux_ro_drives"@);
        let swap_mib = t.opt_u32("swap_mib"@);
        match crate::document::earlier(
            crate::document::earlier(
                crate::document::earlier(
                    crate::document::earlier(
                        crate::document::earlier(
                            crate::document::earlier(
                                crate::document::earlier(
                                    crate::document::earlier(
                                        crate::document::earlier(
                                            crate::document::earlier(
                                                crate::document::earlier(
                                                    crate::document::earlier(
                                                        crate::document::earlier(
                                                            crate::document::error_of(t.table("sandbox"@)),
                                                            crate::document::error_of(image),
                                                        ),
                                                        crate::document::error_of(rootfs_source),
                                                    ),
                                                    crate::document::error_of(image_uri),
                                                ),
                                                crate::document::error_of(rootfs_manifest),
                                            ),
                                            crate::document::error_of(cpu),
                                        ),
                                        crate::document::error_of(memory),
                                    ),
                                    crate::document::error_of(disk),
                                ),
                                crate::document::error_of(ttl),
                            ),
                            crate::document::error_of(env),
                        ),
                        crate::document::error_of(workdir),
                    ),
                    crate::document::error_of(network),
                ),
                crate::document::error_of(aux_ro_drives),
            ),
            crate::document::error_of(swap_mib),
        ) {
            Some(e) => Err(e),
            None => Ok(
                SpecView {
                    image: image->Ok_0,
                    rootfs_source: rootfs_source->Ok_0,
                    image_uri: image_uri->Ok_0,
                    rootfs_manifest: rootfs_manifest->Ok_0,
                    cpu: cpu->Ok_0,
                    memory: memory->Ok_0,
                    disk: disk->Ok_0,
                    ttl: ttl->Ok_0,
                    env: env->Ok_0,
                    workdir: workdir->Ok_0,
                    network: network->Ok_0,
                    aux_ro_drives: aux_ro_drives->Ok_0,
                    swap_mib: swap_mib->Ok_0,
                },
            ),
        }
    }
}

/// The request as a document.
pub open spec fn spec_tree(c: SandboxSpec) -> crate::document::Tree {
    crate::document::Tree::Table(
        seq![
            crate::document::named(
                "image"@,
                crate::document::Tree::Text(c.image@),
            ),
            crate::document::named(
                "rootfs_source"@,
                crate::document::text_tree(c.rootfs_source.deep_view()),
            ),
            crate::document::named(
                "image_uri"@,
                crate::document::text_tree(c.image_uri.deep_view()),
            ),
            crate::document::named(
                "rootfs_manifest"@,
                crate::wire::ids::opt_manifest_tree(c.rootfs_manifest),
            ),
            crate::document::named(
                "cpu"@,
                limit_tree("vcpus"@, c.cpu.vcpus),
            ),
            crate::document::named(
                "memory"@,
                limit_tree("max_mib"@, c.memory.max_mib),
            ),
            crate::document::named(
                "disk"@,
                limit_tree("max_gib"@, c.disk.max_gib),
            ),
            crate::document::named(
                "ttl"@,
                match c.ttl {
                    Some(d) => span_tree(d),
                    None => crate::document::Tree::Null,
                },
            ),
            crate::document::named(
                "env"@,
                crate::document::map_tree(c.env.keys(), c.env.values()),
            ),
            crate::document::named(
                "workdir"@,
                crate::document::text_tree(c.workdir.deep_view()),
            ),
            crate::document::named(
                "network"@,
                NetworkPolicy::tree(c.network@),
            ),
            crate::document::named(
                "aux_ro_drives"@,
                crate::document::list_tree::<AuxRoDrive>(crate::text::views(c.aux_ro_drives@)),
            ),
            crate::document::named(
                "swap_mib"@,
                crate::document::number_tree_32(c.swap_mib),
            ),
        ],
    )
}

/// The request can be written and read back: no key of its environment occurs twice, and its
/// time to live has fewer nanoseconds than a second.
pub open spec fn spec_fits(c: SandboxSpec) -> bool {
    &&& c.env.keys().len() == c.env.values().len()
    &&& forall|i: int, j: int|
        0 <= i < j < c.env.keys().len() ==> #[trigger] c.env.keys()[i] != #[trigger] c.env.keys()[j]
    &&& c.ttl is Some ==> c.ttl->0.nanos < 1_000_000_000
}

/// The document `t` has what the request `c` holds.
spec fn has_spec(t: crate::document::Tree, c: SandboxSpec) -> bool {
    &&& t is Table
    &&& t.member("image"@) == Some(crate::document::Tree::Text(c.image@))
    &&& t.member("rootfs_source"@) == Some(
        crate::document::text_tree(c.rootfs_source.deep_view()),
    )
    &&& t.member("image_uri"@) == Some(crate::document::text_tree(c.image_uri.deep_view()))
    &&& t.member("rootfs_manifest"@) == Some(
        crate::wire::ids::opt_manifest_tree(c.rootfs_manifest),
    )
    &&& limit_of(t, "cpu"@, "vcpus"@) == Ok::<u32, Seq<char>>(c.cpu.vcpus)
    &&& limit_of(t, "memory"@, "max_mib"@) == Ok::<u32, Seq<char>>(c.memory.max_mib)
    &&& limit_of(t, "disk"@, "max_gib"@) == Ok::<u32, Seq<char>>(c.disk.max_gib)
    &&& decoded_ttl(t) == Ok::<Option<Duration>, Seq<char>>(c.ttl)
    &&& decoded_env(t) == Ok::<Map<Seq<char>, Seq<char>>, Seq<char>>(c.env@)
    &&& t.member("workdir"@) == Some(crate::document::text_tree(c.workdir.deep_view()))
    &&& crate::types::integration::decoded_network(t) == Ok::<
        crate::types::image::NetworkView,
        Seq<char>,
    >(c.network@)
    &&& crate::document::decoded_list::<AuxRoDrive>(t, "aux_ro_drives"@) == Ok::<
        Seq<DriveView>,
        Seq<char>,
    >(crate::text::views(c.aux_ro_drives@))
    &&& t.opt_u32("swap_mib"@) == Ok::<Option<u32>, Seq<char>>(c.swap_mib)
}

/// The document of a request has what the request holds.
proof fn spec_members(c: SandboxSpec)
    requires
        spec_fits(c),
    ensures
        crate::document::plain(spec_tree(c), 100),
        has_spec(spec_tree(c), c),
{
    reveal_strlit("image");
    reveal_strlit("rootfs_source");
    reveal_strlit("image_uri");
    reveal_strlit("rootfs_manifest");
    reveal_strlit("cpu");
    reveal_strlit("memory");
    reveal_strlit("disk");
    reveal_strlit("ttl");
    reveal_strlit("env");
    reveal_strlit("workdir");
    reveal_strlit("network");
    reveal_strlit("aux_ro_drives");
    reveal_strlit("swap_mib");
    assert("image"@.len() == 5);
    assert("rootfs_source"@.len() == 13);
    assert("image_uri"@.len() == 9);
    assert("rootfs_manifest"@.len() == 15);
    assert("cpu"@.len() == 3);
    assert("memory"@.len() == 6);
    assert("disk"@.len() == 4);
    assert("ttl"@.len() == 3);
    assert("env"@.len() == 3);
    assert("workdir"@.len() == 7);
    assert("network"@.len() == 7);
    assert("aux_ro_drives"@.len() == 13);
    assert("swap_mib"@.len() == 8);
    assert("rootfs_source"@[0] != "aux_ro_drives"@[0]);
    assert("cpu"@[0] != "ttl"@[0]);
    assert("cpu"@[0] != "env"@[0]);
    assert("ttl"@[0] != "env"@[0]);
    assert("workdir"@[0] != "network"@[0]);
    let t = spec_tree(c);
    let members = t->Table_0;
    assert(crate::document::distinct_names(members));
    crate::document::distinct_member_is_found(members, 0);
    crate::document::distinct_member_is_found(members, 1);
    crate::document::distinct_member_is_found(members, 2);
    crate::document::distinct_member_is_found(members, 3);
    crate::document::distinct_member_is_found(members, 4);
    crate::document::distinct_member_is_found(members, 5);
    crate::document::distinct_member_is_found(members, 6);
    crate::document::distinct_member_is_found(members, 7);
    crate::document::distinct_member_is_found(members, 8);
    crate::document::distinct_member_is_found(members, 9);
    crate::document::distinct_member_is_found(members, 10);
    crate::document::distinct_member_is_found(members, 11);
    crate::document::distinct_member_is_found(members, 12);
    if c.rootfs_manifest is Some {
        crate::wire::ids::manifest_members(c.rootfs_manifest->0);
        crate::document::plain_within(
            crate::wire::ids::manifest_tree(c.rootfs_manifest->0),
            2,
            99,
        );
    }
    limit_is_read_back(t, "cpu"@, "vcpus"@, c.cpu.vcpus);
    limit_is_read_back(t, "memory"@, "max_mib"@, c.memory.max_mib);
    limit_is_read_back(t, "disk"@, "max_gib"@, c.disk.max_gib);
    crate::document::plain_within(limit_tree("vcpus"@, c.cpu.vcpus), 2, 99);
    crate::document::plain_within(limit_tree("max_mib"@, c.memory.max_mib), 2, 99);
    crate::document::plain_within(limit_tree("max_gib"@, c.disk.max_gib), 2, 99);
    if c.ttl is Some {
        span_is_read_back(c.ttl->0);
        crate::document::plain_within(span_tree(c.ttl->0), 2, 99);
    }
    crate::document::map_is_read_back(t, "env"@, c.env.keys(), c.env.values());
    crate::document::plain_within(
        crate::document::map_tree(c.env.keys(), c.env.values()),
        2,
        99,
    );
    NetworkPolicy::is_read_back(c.network@);
    crate::document::plain_within(NetworkPolicy::tree(c.network@), 3, 99);
    let drives = crate::text::views(c.aux_ro_drives@);
    crate::document::list_is_read_back::<AuxRoDrive>(t, "aux_ro_drives"@, drives);
    crate::document::plain_within(crate::document::list_tree::<AuxRoDrive>(drives), 3, 99);
    assert forall|i: int| 0 <= i < members.len() implies crate::document::plain(
        (#[trigger] members[i]).value,
        99,
    ) by {
    }
}

impl SandboxSpec {
    /// Writes the request as JSON.
    pub fn to_json(&self) -> (res: String)
        requires
            self.ttl is Some ==> self.ttl->0.nanos < 1_000_000_000,
        ensures
            spec_fits(*self),
            res@ == crate::document::json_written(spec_tree(*self)),
    {
        let rootfs_manifest = match &self.rootfs_manifest {
            Some(m) => manifest_value(m),
            None => Value::Null,
        };
        let ttl = match self.ttl {
            Some(d) => span_value(d),
            None => Value::Null,
        };
        let mut members: Vec<Member> = Vec::new();
        members.push(member("image", Value::Text(self.image.clone())));
        members.push(member("rootfs_source", text_value(&self.rootfs_source)));
        members.push(member("image_uri", text_value(&self.image_uri)));
        members.push(member("rootfs_manifest", rootfs_manifest));
        members.push(member("cpu", limit_value("vcpus", self.cpu.vcpus)));
        members.push(member("memory", limit_value("max_mib", self.memory.max_mib)));
        members.push(member("disk", limit_value("max_gib", self.disk.max_gib)));
        members.push(member("ttl", ttl));
        members.push(member("env", map_value(&self.env)));
        members.push(member("workdir", text_value(&self.workdir)));
        members.push(member("network", self.network.encode()));
        members.push(member("aux_ro_drives", encode_list(&self.aux_ro_drives)));
        members.push(member("swap_mib", number_value_32(self.swap_mib)));
        assert(crate::document::table_view(members@) =~= spec_tree(*self)->Table_0);
        let doc = Value::Table(members);
        let n: usize = self.env.len();
        proof {
            assert forall|i: int, j: int|
                0 <= i < j < self.env.keys().len() implies #[trigger] self.env.keys()[i]
                != #[trigger] self.env.keys()[j] by {
                crate::text_map::before_is_total(self.env.keys()[i], self.env.keys()[j]);
            }
            spec_members(*self);
        }
        write_json(&doc)
    }

    /// Reads a request from a document. What was written is read back.
    pub fn from_document(doc: &Value) -> (res: Result<SandboxSpec, String>)
        ensures
            res is Ok <==> SpecView::decoded(doc@) is Ok,
            res is Ok ==> SpecView::decoded(doc@)->Ok_0 == res->Ok_0@,
            res is Err ==> SpecView::decoded(doc@)->Err_0 == res->Err_0@,
            forall|c: SandboxSpec|
                spec_fits(c) && doc@ == #[trigger] spec_tree(c) ==> res is Ok && res->Ok_0@ == c@,
    {
        let order: [&str; 13] = [
            "image",
            "rootfs_source",
            "image_uri",
            "rootfs_manifest",
            "cpu",
            "memory",
            "disk",
            "ttl",
            "env",
            "workdir",
            "network",
            "aux_ro_drives",
            "swap_mib",
        ];
        let names = order.as_slice();
        assert(names.deep_view() =~= seq![
            "image"@,
            "rootfs_source"@,
            "image_uri"@,
            "rootfs_manifest"@,
            "cpu"@,
            "memory"@,
            "disk"@,
            "ttl"@,
            "env"@,
            "workdir"@,
            "network"@,
            "aux_ro_drives"@,
            "swap_mib"@,
        ]);
        let table = doc.in_order(names, 10);
        SandboxSpec::of_table(&table)
    }

    /// Reads a request from a table. What was written is read back.
    fn of_table(doc: &Value) -> (res: Result<SandboxSpec, String>)
        ensures
            res is Ok <==> SpecView::of_table(doc@) is Ok,
            res is Ok ==> SpecView::of_table(doc@)->Ok_0 == res->Ok_0@,
            res is Err ==> SpecView::of_table(doc@)->Err_0 == res->Err_0@,
            forall|c: SandboxSpec|
                spec_fits(c) && doc@ == #[trigger] spec_tree(c) ==> res is Ok && res->Ok_0@ == c@,
    {
        proof {
            assert forall|c: SandboxSpec|
                spec_fits(c) && doc@ == #[trigger] spec_tree(c) implies has_spec(doc@, c) by {
                spec_members(c);
            }
        }
        if let Err(e) = doc.check_kind("sandbox") {
            return Err(e);
        }
        let image = match doc.need_text("image") {
            Ok(v) => v,
            Err(e) => return Err(e),
        };
        let rootfs_source = match doc.opt_text("rootfs_source", true) {
            Ok(v) => v,
            Err(e) => return Err(e),
        };
        let image_uri = match doc.opt_text("image_uri", true) {
            Ok(v) => v,
            Err(e) => return Err(e),
        };
        let rootfs_manifest = match read_opt_manifest(doc, "rootfs_manifest") {
            Ok(v) => v,
            Err(e) => return Err(e),
        };
        let cpu = match read_limit(doc, "cpu", "vcpus") {
            Ok(v) => CpuLimit { vcpus: v },
            Err(e) => return Err(e),
        };
        let memory = match read_limit(doc, "memory", "max_mib") {
            Ok(v) => MemoryLimit { max_mib: v },
            Err(e) => return Err(e),
        };
        let disk = match read_limit(doc, "disk", "max_gib") {
            Ok(v) => DiskLimit { max_gib: v },
            Err(e) => return Err(e),
        };
        let ttl = match decode_ttl(doc) {
            Ok(v) => v,
            Err(e) => return Err(e),
        };
        let env = match decode_env(doc) {
            Ok(v) => v,
            Err(e) => return Err(e),
        };
        let workdir = match doc.opt_text("workdir", true) {
            Ok(v) => v,
            Err(e) => return Err(e),
        };
        let network = match decode_network(doc) {
            Ok(v) => v,
            Err(e) => return Err(e),
        };
        let aux_ro_drives = match decode_list::<AuxRoDrive>(doc, "aux_ro_drives") {
            Ok(v) => v,
            Err(e) => return Err(e),
        };
        let swap_mib = match doc.opt_u32("swap_mib") {
            Ok(v) => v,
            Err(e) => return Err(e),
        };
        Ok(
            SandboxSpec {
                image,
                rootfs_source,
                image_uri,
                rootfs_manifest,
                cpu,
                memory,
                disk,
                ttl,
                env,
                workdir,
                network,
                aux_ro_drives,
                swap_mib,
            },
        )
    }

    /// Reads a request from JSON. What was written is read back. Of a name that is repeated, the
    /// last value counts.
    pub fn from_json(text: &str) -> (res: Result<SandboxSpec, String>)
        ensures
            match crate::document::json_read(text@) {
                Ok(t) => {
                    &&& res is Ok <==> SpecView::decoded(t) is Ok
                    &&& res is Ok ==> SpecView::decoded(t)->Ok_0 == res->Ok_0@
                    &&& res is Err ==> SpecView::decoded(t)->Err_0 == res->Err_0@
                },
                Err(e) => res is Err && res->Err_0@ == e,
            },
            forall|c: SandboxSpec|
                spec_fits(c) && text@ == crate::document::json_written(#[trigger] spec_tree(c))
                    ==> res is Ok && res->Ok_0@ == c@,
    {
        proof {
            assert forall|c: SandboxSpec|
                spec_fits(c) && text@ == crate::document::json_written(
                    #[trigger] spec_tree(c),
                ) implies crate::document::plain(spec_tree(c), 100) by {
                spec_members(c);
            }
        }
        match read_json(text) {
            Ok(doc) => SandboxSpec::from_document(&doc),
            Err(e) => Err(e),
        }
    }
}

/// A drive is what stands under its names.
pub proof fn drives_are_read_by_name(t: crate::document::Tree, v: DriveView)
    requires
        t is Table,
    ensures
        AuxRoDrive::decoded(t) == Ok::<DriveView, Seq<char>>(v) <==> {
            &&& t.member("drive_id"@) == Some(crate::document::Tree::Text(v.drive_id))
            &&& t.member("guest_mount"@) == Some(crate::document::Tree::Text(v.guest_mount))
            &&& t.member("fs_type"@) == Some(crate::document::Tree::Text(v.fs_type))
            &&& crate::document::says(t, "sha256"@, v.sha256)
        },
{
}

/// A request for a sandbox is what stands under its names.
pub proof fn requests_are_read_by_name(t: crate::document::Tree)
    requires
        t is Table,
        SpecView::decoded(t) is Ok,
    ensures
        ({
            let v = SpecView::decoded(t)->Ok_0;
            &&& t.member("image"@) == Some(crate::document::Tree::Text(v.image))
            &&& crate::document::says(t, "rootfs_source"@, v.rootfs_source)
            &&& crate::document::says(t, "image_uri"@, v.image_uri)
            &&& limit_of(t, "cpu"@, "vcpus"@) == Ok::<u32, Seq<char>>(v.cpu)
            &&& limit_of(t, "memory"@, "max_mib"@) == Ok::<u32, Seq<char>>(v.memory)
            &&& limit_of(t, "disk"@, "max_gib"@) == Ok::<u32, Seq<char>>(v.disk)
            &&& v.ttl is None <==> crate::document::says(t, "ttl"@, None)
            &&& v.ttl is Some ==> span_of(t.member("ttl"@)->0) == Ok::<Duration, Seq<char>>(
                v.ttl->0,
            )
            &&& t.member("env"@) is Some
            &&& t.text_table("env"@) == Ok::<Map<Seq<char>, Seq<char>>, Seq<char>>(v.env)
            &&& crate::document::says(t, "workdir"@, v.workdir)
            &&& t.member("network"@) is None ==> v.network.default
                == crate::types::image::NetworkDefault::Deny && v.network.allow_hosts.len() == 0
                && v.network.allow_host_patterns.len() == 0
            &&& t.member("network"@) is Some ==> crate::types::image::NetworkPolicy::decoded(
                t.member("network"@)->0,
            ) == Ok::<crate::types::image::NetworkView, Seq<char>>(v.network)
            &&& crate::document::decoded_list::<AuxRoDrive>(t, "aux_ro_drives"@) == Ok::<
                Seq<DriveView>,
                Seq<char>,
            >(v.aux_ro_drives)
            &&& crate::document::says_number(
                t,
                "swap_mib"@,
                match v.swap_mib {
                    Some(n) => Some(n as int),
                    None => None,
                },
            )
        }),
{
}

/// A limit is the number under its name; a span of time is the seconds and nanoseconds under their
/// names, together.
pub proof fn limits_and_spans_are_read_by_name(
    t: crate::document::Tree,
    key: Seq<char>,
    field: Seq<char>,
    sub: crate::document::Tree,
)
    requires
        sub is Table,
        t.member(key) == Some(sub),
    ensures
        limit_of(t, key, field) is Ok <==> sub.member(field) is Some && sub.member(field)->0
            is Integer && 0 <= sub.member(field)->0->Integer_0 <= u32::MAX,
        limit_of(t, key, field) is Ok ==> sub.member(field) == Some(
            crate::document::Tree::Integer(limit_of(t, key, field)->Ok_0 as int),
        ),
        span_of(sub) is Ok ==> sub.member("secs"@) is Some && sub.member("nanos"@) is Some
            && span_of(sub)->Ok_0.secs * 1_000_000_000 + span_of(sub)->Ok_0.nanos == sub.member(
            "secs"@,
        )->0->Integer_0 * 1_000_000_000 + sub.member("nanos"@)->0->Integer_0
            && span_of(sub)->Ok_0.nanos < 1_000_000_000,
{
}

/// A request is accepted where each of its parts can be read. A part that it may lack may be
/// absent, or `Null`.
pub proof fn requests_are_accepted(t: crate::document::Tree)
    requires
        t is Table,
        t.member("image"@) is Some && t.member("image"@)->0 is Text,
        crate::document::may_say_text(t, "rootfs_source"@),
        crate::document::may_say_text(t, "image_uri"@),
        crate::document::may_say_text(t, "workdir"@),
        t.member("rootfs_manifest"@) is Some && !(t.member("rootfs_manifest"@)->0 is Null)
            ==> crate::wire::ids::manifest_of(t.member("rootfs_manifest"@)->0) is Ok,
        limit_of(t, "cpu"@, "vcpus"@) is Ok,
        limit_of(t, "memory"@, "max_mib"@) is Ok,
        limit_of(t, "disk"@, "max_gib"@) is Ok,
        t.member("ttl"@) is Some && !(t.member("ttl"@)->0 is Null) ==> span_of(t.member("ttl"@)->0)
            is Ok,
        t.member("env"@) is Some && t.text_table("env"@) is Ok,
        t.member("network"@) is Some ==> crate::types::image::NetworkPolicy::decoded(
            t.member("network"@)->0,
        ) is Ok,
        crate::document::decoded_list::<AuxRoDrive>(t, "aux_ro_drives"@) is Ok,
        t.opt_u32("swap_mib"@) is Ok,
    ensures
        SpecView::decoded(t) is Ok,
{
}

/// Whatever else is wrong with a request, its missing image is told first.
pub proof fn the_image_comes_first(t: crate::document::Tree)
    requires
        t is Table,
        t.member("image"@) is None,
    ensures
        SpecView::decoded(t) == Err::<SpecView, Seq<char>>("missing field `"@ + "image"@ + "`"@),
{
}

} // verus!

//! How an image becomes a disk, and how that fails.
use crate::text::same;
use crate::types::image::OciRuntimeDefaults;
use crate::types::manifest::ManifestRef;
use vstd::prelude::*;
use vstd::string::*;

verus! {

/// A step from an image to a disk.
#[derive(Clone, Copy, Debug, PartialEq, Eq, Structural)]
pub enum MaterializeStage {
    Pull,
    Flatten,
    Pack,
    Chunk,
}

impl MaterializeStage {
    /// The stable name.
    pub open spec fn name(self) -> Seq<char> {
        match self {
            MaterializeStage::Pull => "pull"@,
            MaterializeStage::Flatten => "flatten"@,
            MaterializeStage::Pack => "pack"@,
            MaterializeStage::Chunk => "chunk"@,
        }
    }

    /// The stable name.
    pub fn as_str(&self) -> (res: &'static str)
        ensures
            res@ == self.name(),
    {
        match self {
            MaterializeStage::Pull => "pull",
            MaterializeStage::Flatten => "flatten",
            MaterializeStage::Pack => "pack",
            MaterializeStage::Chunk => "chunk",
        }
    }

    /// The step of that name, if there is one.
    pub fn parse(s: &str) -> (res: Option<MaterializeStage>)
        ensures
            res is Some ==> res->0.name() == s@,
            res is None ==> forall|k: MaterializeStage| k.name() != s@,
    {
        if same(s, "pull") {
            Some(MaterializeStage::Pull)
        } else if same(s, "flatten") {
            Some(MaterializeStage::Flatten)
        } else if same(s, "pack") {
            Some(MaterializeStage::Pack)
        } else if same(s, "chunk") {
            Some(MaterializeStage::Chunk)
        } else {
            None
        }
    }
}

impl MaterializeStage {
    /// The stable name.
    pub fn to_string(&self) -> (res: String)
        ensures
            res@ == self.name(),
    {
        String::from_str(self.as_str())
    }
}

/// Different steps from an image to a disk have different names.
pub proof fn materialize_stage_names_differ(a: MaterializeStage, b: MaterializeStage)
    requires
        a.name() == b.name(),
    ensures
        a == b,
{
    reveal_strlit("pull");
    reveal_strlit("flatten");
    reveal_strlit("pack");
    reveal_strlit("chunk");
    assert("pull"@.len() == 4);
    assert("flatten"@.len() == 7);
    assert("pack"@.len() == 4);
    assert("chunk"@.len() == 5);
    assert("pull"@[1] != "pack"@[1]);
}

/// How far an image is.
#[derive(Clone, Debug, PartialEq, Eq)]
pub struct MaterializeProgress {
    pub stage: MaterializeStage,
    pub detail: Option<String>,
    pub chunks_done: Option<u64>,
    pub chunks_total: Option<u64>,
}

/// The disk of an image.
#[derive(Clone, Debug)]
pub struct MaterializedImage {
    pub disk_manifest: ManifestRef,
    pub oci_defaults: OciRuntimeDefaults,
    pub manifest_digest: String,
    pub ext4_size_bytes: u64,
}

/// Why an image did not become a disk.
#[derive(Clone, Copy, Debug, PartialEq, Eq, Structural)]
pub enum MaterializeFailureKind {
    Busy,
    DiskFull,
    TooLarge,
    Pull,
    Image,
    Store,
    Transport,
    Internal,
}

impl MaterializeFailureKind {
    /// The stable name.
    pub open spec fn name(self) -> Seq<char> {
        match self {
            MaterializeFailureKind::Busy => "busy"@,
            MaterializeFailureKind::DiskFull => "disk_full"@,
            MaterializeFailureKind::TooLarge => "too_large"@,
            MaterializeFailureKind::Pull => "pull"@,
            MaterializeFailureKind::Image => "image"@,
            MaterializeFailureKind::Store => "store"@,
            MaterializeFailureKind::Transport => "transport"@,
            MaterializeFailureKind::Internal => "internal"@,
        }
    }

    /// The stable name.
    pub fn as_str(&self) -> (res: &'static str)
        ensures
            res@ == self.name(),
    {
        match self {
            MaterializeFailureKind::Busy => "busy",
            MaterializeFailureKind::DiskFull => "disk_full",
            MaterializeFailureKind::TooLarge => "too_large",
            MaterializeFailureKind::Pull => "pull",
            MaterializeFailureKind::Image => "image",
            MaterializeFailureKind::Store => "store",
            MaterializeFailureKind::Transport => "transport",
            MaterializeFailureKind::Internal => "internal",
        }
    }

    /// The reason of that name, if there is one.
    pub fn parse(s: &str) -> (res: Option<MaterializeFailureKind>)
        ensures
            res is Some ==> res->0.name() == s@,
            res is None ==> forall|k: MaterializeFailureKind| k.name() != s@,
    {
        if same(s, "busy") {
            Some(MaterializeFailureKind::Busy)
        } else if same(s, "disk_full") {
            Some(MaterializeFailureKind::DiskFull)
        } else if same(s, "too_large") {
            Some(MaterializeFailureKind::TooLarge)
        } else if same(s, "pull") {
            Some(MaterializeFailureKind::Pull)
        } else if same(s, "image") {
            Some(MaterializeFailureKind::Image)
        } else if same(s, "store") {
            Some(MaterializeFailureKind::Store)
        } else if same(s, "transport") {
            Some(MaterializeFailureKind::Transport)
        } else if same(s, "internal") {
            Some(MaterializeFailureKind::Internal)
        } else {
            None
        }
    }
}

impl MaterializeFailureKind {
    /// Another attempt can help.
    pub open spec fn retryable(self) -> bool {
        self is Busy || self is DiskFull || self is Pull || self is Store || self is Transport
    }

    /// Whether another attempt can help.
    pub fn is_retryable(&self) -> (res: bool)
        ensures
            res == self.retryable(),
    {
        matches!(
            self,
            MaterializeFailureKind::Busy | MaterializeFailureKind::DiskFull
                | MaterializeFailureKind::Pull | MaterializeFailureKind::Store
                | MaterializeFailureKind::Transport
        )
    }
}

impl MaterializeFailureKind {
    /// The stable name.
    pub fn to_string(&self) -> (res: String)
        ensures
            res@ == self.name(),
    {
        String::from_str(self.as_str())
    }
}

/// Different reasons why an image did not become a disk have different names.
pub proof fn materialize_failure_kind_names_differ(a: MaterializeFailureKind, b: MaterializeFailureKind)
    requires
        a.name() == b.name(),
    ensures
        a == b,
{
    reveal_strlit("busy");
    reveal_strlit("disk_full");
    reveal_strlit("too_large");
    reveal_strlit("pull");
    reveal_strlit("image");
    reveal_strlit("store");
    reveal_strlit("transport");
    reveal_strlit("internal");
    assert("busy"@.len() == 4);
    assert("disk_full"@.len() == 9);
    assert("too_large"@.len() == 9);
    assert("pull"@.len() == 4);
    assert("image"@.len() == 5);
    assert("store"@.len() == 5);
    assert("transport"@.len() == 9);
    assert("internal"@.len() == 8);
    assert("busy"@[0] != "pull"@[0]);
    assert("disk_full"@[0] != "too_large"@[0]);
    assert("disk_full"@[0] != "transport"@[0]);
    assert("too_large"@[1] != "transport"@[1]);
    assert("image"@[0] != "store"@[0]);
}

/// An image that did not become a disk.
#[derive(Clone, Debug, PartialEq, Eq)]
pub struct MaterializeFailure {
    pub kind: MaterializeFailureKind,
    pub message: String,
}

impl MaterializeFailure {
    /// The failure in words.
    pub fn to_string(&self) -> (res: String)
        ensures
            res@ == "materialize failed ("@ + self.kind.name() + "): "@ + self.message@,
    {
        let mut text = String::from_str("materialize failed (");
        text.append(self.kind.as_str());
        text.append("): ");
        text.append(self.message.as_str());
        text
    }
}

/// Another attempt is of no use for an image that is too large or broken, or after an error of our
/// own; after anything else it is.
pub proof fn faults_of_the_image_stay(kind: MaterializeFailureKind)
    ensures
        !kind.retryable() <==> kind == MaterializeFailureKind::TooLarge || kind
            == MaterializeFailureKind::Image || kind == MaterializeFailureKind::Internal,
{
}

/// The stable names are the ones that are stored and sent: each is that of one value and of no
/// other.
pub proof fn materialize_stage_names_are_stable(k: MaterializeStage)
    ensures
        k.name() == "pull"@ <==> k == MaterializeStage::Pull,
        k.name() == "flatten"@ <==> k == MaterializeStage::Flatten,
        k.name() == "pack"@ <==> k == MaterializeStage::Pack,
        k.name() == "chunk"@ <==> k == MaterializeStage::Chunk,
{
    if k.name() == "pull"@ {
        materialize_stage_names_differ(k, MaterializeStage::Pull);
    }
    if k.name() == "flatten"@ {
        materialize_stage_names_differ(k, MaterializeStage::Flatten);
    }
    if k.name() == "pack"@ {
        materialize_stage_names_differ(k, MaterializeStage::Pack);
    }
    if k.name() == "chunk"@ {
        materialize_stage_names_differ(k, MaterializeStage::Chunk);
    }
}

/// The stable names are the ones that are stored and sent: each is that of one value and of no
/// other.
pub proof fn materialize_failure_kind_names_are_stable(k: MaterializeFailureKind)
    ensures
        k.name() == "busy"@ <==> k == MaterializeFailureKind::Busy,
        k.name() == "disk_full"@ <==> k == MaterializeFailureKind::DiskFull,
        k.name() == "too_large"@ <==> k == MaterializeFailureKind::TooLarge,
        k.name() == "pull"@ <==> k == MaterializeFailureKind::Pull,
        k.name() == "image"@ <==> k == MaterializeFailureKind::Image,
        k.name() == "store"@ <==> k == MaterializeFailureKind::Store,
        k.name() == "transport"@ <==> k == MaterializeFailureKind::Transport,
        k.name() == "internal"@ <==> k == MaterializeFailureKind::Internal,
{
    if k.name() == "busy"@ {
        materialize_failure_kind_names_differ(k, MaterializeFailureKind::Busy);
    }
    if k.name() == "disk_full"@ {
        materialize_failure_kind_names_differ(k, MaterializeFailureKind::DiskFull);
    }
    if k.name() == "too_large"@ {
        materialize_failure_kind_names_differ(k, MaterializeFailureKind::TooLarge);
    }
    if k.name() == "pull"@ {
        materialize_failure_kind_names_differ(k, MaterializeFailureKind::Pull);
    }
    if k.name() == "image"@ {
        materialize_failure_kind_names_differ(k, MaterializeFailureKind::Image);
    }
    if k.name() == "store"@ {
        materialize_failure_kind_names_differ(k, MaterializeFailureKind::Store);
    }
    if k.name() == "transport"@ {
        materialize_failure_kind_names_differ(k, MaterializeFailureKind::Transport);
    }
    if k.name() == "internal"@ {
        materialize_failure_kind_names_differ(k, MaterializeFailureKind::Internal);
    }
}

} // verus!

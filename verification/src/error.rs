//! The errors of the library.
//!
//! Each has a text (`to_string`) and, where another error lies under it, gives that one out
//! (`source`).
use crate::text::push_decimal;
use vstd::prelude::*;

verus! {

/// The standard library's input/output error. Nothing is stated of what is inside one.
#[verifier::external_type_specification]
#[verifier::external_body]
pub struct ExIoError(std::io::Error);

/// The text of an input/output error, by the standard library's `to_string`. The text of an
/// error that came from the operating system is the system's own: nothing is claimed of it.
#[verifier::external_body]
fn io_text(e: &std::io::Error) -> (res: String) {
    e.to_string()
}

/// An error of a client library or a driver, by its text.
#[derive(Clone, Debug)]
pub struct BoxError {
    pub message: String,
}

impl BoxError {
    pub fn new(message: &str) -> (res: BoxError)
        ensures
            res.message@ == message@,
    {
        BoxError { message: message.to_owned() }
    }

    /// The text of the error.
    pub fn to_string(&self) -> (res: String)
        ensures
            res@ == self.message@,
    {
        self.message.clone()
    }
}

/// The error that lies under another one.
#[derive(Clone, Copy, Debug)]
pub enum Source<'a> {
    Boxed(&'a BoxError),
    Io(&'a std::io::Error),
}

/// Two texts in a row.
fn joined(a: &str, b: &str) -> (res: String)
    ensures
        res@ == a@ + b@,
{
    let mut text = a.to_owned();
    text.append(b);
    text
}

/// What can go wrong with a cloud provider.
#[derive(Debug)]
pub enum BackendError {
    /// This provider has no such operation.
    NotSupported(&'static str),
    /// The provider's client or metadata server failed.
    Sdk(BoxError),
    /// Configuration is missing or not valid.
    Config(String),
    /// A reply had an unexpected shape.
    Protocol(String),
}

impl BackendError {
    /// The text of the error.
    pub open spec fn text(self) -> Seq<char> {
        match self {
            BackendError::NotSupported(m) => "operation not supported: "@ + m@,
            BackendError::Sdk(e) => "cloud sdk error: "@ + e.message@,
            BackendError::Config(m) => "cloud config error: "@ + m@,
            BackendError::Protocol(m) => "cloud protocol error: "@ + m@,
        }
    }

    /// The error that lies under this one.
    pub open spec fn under(&self) -> Option<Source<'_>> {
        match self {
            BackendError::Sdk(e) => Some(Source::Boxed(e)),
            _ => None,
        }
    }

    /// The text of the error.
    pub fn to_string(&self) -> (res: String)
        ensures
            res@ == self.text(),
    {
        match self {
            BackendError::NotSupported(m) => joined("operation not supported: ", m),
            BackendError::Sdk(e) => joined("cloud sdk error: ", e.message.as_str()),
            BackendError::Config(m) => joined("cloud config error: ", m.as_str()),
            BackendError::Protocol(m) => joined("cloud protocol error: ", m.as_str()),
        }
    }

    /// The error that lies under this one.
    pub fn source(&self) -> (res: Option<Source<'_>>)
        ensures
            res == self.under(),
    {
        match self {
            BackendError::Sdk(e) => Some(Source::Boxed(e)),
            _ => None,
        }
    }
}

/// What can go wrong with the metadata store.
#[derive(Debug)]
pub enum MetaError {
    NotFound,
    /// The row is not in the state that the write asks for.
    Conflict(String),
    Db(BoxError),
    Migration(String),
    Serialization(String),
}

impl MetaError {
    /// The text of the error.
    pub open spec fn text(self) -> Seq<char> {
        match self {
            MetaError::NotFound => "row not found"@,
            MetaError::Conflict(m) => "metadata conflict: "@ + m@,
            MetaError::Db(e) => "database error: "@ + e.message@,
            MetaError::Migration(m) => "migration error: "@ + m@,
            MetaError::Serialization(m) => "metadata serialization error: "@ + m@,
        }
    }

    /// The error that lies under this one.
    pub open spec fn under(&self) -> Option<Source<'_>> {
        match self {
            MetaError::Db(e) => Some(Source::Boxed(e)),
            _ => None,
        }
    }

    /// The text of the error.
    pub fn to_string(&self) -> (res: String)
        ensures
            res@ == self.text(),
    {
        match self {
            MetaError::NotFound => "row not found".to_owned(),
            MetaError::Conflict(m) => joined("metadata conflict: ", m.as_str()),
            MetaError::Db(e) => joined("database error: ", e.message.as_str()),
            MetaError::Migration(m) => joined("migration error: ", m.as_str()),
            MetaError::Serialization(m) => joined("metadata serialization error: ", m.as_str()),
        }
    }

    /// The error that lies under this one.
    pub fn source(&self) -> (res: Option<Source<'_>>)
        ensures
            res == self.under(),
    {
        match self {
            MetaError::Db(e) => Some(Source::Boxed(e)),
            _ => None,
        }
    }
}

/// What can go wrong with a sandbox.
#[derive(Debug)]
pub enum SandboxError {
    /// This sandbox was never known.
    NotFound,
    AlreadyExists,
    LimitExceeded(String),
    /// The machinery under the sandbox failed.
    Vm(BoxError),
    /// The request is not valid.
    InvalidSpec(String),
    /// Taking or restoring a snapshot failed.
    Snapshot(String),
    Io(std::io::Error),
    Timeout,
    /// No host has fetched the image with this digest yet.
    ImageNotReady(String),
    /// The sandbox existed; its host is gone for good.
    HostLost,
    /// The host could not be reached for now. Worth another try.
    Unavailable(String),
    /// The host speaks another version of the wire format. Worth another try once the fleet
    /// has been brought to one version.
    WireSkew { host: u32, coord: u32 },
}

impl SandboxError {
    /// The text of the error, where `cause` is the text
    /// of the input/output error under it, if there is one.
    pub open spec fn text(self, cause: Seq<char>) -> Seq<char> {
        match self {
            SandboxError::NotFound => "sandbox not found"@,
            SandboxError::AlreadyExists => "sandbox already exists"@,
            SandboxError::LimitExceeded(m) => "sandbox limit exceeded: "@ + m@,
            SandboxError::Vm(e) => "sandbox vm error: "@ + e.message@,
            SandboxError::InvalidSpec(m) => "invalid sandbox spec: "@ + m@,
            SandboxError::Snapshot(m) => "snapshot error: "@ + m@,
            SandboxError::Io(_) => "sandbox io error: "@ + cause,
            SandboxError::Timeout => "sandbox operation timed out"@,
            SandboxError::ImageNotReady(m) => "image with manifest digest "@ + m@
                + " has not been prefetched by any host yet"@,
            SandboxError::HostLost => "sandbox host is no longer reachable"@,
            SandboxError::Unavailable(m) => "sandbox host temporarily unavailable: "@ + m@,
            SandboxError::WireSkew { host, coord } => "wire_version skew: host="@ + crate::text::decimal(host as nat)
                + " coord="@ + crate::text::decimal(coord as nat)
                + " (mixed-version fleet during a rolling deploy); retry \u{2014} the scheduler drains stale hosts"@,
        }
    }

    /// The error that lies under this one.
    pub open spec fn under(&self) -> Option<Source<'_>> {
        match self {
            SandboxError::Vm(e) => Some(Source::Boxed(e)),
            SandboxError::Io(e) => Some(Source::Io(e)),
            _ => None,
        }
    }

    /// The text of the error, where `cause` is the text
    /// of the input/output error under it, if there is one.
    pub fn text_over(&self, cause: &str) -> (res: String)
        ensures
            res@ == self.text(cause@),
    {
        match self {
            SandboxError::NotFound => "sandbox not found".to_owned(),
            SandboxError::AlreadyExists => "sandbox already exists".to_owned(),
            SandboxError::LimitExceeded(m) => joined("sandbox limit exceeded: ", m.as_str()),
            SandboxError::Vm(e) => joined("sandbox vm error: ", e.message.as_str()),
            SandboxError::InvalidSpec(m) => joined("invalid sandbox spec: ", m.as_str()),
            SandboxError::Snapshot(m) => joined("snapshot error: ", m.as_str()),
            SandboxError::Io(_) => joined("sandbox io error: ", cause),
            SandboxError::Timeout => "sandbox operation timed out".to_owned(),
            SandboxError::ImageNotReady(m) => {
                let mut text = joined("image with manifest digest ", m.as_str());
                text.append(" has not been prefetched by any host yet");
                text
            },
            SandboxError::HostLost => "sandbox host is no longer reachable".to_owned(),
            SandboxError::Unavailable(m) => joined("sandbox host temporarily unavailable: ", m.as_str()),
            SandboxError::WireSkew { host, coord } => {
                let mut text = "wire_version skew: host=".to_owned();
                push_decimal(&mut text, *host as u64);
                text.append(" coord=");
                push_decimal(&mut text, *coord as u64);
                text.append(
                    " (mixed-version fleet during a rolling deploy); retry \u{2014} the scheduler drains stale hosts",
                );
                text
            },
        }
    }

    /// The text of the error. It is exact but for the words of an input/output error, which
    /// are the system's.
    pub fn to_string(&self) -> (res: String)
        ensures
            exists|cause: Seq<char>| res@ == #[trigger] self.text(cause),
            !(self is Io) ==> forall|cause: Seq<char>| res@ == #[trigger] self.text(cause),
    {
        let cause = match self {
            SandboxError::Io(e) => io_text(e),
            _ => "".to_owned(),
        };
        self.text_over(cause.as_str())
    }

    /// The error that lies under this one.
    pub fn source(&self) -> (res: Option<Source<'_>>)
        ensures
            res == self.under(),
    {
        match self {
            SandboxError::Vm(e) => Some(Source::Boxed(e)),
            SandboxError::Io(e) => Some(Source::Io(e)),
            _ => None,
        }
    }
}

impl From<std::io::Error> for SandboxError {
    fn from(e: std::io::Error) -> (res: SandboxError)
        ensures
            res == SandboxError::Io(e),
    {
        SandboxError::Io(e)
    }
}

impl vstd::std_specs::convert::FromSpecImpl<std::io::Error> for SandboxError {
    open spec fn obeys_from_spec() -> bool {
        true
    }

    open spec fn from_spec(e: std::io::Error) -> SandboxError {
        SandboxError::Io(e)
    }
}

/// What can go wrong with blob storage.
#[derive(Debug)]
pub enum BlobError {
    /// No such key.
    NotFound,
    /// The storage client failed.
    Sdk(BoxError),
    /// Configuration is missing or not valid.
    Config(String),
    /// A reply had an unexpected shape.
    Protocol(String),
    /// The local file system failed.
    Io(std::io::Error),
}

impl BlobError {
    /// The text of the error, where `cause` is the text
    /// of the input/output error under it, if there is one.
    pub open spec fn text(self, cause: Seq<char>) -> Seq<char> {
        match self {
            BlobError::NotFound => "blob not found"@,
            BlobError::Sdk(e) => "blob sdk error: "@ + e.message@,
            BlobError::Config(m) => "blob config error: "@ + m@,
            BlobError::Protocol(m) => "blob protocol error: "@ + m@,
            BlobError::Io(_) => "blob io error: "@ + cause,
        }
    }

    /// The error that lies under this one.
    pub open spec fn under(&self) -> Option<Source<'_>> {
        match self {
            BlobError::Sdk(e) => Some(Source::Boxed(e)),
            BlobError::Io(e) => Some(Source::Io(e)),
            _ => None,
        }
    }

    /// The text of the error, where `cause` is the text
    /// of the input/output error under it, if there is one.
    pub fn text_over(&self, cause: &str) -> (res: String)
        ensures
            res@ == self.text(cause@),
    {
        match self {
            BlobError::NotFound => "blob not found".to_owned(),
            BlobError::Sdk(e) => joined("blob sdk error: ", e.message.as_str()),
            BlobError::Config(m) => joined("blob config error: ", m.as_str()),
            BlobError::Protocol(m) => joined("blob protocol error: ", m.as_str()),
            BlobError::Io(_) => joined("blob io error: ", cause),
        }
    }

    /// The text of the error. It is exact but for the words of an input/output error, which
    /// are the system's.
    pub fn to_string(&self) -> (res: String)
        ensures
            exists|cause: Seq<char>| res@ == #[trigger] self.text(cause),
            !(self is Io) ==> forall|cause: Seq<char>| res@ == #[trigger] self.text(cause),
    {
        let cause = match self {
            BlobError::Io(e) => io_text(e),
            _ => "".to_owned(),
        };
        self.text_over(cause.as_str())
    }

    /// The error that lies under this one.
    pub fn source(&self) -> (res: Option<Source<'_>>)
        ensures
            res == self.under(),
    {
        match self {
            BlobError::Sdk(e) => Some(Source::Boxed(e)),
            BlobError::Io(e) => Some(Source::Io(e)),
            _ => None,
        }
    }
}

impl From<std::io::Error> for BlobError {
    fn from(e: std::io::Error) -> (res: BlobError)
        ensures
            res == BlobError::Io(e),
    {
        BlobError::Io(e)
    }
}

impl vstd::std_specs::convert::FromSpecImpl<std::io::Error> for BlobError {
    open spec fn obeys_from_spec() -> bool {
        true
    }

    open spec fn from_spec(e: std::io::Error) -> BlobError {
        BlobError::Io(e)
    }
}

/// What can go wrong with a secret store.
#[derive(Debug)]
pub enum SecretError {
    /// The store failed or could not be reached.
    Backend(BoxError),
    /// The reference is malformed for this store.
    InvalidRef(String),
    /// A reply had an unexpected shape.
    Protocol(String),
    /// The store turned the caller away.
    Unauthorized(String),
    /// The secret exists, and its value cannot be used.
    BadValue(String),
}

impl SecretError {
    /// The text of the error.
    pub open spec fn text(self) -> Seq<char> {
        match self {
            SecretError::Backend(e) => "secret backend error: "@ + e.message@,
            SecretError::InvalidRef(m) => "invalid secret ref: "@ + m@,
            SecretError::Protocol(m) => "secret backend protocol error: "@ + m@,
            SecretError::Unauthorized(m) => "secret backend unauthorized: "@ + m@,
            SecretError::BadValue(m) => "secret value not usable: "@ + m@,
        }
    }

    /// The error that lies under this one.
    pub open spec fn under(&self) -> Option<Source<'_>> {
        match self {
            SecretError::Backend(e) => Some(Source::Boxed(e)),
            _ => None,
        }
    }

    /// The text of the error.
    pub fn to_string(&self) -> (res: String)
        ensures
            res@ == self.text(),
    {
        match self {
            SecretError::Backend(e) => joined("secret backend error: ", e.message.as_str()),
            SecretError::InvalidRef(m) => joined("invalid secret ref: ", m.as_str()),
            SecretError::Protocol(m) => joined("secret backend protocol error: ", m.as_str()),
            SecretError::Unauthorized(m) => joined("secret backend unauthorized: ", m.as_str()),
            SecretError::BadValue(m) => joined("secret value not usable: ", m.as_str()),
        }
    }

    /// The error that lies under this one.
    pub fn source(&self) -> (res: Option<Source<'_>>)
        ensures
            res == self.under(),
    {
        match self {
            SecretError::Backend(e) => Some(Source::Boxed(e)),
            _ => None,
        }
    }
}

/// What can go wrong with a provider integration.
#[derive(Debug)]
pub enum IntegrationError {
    /// The provider's interface failed.
    Backend(BoxError),
    /// The provider turned the credential away.
    Unauthorized(String),
    /// The resource does not exist.
    NotFound(String),
    /// A reply had an unexpected shape.
    Protocol(String),
    /// The provider understood the request and refused it.
    Rejected(String),
    /// The request is malformed.
    InvalidSpec(String),
    /// This integration has no such operation.
    Unsupported,
}

impl IntegrationError {
    /// The text of the error.
    pub open spec fn text(self) -> Seq<char> {
        match self {
            IntegrationError::Backend(e) => "integration backend error: "@ + e.message@,
            IntegrationError::Unauthorized(m) => "integration unauthorized: "@ + m@,
            IntegrationError::NotFound(m) => "integration resource not found: "@ + m@,
            IntegrationError::Protocol(m) => "integration protocol error: "@ + m@,
            IntegrationError::Rejected(m) => "integration action rejected: "@ + m@,
            IntegrationError::InvalidSpec(m) => "invalid integration request: "@ + m@,
            IntegrationError::Unsupported => "operation not supported by this integration"@,
        }
    }

    /// The error that lies under this one.
    pub open spec fn under(&self) -> Option<Source<'_>> {
        match self {
            IntegrationError::Backend(e) => Some(Source::Boxed(e)),
            _ => None,
        }
    }

    /// The text of the error.
    pub fn to_string(&self) -> (res: String)
        ensures
            res@ == self.text(),
    {
        match self {
            IntegrationError::Backend(e) => joined("integration backend error: ", e.message.as_str()),
            IntegrationError::Unauthorized(m) => joined("integration unauthorized: ", m.as_str()),
            IntegrationError::NotFound(m) => joined("integration resource not found: ", m.as_str()),
            IntegrationError::Protocol(m) => joined("integration protocol error: ", m.as_str()),
            IntegrationError::Rejected(m) => joined("integration action rejected: ", m.as_str()),
            IntegrationError::InvalidSpec(m) => joined("invalid integration request: ", m.as_str()),
            IntegrationError::Unsupported => "operation not supported by this integration".to_owned(),
        }
    }

    /// The error that lies under this one.
    pub fn source(&self) -> (res: Option<Source<'_>>)
        ensures
            res == self.under(),
    {
        match self {
            IntegrationError::Backend(e) => Some(Source::Boxed(e)),
            _ => None,
        }
    }
}

/// What can go wrong with a git forge.
#[derive(Clone, Debug)]
pub enum GitForgeError {
    /// The reference to a repository is malformed.
    InvalidSpec(String),
}

/// The text of an error ends with what is known of it, and the error under it is the one that it
/// was made from.
pub proof fn backend_errors_tell_what_is_known(e: BackendError)
    ensures
        e matches BackendError::NotSupported(m) ==> m@.is_suffix_of(e.text()),
        e matches BackendError::Config(m) ==> m@.is_suffix_of(e.text()),
        e matches BackendError::Protocol(m) ==> m@.is_suffix_of(e.text()),
        e matches BackendError::Sdk(b) ==> b.message@.is_suffix_of(e.text()),
        e.under() is Some <==> e is Sdk,
        e matches BackendError::Sdk(b) ==> e.under() is Some && e.under()->0 is Boxed
            && *(e.under()->0->Boxed_0) == b,
{
    let text = e.text();
    match e {
        BackendError::NotSupported(m) => {
            assert(text.subrange(text.len() - m@.len(), text.len() as int) =~= m@);
        },
        BackendError::Config(m) => {
            assert(text.subrange(text.len() - m@.len(), text.len() as int) =~= m@);
        },
        BackendError::Protocol(m) => {
            assert(text.subrange(text.len() - m@.len(), text.len() as int) =~= m@);
        },
        BackendError::Sdk(b) => {
            assert(text.subrange(text.len() - b.message@.len(), text.len() as int) =~= b.message@);
        },
        _ => {},
    }
}

/// The text of an error ends with what is known of it, and the error under it is the one that it
/// was made from.
pub proof fn meta_errors_tell_what_is_known(e: MetaError)
    ensures
        e matches MetaError::Conflict(m) ==> m@.is_suffix_of(e.text()),
        e matches MetaError::Migration(m) ==> m@.is_suffix_of(e.text()),
        e matches MetaError::Serialization(m) ==> m@.is_suffix_of(e.text()),
        e matches MetaError::Db(b) ==> b.message@.is_suffix_of(e.text()),
        e.under() is Some <==> e is Db,
        e matches MetaError::Db(b) ==> e.under() is Some && e.under()->0 is Boxed
            && *(e.under()->0->Boxed_0) == b,
{
    let text = e.text();
    match e {
        MetaError::Conflict(m) => {
            assert(text.subrange(text.len() - m@.len(), text.len() as int) =~= m@);
        },
        MetaError::Migration(m) => {
            assert(text.subrange(text.len() - m@.len(), text.len() as int) =~= m@);
        },
        MetaError::Serialization(m) => {
            assert(text.subrange(text.len() - m@.len(), text.len() as int) =~= m@);
        },
        MetaError::Db(b) => {
            assert(text.subrange(text.len() - b.message@.len(), text.len() as int) =~= b.message@);
        },
        _ => {},
    }
}

/// The text of an error ends with what is known of it, and the error under it is the one that it
/// was made from.
pub proof fn sandbox_errors_tell_what_is_known(e: SandboxError, cause: Seq<char>)
    ensures
        e matches SandboxError::LimitExceeded(m) ==> m@.is_suffix_of(e.text(cause)),
        e matches SandboxError::InvalidSpec(m) ==> m@.is_suffix_of(e.text(cause)),
        e matches SandboxError::Snapshot(m) ==> m@.is_suffix_of(e.text(cause)),
        e matches SandboxError::Unavailable(m) ==> m@.is_suffix_of(e.text(cause)),
        e matches SandboxError::Vm(b) ==> b.message@.is_suffix_of(e.text(cause)),
        e.under() is Some <==> e is Vm || e is Io,
        e matches SandboxError::Vm(b) ==> e.under() is Some && e.under()->0 is Boxed
            && *(e.under()->0->Boxed_0) == b,
        e is Io ==> cause.is_suffix_of(e.text(cause)),
{
    let text = e.text(cause);
    match e {
        SandboxError::LimitExceeded(m) => {
            assert(text.subrange(text.len() - m@.len(), text.len() as int) =~= m@);
        },
        SandboxError::InvalidSpec(m) => {
            assert(text.subrange(text.len() - m@.len(), text.len() as int) =~= m@);
        },
        SandboxError::Snapshot(m) => {
            assert(text.subrange(text.len() - m@.len(), text.len() as int) =~= m@);
        },
        SandboxError::Unavailable(m) => {
            assert(text.subrange(text.len() - m@.len(), text.len() as int) =~= m@);
        },
        SandboxError::Vm(b) => {
            assert(text.subrange(text.len() - b.message@.len(), text.len() as int) =~= b.message@);
        },
        SandboxError::Io(_) => {
            assert(text.subrange(text.len() - cause.len(), text.len() as int) =~= cause);
        },
        _ => {},
    }
}

/// The text of an error ends with what is known of it, and the error under it is the one that it
/// was made from.
pub proof fn blob_errors_tell_what_is_known(e: BlobError, cause: Seq<char>)
    ensures
        e matches BlobError::Config(m) ==> m@.is_suffix_of(e.text(cause)),
        e matches BlobError::Protocol(m) ==> m@.is_suffix_of(e.text(cause)),
        e matches BlobError::Sdk(b) ==> b.message@.is_suffix_of(e.text(cause)),
        e.under() is Some <==> e is Sdk || e is Io,
        e matches BlobError::Sdk(b) ==> e.under() is Some && e.under()->0 is Boxed
            && *(e.under()->0->Boxed_0) == b,
        e is Io ==> cause.is_suffix_of(e.text(cause)),
{
    let text = e.text(cause);
    match e {
        BlobError::Config(m) => {
            assert(text.subrange(text.len() - m@.len(), text.len() as int) =~= m@);
        },
        BlobError::Protocol(m) => {
            assert(text.subrange(text.len() - m@.len(), text.len() as int) =~= m@);
        },
        BlobError::Sdk(b) => {
            assert(text.subrange(text.len() - b.message@.len(), text.len() as int) =~= b.message@);
        },
        BlobError::Io(_) => {
            assert(text.subrange(text.len() - cause.len(), text.len() as int) =~= cause);
        },
        _ => {},
    }
}

/// The text of an error ends with what is known of it, and the error under it is the one that it
/// was made from.
pub proof fn secret_errors_tell_what_is_known(e: SecretError)
    ensures
        e matches SecretError::InvalidRef(m) ==> m@.is_suffix_of(e.text()),
        e matches SecretError::Protocol(m) ==> m@.is_suffix_of(e.text()),
        e matches SecretError::Unauthorized(m) ==> m@.is_suffix_of(e.text()),
        e matches SecretError::BadValue(m) ==> m@.is_suffix_of(e.text()),
        e matches SecretError::Backend(b) ==> b.message@.is_suffix_of(e.text()),
        e.under() is Some <==> e is Backend,
        e matches SecretError::Backend(b) ==> e.under() is Some && e.under()->0 is Boxed
            && *(e.under()->0->Boxed_0) == b,
{
    let text = e.text();
    match e {
        SecretError::InvalidRef(m) => {
            assert(text.subrange(text.len() - m@.len(), text.len() as int) =~= m@);
        },
        SecretError::Protocol(m) => {
            assert(text.subrange(text.len() - m@.len(), text.len() as int) =~= m@);
        },
        SecretError::Unauthorized(m) => {
            assert(text.subrange(text.len() - m@.len(), text.len() as int) =~= m@);
        },
        SecretError::BadValue(m) => {
            assert(text.subrange(text.len() - m@.len(), text.len() as int) =~= m@);
        },
        SecretError::Backend(b) => {
            assert(text.subrange(text.len() - b.message@.len(), text.len() as int) =~= b.message@);
        },
        _ => {},
    }
}

/// The text of an error ends with what is known of it, and the error under it is the one that it
/// was made from.
pub proof fn integration_errors_tell_what_is_known(e: IntegrationError)
    ensures
        e matches IntegrationError::Unauthorized(m) ==> m@.is_suffix_of(e.text()),
        e matches IntegrationError::NotFound(m) ==> m@.is_suffix_of(e.text()),
        e matches IntegrationError::Protocol(m) ==> m@.is_suffix_of(e.text()),
        e matches IntegrationError::Rejected(m) ==> m@.is_suffix_of(e.text()),
        e matches IntegrationError::InvalidSpec(m) ==> m@.is_suffix_of(e.text()),
        e matches IntegrationError::Backend(b) ==> b.message@.is_suffix_of(e.text()),
        e.under() is Some <==> e is Backend,
        e matches IntegrationError::Backend(b) ==> e.under() is Some && e.under()->0 is Boxed
            && *(e.under()->0->Boxed_0) == b,
{
    let text = e.text();
    match e {
        IntegrationError::Unauthorized(m) => {
            assert(text.subrange(text.len() - m@.len(), text.len() as int) =~= m@);
        },
        IntegrationError::NotFound(m) => {
            assert(text.subrange(text.len() - m@.len(), text.len() as int) =~= m@);
        },
        IntegrationError::Protocol(m) => {
            assert(text.subrange(text.len() - m@.len(), text.len() as int) =~= m@);
        },
        IntegrationError::Rejected(m) => {
            assert(text.subrange(text.len() - m@.len(), text.len() as int) =~= m@);
        },
        IntegrationError::InvalidSpec(m) => {
            assert(text.subrange(text.len() - m@.len(), text.len() as int) =~= m@);
        },
        IntegrationError::Backend(b) => {
            assert(text.subrange(text.len() - b.message@.len(), text.len() as int) =~= b.message@);
        },
        _ => {},
    }
}

} // verus!

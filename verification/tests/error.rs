use engram_core::error::{
    BackendError, BlobError, BoxError, IntegrationError, MetaError, SandboxError, SecretError,
    Source,
};
use std::io;

fn io_err() -> io::Error {
    io::Error::new(io::ErrorKind::PermissionDenied, "denied")
}

#[test]
fn sandbox_io_from_conversion_preserves_kind() {
    let sandbox: SandboxError = io_err().into();
    match sandbox {
        SandboxError::Io(e) => assert_eq!(e.kind(), io::ErrorKind::PermissionDenied),
        other => panic!("expected Io, got {}", other.to_string()),
    }
}

#[test]
fn meta_db_source_chain_exposes_box_error() {
    let inner = BoxError::new(&io::Error::other("boom").to_string());
    let err = MetaError::Db(inner);
    match err.source().expect("source present") {
        Source::Boxed(e) => assert_eq!(e.to_string(), "boom"),
        other => panic!("expected a boxed source, got {other:?}"),
    }
}

#[test]
fn variants_with_no_source_return_none() {
    assert!(MetaError::NotFound.source().is_none());
    assert!(MetaError::Conflict("x".into()).source().is_none());
    assert!(MetaError::Migration("m".into()).source().is_none());
    assert!(MetaError::Serialization("s".into()).source().is_none());
    assert!(SandboxError::NotFound.source().is_none());
    assert!(SandboxError::Timeout.source().is_none());
    assert!(BackendError::NotSupported("op").source().is_none());
    assert!(BackendError::Config("c".into()).source().is_none());
}

#[test]
fn display_messages_include_context() {
    assert_eq!(
        BackendError::NotSupported("provision_host").to_string(),
        "operation not supported: provision_host",
    );
    assert_eq!(MetaError::NotFound.to_string(), "row not found");
    assert!(SandboxError::InvalidSpec("bad cpu".into())
        .to_string()
        .contains("bad cpu"));
}

#[test]
fn io_errors_keep_their_own_words() {
    let sandbox: SandboxError = io_err().into();
    assert_eq!(sandbox.to_string(), "sandbox io error: denied");
    assert!(matches!(sandbox.source(), Some(Source::Io(_))));
    let blob: BlobError = io_err().into();
    assert_eq!(blob.to_string(), "blob io error: denied");
    assert!(matches!(blob.source(), Some(Source::Io(_))));
    assert_eq!(blob.text_over("other words"), "blob io error: other words");
}

#[test]
fn sandbox_errors_say_what_happened() {
    let text = |e: SandboxError| e.to_string();
    assert_eq!(text(SandboxError::NotFound), "sandbox not found");
    assert_eq!(text(SandboxError::AlreadyExists), "sandbox already exists");
    assert_eq!(text(SandboxError::LimitExceeded("8".into())), "sandbox limit exceeded: 8");
    assert_eq!(text(SandboxError::Vm(BoxError::new("kvm"))), "sandbox vm error: kvm");
    assert_eq!(text(SandboxError::Snapshot("torn".into())), "snapshot error: torn");
    assert_eq!(text(SandboxError::Timeout), "sandbox operation timed out");
    assert_eq!(
        text(SandboxError::ImageNotReady("sha256:ab".into())),
        "image with manifest digest sha256:ab has not been prefetched by any host yet"
    );
    assert_eq!(text(SandboxError::HostLost), "sandbox host is no longer reachable");
    assert_eq!(
        text(SandboxError::Unavailable("refused".into())),
        "sandbox host temporarily unavailable: refused"
    );
    assert_eq!(
        text(SandboxError::WireSkew { host: 24, coord: 25 }),
        "wire_version skew: host=24 coord=25 (mixed-version fleet during a rolling deploy); \
         retry \u{2014} the scheduler drains stale hosts"
    );
}

#[test]
fn other_errors_say_what_happened() {
    assert_eq!(BackendError::Sdk(BoxError::new("503")).to_string(), "cloud sdk error: 503");
    assert_eq!(BackendError::Config("no zone".into()).to_string(), "cloud config error: no zone");
    assert_eq!(BackendError::Protocol("x".into()).to_string(), "cloud protocol error: x");
    assert_eq!(MetaError::Conflict("x".into()).to_string(), "metadata conflict: x");
    assert_eq!(MetaError::Db(BoxError::new("x")).to_string(), "database error: x");
    assert_eq!(MetaError::Migration("x".into()).to_string(), "migration error: x");
    assert_eq!(
        MetaError::Serialization("x".into()).to_string(),
        "metadata serialization error: x"
    );
    assert_eq!(BlobError::NotFound.to_string(), "blob not found");
    assert_eq!(BlobError::Sdk(BoxError::new("x")).to_string(), "blob sdk error: x");
    assert_eq!(BlobError::Config("x".into()).to_string(), "blob config error: x");
    assert_eq!(BlobError::Protocol("x".into()).to_string(), "blob protocol error: x");
    assert_eq!(SecretError::Backend(BoxError::new("x")).to_string(), "secret backend error: x");
    assert_eq!(SecretError::InvalidRef("x".into()).to_string(), "invalid secret ref: x");
    assert_eq!(
        SecretError::Protocol("x".into()).to_string(),
        "secret backend protocol error: x"
    );
    assert_eq!(
        SecretError::Unauthorized("x".into()).to_string(),
        "secret backend unauthorized: x"
    );
    assert_eq!(SecretError::BadValue("x".into()).to_string(), "secret value not usable: x");
    assert_eq!(
        IntegrationError::Backend(BoxError::new("x")).to_string(),
        "integration backend error: x"
    );
    assert_eq!(
        IntegrationError::Unauthorized("x".into()).to_string(),
        "integration unauthorized: x"
    );
    assert_eq!(
        IntegrationError::NotFound("x".into()).to_string(),
        "integration resource not found: x"
    );
    assert_eq!(
        IntegrationError::Protocol("x".into()).to_string(),
        "integration protocol error: x"
    );
    assert_eq!(
        IntegrationError::Rejected("x".into()).to_string(),
        "integration action rejected: x"
    );
    assert_eq!(
        IntegrationError::InvalidSpec("x".into()).to_string(),
        "invalid integration request: x"
    );
    assert_eq!(
        IntegrationError::Unsupported.to_string(),
        "operation not supported by this integration"
    );
    assert!(IntegrationError::Backend(BoxError::new("x")).source().is_some());
    assert!(SecretError::Backend(BoxError::new("x")).source().is_some());
}

use engram_core::types::capture_job::{cold_base_content_key, CaptureJobStage};
use engram_core::types::image::ResourceHints;

#[test]
fn capture_job_stage_round_trips_every_variant() {
    let variants = [
        CaptureJobStage::Assigned,
        CaptureJobStage::Booting,
        CaptureJobStage::Warming,
        CaptureJobStage::Freezing,
        CaptureJobStage::Done,
        CaptureJobStage::Failed,
    ];
    for v in variants {
        let s = v.as_str();
        assert_eq!(CaptureJobStage::parse(s), Some(v));
        assert_eq!(v.to_string(), s);
    }
    assert_eq!(CaptureJobStage::parse("bogus"), None);
}

#[test]
fn only_done_and_failed_are_terminal() {
    assert!(!CaptureJobStage::Assigned.is_terminal());
    assert!(!CaptureJobStage::Booting.is_terminal());
    assert!(!CaptureJobStage::Warming.is_terminal());
    assert!(!CaptureJobStage::Freezing.is_terminal());
    assert!(CaptureJobStage::Done.is_terminal());
    assert!(CaptureJobStage::Failed.is_terminal());
}

fn hints(mem: Option<u32>) -> ResourceHints {
    ResourceHints {
        suggested_memory_mib: mem,
        suggested_vcpus: Some(2),
        suggested_disk_gib: Some(10),
        suggested_swap_mib: None,
    }
}

#[test]
fn cold_base_content_key_is_deterministic() {
    let a = cold_base_content_key("m1@v1", &hints(Some(4096)), Some("v10.0.0"), "firecracker");
    let b = cold_base_content_key("m1@v1", &hints(Some(4096)), Some("v10.0.0"), "firecracker");
    assert_eq!(a, b);
    assert_eq!(a.len(), 64);
}

#[test]
fn cold_base_content_key_is_sensitive_to_every_component() {
    let base = cold_base_content_key("m1@v1", &hints(Some(4096)), Some("v10.0.0"), "firecracker");
    assert_ne!(
        base,
        cold_base_content_key("m2@v1", &hints(Some(4096)), Some("v10.0.0"), "firecracker"),
        "disk_manifest must be part of the key"
    );
    assert_ne!(
        base,
        cold_base_content_key("m1@v1", &hints(Some(8192)), Some("v10.0.0"), "firecracker"),
        "resources must be part of the key"
    );
    assert_ne!(
        base,
        cold_base_content_key("m1@v1", &hints(Some(4096)), Some("v9.0.0"), "firecracker"),
        "fc_snapshot_version must be part of the key"
    );
    assert_ne!(
        base,
        cold_base_content_key("m1@v1", &hints(Some(4096)), Some("v10.0.0"), "vz"),
        "backend_kind must be part of the key"
    );
    assert_ne!(
        base,
        cold_base_content_key("m1@v1", &hints(Some(4096)), None, "firecracker"),
        "a missing fc_snapshot_version must not collide with a present one"
    );
}

#[test]
fn cold_base_content_key_is_the_digest_of_the_document() {
    // The digest of
    // {"disk_manifest":"m1@v1","resources":{"suggested_memory_mib":4096,"suggested_vcpus":2,
    // "suggested_disk_gib":10,"suggested_swap_mib":null},"fc_snapshot_version":"v10.0.0",
    // "backend_kind":"firecracker"}, written without white space.
    assert_eq!(
        cold_base_content_key("m1@v1", &hints(Some(4096)), Some("v10.0.0"), "firecracker"),
        "fbcb9be7114bae778c2d6d3b02779dc205c44519854432b9bc57e99f1bfe9307"
    );
}

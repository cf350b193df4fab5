use engram_core::types::materialize::{
    MaterializeFailure, MaterializeFailureKind, MaterializeStage,
};

#[test]
fn stage_strings_round_trip() {
    for s in [
        MaterializeStage::Pull,
        MaterializeStage::Flatten,
        MaterializeStage::Pack,
        MaterializeStage::Chunk,
    ] {
        assert_eq!(MaterializeStage::parse(s.as_str()), Some(s));
    }
    assert_eq!(MaterializeStage::parse("warm"), None);
}

#[test]
fn failure_kind_strings_round_trip_and_unknown_is_none() {
    for k in [
        MaterializeFailureKind::Busy,
        MaterializeFailureKind::DiskFull,
        MaterializeFailureKind::TooLarge,
        MaterializeFailureKind::Pull,
        MaterializeFailureKind::Image,
        MaterializeFailureKind::Store,
        MaterializeFailureKind::Transport,
        MaterializeFailureKind::Internal,
    ] {
        assert_eq!(MaterializeFailureKind::parse(k.as_str()), Some(k));
    }
    assert_eq!(MaterializeFailureKind::parse("nope"), None);
}

#[test]
fn retryability_matrix() {
    for k in [
        MaterializeFailureKind::Busy,
        MaterializeFailureKind::DiskFull,
        MaterializeFailureKind::Pull,
        MaterializeFailureKind::Store,
        MaterializeFailureKind::Transport,
    ] {
        assert!(
            k.is_retryable(),
            "{} must retry via the attempts budget",
            k.as_str()
        );
    }
    for k in [
        MaterializeFailureKind::TooLarge,
        MaterializeFailureKind::Image,
        MaterializeFailureKind::Internal,
    ] {
        assert!(!k.is_retryable(), "{} must bail fast", k.as_str());
    }
}

#[test]
fn failure_names_its_kind() {
    let f = MaterializeFailure {
        kind: MaterializeFailureKind::DiskFull,
        message: "no room".into(),
    };
    assert_eq!(
        f.to_string(),
        format!(
            "materialize failed ({}): no room",
            MaterializeFailureKind::DiskFull.as_str()
        )
    );
}

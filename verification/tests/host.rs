use engram_core::types::host::{CapStatus, HostCapabilities, HostStatus};

const ALL: [HostStatus; 3] = [HostStatus::Ready, HostStatus::Draining, HostStatus::Dead];

#[test]
fn host_status_transition_table_is_exhaustive() {
    let legal = |from: HostStatus, to: HostStatus| -> bool {
        matches!(
            (from, to),
            (HostStatus::Ready, HostStatus::Draining)
                | (HostStatus::Ready, HostStatus::Dead)
                | (HostStatus::Draining, HostStatus::Ready)
                | (HostStatus::Draining, HostStatus::Dead)
        )
    };
    for &from in &ALL {
        for &to in &ALL {
            assert_eq!(
                from.can_transition_to(to),
                legal(from, to),
                "edge {from:?} -> {to:?} disagrees with the expected table",
            );
        }
    }
}

#[test]
fn dead_is_terminal() {
    for &to in &ALL {
        assert!(
            !HostStatus::Dead.can_transition_to(to),
            "dead -> {to:?} must be illegal; a partitioned host marked \
             dead must not resurrect on its next heartbeat",
        );
    }
}

#[test]
fn self_transitions_are_illegal() {
    for &s in &ALL {
        assert!(
            !s.can_transition_to(s),
            "self-transition {s:?} -> {s:?} carries no new information",
        );
    }
}

#[test]
fn cap_status_is_ok_only_for_the_ok_variant() {
    assert!(CapStatus::Healthy(None).is_ok());
    assert!(CapStatus::Healthy(Some("x".into())).is_ok());
    assert!(!CapStatus::Unknown.is_ok());
    assert!(!CapStatus::Failed("x".into()).is_ok());
    assert!(!CapStatus::NotApplicable.is_ok());
}

#[test]
fn failing_capabilities_ignores_not_applicable_and_schema_zero_unknown() {
    let never_reported = HostCapabilities::default();
    assert!(never_reported.failing_capabilities().is_empty());

    let vz_like = HostCapabilities {
        schema: 1,
        backend: "vz".to_string(),
        grpc_self_connect: CapStatus::Healthy(None),
        base_shm_tmpfs: CapStatus::NotApplicable,
        uffd_minor_shmem: CapStatus::NotApplicable,
        nbd: CapStatus::NotApplicable,
        bundle_stamp: CapStatus::Failed("no stamp".to_string()),
        fc_snapshot_version: None,
        wire_version: 7,
    };
    assert_eq!(vz_like.failing_capabilities(), vec!["bundle_stamp"]);
}

#[test]
fn failing_capabilities_sorted_deterministic_order() {
    let broken = HostCapabilities {
        schema: 1,
        backend: "firecracker".to_string(),
        grpc_self_connect: CapStatus::Failed("x".into()),
        base_shm_tmpfs: CapStatus::Failed("x".into()),
        uffd_minor_shmem: CapStatus::Healthy(None),
        nbd: CapStatus::Unknown,
        bundle_stamp: CapStatus::Healthy(None),
        fc_snapshot_version: None,
        wire_version: 7,
    };
    assert_eq!(
        broken.failing_capabilities(),
        vec!["grpc_self_connect", "base_shm_tmpfs", "nbd"]
    );
}

#[test]
fn host_capabilities_default_to_schema_zero() {
    let caps = HostCapabilities::default();
    assert_eq!(caps.schema, 0);
    assert_eq!(caps.grpc_self_connect, CapStatus::Unknown);
    assert_eq!(caps.fc_snapshot_version, None);
}

#[test]
fn host_status_serializes_lowercase() {
    for (variant, wire) in [
        (HostStatus::Ready, "ready"),
        (HostStatus::Draining, "draining"),
        (HostStatus::Dead, "dead"),
    ] {
        assert_eq!(HostStatus::parse(wire), Some(variant));
        assert_eq!(variant.as_str(), wire);
    }
}

use engram_core::document::{from_json, to_json};
use engram_core::text_map::TextMap;
use engram_core::time::{Duration, Timestamp, FIRST_SECOND, LAST_SECOND};
use engram_core::types::capture_job::CaptureTerminalReport;
use engram_core::types::evacuation::{EvacLoss, EvacReceipt};
use engram_core::types::host::{CapStatus, HostCapabilities};
use engram_core::types::ids::{HostId, SandboxId, SessionId, Uuid};
use engram_core::types::image::{NetworkDefault, NetworkPolicy};
use engram_core::types::manifest::ManifestRef;
use engram_core::types::registry::RegistryAuthSpec;
use engram_core::types::sandbox::{AuxRoDrive, CpuLimit, DiskLimit, MemoryLimit, SandboxSpec};
use engram_core::types::session::{Session, SessionMode, SessionState};

#[test]
fn capture_terminal_report_round_trips_through_json() {
    let done = CaptureTerminalReport::Done {
        result_bincode: vec![1, 2, 3],
    };
    let json = to_json(&done);
    assert_eq!(json, r#"{"Done":{"result_bincode":[1,2,3]}}"#);
    let back: CaptureTerminalReport = from_json(&json).unwrap();
    match back {
        CaptureTerminalReport::Done { result_bincode } => {
            assert_eq!(result_bincode, vec![1, 2, 3]);
        }
        other => panic!("expected Done, got {other:?}"),
    }

    let failed = CaptureTerminalReport::Failed {
        error: "boom".into(),
        error_stage: "warming".into(),
        retryable: true,
    };
    let json = to_json(&failed);
    let back: CaptureTerminalReport = from_json(&json).unwrap();
    match back {
        CaptureTerminalReport::Failed {
            error,
            error_stage,
            retryable,
        } => {
            assert_eq!(error, "boom");
            assert_eq!(error_stage, "warming");
            assert!(retryable);
        }
        other => panic!("expected Failed, got {other:?}"),
    }
}

#[test]
fn reports_of_the_wrong_shape_are_refused() {
    for bad in [
        "{}",
        r#"{"Done":{"result_bincode":[256]}}"#,
        r#"{"Done":{"result_bincode":[1]},"Failed":{}}"#,
        r#"{"Failed":{"error":"e","error_stage":"s"}}"#,
        r#"{"Other":{}}"#,
    ] {
        assert!(from_json::<CaptureTerminalReport>(bad).is_err(), "{bad}");
    }
}

#[test]
fn evac_loss_round_trips_through_json() {
    assert_eq!(to_json(&EvacLoss::Lossless), r#"{"kind":"none"}"#);
    let mem = to_json(&EvacLoss::Memory {
        reason: "source-dead-no-snapshot".into(),
    });
    assert_eq!(
        mem,
        r#"{"kind":"memory","reason":"source-dead-no-snapshot"}"#
    );

    let back: EvacLoss = from_json(r#"{"kind": "none"}"#).unwrap();
    assert_eq!(back, EvacLoss::Lossless);
    assert!(from_json::<EvacLoss>(r#"{"kind": "disk"}"#).is_err());
    assert!(from_json::<EvacLoss>(r#"{"kind": "memory"}"#).is_err());
}

#[test]
fn evac_receipt_round_trips_through_json() {
    let receipt = EvacReceipt {
        new_host_id: HostId::new(),
        new_sandbox_id: SandboxId::new(),
        loss: EvacLoss::Memory {
            reason: "source-dead".into(),
        },
    };
    let blob = receipt.to_json();
    let back = EvacReceipt::from_json(&blob).unwrap();
    assert_eq!(back, receipt);
    assert!(EvacReceipt::from_json(r#"{"new_host_id":"x"}"#).is_err());
}

#[test]
fn host_capabilities_defaults_to_schema_zero_when_absent() {
    let caps: HostCapabilities = from_json("{}").unwrap();
    assert_eq!(caps.schema, 0);
    assert_eq!(caps.grpc_self_connect, CapStatus::Unknown);
    assert_eq!(caps.fc_snapshot_version, None);
}

#[test]
fn cap_status_round_trips_every_variant() {
    for cap in [
        CapStatus::Unknown,
        CapStatus::Healthy(None),
        CapStatus::Healthy(Some("nbds_max=128".to_string())),
        CapStatus::Failed("ENOENT".to_string()),
        CapStatus::NotApplicable,
    ] {
        let wire = to_json(&cap);
        let back: CapStatus = from_json(&wire).unwrap();
        assert_eq!(back, cap);
    }
    assert_eq!(
        to_json(&CapStatus::Healthy(Some("n".into()))),
        r#"{"status":"ok","detail":"n"}"#
    );
    assert_eq!(to_json(&CapStatus::Unknown), r#"{"status":"unknown"}"#);
    assert!(from_json::<CapStatus>(r#"{"status":"failed"}"#).is_err());
    assert!(from_json::<CapStatus>(r#"{"status":"unknown","detail":"x"}"#).is_err());
}

#[test]
fn host_capabilities_round_trip() {
    let caps = HostCapabilities {
        schema: 1,
        backend: "firecracker".into(),
        nbd: CapStatus::Healthy(None),
        fc_snapshot_version: Some("v10".into()),
        wire_version: 25,
        ..HostCapabilities::default()
    };
    assert_eq!(from_json::<HostCapabilities>(&to_json(&caps)).unwrap(), caps);
}

#[test]
fn auth_spec_serde_round_trip_static() {
    let spec = RegistryAuthSpec::Static {
        username: "_json_key".into(),
        wrapped_dek: vec![1, 2, 3],
        nonce: vec![4, 5, 6],
        ciphertext: vec![7, 8, 9],
        key_id: "env:KEK:v1".into(),
    };
    let json = to_json(&spec);
    assert!(json.contains("\"kind\":\"static\""));
    assert!(json.contains("\"username\":\"_json_key\""));
    assert_eq!(spec.kind(), "static");
    let back: RegistryAuthSpec = from_json(&json).unwrap();
    match back {
        RegistryAuthSpec::Static {
            username,
            wrapped_dek,
            nonce,
            ciphertext,
            key_id,
        } => {
            assert_eq!(username, "_json_key");
            assert_eq!(wrapped_dek, vec![1, 2, 3]);
            assert_eq!(nonce, vec![4, 5, 6]);
            assert_eq!(ciphertext, vec![7, 8, 9]);
            assert_eq!(key_id, "env:KEK:v1");
        }
        other => panic!("expected Static, got {other:?}"),
    }
}

#[test]
fn auth_spec_serde_round_trip_gcp_wi_with_impersonation() {
    let spec = RegistryAuthSpec::GcpWorkloadIdentity {
        impersonate_sa: Some("engram@p.iam.gserviceaccount.com".into()),
    };
    let json = to_json(&spec);
    assert!(json.contains("\"kind\":\"gcp_workload_identity\""));
    assert!(json.contains("\"impersonate_sa\":\"engram@p.iam.gserviceaccount.com\""));
    assert_eq!(spec.kind(), "gcp_workload_identity");
    let back: RegistryAuthSpec = from_json(&json).unwrap();
    match back {
        RegistryAuthSpec::GcpWorkloadIdentity { impersonate_sa } => {
            assert_eq!(
                impersonate_sa.as_deref(),
                Some("engram@p.iam.gserviceaccount.com")
            );
        }
        other => panic!("expected GcpWorkloadIdentity, got {other:?}"),
    }
}

#[test]
fn auth_spec_serde_round_trip_gcp_wi_ambient() {
    let spec: RegistryAuthSpec = from_json(r#"{"kind":"gcp_workload_identity"}"#).unwrap();
    match spec {
        RegistryAuthSpec::GcpWorkloadIdentity { impersonate_sa } => {
            assert_eq!(impersonate_sa, None);
        }
        other => panic!("expected GcpWorkloadIdentity, got {other:?}"),
    }
    assert_eq!(to_json(&RegistryAuthSpec::Anonymous), r#"{"kind":"anonymous"}"#);
    assert!(from_json::<RegistryAuthSpec>(r#"{"kind":"static"}"#).is_err());
}

fn session() -> Session {
    Session {
        id: SessionId::new(),
        user_id: Some("u1".into()),
        status: SessionState::Active,
        host_id: Some(HostId::new()),
        sandbox_id: Some(SandboxId::new()),
        image: "ghcr.io/cortex/api:warm-20260101T000000Z".into(),
        mode: SessionMode::DevVm,
        created_at: Timestamp { secs: 1_779_565_320, nanos: 123_456_789 },
        last_active_at: Timestamp { secs: 1_779_565_321, nanos: 0 },
        live_disk_manifest: None,
    }
}

#[test]
fn session_round_trips_through_json() {
    let original = session();
    let blob = original.to_json();
    let back = Session::from_json(&blob).unwrap();
    assert_eq!(back.id, original.id);
    assert_eq!(back.image, original.image);
    assert_eq!(back.mode, original.mode);
    assert_eq!(back.status, original.status);
    assert_eq!(back.host_id, original.host_id);
    assert_eq!(back.sandbox_id, original.sandbox_id);
    assert_eq!(back.created_at, original.created_at);
    assert_eq!(back.last_active_at, original.last_active_at);
}

#[test]
fn image_ref_round_trips_through_json() {
    let original = Session {
        image: "ghcr.io/cortex/api:warm-2026".to_string(),
        ..session()
    };
    let blob = original.to_json();
    assert!(blob.contains("\"image\":\"ghcr.io/cortex/api:warm-2026\""), "{blob}");
    assert_eq!(Session::from_json(&blob).unwrap().image, original.image);
}

#[test]
fn id_roundtrip_via_json() {
    let original = session();
    let blob = original.to_json();
    assert!(
        blob.starts_with(&format!("{{\"id\":\"{}\"", original.id.to_string())),
        "{blob}"
    );
    assert_eq!(Session::from_json(&blob).unwrap().id, original.id);
}

#[test]
fn sessions_keep_their_manifest() {
    let original = Session {
        live_disk_manifest: Some(ManifestRef {
            manifest_id: Uuid::from_u128(7),
            version: u64::MAX,
        }),
        host_id: None,
        sandbox_id: None,
        user_id: None,
        ..session()
    };
    let back = Session::from_json(&original.to_json()).unwrap();
    assert_eq!(back.live_disk_manifest, original.live_disk_manifest);
    assert_eq!((back.host_id, back.sandbox_id), (None, None));
}

#[test]
fn sessions_of_the_wrong_shape_are_refused() {
    let blob = session().to_json();
    assert!(Session::from_json(&blob.replace("\"active\"", "\"running\"")).is_err());
    assert!(Session::from_json(&blob.replace("\"mode\":\"dev_vm\",", "")).is_ok());
    assert!(Session::from_json(&blob.replace("\"status\":\"active\",", "")).is_err());
    assert!(Session::from_json(&blob.replace("\"created_at\":\"2026", "\"created_at\":\"x2026")).is_err());
    assert!(Session::from_json("").is_err());
}

fn spec_with_aux_drives(drives: Vec<AuxRoDrive>) -> SandboxSpec {
    SandboxSpec {
        image: "warm-1".into(),
        rootfs_source: None,
        image_uri: None,
        rootfs_manifest: None,
        cpu: CpuLimit { vcpus: 2 },
        memory: MemoryLimit { max_mib: 4096 },
        disk: DiskLimit { max_gib: 8 },
        ttl: None,
        env: TextMap::new(),
        workdir: None,
        network: NetworkPolicy::default(),
        aux_ro_drives: drives,
        swap_mib: None,
    }
}

#[test]
fn sandbox_spec_aux_ro_drives_round_trip_json() {
    let spec = spec_with_aux_drives(vec![
        AuxRoDrive::reserved_slot(0),
        AuxRoDrive {
            sha256: Some("a".repeat(64)),
            ..AuxRoDrive::reserved_slot(1)
        },
    ]);
    let back = SandboxSpec::from_json(&spec.to_json()).unwrap();
    assert_eq!(back.aux_ro_drives, spec.aux_ro_drives);

    let swap_spec = SandboxSpec {
        swap_mib: Some(6144),
        ttl: Some(Duration { secs: 3600, nanos: 5 }),
        rootfs_manifest: Some(ManifestRef::new()),
        ..spec_with_aux_drives(vec![])
    };
    let back = SandboxSpec::from_json(&swap_spec.to_json()).unwrap();
    assert_eq!(back.swap_mib, Some(6144));
    assert_eq!(back.ttl, swap_spec.ttl);
    assert_eq!(back.rootfs_manifest, swap_spec.rootfs_manifest);
    assert!(back.aux_ro_drives.is_empty());
}

#[test]
fn sandbox_spec_legacy_json_without_aux_ro_drives_defaults_empty() {
    let legacy = r#"{
            "image": "warm-1",
            "rootfs_source": null,
            "image_uri": null,
            "cpu": { "vcpus": 2 },
            "memory": { "max_mib": 4096 },
            "disk": { "max_gib": 8 },
            "ttl": null,
            "env": {},
            "workdir": null
        }"#;
    let spec = SandboxSpec::from_json(legacy).expect("legacy json decode");
    assert!(spec.aux_ro_drives.is_empty());
    assert_eq!(spec.swap_mib, None);
}

#[test]
fn spans_carry_whole_seconds() {
    let with_ttl = |ttl: &str| {
        let spec = spec_with_aux_drives(vec![]).to_json();
        SandboxSpec::from_json(&spec.replace("\"ttl\":null", &format!("\"ttl\":{ttl}")))
    };
    assert_eq!(
        with_ttl(r#"{"secs":1,"nanos":2500000000}"#).unwrap().ttl,
        Some(Duration { secs: 3, nanos: 500_000_000 })
    );
    assert!(with_ttl(r#"{"secs":18446744073709551615,"nanos":1000000000}"#).is_err());
    assert!(with_ttl(r#"{"secs":1}"#).is_err());
    assert!(with_ttl(r#"{"secs":1,"nanos":0,"more":1}"#).is_err());
}

#[test]
fn points_in_time_are_read_back_over_the_whole_calendar() {
    for (secs, nanos, text) in [
        (0, 0, "1970-01-01T00:00:00Z"),
        (-1, 1, "1969-12-31T23:59:59.000000001Z"),
        (1_483_228_799, 1_500_000_000, "2016-12-31T23:59:60.500Z"),
        (253_402_300_799, 999_999_999, "9999-12-31T23:59:59.999999999Z"),
        (253_402_300_800, 0, "+10000-01-01T00:00:00Z"),
        (-62_167_219_200, 0, "0000-01-01T00:00:00Z"),
        (-62_167_219_201, 0, "-0001-12-31T23:59:59Z"),
        (FIRST_SECOND, 0, "-262143-01-01T00:00:00Z"),
        (LAST_SECOND, 999_999_999, "+262142-12-31T23:59:59.999999999Z"),
        (LAST_SECOND, 1_999_999_999, "+262142-12-31T23:59:60.999999999Z"),
    ] {
        let at = Timestamp { secs, nanos };
        let original = Session { created_at: at, last_active_at: at, ..session() };
        let blob = original.to_json();
        assert!(blob.contains(&format!("\"created_at\":\"{text}\"")), "{blob}");
        let back = Session::from_json(&blob).unwrap();
        assert_eq!((back.created_at, back.last_active_at), (at, at));
    }
}

#[test]
fn structs_are_read_from_lists_of_their_fields() {
    let id = "00000000-0000-0000-0000-000000000007";
    let t = "1970-01-01T00:00:01Z";
    let row = format!(
        r#"["{id}",null,"active",null,null,"i:t","dev_vm","{t}","{t}",["{id}",3]]"#
    );
    let s = Session::from_json(&row).unwrap();
    assert_eq!((s.id.0, s.mode), (Uuid::from_u128(7), SessionMode::DevVm));
    assert_eq!(s.created_at, Timestamp { secs: 1, nanos: 0 });
    assert_eq!(s.live_disk_manifest.unwrap().version, 3);
    let short = format!(r#"["{id}",null,"active",null,null,"i:t","dev_vm","{t}","{t}"]"#);
    assert_eq!(Session::from_json(&short).unwrap().live_disk_manifest, None);
    let shorter = format!(r#"["{id}",null,"active",null,null,"i:t","dev_vm","{t}"]"#);
    assert!(Session::from_json(&shorter).is_err());
    assert!(Session::from_json(&row.replace(",3]]", ",3],1]")).is_err());
    assert!(Session::from_json(&row.replace(",3]]", "]]")).is_err());

    let spec = SandboxSpec::from_json(
        r#"["i",null,null,null,[2],[64],{"max_gib":8},[1,2],{"a":"b"},null,["allow"],[["d","/m","ext4"]]]"#,
    )
    .unwrap();
    assert_eq!((spec.cpu.vcpus, spec.memory.max_mib, spec.disk.max_gib), (2, 64, 8));
    assert_eq!(spec.ttl, Some(Duration { secs: 1, nanos: 2 }));
    assert_eq!(spec.env.get("a"), Some("b"));
    assert_eq!(spec.network.default, NetworkDefault::Allow);
    assert_eq!(spec.aux_ro_drives[0].fs_type, "ext4");
    assert!(SandboxSpec::from_json(r#"["i",null,null,null,[2],[64],[8],null,{}]"#).is_err());
    assert!(SandboxSpec::from_json(r#"["i",null,null,null,[2,1],[64],[8],null,{},null]"#).is_err());

    let receipt = EvacReceipt::from_json(&format!(r#"["{id}","{id}",["none"]]"#)).unwrap();
    assert_eq!(receipt.loss, EvacLoss::Lossless);
    let caps: HostCapabilities = from_json(r#"[2,"vz",["failed","why"]]"#).unwrap();
    assert_eq!((caps.schema, caps.backend.as_str()), (2, "vz"));
    assert_eq!(caps.grpc_self_connect, CapStatus::Failed("why".into()));
    assert_eq!(caps.nbd, CapStatus::Unknown);
    assert!(from_json::<CapStatus>(r#"["ok"]"#).is_err());
    assert_eq!(from_json::<CapStatus>(r#"["ok",null]"#), Ok(CapStatus::Healthy(None)));
    assert_eq!(
        from_json::<CaptureTerminalReport>(r#"{"Done":[[1,2]]}"#),
        Ok(CaptureTerminalReport::Done { result_bincode: vec![1, 2] })
    );
    let failed = from_json::<CaptureTerminalReport>(r#"{"Failed":["e","s",true]}"#).unwrap();
    assert!(matches!(failed, CaptureTerminalReport::Failed { retryable: true, .. }));
    assert!(from_json::<CaptureTerminalReport>(r#"{"Failed":["e","s"]}"#).is_err());
}

#[test]
fn tagged_lists_have_the_fields_of_their_kind() {
    assert_eq!(from_json::<EvacLoss>(r#"["none"]"#), Ok(EvacLoss::Lossless));
    assert_eq!(
        from_json::<EvacLoss>(r#"["memory","oom"]"#),
        Ok(EvacLoss::Memory { reason: "oom".into() })
    );
    for bad in [r#"[]"#, r#"["none",1]"#, r#"["memory"]"#, r#"["memory","a","b"]"#, r#"["x"]"#] {
        assert!(from_json::<EvacLoss>(bad).is_err(), "{bad}");
    }
    let read = |text: &str| from_json::<RegistryAuthSpec>(text).map(|auth| to_json(&auth));
    assert_eq!(read(r#"["anonymous"]"#).unwrap(), r#"{"kind":"anonymous"}"#);
    for (list, table) in [
        (r#"["gcp_workload_identity"]"#, r#"{"kind":"gcp_workload_identity"}"#),
        (r#"["gcp_workload_identity",null]"#, r#"{"kind":"gcp_workload_identity"}"#),
        (
            r#"["gcp_workload_identity","s"]"#,
            r#"{"kind":"gcp_workload_identity","impersonate_sa":"s"}"#,
        ),
        (
            r#"["static","u",[1],[2],[3],"k"]"#,
            r#"{"kind":"static","username":"u","wrapped_dek":[1],"nonce":[2],"ciphertext":[3],"key_id":"k"}"#,
        ),
    ] {
        assert_eq!(read(list).unwrap(), read(table).unwrap());
    }
    for bad in [r#"["anonymous",1]"#, r#"["static","u"]"#, r#"["gcp_workload_identity","s",1]"#] {
        assert!(read(bad).is_err(), "{bad}");
    }
}

#[test]
fn bare_names_may_stand_in_a_table() {
    let blob = session().to_json();
    let tables = blob
        .replace("\"active\"", r#"{"active":null}"#)
        .replace("\"dev_vm\"", r#"{"dev_vm":null}"#);
    let back = Session::from_json(&tables).unwrap();
    assert_eq!((back.status, back.mode), (SessionState::Active, SessionMode::DevVm));
    for bad in [r#"{"active":1}"#, r#"{"active":null,"idle":null}"#, r#"{"running":null}"#, "{}"] {
        assert!(Session::from_json(&blob.replace("\"active\"", bad)).is_err(), "{bad}");
    }
}

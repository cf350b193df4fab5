use engram_core::document::{Member, Value};
use engram_core::text_map::TextMap;
use engram_core::time::Timestamp;
use engram_core::types::capture_progress::{CaptureFailure, CaptureFailureKind, CapturePhase};
use engram_core::types::catalog::CatalogHarness;
use engram_core::types::cow_state::unix_ms_to_dt;
use engram_core::types::evacuation::EvacLoss;
use engram_core::types::event::{tool_name_field, PersistedEvent, TOOL_NAME_FIELDS};
use engram_core::types::ids::Uuid;
use engram_core::types::image::{ImageConfig, OciRuntimeDefaults};
use engram_core::types::manifest::ManifestRef;
use engram_core::types::oauth::{
    OAuthAccountMetadata, OAuthCredentialKey, OAuthCredentialStatus, OAuthFlowStatus,
    OAuthSubjectKind, SealedOAuthCredential,
};
use engram_core::types::org_secret::SealedOrgSecret;
use engram_core::types::registry::{
    EnableJobState, EnabledImage, EnabledImageSummary, RegistryAuthSpec, RegistryCredential,
    RegistryCredentialSummary, ResolvedRegistryAuth,
};

fn at(secs: i64) -> Timestamp {
    Timestamp { secs, nanos: 0 }
}

#[test]
fn unix_ms_to_dt_zero_is_none() {
    assert!(unix_ms_to_dt(0).is_none());
    assert!(unix_ms_to_dt(-1).is_none());
}

#[test]
fn unix_ms_to_dt_round_trips_a_known_instant() {
    let ms = 1_779_565_320_000_i64 + 250;
    let dt = unix_ms_to_dt(ms).unwrap();
    assert_eq!(dt.secs * 1000 + i64::from(dt.nanos / 1_000_000), ms);
}

#[test]
fn unix_ms_to_dt_ends_with_the_calendar() {
    assert!(unix_ms_to_dt(8_210_266_876_799_999).is_some());
    assert!(unix_ms_to_dt(i64::MAX).is_none());
}

#[test]
fn evac_loss_as_str_matches_discriminant() {
    assert_eq!(EvacLoss::Lossless.as_str(), "none");
    assert_eq!(
        EvacLoss::Memory {
            reason: "source-dead".into()
        }
        .as_str(),
        "memory"
    );
}

fn credential(auth: RegistryAuthSpec, host: &str) -> RegistryCredential {
    RegistryCredential {
        id: Uuid::new_v4(),
        registry_host: host.into(),
        auth,
        created_at: at(1),
        updated_at: None,
    }
}

#[test]
fn summary_redacts_cipher_for_static() {
    let cred = credential(
        RegistryAuthSpec::Static {
            username: "_json_key".into(),
            wrapped_dek: vec![0xab; 64],
            nonce: vec![0xcd; 12],
            ciphertext: vec![0xef; 256],
            key_id: "env:KEK:v1".into(),
        },
        "gcr.io",
    );
    let summary = RegistryCredentialSummary::from(cred);
    let shown = format!("{summary:?}");
    assert!(!shown.contains("ciphertext"));
    assert!(!shown.contains("wrapped_dek"));
    assert!(!shown.contains("nonce"));
    assert_eq!(summary.auth_kind, "static");
    assert_eq!(summary.auth_principal.as_deref(), Some("_json_key"));
}

#[test]
fn summary_for_gcp_wi_carries_impersonation_target() {
    let cred = credential(
        RegistryAuthSpec::GcpWorkloadIdentity {
            impersonate_sa: Some("engram@p.iam.gserviceaccount.com".into()),
        },
        "us-east1-docker.pkg.dev",
    );
    let summary = RegistryCredentialSummary::from(cred);
    assert_eq!(summary.auth_kind, "gcp_workload_identity");
    assert_eq!(
        summary.auth_principal.as_deref(),
        Some("engram@p.iam.gserviceaccount.com")
    );
}

#[test]
fn anonymous_credentials_have_no_principal() {
    let summary = RegistryCredentialSummary::from(credential(RegistryAuthSpec::Anonymous, "h"));
    assert_eq!(summary.auth_kind, "anonymous");
    assert_eq!(summary.auth_principal, None);
}

#[test]
fn resolved_credentials_hide_the_password() {
    let auth = ResolvedRegistryAuth {
        username: "a\"b".into(),
        password: "hunter2".into(),
    };
    assert_eq!(
        auth.debug_text(),
        "ResolvedRegistryAuth { username: \"a\\\"b\", password: \"<redacted>\" }"
    );
}

#[test]
fn enabled_images_fill_in_what_the_image_declares() {
    let mut env = TextMap::new();
    env.insert("PATH".into(), "/bin".into());
    let row = EnabledImage {
        id: Uuid::from_u128(1),
        image_uri: "r/i:t".into(),
        image_config: ImageConfig {
            name: "x".into(),
            ..ImageConfig::default()
        },
        oci_defaults: OciRuntimeDefaults {
            env,
            workdir: Some("/w".into()),
        },
        manifest_digest: "sha256:1".into(),
        disk_manifest: None,
        base_snapshot_id: None,
        base_snapshot_disk_manifest: None,
        base_snapshot_memory_manifest: None,
        last_refreshed_at: at(1),
        created_at: at(1),
        updated_at: None,
        soft_deleted_at: None,
    };
    let config = row.effective_config();
    assert_eq!(config.env.get("PATH"), Some("/bin"));
    assert_eq!(config.workdir.as_deref(), Some("/w"));
    let summary = EnabledImageSummary::from(row);
    assert_eq!(summary.image_uri, "r/i:t");
    assert!(summary.config.env.get("PATH").is_none());
}

#[test]
fn enable_jobs_end_ready_or_failed() {
    let ended: Vec<&str> = [
        EnableJobState::Pending,
        EnableJobState::Materializing,
        EnableJobState::Ready,
        EnableJobState::Failed,
    ]
    .iter()
    .filter(|s| s.is_terminal())
    .map(|s| s.as_str())
    .collect();
    assert_eq!(ended, vec!["ready", "failed"]);
}

#[test]
fn capture_failures_say_where_they_happened() {
    let kind = CaptureFailureKind::parse("warm_global_timeout").unwrap();
    assert_eq!(kind.as_str(), "warm_global_timeout");
    let mut f = CaptureFailure {
        kind,
        stage: Some("gradle".into()),
        tail: String::new(),
        message: "600s".into(),
    };
    assert_eq!(
        f.to_string(),
        "base-snapshot capture failed (warm_global_timeout) at [warm] stage `gradle`: 600s"
    );
    f.stage = None;
    assert_eq!(
        f.to_string(),
        "base-snapshot capture failed (warm_global_timeout): 600s"
    );
    assert_eq!(CaptureFailureKind::parse("x"), None);
    assert_eq!(CapturePhase::Warm.as_str(), "warm");
}

#[test]
fn manifests_are_stored_under_their_identifier() {
    let m = ManifestRef {
        manifest_id: Uuid::from_u128(1),
        version: 12,
    };
    assert_eq!(m.to_string(), "00000000-0000-0000-0000-000000000001@v12");
    assert_eq!(
        m.storage_key(),
        "manifests/00000000-0000-0000-0000-000000000001/v12.json"
    );
    assert!(m.storage_key().starts_with(&ManifestRef::id_prefix(m.manifest_id)));
    assert_eq!(m.next_version().version, 13);
    assert_eq!(ManifestRef::new().version, 1);
}

#[test]
fn events_name_their_tool() {
    for (kind, field) in TOOL_NAME_FIELDS {
        assert_eq!(tool_name_field(kind), Some(field));
        let event = PersistedEvent {
            idx: 1,
            kind: kind.into(),
            payload: Value::Table(vec![Member {
                key: field.into(),
                value: Value::Text("bash".into()),
            }]),
            created_at: at(1),
            rewound_at: None,
            recovery_epoch: 0,
        };
        assert_eq!(event.tool_name(), Some("bash"));
    }
    assert_eq!(tool_name_field("tool_result_submitted"), None);
}

#[test]
fn harnesses_keep_their_descriptor() {
    let mut h = CatalogHarness {
        id: "1".into(),
        owner: "o".into(),
        name: "n".into(),
        oci_ref: "r".into(),
        manifest_digest: "d".into(),
        descriptor_toml: "name = \"n\"".into(),
        tree_sha256: "s".into(),
        tree_size_bytes: 1,
        created_at: at(1),
    };
    assert_eq!(h.descriptor().unwrap().name, "n");
    h.descriptor_toml = "name".into();
    assert!(h.descriptor().is_err());
}

fn sealed() -> SealedOAuthCredential {
    SealedOAuthCredential {
        key: OAuthCredentialKey {
            subject_kind: OAuthSubjectKind::User,
            subject_id: "u".into(),
            provider: "p".into(),
        },
        wrapped_dek: vec![],
        nonce: vec![],
        ciphertext: vec![],
        key_id: "k".into(),
        metadata: OAuthAccountMetadata::default(),
        version: 1,
        created_at: at(1),
        updated_at: at(1),
        revoked_at: None,
        expires_at: Some(at(100)),
        broken_at: None,
        broken_reason: None,
    }
}

#[test]
fn credentials_expire_at_their_time() {
    let mut c = sealed();
    assert_eq!(c.status(at(99)), OAuthCredentialStatus::Connected);
    assert_eq!(c.status(at(100)), OAuthCredentialStatus::Expired);
    c.broken_at = Some(at(1));
    assert_eq!(c.status(at(100)), OAuthCredentialStatus::Broken);
    c.revoked_at = Some(at(1));
    assert_eq!(c.status(at(100)), OAuthCredentialStatus::Revoked);
    assert_eq!(c.status(at(1)).as_str(), "revoked");
}

#[test]
fn oauth_names_are_read_back() {
    for k in [OAuthSubjectKind::User, OAuthSubjectKind::Connector, OAuthSubjectKind::Mcp] {
        assert_eq!(OAuthSubjectKind::parse(k.as_str()), Ok(k));
        assert_eq!(k.as_str().parse::<OAuthSubjectKind>(), Ok(k));
    }
    assert_eq!(
        OAuthSubjectKind::parse("x\n").unwrap_err(),
        "unknown OAuth subject kind \"x\\n\""
    );
    assert!(OAuthFlowStatus::parse("x").is_err());
}

#[test]
fn sealed_secrets_tell_name_and_key_only() {
    let s = SealedOrgSecret {
        name: "n".into(),
        wrapped_dek: vec![1],
        nonce: vec![2],
        ciphertext: vec![3],
        key_id: "k".into(),
    };
    let told = s.described(at(1), at(2));
    assert_eq!((told.name.as_str(), told.key_id.as_str()), ("n", "k"));
    assert_eq!((told.created_at, told.updated_at), (at(1), at(2)));
}

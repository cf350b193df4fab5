use engram_core::traits::sandbox::{probe_from_list, BrowserStart, ExecDrain, HarnessDial};
use engram_core::types::ids::{SandboxId, Uuid};
use engram_core::types::sandbox::{AgentSpec, AuxRoDrive, ExecEvent};
use engram_core::text_map::TextMap;

#[test]
fn slot_index_round_trips_slot_drive_id() {
    for i in 0..AuxRoDrive::RESERVED_SLOTS {
        let drive = AuxRoDrive::reserved_slot(i);
        assert_eq!(drive.slot_index(), Some(i), "slot {i} round-trip");
    }
    let bogus = AuxRoDrive {
        drive_id: "rootfs".into(),
        guest_mount: "/".into(),
        fs_type: "ext4".into(),
        sha256: None,
    };
    assert_eq!(bogus.slot_index(), None);
}

#[test]
fn exec_event_terminal_only_on_exit_or_refusal() {
    assert!(!ExecEvent::Stdout(b"x".to_vec()).is_terminal());
    assert!(!ExecEvent::Stderr(b"x".to_vec()).is_terminal());
    assert!(ExecEvent::Exit(Some(0)).is_terminal());
    assert!(ExecEvent::Exit(None).is_terminal());
    assert!(ExecEvent::Refused("first writer wins".into()).is_terminal());
}

#[test]
fn attach_token_goes_into_the_environment() {
    let spec = AgentSpec {
        binding_epoch: 7,
        argv: vec![],
        env: TextMap::new(),
        session_env: TextMap::new(),
        host_ca_pem: None,
    };
    let id = SandboxId(Uuid::from_u128(1));
    let env = spec.attach_token_env(id);
    assert_eq!(env[0].0, "ENGRAM_SANDBOX_ID");
    assert_eq!(env[0].1, "00000000-0000-0000-0000-000000000001");
    assert_eq!(env[1].0, "ENGRAM_BINDING_EPOCH");
    assert_eq!(env[1].1, "7");
}

#[test]
fn exec_output_is_gathered_up_to_the_exit() {
    let mut drain = ExecDrain::new();
    assert!(!drain.take(ExecEvent::Stdout(b"ab".to_vec())));
    assert!(!drain.take(ExecEvent::Stderr(b"!".to_vec())));
    assert!(!drain.take(ExecEvent::Stdout(b"cd".to_vec())));
    assert!(drain.take(ExecEvent::Exit(Some(3))));
    assert!(drain.take(ExecEvent::Stdout(b"late".to_vec())));
    let handle = drain.finish(SandboxId(Uuid::from_u128(1)), "e1".into());
    assert_eq!(handle.stdout, b"abcd");
    assert_eq!(handle.stderr, b"!");
    assert_eq!(handle.exit_status, Some(3));
    assert_eq!(handle.exec_id, "e1");
}

#[test]
fn refused_and_cut_off_commands_have_no_status() {
    let mut refused = ExecDrain::new();
    assert!(refused.take(ExecEvent::Refused("busy".into())));
    assert_eq!(
        refused.finish(SandboxId(Uuid::from_u128(1)), "e".into()).exit_status,
        None
    );
    let mut cut = ExecDrain::new();
    assert!(!cut.take(ExecEvent::Stdout(b"x".to_vec())));
    assert_eq!(
        cut.finish(SandboxId(Uuid::from_u128(1)), "e".into()).exit_status,
        None
    );
}

#[test]
fn probe_goes_by_the_list() {
    let (a, b) = (SandboxId(Uuid::from_u128(1)), SandboxId(Uuid::from_u128(2)));
    let known = probe_from_list(&vec![a], a);
    assert!(known.known_to_backend && known.process_alive);
    let unknown = probe_from_list(&vec![a], b);
    assert!(!unknown.known_to_backend && !unknown.process_alive);
    assert_eq!(BrowserStart::usual().port, 5900);
    assert_eq!(HarnessDial::default(), HarnessDial::Vsock);
}

#[test]
fn staged_names_carry_the_content() {
    assert_eq!(AuxRoDrive::slot_drive_id(11), "dyn_11");
    assert!(AuxRoDrive::staged_file_name("ab").contains("ab"));
    assert_ne!(AuxRoDrive::blob_key("ab"), AuxRoDrive::blob_key("ac"));
    for bad in ["dyn_", "dyn_x", "dyn_99999999999999999999", "dyn", "dyn_03", "dyn_+3", "dyn_12"] {
        let d = AuxRoDrive {
            drive_id: bad.into(),
            ..AuxRoDrive::reserved_slot(0)
        };
        assert_eq!(d.slot_index(), None, "{bad}");
    }
}

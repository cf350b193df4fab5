use engram_core::types::session::{
    split_image_ref, IllegalTransition, SessionMode, SessionState,
};

const ALL: [SessionState; 11] = [
    SessionState::Pending,
    SessionState::Created,
    SessionState::GuestReady,
    SessionState::Active,
    SessionState::Idle,
    SessionState::HostLost,
    SessionState::Evacuating,
    SessionState::Evicting,
    SessionState::Failed,
    SessionState::Completed,
    SessionState::Dead,
];

#[test]
fn legality_table_matches_adr() {
    let allowed: &[(SessionState, SessionState)] = &[
        (SessionState::Pending, SessionState::Created),
        (SessionState::Pending, SessionState::Failed),
        (SessionState::Created, SessionState::GuestReady),
        (SessionState::Created, SessionState::Active),
        (SessionState::Created, SessionState::Failed),
        (SessionState::Created, SessionState::HostLost),
        (SessionState::GuestReady, SessionState::Active),
        (SessionState::GuestReady, SessionState::Failed),
        (SessionState::GuestReady, SessionState::HostLost),
        (SessionState::Active, SessionState::Idle),
        (SessionState::Active, SessionState::HostLost),
        (SessionState::Active, SessionState::Evacuating),
        (SessionState::Active, SessionState::Evicting),
        (SessionState::Active, SessionState::Failed),
        (SessionState::Active, SessionState::Completed),
        (SessionState::Active, SessionState::Dead),
        (SessionState::Idle, SessionState::Created),
        (SessionState::Idle, SessionState::Dead),
        (SessionState::Idle, SessionState::Completed),
        (SessionState::HostLost, SessionState::Created),
        (SessionState::HostLost, SessionState::Idle),
        (SessionState::HostLost, SessionState::Evacuating),
        (SessionState::HostLost, SessionState::Dead),
        (SessionState::HostLost, SessionState::Completed),
        (SessionState::Evacuating, SessionState::Created),
        (SessionState::Evacuating, SessionState::Idle),
        (SessionState::Evacuating, SessionState::Dead),
        (SessionState::Evacuating, SessionState::Completed),
        (SessionState::Evicting, SessionState::Idle),
        (SessionState::Evicting, SessionState::HostLost),
        (SessionState::Evicting, SessionState::Dead),
        (SessionState::Evicting, SessionState::Completed),
    ];
    for &from in &ALL {
        for &to in &ALL {
            let want = allowed.contains(&(from, to));
            assert_eq!(
                from.can_transition_to(to),
                want,
                "({from:?} -> {to:?}) expected {want}"
            );
            let got = from.try_transition_to(to);
            if want {
                assert_eq!(got, Ok(to));
            } else {
                assert_eq!(got, Err(IllegalTransition { from, to }));
            }
        }
    }
}

#[test]
fn terminal_states_reject_all_outgoing() {
    for terminal in [SessionState::Failed, SessionState::Completed, SessionState::Dead] {
        assert!(terminal.is_terminal());
        for target in [
            SessionState::Pending,
            SessionState::Created,
            SessionState::GuestReady,
            SessionState::Active,
            SessionState::Idle,
            SessionState::HostLost,
            SessionState::Evacuating,
            SessionState::Evicting,
        ] {
            assert_eq!(
                terminal.try_transition_to(target),
                Err(IllegalTransition {
                    from: terminal,
                    to: target,
                })
            );
        }
    }
}

#[test]
fn illegal_transition_displays_both_sides() {
    let err = IllegalTransition {
        from: SessionState::Active,
        to: SessionState::Pending,
    };
    let rendered = err.to_string();
    assert!(rendered.contains("active"), "rendered: {rendered}");
    assert!(rendered.contains("pending"), "rendered: {rendered}");
}

#[test]
fn split_image_ref_handles_typical_shapes() {
    let (rest, tag) = split_image_ref("ghcr.io/cortex/api:warm-2026");
    assert_eq!(rest, "ghcr.io/cortex/api");
    assert_eq!(tag, "warm-2026");

    let (rest, tag) = split_image_ref("localhost:5001/cortex/api:warm-X");
    assert_eq!(rest, "localhost:5001/cortex/api");
    assert_eq!(tag, "warm-X");

    let (rest, tag) = split_image_ref("ghcr.io/cortex/api");
    assert_eq!(rest, "ghcr.io/cortex/api");
    assert_eq!(tag, "");
}

#[test]
fn split_image_ref_leaves_a_digest_whole() {
    for whole in [
        "ghcr.io/cortex/api@sha256:abc",
        "localhost:5001/cortex/api@sha256:abc",
        "api@sha256:abc",
        "ghcr.io/cortex/api:warm-1@sha256:abc",
        "",
    ] {
        let (rest, tag) = split_image_ref(whole);
        assert_eq!((rest, tag), (whole, ""));
    }
    let (rest, tag) = split_image_ref("user@host/api:t");
    assert_eq!((rest, tag), ("user@host/api", "t"));
}

#[test]
fn session_mode_default_is_agent() {
    assert_eq!(SessionMode::default(), SessionMode::Agent);
    assert!(!SessionMode::Agent.is_dev_vm());
    assert!(SessionMode::DevVm.is_dev_vm());
}

#[test]
fn sessions_end_as_completed_where_they_can() {
    assert_eq!(
        SessionState::Active.terminal_target(),
        Some(SessionState::Completed)
    );
    assert_eq!(
        SessionState::Created.terminal_target(),
        Some(SessionState::Failed)
    );
    for s in [SessionState::Failed, SessionState::Completed, SessionState::Dead] {
        assert_eq!(s.terminal_target(), None);
    }
}

#[test]
fn session_state_serializes_lowercase() {
    assert_eq!(SessionState::Active.as_str(), "active");
    assert_eq!(SessionState::parse("idle"), Some(SessionState::Idle));
}

#[test]
fn session_state_new_variants_round_trip() {
    for (variant, wire) in [
        (SessionState::Created, "created"),
        (SessionState::GuestReady, "guest_ready"),
        (SessionState::HostLost, "host_lost"),
    ] {
        assert_eq!(SessionState::parse(wire), Some(variant));
        assert_eq!(variant.as_str(), wire);
    }
}

#[test]
fn session_state_unknown_string_rejected() {
    assert_eq!(SessionState::parse("running"), None);
    assert_eq!(SessionState::parse("Active"), None);
}

#[test]
fn session_state_as_str_matches_serde_form() {
    for s in ALL {
        assert_eq!(SessionState::parse(s.as_str()), Some(s));
    }
}

#[test]
fn session_mode_round_trips_through_json() {
    for (mode, expected) in [(SessionMode::Agent, "agent"), (SessionMode::DevVm, "dev_vm")] {
        assert_eq!(mode.as_str(), expected);
        assert_eq!(SessionMode::parse(expected), Some(mode));
    }
}

#[test]
fn live_sessions_are_neither_ended_nor_lost() {
    let live: Vec<&str> = ALL.iter().filter(|s| s.is_live()).map(|s| s.as_str()).collect();
    assert_eq!(
        live,
        vec!["pending", "created", "guest_ready", "active", "idle", "evacuating", "evicting"]
    );
}

use engram_core::types::ids::SessionId;
use engram_core::types::outbox::{tool_result_outbox_id, OutboxKind};

#[test]
fn outbox_kind_strings_round_trip() {
    for (kind, encoded) in [
        (OutboxKind::Prompt, "prompt"),
        (OutboxKind::Answer, "answer"),
        (OutboxKind::ToolResult, "tool_result"),
    ] {
        assert_eq!(kind.as_str(), encoded);
        assert_eq!(OutboxKind::parse(encoded), Some(kind));
    }
    assert_eq!(OutboxKind::parse("unknown"), None);
}

#[test]
fn tool_result_ids_are_namespaced_by_session() {
    let first = SessionId::new();
    let second = SessionId::new();
    assert_ne!(
        tool_result_outbox_id(first, "call-1"),
        tool_result_outbox_id(second, "call-1")
    );
    assert_eq!(
        tool_result_outbox_id(first, "call-1"),
        format!("tool_result:{}:call-1", first.to_string())
    );
}

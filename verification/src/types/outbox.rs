//! The outbox: commands for the guest that are kept until they are confirmed.
use crate::document::Value;
use crate::text::same;
use crate::time::Timestamp;
use crate::types::ids::SessionId;
use vstd::prelude::*;
use vstd::string::*;

verus! {

/// The id of the row for a tool's result.
pub open spec fn tool_result_id(session_id: SessionId, tool_call_id: Seq<char>) -> Seq<char> {
    "tool_result:"@ + crate::types::ids::uuid_text(session_id.0.bits) + ":"@ + tool_call_id
}

/// The id of the row for a tool's result. The ids of tool calls are unique in their session only,
/// so that the session is part of it.
pub fn tool_result_outbox_id(session_id: SessionId, tool_call_id: &str) -> (res: String)
    ensures
        res@ == tool_result_id(session_id, tool_call_id@),
{
    let mut text = String::from_str("tool_result:");
    text.append(session_id.to_string().as_str());
    text.append(":");
    text.append(tool_call_id);
    text
}

/// Rows of different sessions, and rows of different calls, have different ids.
pub proof fn tool_result_ids_differ(a: SessionId, x: Seq<char>, b: SessionId, y: Seq<char>)
    requires
        tool_result_id(a, x) == tool_result_id(b, y),
    ensures
        a == b,
        x == y,
{
    reveal_strlit("tool_result:");
    reveal_strlit(":");
    assert("tool_result:"@.len() == 12 && ":"@.len() == 1);
    let s = tool_result_id(a, x);
    let t = tool_result_id(b, y);
    assert(crate::types::ids::uuid_text(a.0.bits) =~= s.subrange(12, 48));
    assert(crate::types::ids::uuid_text(b.0.bits) =~= t.subrange(12, 48));
    assert(x =~= s.subrange(49, s.len() as int));
    assert(y =~= t.subrange(49, t.len() as int));
    crate::types::ids::uuid_text_is_injective(a.0.bits, b.0.bits);
}

/// What a row carries.
#[derive(Clone, Copy, Debug, PartialEq, Eq, Structural)]
pub enum OutboxKind {
    Prompt,
    /// Still read from old rows, never forwarded.
    Answer,
    ToolResult,
}

impl OutboxKind {
    /// The stable name.
    pub open spec fn name(self) -> Seq<char> {
        match self {
            OutboxKind::Prompt => "prompt"@,
            OutboxKind::Answer => "answer"@,
            OutboxKind::ToolResult => "tool_result"@,
        }
    }

    /// The stable name.
    pub fn as_str(&self) -> (res: &'static str)
        ensures
            res@ == self.name(),
    {
        match self {
            OutboxKind::Prompt => "prompt",
            OutboxKind::Answer => "answer",
            OutboxKind::ToolResult => "tool_result",
        }
    }

    /// The kind of that name, if there is one.
    pub fn parse(s: &str) -> (res: Option<OutboxKind>)
        ensures
            res is Some ==> res->0.name() == s@,
            res is None ==> forall|k: OutboxKind| k.name() != s@,
    {
        if same(s, "prompt") {
            Some(OutboxKind::Prompt)
        } else if same(s, "answer") {
            Some(OutboxKind::Answer)
        } else if same(s, "tool_result") {
            Some(OutboxKind::ToolResult)
        } else {
            None
        }
    }
}

/// Different kinds of rows have different names.
pub proof fn outbox_kind_names_differ(a: OutboxKind, b: OutboxKind)
    requires
        a.name() == b.name(),
    ensures
        a == b,
{
    reveal_strlit("prompt");
    reveal_strlit("answer");
    reveal_strlit("tool_result");
    assert("prompt"@.len() == 6);
    assert("answer"@.len() == 6);
    assert("tool_result"@.len() == 11);
    assert("prompt"@[0] != "answer"@[0]);
}

/// A command for the guest.
#[derive(Clone, Debug)]
pub struct OutboxRow {
    pub prompt_id: String,
    pub session_id: SessionId,
    pub kind: OutboxKind,
    pub payload: Value,
    pub created_at: Timestamp,
    pub attempts: i32,
    /// The row is not delivered before this time.
    pub not_before: Timestamp,
    pub delivered_at: Option<Timestamp>,
    /// When the guest confirmed it.
    pub acked_at: Option<Timestamp>,
}

/// The stable names are the ones that are stored and sent: each is that of one value and of no
/// other.
pub proof fn outbox_kind_names_are_stable(k: OutboxKind)
    ensures
        k.name() == "prompt"@ <==> k == OutboxKind::Prompt,
        k.name() == "answer"@ <==> k == OutboxKind::Answer,
        k.name() == "tool_result"@ <==> k == OutboxKind::ToolResult,
{
    if k.name() == "prompt"@ {
        outbox_kind_names_differ(k, OutboxKind::Prompt);
    }
    if k.name() == "answer"@ {
        outbox_kind_names_differ(k, OutboxKind::Answer);
    }
    if k.name() == "tool_result"@ {
        outbox_kind_names_differ(k, OutboxKind::ToolResult);
    }
}

} // verus!

//! The events of a session.
use crate::document::Value;
use crate::text::same;
use crate::time::Timestamp;
use crate::types::ids::Uuid;
use vstd::prelude::*;

verus! {

/// An event of a session.
#[derive(Clone, Debug)]
pub struct PersistedEvent {
    pub idx: i64,
    pub kind: String,
    pub payload: Value,
    pub created_at: Timestamp,
    pub recovery_epoch: i64,
    pub rewound_at: Option<Timestamp>,
}

/// The member of the payload that names the tool, for the kinds of events that have one.
pub open spec fn tool_field(kind: Seq<char>) -> Option<Seq<char>> {
    if kind == "tool_call_requested"@ {
        Some("name"@)
    } else if kind == "tool_call_started"@ || kind == "tool_call_completed"@ {
        Some("tool_name"@)
    } else {
        None
    }
}

/// The tool that an event of this kind with this payload names.
pub open spec fn named_tool(kind: Seq<char>, payload: crate::document::Tree) -> Option<Seq<char>> {
    match tool_field(kind) {
        None => None,
        Some(field) => match payload.member(field) {
            Some(crate::document::Tree::Text(s)) => Some(s),
            _ => None,
        },
    }
}

impl PersistedEvent {
    /// The tool that the event names.
    pub fn tool_name(&self) -> (res: Option<&str>)
        ensures
            res.deep_view() == named_tool(self.kind@, self.payload@),
    {
        match tool_name_field(self.kind.as_str()) {
            None => None,
            Some(field) => match self.payload.get(field) {
                Some(Value::Text(s)) => Some(s.as_str()),
                _ => None,
            },
        }
    }
}

/// The kinds of events that name a tool, each with the member of the payload that names it.
pub const TOOL_NAME_FIELDS: [(&'static str, &'static str); 3] = [
    ("tool_call_requested", "name"),
    ("tool_call_started", "tool_name"),
    ("tool_call_completed", "tool_name"),
];

/// The member of the payload that names the tool, for the kinds of events that have one.
pub fn tool_name_field(kind: &str) -> (res: Option<&'static str>)
    ensures
        res.deep_view() == tool_field(kind@),
{
    let fields = TOOL_NAME_FIELDS;
    let mut i: usize = 0;
    while i < 3
        invariant
            i <= 3,
            fields == TOOL_NAME_FIELDS,
            i >= 1 ==> kind@ != "tool_call_requested"@,
            i >= 2 ==> kind@ != "tool_call_started"@,
            i >= 3 ==> kind@ != "tool_call_completed"@,
        decreases 3 - i,
    {
        let (k, field) = fields[i];
        if same(k, kind) {
            return Some(field);
        }
        i += 1;
    }
    None
}

/// A place in the list of events.
#[derive(Clone, Copy, Debug, PartialEq, Eq, Structural)]
pub enum EventCursor {
    After(i64),
    Before(i64),
}

/// What a rewind took back.
#[derive(Clone, Debug, Default, PartialEq, Eq)]
pub struct RewindSummary {
    pub rolled_back: u64,
    pub recovery_epoch: i64,
    pub through_idx: i64,
    pub surviving_side_effects: Vec<String>,
}

/// A file that a session produced.
#[derive(Clone, Debug)]
pub struct ArtifactRow {
    pub id: Uuid,
    pub blob_key: String,
    pub media_type: String,
    pub size_bytes: i64,
    pub caption: Option<String>,
    pub file_name: Option<String>,
    pub created_at: Timestamp,
}

/// Events name a tool where they ask for a call of it, or tell of its start or its end; a request
/// names it under `name`, the others under `tool_name`. Nothing but a text counts, and no other
/// event names one.
pub proof fn tools_are_named_by_calls(
    kind: Seq<char>,
    payload: crate::document::Tree,
    tool: Seq<char>,
)
    ensures
        named_tool(kind, payload) == Some(tool) <==> {
            ||| kind == "tool_call_requested"@ && payload.member("name"@) == Some(
                crate::document::Tree::Text(tool),
            )
            ||| (kind == "tool_call_started"@ || kind == "tool_call_completed"@) && payload.member(
                "tool_name"@,
            ) == Some(crate::document::Tree::Text(tool))
        },
{
    reveal_strlit("tool_call_requested");
    reveal_strlit("tool_call_started");
    reveal_strlit("tool_call_completed");
    assert("tool_call_requested"@.len() == 19);
    assert("tool_call_started"@.len() == 17);
    assert("tool_call_completed"@.len() == 19);
    assert("tool_call_requested"@[10] != "tool_call_completed"@[10]);
}

} // verus!

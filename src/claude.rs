//! Sessions of the peer agent's CLI run in stream mode: their status, and
//! the mapping of its output records to bus event types.
use vstd::prelude::*;

use crate::text::{owned, str_eq};

verus! {

#[derive(Clone, Copy, Debug, PartialEq, Eq, Structural)]
pub enum SessionStatus {
    Running,
    Completed,
    Error,
    Stopped,
}

/// A stream-mode session as listed to the GUI.
pub struct SessionInfo {
    pub session_id: String,
    pub run_id: String,
    pub project_path: String,
    pub status: SessionStatus,
    pub created_at: String,
    pub pid: Option<u32>,
}

pub struct StartClaudeResponse {
    pub session_id: String,
    pub run_id: String,
    pub pid: Option<u32>,
}

/// One output record of the CLI, mapped to a bus event type; the record
/// itself travels along as its JSON text.
pub struct MappedEvent {
    pub event_type: String,
    pub session_id: String,
    pub run_id: String,
}

/// The bus event type of an output record of type `record_type`: `system`
/// starts, `assistant` streams (or requests a tool when it carries a tool
/// use), `result` completes when it reports success and errs otherwise,
/// `user` is input, `error` errs; other records map to nothing.
pub open spec fn event_type_of(record_type: Seq<char>, has_tool_use: bool, success: Option<bool>) -> Option<Seq<char>> {
    if record_type == "system"@ {
        Some("agent:started"@)
    } else if record_type == "assistant"@ {
        if has_tool_use {
            Some("agent:tool_request"@)
        } else {
            Some("agent:stream"@)
        }
    } else if record_type == "result"@ {
        if success == Some(true) {
            Some("agent:completed"@)
        } else {
            Some("agent:error"@)
        }
    } else if record_type == "user"@ {
        Some("agent:user_input"@)
    } else if record_type == "error"@ {
        Some("agent:error"@)
    } else {
        None
    }
}

/// Maps an output record (its `type`, whether it has `tool_use`, and its
/// `success` flag) of session `session_id`, run `run_id`.
pub fn map_claude_event(
    record_type: &str,
    has_tool_use: bool,
    success: Option<bool>,
    session_id: &str,
    run_id: &str,
) -> (r: Option<MappedEvent>)
    ensures
        match r {
            Some(e) => event_type_of(record_type@, has_tool_use, success) == Some(e.event_type@)
                && e.session_id@ == session_id@ && e.run_id@ == run_id@,
            None => event_type_of(record_type@, has_tool_use, success) is None,
        },
{
    let t = if str_eq(record_type, "system") {
        "agent:started"
    } else if str_eq(record_type, "assistant") {
        if has_tool_use {
            "agent:tool_request"
        } else {
            "agent:stream"
        }
    } else if str_eq(record_type, "result") {
        match success {
            Some(true) => "agent:completed",
            _ => "agent:error",
        }
    } else if str_eq(record_type, "user") {
        "agent:user_input"
    } else if str_eq(record_type, "error") {
        "agent:error"
    } else {
        return None;
    };
    Some(MappedEvent { event_type: owned(t), session_id: owned(session_id), run_id: owned(run_id) })
}

} // verus!

//! The status inference engine: a pure classification of a session's current
//! state from the signals extracted out of its transcript tail, plus process
//! CPU usage and transcript-file recency.

use vstd::prelude::*;

verus! {

/// The current state of a conversation, recomputed on every poll.
#[derive(Clone, Copy, Debug, PartialEq, Eq, Structural)]
pub enum SessionStatus {
    Waiting,
    Processing,
    Thinking,
    Idle,
}

/// The agent family a session belongs to.
#[derive(Clone, Copy, Debug, PartialEq, Eq, Structural)]
pub enum AgentType {
    Claude,
    OpenCode,
}

/// CPU utilisation, in hundredths of a percent, above which a session is
/// considered actively processing regardless of transcript signals.
pub const CPU_ACTIVE_CENTIPERCENT: u32 = 500;

/// Sort priority of a status: active sessions (Thinking / Processing) come
/// first, then Waiting (needs attention), then Idle.
pub open spec fn spec_status_priority(status: SessionStatus) -> int {
    match status {
        SessionStatus::Thinking => 0,
        SessionStatus::Processing => 0,
        SessionStatus::Waiting => 1,
        SessionStatus::Idle => 2,
    }
}

/// Returns the sort priority for a status (lower sorts first).
pub fn status_sort_priority(status: &SessionStatus) -> (r: u8)
    ensures
        r as int == spec_status_priority(*status),
{
    match status {
        SessionStatus::Thinking => 0,
        SessionStatus::Processing => 0,
        SessionStatus::Waiting => 1,
        SessionStatus::Idle => 2,
    }
}

/// The branch table of the status inference engine for the agent family whose
/// transcripts carry fine-grained signals (tool invocations, tool results,
/// local commands, interruptions).
pub open spec fn spec_determine_status(
    last_msg_type: Option<Seq<char>>,
    has_tool_use: bool,
    has_tool_result: bool,
    is_local_command: bool,
    is_interrupted: bool,
    file_recently_modified: bool,
) -> SessionStatus {
    if last_msg_type == Some("assistant"@) {
        if has_tool_use {
            if file_recently_modified {
                SessionStatus::Processing
            } else {
                SessionStatus::Waiting
            }
        } else if file_recently_modified {
            SessionStatus::Processing
        } else {
            SessionStatus::Waiting
        }
    } else if last_msg_type == Some("user"@) {
        if is_local_command || is_interrupted {
            SessionStatus::Waiting
        } else if has_tool_result {
            if file_recently_modified {
                SessionStatus::Thinking
            } else {
                SessionStatus::Waiting
            }
        } else if file_recently_modified {
            SessionStatus::Thinking
        } else {
            SessionStatus::Waiting
        }
    } else {
        if file_recently_modified {
            SessionStatus::Thinking
        } else {
            SessionStatus::Idle
        }
    }
}

/// Determines a session's status from the last meaningful message of its
/// transcript.
///
/// An assistant message with a pending tool invocation is Processing while
/// the transcript file is still being updated and Waiting once it goes stale;
/// an assistant text message is Processing while still streaming, otherwise
/// Waiting. A user message that is a local command or an interruption is
/// Waiting; otherwise the agent is consuming it (Thinking) while the file is
/// fresh, and the session is stalled (Waiting) when it is not. With no
/// recognised message type, recency alone decides between Thinking and Idle.
pub fn determine_status(
    last_msg_type: Option<&str>,
    has_tool_use: bool,
    has_tool_result: bool,
    is_local_command: bool,
    is_interrupted: bool,
    file_recently_modified: bool,
) -> (r: SessionStatus)
    ensures
        r == spec_determine_status(
            last_msg_type.deep_view(),
            has_tool_use,
            has_tool_result,
            is_local_command,
            is_interrupted,
            file_recently_modified,
        ),
{
    match last_msg_type {
        Some(t) => {
            if crate::text::str_eq(t, "assistant") {
                if has_tool_use {
                    if file_recently_modified {
                        SessionStatus::Processing
                    } else {
                        SessionStatus::Waiting
                    }
                } else if file_recently_modified {
                    SessionStatus::Processing
                } else {
                    SessionStatus::Waiting
                }
            } else if crate::text::str_eq(t, "user") {
                if is_local_command || is_interrupted {
                    SessionStatus::Waiting
                } else if has_tool_result {
                    if file_recently_modified {
                        SessionStatus::Thinking
                    } else {
                        SessionStatus::Waiting
                    }
                } else if file_recently_modified {
                    SessionStatus::Thinking
                } else {
                    SessionStatus::Waiting
                }
            } else {
                if file_recently_modified {
                    SessionStatus::Thinking
                } else {
                    SessionStatus::Idle
                }
            }
        },
        None => {
            if file_recently_modified {
                SessionStatus::Thinking
            } else {
                SessionStatus::Idle
            }
        },
    }
}

/// The branch table of the status inference engine for the agent family that
/// does not distinguish Processing from Thinking: high CPU use wins, then the
/// role of the last message decides.
pub open spec fn spec_opencode_status(
    cpu_centipercent: u32,
    last_role: Option<Seq<char>>,
) -> SessionStatus {
    if cpu_centipercent > CPU_ACTIVE_CENTIPERCENT {
        SessionStatus::Processing
    } else if last_role == Some("assistant"@) {
        SessionStatus::Waiting
    } else if last_role == Some("user"@) {
        SessionStatus::Processing
    } else {
        SessionStatus::Idle
    }
}

/// Determines a session's status for the agent family that exposes only the
/// last message's role and the process's CPU usage.
pub fn opencode_status(cpu_centipercent: u32, last_role: Option<&str>) -> (r: SessionStatus)
    ensures
        r == spec_opencode_status(cpu_centipercent, last_role.deep_view()),
{
    if cpu_centipercent > CPU_ACTIVE_CENTIPERCENT {
        SessionStatus::Processing
    } else {
        match last_role {
            Some(role) => {
                if crate::text::str_eq(role, "assistant") {
                    SessionStatus::Waiting
                } else if crate::text::str_eq(role, "user") {
                    SessionStatus::Processing
                } else {
                    SessionStatus::Idle
                }
            },
            None => SessionStatus::Idle,
        }
    }
}

/// The status inference is total: whatever the signals, it yields one of the
/// four statuses.
pub proof fn lemma_status_inference_total(
    last_msg_type: Option<Seq<char>>,
    has_tool_use: bool,
    has_tool_result: bool,
    is_local_command: bool,
    is_interrupted: bool,
    file_recently_modified: bool,
)
    ensures
        spec_determine_status(
            last_msg_type,
            has_tool_use,
            has_tool_result,
            is_local_command,
            is_interrupted,
            file_recently_modified,
        ) matches (SessionStatus::Waiting | SessionStatus::Processing | SessionStatus::Thinking
            | SessionStatus::Idle),
{
}

} // verus!

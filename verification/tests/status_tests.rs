use agent_sessions::status::{
    determine_status, opencode_status, status_sort_priority, SessionStatus,
};

#[test]
fn test_assistant_tool_use_fresh_is_processing() {
    let s = determine_status(Some("assistant"), true, false, false, false, true);
    assert_eq!(s, SessionStatus::Processing);
}

#[test]
fn test_assistant_tool_use_stale_is_waiting() {
    let s = determine_status(Some("assistant"), true, false, false, false, false);
    assert_eq!(s, SessionStatus::Waiting);
}

#[test]
fn test_assistant_text_fresh_is_processing() {
    let s = determine_status(Some("assistant"), false, false, false, false, true);
    assert_eq!(s, SessionStatus::Processing);
}

#[test]
fn test_assistant_text_stale_is_waiting() {
    let s = determine_status(Some("assistant"), false, false, false, false, false);
    assert_eq!(s, SessionStatus::Waiting);
}

#[test]
fn test_user_interrupted_is_waiting_regardless_of_recency() {
    assert_eq!(
        determine_status(Some("user"), false, false, false, true, true),
        SessionStatus::Waiting
    );
    assert_eq!(
        determine_status(Some("user"), false, false, false, true, false),
        SessionStatus::Waiting
    );
}

#[test]
fn test_user_local_command_is_waiting() {
    assert_eq!(
        determine_status(Some("user"), false, false, true, false, true),
        SessionStatus::Waiting
    );
}

#[test]
fn test_user_tool_result_fresh_is_thinking() {
    assert_eq!(
        determine_status(Some("user"), false, true, false, false, true),
        SessionStatus::Thinking
    );
}

#[test]
fn test_user_tool_result_stale_is_waiting() {
    assert_eq!(
        determine_status(Some("user"), false, true, false, false, false),
        SessionStatus::Waiting
    );
}

#[test]
fn test_user_plain_fresh_is_thinking() {
    assert_eq!(
        determine_status(Some("user"), false, false, false, false, true),
        SessionStatus::Thinking
    );
}

#[test]
fn test_user_plain_stale_is_waiting() {
    assert_eq!(
        determine_status(Some("user"), false, false, false, false, false),
        SessionStatus::Waiting
    );
}

#[test]
fn test_unknown_type_fresh_is_thinking() {
    assert_eq!(
        determine_status(None, false, false, false, false, true),
        SessionStatus::Thinking
    );
    assert_eq!(
        determine_status(Some("summary"), false, false, false, false, true),
        SessionStatus::Thinking
    );
}

#[test]
fn test_unknown_type_stale_is_idle() {
    assert_eq!(
        determine_status(None, false, false, false, false, false),
        SessionStatus::Idle
    );
}

#[test]
fn test_opencode_high_cpu_is_processing() {
    assert_eq!(opencode_status(600, Some("assistant")), SessionStatus::Processing);
}

#[test]
fn test_opencode_assistant_is_waiting() {
    assert_eq!(opencode_status(100, Some("assistant")), SessionStatus::Waiting);
}

#[test]
fn test_opencode_user_is_processing() {
    assert_eq!(opencode_status(0, Some("user")), SessionStatus::Processing);
}

#[test]
fn test_opencode_no_role_is_idle() {
    assert_eq!(opencode_status(0, None), SessionStatus::Idle);
    assert_eq!(opencode_status(0, Some("system")), SessionStatus::Idle);
}

#[test]
fn test_status_sort_priority_tiers() {
    assert_eq!(status_sort_priority(&SessionStatus::Thinking), 0);
    assert_eq!(status_sort_priority(&SessionStatus::Processing), 0);
    assert_eq!(status_sort_priority(&SessionStatus::Waiting), 1);
    assert_eq!(status_sort_priority(&SessionStatus::Idle), 2);
}

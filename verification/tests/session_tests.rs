use agent_sessions::session::{find_active_session, JsonlRecord};
use agent_sessions::signals::{ContentBlock, MessageContent};
use agent_sessions::status::{AgentType, SessionStatus};

fn record(
    session_id: Option<&str>,
    git_branch: Option<&str>,
    timestamp: Option<&str>,
    msg_type: Option<&str>,
    role: Option<&str>,
    content: MessageContent,
) -> Option<JsonlRecord> {
    Some(JsonlRecord {
        session_id: session_id.map(|s| s.to_string()),
        git_branch: git_branch.map(|s| s.to_string()),
        timestamp: timestamp.map(|s| s.to_string()),
        msg_type: msg_type.map(|s| s.to_string()),
        role: role.map(|s| s.to_string()),
        content,
    })
}

fn tool_use_blocks() -> MessageContent {
    MessageContent::Blocks(vec![ContentBlock {
        block_type: Some("tool_use".to_string()),
        text: None,
    }])
}

#[test]
fn test_assistant_tool_use_fresh_file_yields_processing() {
    let records = vec![record(
        Some("sess-1"),
        Some("main"),
        Some("2024-05-01T10:00:00.000Z"),
        Some("assistant"),
        Some("assistant"),
        tool_use_blocks(),
    )];
    let s = find_active_session(&records, &"/Users/o/Projects/app".to_string(), 42, 0, true)
        .expect("session expected");
    assert_eq!(s.status, SessionStatus::Processing);
    assert_eq!(s.id, "sess-1");
    assert_eq!(s.agent_type, AgentType::Claude);
    assert_eq!(s.project_name, "app");
    assert_eq!(s.project_path, "/Users/o/Projects/app");
    assert_eq!(s.git_branch.as_deref(), Some("main"));
    assert_eq!(s.last_activity_at, "2024-05-01T10:00:00.000Z");
    assert_eq!(s.pid, 42);
}

#[test]
fn test_assistant_tool_use_stale_file_yields_waiting() {
    let records = vec![record(
        Some("sess-1"),
        None,
        Some("2024-05-01T10:00:00.000Z"),
        Some("assistant"),
        Some("assistant"),
        tool_use_blocks(),
    )];
    let s = find_active_session(&records, &"/Users/o/Projects/app".to_string(), 42, 0, false)
        .expect("session expected");
    assert_eq!(s.status, SessionStatus::Waiting);
}

#[test]
fn test_no_session_id_yields_nothing() {
    let records = vec![record(
        None,
        Some("main"),
        Some("2024-05-01T10:00:00.000Z"),
        Some("assistant"),
        Some("assistant"),
        MessageContent::Text("hi".to_string()),
    )];
    assert!(find_active_session(&records, &"/p".to_string(), 1, 0, true).is_none());
}

#[test]
fn test_preview_comes_from_newest_record_with_text() {
    // The newest record carries the signals but no displayable text; the
    // preview walk continues to the older record with text.
    let records = vec![
        record(
            Some("sess-2"),
            None,
            Some("2024-05-01T10:00:00.000Z"),
            Some("user"),
            Some("user"),
            MessageContent::Text("please fix the login bug".to_string()),
        ),
        record(
            None,
            None,
            Some("2024-05-01T10:00:05.000Z"),
            Some("assistant"),
            Some("assistant"),
            tool_use_blocks(),
        ),
    ];
    let s = find_active_session(&records, &"/p".to_string(), 1, 0, true).expect("session");
    // status comes from the newest record with content: assistant + tool use
    assert_eq!(s.status, SessionStatus::Processing);
    assert_eq!(s.last_message.as_deref(), Some("please fix the login bug"));
    assert_eq!(s.last_message_role.as_deref(), Some("assistant"));
}

#[test]
fn test_unparseable_lines_are_skipped() {
    let records = vec![
        record(
            Some("sess-3"),
            None,
            Some("2024-05-01T10:00:00.000Z"),
            Some("user"),
            Some("user"),
            MessageContent::Text("hello".to_string()),
        ),
        None,
        None,
    ];
    let s = find_active_session(&records, &"/p".to_string(), 7, 0, false).expect("session");
    assert_eq!(s.id, "sess-3");
    assert_eq!(s.status, SessionStatus::Waiting);
}

#[test]
fn test_preview_is_truncated_with_ellipsis() {
    let long = "a".repeat(150);
    let records = vec![record(
        Some("sess-4"),
        None,
        None,
        Some("user"),
        Some("user"),
        MessageContent::Text(long.clone()),
    )];
    let s = find_active_session(&records, &"/p".to_string(), 7, 0, false).expect("session");
    let preview = s.last_message.unwrap();
    assert_eq!(preview.len(), 103);
    assert!(preview.ends_with("..."));
    assert_eq!(&preview[..100], &long[..100]);
    assert_eq!(s.last_activity_at, "Unknown");
}

#[test]
fn test_empty_session_id_is_not_an_identifier() {
    let records = vec![record(
        Some(""),
        None,
        None,
        Some("user"),
        Some("user"),
        MessageContent::Text("hi".to_string()),
    )];
    assert!(find_active_session(&records, &"/p".to_string(), 1, 0, true).is_none());
}

#[test]
fn test_only_newest_window_of_records_is_scanned() {
    // Put the only identifier-bearing record just outside the 100-record
    // window: it must not be found.
    let mut records: Vec<Option<JsonlRecord>> = vec![record(
        Some("too-old"),
        None,
        None,
        Some("user"),
        Some("user"),
        MessageContent::Text("old".to_string()),
    )];
    for _ in 0..100 {
        records.push(None);
    }
    assert!(find_active_session(&records, &"/p".to_string(), 1, 0, true).is_none());
}

#[test]
fn test_window_boundary_includes_hundredth_record() {
    // Exactly 100 records: the oldest is still inside the window.
    let mut records: Vec<Option<JsonlRecord>> = vec![record(
        Some("at-boundary"),
        None,
        None,
        Some("user"),
        Some("user"),
        MessageContent::Text("hello".to_string()),
    )];
    for _ in 0..99 {
        records.push(None);
    }
    let s = find_active_session(&records, &"/p".to_string(), 1, 0, true).expect("session");
    assert_eq!(s.id, "at-boundary");
}

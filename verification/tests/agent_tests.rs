use agent_sessions::agent::get_all_sessions;
use agent_sessions::session::Session;
use agent_sessions::status::{AgentType, SessionStatus};
use agent_sessions::timefmt::format_activity_timestamp;

fn session(id: &str, status: SessionStatus, last_activity_at: &str) -> Session {
    Session {
        id: id.to_string(),
        agent_type: AgentType::Claude,
        project_name: "p".to_string(),
        project_path: "/p".to_string(),
        git_branch: None,
        github_url: None,
        status,
        last_message: None,
        last_message_role: None,
        last_activity_at: last_activity_at.to_string(),
        pid: 1,
        cpu_centipercent: 0,
        active_subagent_count: 0,
    }
}

#[test]
fn test_sessions_sorted_by_priority_then_recency() {
    let sessions = vec![
        session("idle", SessionStatus::Idle, "2024-05-01T12:00:00.000Z"),
        session("waiting-old", SessionStatus::Waiting, "2024-05-01T08:00:00.000Z"),
        session("thinking", SessionStatus::Thinking, "2024-05-01T09:00:00.000Z"),
        session("waiting-new", SessionStatus::Waiting, "2024-05-01T11:00:00.000Z"),
        session("processing", SessionStatus::Processing, "2024-05-01T10:00:00.000Z"),
    ];
    let r = get_all_sessions(sessions);
    let ids: Vec<&str> = r.sessions.iter().map(|s| s.id.as_str()).collect();
    // active first (most recent first within the tier), then waiting, then idle
    assert_eq!(
        ids,
        vec!["processing", "thinking", "waiting-new", "waiting-old", "idle"]
    );
}

#[test]
fn test_counts_reflect_waiting_sessions() {
    let sessions = vec![
        session("a", SessionStatus::Waiting, "2024-05-01T08:00:00.000Z"),
        session("b", SessionStatus::Idle, "2024-05-01T09:00:00.000Z"),
        session("c", SessionStatus::Waiting, "2024-05-01T10:00:00.000Z"),
    ];
    let r = get_all_sessions(sessions);
    assert_eq!(r.total_count, 3);
    assert_eq!(r.waiting_count, 2);
    assert!(r.waiting_count <= r.total_count);
}

#[test]
fn test_empty_aggregate() {
    let r = get_all_sessions(Vec::new());
    assert_eq!(r.total_count, 0);
    assert_eq!(r.waiting_count, 0);
    assert!(r.sessions.is_empty());
}

#[test]
fn test_sort_is_idempotent_under_resort() {
    let sessions = vec![
        session("w", SessionStatus::Waiting, "2024-05-01T08:00:00.000Z"),
        session("t", SessionStatus::Thinking, "2024-05-01T09:00:00.000Z"),
        session("i", SessionStatus::Idle, "2024-05-01T10:00:00.000Z"),
    ];
    let once = get_all_sessions(sessions);
    let twice = get_all_sessions(once.sessions.clone());
    let ids_once: Vec<&str> = once.sessions.iter().map(|s| s.id.as_str()).collect();
    let ids_twice: Vec<&str> = twice.sessions.iter().map(|s| s.id.as_str()).collect();
    assert_eq!(ids_once, ids_twice);
}

#[test]
fn test_format_activity_timestamp_exact() {
    assert_eq!(format_activity_timestamp(947638923004), "2000-01-12T01:02:03.000Z");
    assert_eq!(format_activity_timestamp(0), "1970-01-01T00:00:00.000Z");
}

#[test]
fn test_format_activity_timestamp_out_of_range() {
    assert_eq!(format_activity_timestamp(u64::MAX), "Unknown");
}

#[test]
fn test_mixed_precision_timestamps_compare_lexicographically() {
    // Timestamps are compared as strings: within one second, the
    // second-precision form ends in 'Z' where the millisecond form has '.',
    // and 'Z' is the greater character, so the second-precision entry sorts
    // as the more recent one.
    let sessions = vec![
        session("secs", SessionStatus::Idle, "2024-05-01T10:00:00Z"),
        session("millis", SessionStatus::Idle, "2024-05-01T10:00:00.500Z"),
    ];
    let r = get_all_sessions(sessions);
    let ids: Vec<&str> = r.sessions.iter().map(|s| s.id.as_str()).collect();
    assert_eq!(ids, vec!["secs", "millis"]);
}

#[test]
fn test_format_activity_timestamp_fixed_width_through_year_9999() {
    // The last representable second of year 9999: still the fixed
    // 24-character form the lexicographic sort relies on.
    assert_eq!(
        format_activity_timestamp(253_402_300_799_000),
        "9999-12-31T23:59:59.000Z"
    );
    assert_eq!(format_activity_timestamp(947638923004).len(), 24);
}

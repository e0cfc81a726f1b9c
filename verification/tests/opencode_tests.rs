use agent_sessions::opencode::{
    build_global_session, build_project_session, get_last_message, get_message_text,
    select_global_session, select_latest_session, OpenCodeMessage, OpenCodePart, OpenCodeSession,
};
use agent_sessions::process::AgentProcess;
use agent_sessions::status::{AgentType, SessionStatus};

fn part(part_type: &str, text: Option<&str>) -> OpenCodePart {
    OpenCodePart {
        part_type: part_type.to_string(),
        text: text.map(|t| t.to_string()),
    }
}

fn session(id: &str, directory: &str, title: &str, updated: u64) -> OpenCodeSession {
    OpenCodeSession {
        id: id.to_string(),
        directory: directory.to_string(),
        title: title.to_string(),
        updated,
    }
}

fn message(role: &str, created: u64, parts: Vec<OpenCodePart>) -> OpenCodeMessage {
    OpenCodeMessage {
        role: role.to_string(),
        created,
        parts,
    }
}

fn process(pid: u32, cpu_centipercent: u32, cwd: Option<&str>) -> AgentProcess {
    AgentProcess {
        pid,
        cpu_centipercent,
        cwd: cwd.map(|c| c.to_string()),
    }
}

#[test]
fn test_message_text_prefers_text_over_reasoning() {
    let parts = vec![
        part("reasoning", Some("thinking about it")),
        part("text", Some("the answer")),
    ];
    assert_eq!(get_message_text(&parts).as_deref(), Some("the answer"));
}

#[test]
fn test_message_text_last_text_part_wins() {
    let parts = vec![part("text", Some("draft")), part("text", Some("final"))];
    assert_eq!(get_message_text(&parts).as_deref(), Some("final"));
}

#[test]
fn test_message_text_falls_back_to_reasoning() {
    let parts = vec![part("step-start", None), part("reasoning", Some("hmm"))];
    assert_eq!(get_message_text(&parts).as_deref(), Some("hmm"));
}

#[test]
fn test_message_text_skips_boilerplate() {
    let parts = vec![part("text", Some("<system mode>do not reply</system>"))];
    assert_eq!(get_message_text(&parts), None);
}

#[test]
fn test_message_text_truncates_long_content() {
    let long = "x".repeat(250);
    let parts = vec![part("text", Some(long.as_str()))];
    let text = get_message_text(&parts).unwrap();
    assert_eq!(text.len(), 200);
    assert!(text.ends_with("..."));
    assert_eq!(&text[..197], &long[..197]);
}

#[test]
fn test_last_message_picks_newest_displayable() {
    let messages = vec![
        message("user", 100, vec![part("text", Some("question"))]),
        message("assistant", 300, vec![part("step-start", None)]),
        message("assistant", 200, vec![part("text", Some("answer"))]),
    ];
    let (role, text, time) = get_last_message(&messages);
    assert_eq!(role.as_deref(), Some("assistant"));
    assert_eq!(text.as_deref(), Some("answer"));
    assert_eq!(time, 200);
}

#[test]
fn test_last_message_empty_when_nothing_displayable() {
    let messages = vec![message("assistant", 300, vec![part("step-start", None)])];
    let (role, text, time) = get_last_message(&messages);
    assert!(role.is_none());
    assert!(text.is_none());
    assert_eq!(time, 0);
}

#[test]
fn test_select_latest_session() {
    let sessions = vec![
        session("a", "/w", "t", 10),
        session("b", "/w", "t", 30),
        session("c", "/w", "t", 30),
        session("d", "/w", "t", 20),
    ];
    assert_eq!(select_latest_session(&sessions), Some(1));
    assert_eq!(select_latest_session(&Vec::new()), None);
}

#[test]
fn test_select_global_session_by_directory() {
    let sessions = vec![
        session("a", "/home/u/proj", "t", 10),
        session("b", "/home/u/other", "t", 50),
        session("c", "/home/u/proj", "t", 20),
    ];
    assert_eq!(select_global_session(&sessions, "/home/u/proj/sub"), Some(2));
    assert_eq!(select_global_session(&sessions, "/home/u/elsewhere"), None);
}

#[test]
fn test_build_project_session_title_fallback() {
    // A session whose messages yield no text is previewed by its title.
    let sess = session("s-1", "/w", "Fix login bug", 947638923004);
    let messages: Vec<OpenCodeMessage> = Vec::new();
    let proc = process(9, 0, Some("/work/tree"));
    let s = build_project_session(&sess, &messages, &proc, &"/w".to_string());
    assert_eq!(s.last_message.as_deref(), Some("Fix login bug"));
    assert_eq!(s.id, "s-1");
    assert_eq!(s.agent_type, AgentType::OpenCode);
    assert_eq!(s.project_path, "/work/tree");
    assert_eq!(s.project_name, "tree");
    assert_eq!(s.status, SessionStatus::Idle);
    assert_eq!(s.last_activity_at, "2000-01-12T01:02:03.000Z");
    assert_eq!(s.pid, 9);
}

#[test]
fn test_build_project_session_worktree_fallback_path() {
    let sess = session("s-2", "/w", "", 0);
    let messages = vec![message("assistant", 5, vec![part("text", Some("done"))])];
    let proc = process(9, 0, None);
    let s = build_project_session(&sess, &messages, &proc, &"/the/worktree".to_string());
    assert_eq!(s.project_path, "/the/worktree");
    assert_eq!(s.project_name, "worktree");
    // last displayable message is from the assistant: waiting for the user
    assert_eq!(s.status, SessionStatus::Waiting);
    assert_eq!(s.last_message.as_deref(), Some("done"));
    assert_eq!(s.last_message_role.as_deref(), Some("assistant"));
    assert_eq!(s.last_activity_at, "1970-01-01T00:00:00.000Z");
}

#[test]
fn test_build_global_session_uses_stored_directory() {
    let sess = session("g-1", "/home/u/proj", "title", 1000);
    let messages = vec![message("user", 5, vec![part("text", Some("go"))])];
    let proc = process(3, 700, Some("/home/u/proj/sub"));
    let s = build_global_session(&sess, &messages, &proc);
    assert_eq!(s.project_path, "/home/u/proj");
    assert_eq!(s.project_name, "proj");
    // high CPU use short-circuits to Processing
    assert_eq!(s.status, SessionStatus::Processing);
}

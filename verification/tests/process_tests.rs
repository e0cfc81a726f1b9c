use agent_sessions::process::{is_agent_command, is_opencode_process_name, is_own_app_name};
use agent_sessions::text::{path_display_name, str_trim, truncate_preview};

fn markers() -> Vec<String> {
    vec!["mycli-sessions".to_string(), "tauri-temp".to_string()]
}

#[test]
fn test_agent_command_recognised() {
    assert!(is_agent_command("mycli", "mycli"));
    assert!(is_agent_command("/usr/local/bin/mycli", "mycli"));
    assert!(is_agent_command("MYCLI", "mycli"));
    assert!(is_agent_command("/Users/o/.local/bin/MyCli", "mycli"));
}

#[test]
fn test_agent_command_rejected() {
    assert!(!is_agent_command("mycli-sessions", "mycli"));
    assert!(!is_agent_command("node", "mycli"));
    assert!(!is_agent_command("notmycli", "mycli"));
    assert!(!is_agent_command("", "mycli"));
}

#[test]
fn test_own_app_names() {
    assert!(is_own_app_name("mycli-sessions", &markers()));
    assert!(is_own_app_name("my-tauri-temp-build", &markers()));
    assert!(!is_own_app_name("mycli", &markers()));
    assert!(!is_own_app_name("anything", &Vec::new()));
}

#[test]
fn test_opencode_process_name() {
    assert!(is_opencode_process_name("opencode"));
    assert!(is_opencode_process_name("OpenCode"));
    assert!(!is_opencode_process_name("opencode-helper"));
}

#[test]
fn test_path_display_name() {
    assert_eq!(path_display_name("/Users/o/Projects/app"), "app");
    assert_eq!(path_display_name("/Users/o/Projects/app/"), "app");
    assert_eq!(path_display_name("/"), "Unknown");
    assert_eq!(path_display_name(""), "Unknown");
}

#[test]
fn test_str_trim() {
    assert_eq!(str_trim("  hello \n"), "hello");
    assert_eq!(str_trim("hello"), "hello");
    assert_eq!(str_trim(" \t "), "");
}

#[test]
fn test_truncate_preview() {
    assert_eq!(truncate_preview("short", 10, 10), "short");
    assert_eq!(truncate_preview("0123456789ab", 10, 7), "0123456...");
}

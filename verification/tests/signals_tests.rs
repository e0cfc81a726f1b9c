use agent_sessions::signals::{
    extract_text_content, has_content, has_tool_result, has_tool_use, is_interrupted_request,
    is_local_slash_command, ContentBlock, MessageContent,
};

fn block(block_type: &str, text: Option<&str>) -> ContentBlock {
    ContentBlock {
        block_type: Some(block_type.to_string()),
        text: text.map(|t| t.to_string()),
    }
}

#[test]
fn test_has_tool_use_in_blocks() {
    let content = MessageContent::Blocks(vec![
        block("text", Some("running a command")),
        block("tool_use", None),
    ]);
    assert!(has_tool_use(&content));
    assert!(!has_tool_result(&content));
}

#[test]
fn test_has_tool_result_in_blocks() {
    let content = MessageContent::Blocks(vec![block("tool_result", Some("ok"))]);
    assert!(has_tool_result(&content));
    assert!(!has_tool_use(&content));
}

#[test]
fn test_plain_text_has_no_tool_markers() {
    let content = MessageContent::Text("tool_use".to_string());
    assert!(!has_tool_use(&content));
    assert!(!has_tool_result(&content));
}

#[test]
fn test_extract_text_from_string_body() {
    let content = MessageContent::Text("hello".to_string());
    assert_eq!(extract_text_content(&content), "hello");
}

#[test]
fn test_extract_text_takes_first_block_with_text() {
    let content = MessageContent::Blocks(vec![
        block("tool_use", None),
        block("text", Some("first")),
        block("text", Some("second")),
    ]);
    assert_eq!(extract_text_content(&content), "first");
}

#[test]
fn test_extract_text_empty_when_absent() {
    assert_eq!(extract_text_content(&MessageContent::Absent), "");
}

#[test]
fn test_interrupted_request_marker() {
    let content = MessageContent::Text("[Request interrupted by user]".to_string());
    assert!(is_interrupted_request(&content));
    let other = MessageContent::Text("all done".to_string());
    assert!(!is_interrupted_request(&other));
}

#[test]
fn test_local_slash_command_exact() {
    assert!(is_local_slash_command(&MessageContent::Text("/clear".to_string())));
    assert!(is_local_slash_command(&MessageContent::Text("  /help  ".to_string())));
}

#[test]
fn test_local_slash_command_with_arguments() {
    assert!(is_local_slash_command(&MessageContent::Text("/model opus".to_string())));
}

#[test]
fn test_local_slash_command_rejects_other_text() {
    assert!(!is_local_slash_command(&MessageContent::Text("/clearly not".to_string())));
    assert!(!is_local_slash_command(&MessageContent::Text("please /clear".to_string())));
}

#[test]
fn test_has_content() {
    assert!(has_content(&MessageContent::Text("x".to_string())));
    assert!(!has_content(&MessageContent::Text(String::new())));
    assert!(has_content(&MessageContent::Blocks(vec![block("text", None)])));
    assert!(!has_content(&MessageContent::Blocks(Vec::new())));
    assert!(!has_content(&MessageContent::Absent));
}

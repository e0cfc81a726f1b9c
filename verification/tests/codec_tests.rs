use agent_sessions::codec::convert_dir_name_to_path;

#[test]
fn test_convert_dir_name_to_path() {
    // Test basic project path
    assert_eq!(
        convert_dir_name_to_path("-Users-ozan-Projects-ai-image-dashboard"),
        "/Users/ozan/Projects/ai-image-dashboard"
    );

    // Test project with multiple dashes
    assert_eq!(
        convert_dir_name_to_path("-Users-ozan-Projects-backend-service-generator-ai"),
        "/Users/ozan/Projects/backend-service-generator-ai"
    );

    // Test UnityProjects
    assert_eq!(
        convert_dir_name_to_path("-Users-ozan-UnityProjects-my-game"),
        "/Users/ozan/UnityProjects/my-game"
    );

    // Test worktree paths (with double dashes)
    assert_eq!(
        convert_dir_name_to_path("-Users-ozan-Projects-ai-image-dashboard--rsworktree-feature"),
        "/Users/ozan/Projects/ai-image-dashboard--rsworktree-feature"
    );

    // Test just Projects folder
    assert_eq!(
        convert_dir_name_to_path("-Users-ozan-Projects"),
        "/Users/ozan/Projects"
    );
}

#[test]
fn test_convert_without_landmark_falls_back_to_naive() {
    assert_eq!(
        convert_dir_name_to_path("-Users-ozan-code-my-app"),
        "/Users/ozan/code/my/app"
    );
}

#[test]
fn test_convert_without_leading_dash() {
    assert_eq!(
        convert_dir_name_to_path("Users-ozan-Projects-tool"),
        "/Users/ozan/Projects/tool"
    );
}

#[test]
fn test_convert_empty_name() {
    assert_eq!(convert_dir_name_to_path(""), "/");
}

use agent_sessions::matcher::{
    match_claude_projects, match_opencode_projects, unmatched_processes,
};
use agent_sessions::opencode::OpenCodeProject;
use agent_sessions::process::{AgentProcess, ClaudeProcess};

fn cproc(pid: u32, cwd: Option<&str>) -> ClaudeProcess {
    ClaudeProcess {
        pid,
        cwd: cwd.map(|c| c.to_string()),
        cpu_centipercent: 0,
        memory: 0,
    }
}

fn aproc(pid: u32, cwd: Option<&str>) -> AgentProcess {
    AgentProcess {
        pid,
        cpu_centipercent: 0,
        cwd: cwd.map(|c| c.to_string()),
    }
}

fn project(id: &str, worktree: &str, sandboxes: Vec<&str>) -> OpenCodeProject {
    OpenCodeProject {
        id: id.to_string(),
        worktree: worktree.to_string(),
        sandboxes: sandboxes.into_iter().map(|s| s.to_string()).collect(),
    }
}

#[test]
fn test_claude_matching_by_decoded_path() {
    let dirs = vec![
        "-Users-o-Projects-alpha".to_string(),
        "-Users-o-Projects-beta-gamma".to_string(),
    ];
    let procs = vec![
        cproc(1, Some("/Users/o/Projects/beta-gamma")),
        cproc(2, Some("/Users/o/Projects/alpha")),
        cproc(3, None),
    ];
    let pairs = match_claude_projects(&dirs, &procs);
    assert_eq!(pairs, vec![(0, 1), (1, 0)]);
}

#[test]
fn test_claude_matching_claims_each_process_once() {
    // Two encoded names decoding to the same path compete for one process:
    // only the first wins.
    let dirs = vec![
        "-Users-o-Projects-app".to_string(),
        "Users-o-Projects-app".to_string(),
    ];
    let procs = vec![cproc(5, Some("/Users/o/Projects/app"))];
    let pairs = match_claude_projects(&dirs, &procs);
    assert_eq!(pairs, vec![(0, 0)]);
}

#[test]
fn test_claude_matching_requires_exact_cwd() {
    let dirs = vec!["-Users-o-Projects-app".to_string()];
    let procs = vec![cproc(5, Some("/Users/o/Projects/app/sub"))];
    assert!(match_claude_projects(&dirs, &procs).is_empty());
}

#[test]
fn test_opencode_matching_by_worktree_containment() {
    let projects = vec![
        project("p1", "/home/u/one", vec![]),
        project("p2", "/home/u/two", vec![]),
    ];
    let procs = vec![aproc(1, Some("/home/u/two/src")), aproc(2, Some("/home/u/one"))];
    let pairs = match_opencode_projects(&projects, &procs);
    assert_eq!(pairs, vec![(0, 1), (1, 0)]);
}

#[test]
fn test_opencode_matching_by_sandbox() {
    let projects = vec![project("p1", "/home/u/one", vec!["/tmp/sandbox"])];
    let procs = vec![aproc(1, Some("/tmp/sandbox/work"))];
    assert_eq!(match_opencode_projects(&projects, &procs), vec![(0, 0)]);
}

#[test]
fn test_opencode_matching_skips_global_project() {
    let projects = vec![project("global", "/home/u", vec![])];
    let procs = vec![aproc(1, Some("/home/u/anything"))];
    assert!(match_opencode_projects(&projects, &procs).is_empty());
}

#[test]
fn test_opencode_matching_rejects_sibling_prefix() {
    // "/home/u/one-more" starts with "/home/u/one" as a string but is not
    // inside it.
    let projects = vec![project("p1", "/home/u/one", vec![])];
    let procs = vec![aproc(1, Some("/home/u/one-more"))];
    assert!(match_opencode_projects(&projects, &procs).is_empty());
}

#[test]
fn test_unmatched_processes_listed_in_order() {
    let pairs: Vec<(usize, usize)> = vec![(0, 1), (2, 3)];
    assert_eq!(unmatched_processes(5, &pairs), vec![0, 2, 4]);
    assert_eq!(unmatched_processes(0, &pairs), Vec::<usize>::new());
}

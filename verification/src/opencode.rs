//! The transcript reader for the agent family that stores conversations as a
//! directory tree of small JSON objects: selecting the most recently updated
//! session of a project, the newest message with displayable text, and the
//! session snapshot built from them.

use vstd::prelude::*;

use crate::process::AgentProcess;
use crate::session::Session;
use crate::status::{opencode_status, spec_opencode_status, AgentType};
use crate::text::{
    contains_seq, eq_or_extends, path_display_name, spec_path_display_name, spec_truncate_preview,
    str_contains, str_eq, str_eq_or_extends, str_trim, trim_spec, truncate_preview,
};
use crate::timefmt::{
    format_activity_timestamp, iso_utc_of, ISO_UTC_FIXED_WIDTH_MAX_SECS, ISO_UTC_MAX_SECS,
};

verus! {

broadcast use vstd::string::group_string_axioms;

proof fn lemma_part_type_tags_distinct()
    ensures
        "text"@ != "reasoning"@,
{
    reveal_strlit("text");
    reveal_strlit("reasoning");
    assert("text"@.len() == 4);
    assert("reasoning"@.len() == 9);
}

/// A project of the directory-tree transcript store: a stable identifier,
/// the worktree it covers, and auxiliary sandbox paths that also count as
/// belonging to it.
#[derive(Debug, Clone)]
pub struct OpenCodeProject {
    pub id: String,
    pub worktree: String,
    pub sandboxes: Vec<String>,
}

/// A stored session object of the directory-tree transcript store.
#[derive(Debug, Clone)]
pub struct OpenCodeSession {
    pub id: String,
    pub directory: String,
    pub title: String,
    pub updated: u64,
}

/// A stored message, with the content parts read from its parts directory.
#[derive(Debug, Clone)]
pub struct OpenCodeMessage {
    pub role: String,
    pub created: u64,
    pub parts: Vec<OpenCodePart>,
}

/// One content part of a stored message.
#[derive(Debug, Clone)]
pub struct OpenCodePart {
    pub part_type: String,
    pub text: Option<String>,
}

/// Preview text of this family is truncated to this many characters.
pub const OC_PREVIEW_LIMIT: usize = 200;

/// How many characters are kept when a preview of this family is truncated.
pub const OC_PREVIEW_CUT: usize = 197;

/// The text of the last part typed "text" that carries text, among the
/// first `i` parts.
pub open spec fn last_text_part(parts: Seq<OpenCodePart>, i: int) -> Option<Seq<char>>
    decreases i,
{
    if i <= 0 {
        None
    } else if parts[i - 1].part_type@ == "text"@ && parts[i - 1].text is Some {
        Some(parts[i - 1].text->0@)
    } else {
        last_text_part(parts, i - 1)
    }
}

/// The text of the first part typed "reasoning" that carries text, among the
/// first `i` parts.
pub open spec fn first_reasoning_part(parts: Seq<OpenCodePart>, i: int) -> Option<Seq<char>>
    decreases i,
{
    if i <= 0 {
        None
    } else {
        match first_reasoning_part(parts, i - 1) {
            Some(t) => Some(t),
            None => if parts[i - 1].part_type@ == "reasoning"@ && parts[i - 1].text is Some {
                Some(parts[i - 1].text->0@)
            } else {
                None
            },
        }
    }
}

/// The raw text chosen for a message: its text parts are preferred (last
/// one wins), reasoning parts are the fallback (first one wins).
pub open spec fn chosen_part_text(parts: Seq<OpenCodePart>) -> Option<Seq<char>> {
    match last_text_part(parts, parts.len() as int) {
        Some(t) => Some(t),
        None => first_reasoning_part(parts, parts.len() as int),
    }
}

/// Instructional boilerplate is not displayable: content that, trimmed,
/// opens with an angle-bracket tag and carries a mode-marker substring.
pub open spec fn spec_is_boilerplate(t: Seq<char>) -> bool {
    let tr = trim_spec(t);
    tr.len() > 0 && tr[0] == '<' && (contains_seq(tr, "ultrawork"@) || contains_seq(
        tr,
        "mode>"@,
    ))
}

/// The displayable text of a message: its chosen part text, unless that is
/// boilerplate, truncated to the preview bound.
pub open spec fn spec_message_text(parts: Seq<OpenCodePart>) -> Option<Seq<char>> {
    match chosen_part_text(parts) {
        Some(c) => if spec_is_boilerplate(c) {
            None
        } else {
            Some(spec_truncate_preview(c, OC_PREVIEW_LIMIT as int, OC_PREVIEW_CUT as int))
        },
        None => None,
    }
}

/// Extracts the displayable text of a message from its parts.
#[verifier::loop_isolation(false)]
pub fn get_message_text(parts: &Vec<OpenCodePart>) -> (r: Option<String>)
    ensures
        r.deep_view() == spec_message_text(parts@),
{
    let mut text_content: Option<String> = None;
    let mut reasoning_content: Option<String> = None;
    let mut i: usize = 0;
    while i < parts.len()
        invariant
            i <= parts.len(),
            text_content.deep_view() == last_text_part(parts@, i as int),
            reasoning_content.deep_view() == first_reasoning_part(parts@, i as int),
        decreases parts.len() - i,
    {
        proof {
            lemma_part_type_tags_distinct();
        }
        let part = &parts[i];
        if str_eq(part.part_type.as_str(), "text") {
            match &part.text {
                Some(t) => { text_content = Some(t.clone()) },
                None => {},
            }
        } else if reasoning_content.is_none() && str_eq(part.part_type.as_str(), "reasoning") {
            match &part.text {
                Some(t) => { reasoning_content = Some(t.clone()) },
                None => {},
            }
        }
        i += 1;
    }

    let content: String = match text_content {
        Some(t) => t,
        None => match reasoning_content {
            Some(t) => t,
            None => {
                return None;
            },
        },
    };

    let trimmed = str_trim(content.as_str());
    if !trimmed.is_empty() && trimmed.get_char(0) == '<' {
        if str_contains(trimmed, "ultrawork") || str_contains(trimmed, "mode>") {
            return None;
        }
    }
    Some(truncate_preview(content.as_str(), OC_PREVIEW_LIMIT, OC_PREVIEW_CUT))
}

/// The index, among the first `i` messages, of the newest message with
/// displayable text; the earliest such message wins a timestamp tie.
pub open spec fn best_msg_idx(messages: Seq<OpenCodeMessage>, i: int) -> Option<int>
    decreases i,
{
    if i <= 0 {
        None
    } else {
        let prev = best_msg_idx(messages, i - 1);
        if spec_message_text(messages[i - 1].parts@) is Some {
            match prev {
                Some(b) => if messages[i - 1].created > messages[b].created {
                    Some(i - 1)
                } else {
                    prev
                },
                None => Some(i - 1),
            }
        } else {
            prev
        }
    }
}

/// The role reported for a session: of its newest displayable message.
pub open spec fn spec_last_role(messages: Seq<OpenCodeMessage>) -> Option<Seq<char>> {
    match best_msg_idx(messages, messages.len() as int) {
        Some(b) => Some(messages[b].role@),
        None => None,
    }
}

/// The preview text reported for a session: of its newest displayable
/// message.
pub open spec fn spec_last_text(messages: Seq<OpenCodeMessage>) -> Option<Seq<char>> {
    match best_msg_idx(messages, messages.len() as int) {
        Some(b) => spec_message_text(messages[b].parts@),
        None => None,
    }
}

/// The creation time of the newest displayable message, or zero.
pub open spec fn spec_last_time(messages: Seq<OpenCodeMessage>) -> u64 {
    match best_msg_idx(messages, messages.len() as int) {
        Some(b) => messages[b].created,
        None => 0,
    }
}

/// Finds the role, displayable text and creation time of the newest message
/// that has displayable text.
#[verifier::loop_isolation(false)]
pub fn get_last_message(messages: &Vec<OpenCodeMessage>) -> (r: (
    Option<String>,
    Option<String>,
    u64,
))
    ensures
        r.0.deep_view() == spec_last_role(messages@),
        r.1.deep_view() == spec_last_text(messages@),
        r.2 == spec_last_time(messages@),
{
    let mut best_idx: Option<usize> = None;
    let mut best_text: Option<String> = None;
    let mut i: usize = 0;
    while i < messages.len()
        invariant
            i <= messages.len(),
            match best_idx {
                Some(b) => best_msg_idx(messages@, i as int) == Some(b as int) && b < i
                    && best_text.deep_view() == spec_message_text(messages@[b as int].parts@),
                None => best_msg_idx(messages@, i as int) is None && best_text is None,
            },
        decreases messages.len() - i,
    {
        match get_message_text(&messages[i].parts) {
            Some(text) => {
                let replace: bool = match best_idx {
                    Some(b) => messages[i].created > messages[b].created,
                    None => true,
                };
                if replace {
                    best_idx = Some(i);
                    best_text = Some(text);
                }
            },
            None => {},
        }
        i += 1;
    }
    match best_idx {
        Some(b) => (
            Some(messages[b].role.clone()),
            match best_text {
                Some(t) => Some(t),
                None => None,
            },
            messages[b].created,
        ),
        None => (None, None, 0),
    }
}

/// The index, among the first `i` sessions, of the one with the numerically
/// latest update time; the earliest such session wins a tie.
pub open spec fn latest_session_idx(sessions: Seq<OpenCodeSession>, i: int) -> Option<int>
    decreases i,
{
    if i <= 0 {
        None
    } else {
        let prev = latest_session_idx(sessions, i - 1);
        match prev {
            Some(b) => if sessions[i - 1].updated > sessions[b].updated {
                Some(i - 1)
            } else {
                prev
            },
            None => Some(i - 1),
        }
    }
}

/// Selects the most recently updated session of a project.
#[verifier::loop_isolation(false)]
pub fn select_latest_session(sessions: &Vec<OpenCodeSession>) -> (r: Option<usize>)
    ensures
        match r {
            Some(b) => latest_session_idx(sessions@, sessions@.len() as int) == Some(b as int)
                && b < sessions@.len(),
            None => latest_session_idx(sessions@, sessions@.len() as int) is None
                && sessions@.len() == 0,
        },
{
    let mut best: Option<usize> = None;
    let mut i: usize = 0;
    while i < sessions.len()
        invariant
            i <= sessions.len(),
            match best {
                Some(b) => latest_session_idx(sessions@, i as int) == Some(b as int) && b < i,
                None => latest_session_idx(sessions@, i as int) is None && i == 0,
            },
        decreases sessions.len() - i,
    {
        let replace: bool = match best {
            Some(b) => sessions[i].updated > sessions[b].updated,
            None => true,
        };
        if replace {
            best = Some(i);
        }
        i += 1;
    }
    best
}

/// The index, among the first `i` sessions, of the latest-updated session
/// whose stored directory contains the given working directory; the earliest
/// such session wins a tie.
pub open spec fn best_global_idx(sessions: Seq<OpenCodeSession>, dir: Seq<char>, i: int) -> Option<
    int,
>
    decreases i,
{
    if i <= 0 {
        None
    } else {
        let prev = best_global_idx(sessions, dir, i - 1);
        if eq_or_extends(dir, sessions[i - 1].directory@, '/') {
            match prev {
                Some(b) => if sessions[i - 1].updated > sessions[b].updated {
                    Some(i - 1)
                } else {
                    prev
                },
                None => Some(i - 1),
            }
        } else {
            prev
        }
    }
}

/// Selects, among the unscoped sessions, the most recently updated one whose
/// stored directory is the given working directory or a parent of it.
#[verifier::loop_isolation(false)]
pub fn select_global_session(sessions: &Vec<OpenCodeSession>, directory: &str) -> (r: Option<
    usize,
>)
    ensures
        match r {
            Some(b) => best_global_idx(sessions@, directory@, sessions@.len() as int) == Some(
                b as int,
            ) && b < sessions@.len(),
            None => best_global_idx(sessions@, directory@, sessions@.len() as int) is None,
        },
{
    let mut best: Option<usize> = None;
    let mut i: usize = 0;
    while i < sessions.len()
        invariant
            i <= sessions.len(),
            match best {
                Some(b) => best_global_idx(sessions@, directory@, i as int) == Some(b as int) && b
                    < i,
                None => best_global_idx(sessions@, directory@, i as int) is None,
            },
        decreases sessions.len() - i,
    {
        if str_eq_or_extends(directory, sessions[i].directory.as_str(), '/') {
            let replace: bool = match best {
                Some(b) => sessions[i].updated > sessions[b].updated,
                None => true,
            };
            if replace {
                best = Some(i);
            }
        }
        i += 1;
    }
    best
}

/// The selected session really is the latest: none is updated later, and
/// among equally late ones the earliest wins.
pub proof fn lemma_latest_session_is_max(sessions: Seq<OpenCodeSession>, i: int, b: int)
    requires
        latest_session_idx(sessions, i) == Some(b),
    ensures
        0 <= b < i,
        forall|j: int| 0 <= j < i ==> (#[trigger] sessions[j]).updated <= sessions[b].updated,
        forall|j: int| 0 <= j < b ==> (#[trigger] sessions[j]).updated < sessions[b].updated,
    decreases i,
{
    if i > 0 {
        match latest_session_idx(sessions, i - 1) {
            Some(p) => {
                lemma_latest_session_is_max(sessions, i - 1, p);
            },
            None => {},
        }
    }
}

/// The selected unscoped session belongs to the working directory and is the
/// latest among those that do.
pub proof fn lemma_best_global_is_max(sessions: Seq<OpenCodeSession>, dir: Seq<char>, i: int, b: int)
    requires
        best_global_idx(sessions, dir, i) == Some(b),
    ensures
        0 <= b < i,
        eq_or_extends(dir, sessions[b].directory@, '/'),
        forall|j: int|
            0 <= j < i && eq_or_extends(dir, (#[trigger] sessions[j]).directory@, '/')
                ==> sessions[j].updated <= sessions[b].updated,
    decreases i,
{
    if i > 0 {
        match best_global_idx(sessions, dir, i - 1) {
            Some(p) => {
                lemma_best_global_is_max(sessions, dir, i - 1, p);
            },
            None => {
                lemma_best_global_none(sessions, dir, i - 1);
            },
        }
    }
}

proof fn lemma_best_global_none(sessions: Seq<OpenCodeSession>, dir: Seq<char>, i: int)
    requires
        best_global_idx(sessions, dir, i) is None,
    ensures
        forall|j: int| 0 <= j < i ==> !eq_or_extends(dir, (#[trigger] sessions[j]).directory@, '/'),
    decreases i,
{
    if i > 0 {
        lemma_best_global_none(sessions, dir, i - 1);
    }
}

/// The message chosen for a session carries displayable text and is the
/// newest that does.
pub proof fn lemma_best_msg_is_max(messages: Seq<OpenCodeMessage>, i: int, b: int)
    requires
        best_msg_idx(messages, i) == Some(b),
    ensures
        0 <= b < i,
        spec_message_text(messages[b].parts@) is Some,
        forall|j: int|
            0 <= j < i && spec_message_text((#[trigger] messages[j]).parts@) is Some
                ==> messages[j].created <= messages[b].created,
    decreases i,
{
    if i > 0 {
        match best_msg_idx(messages, i - 1) {
            Some(p) => {
                lemma_best_msg_is_max(messages, i - 1, p);
            },
            None => {
                lemma_best_msg_none(messages, i - 1);
            },
        }
    }
}

proof fn lemma_best_msg_none(messages: Seq<OpenCodeMessage>, i: int)
    requires
        best_msg_idx(messages, i) is None,
    ensures
        forall|j: int|
            0 <= j < i ==> !(spec_message_text((#[trigger] messages[j]).parts@) is Some),
    decreases i,
{
    if i > 0 {
        lemma_best_msg_none(messages, i - 1);
    }
}

/// The path a session is displayed under: the process's working directory
/// where it is known, the project worktree otherwise.
pub open spec fn spec_actual_path(cwd: Option<String>, worktree: Seq<char>) -> Seq<char> {
    match cwd {
        Some(c) => c@,
        None => worktree,
    }
}

/// The preview reported for a session: its newest displayable message text,
/// with the session's own non-empty title as the fallback.
pub open spec fn spec_display_message(text: Option<Seq<char>>, title: Seq<char>) -> Option<
    Seq<char>,
> {
    match text {
        Some(t) => Some(t),
        None => if title.len() > 0 {
            Some(title)
        } else {
            None
        },
    }
}

fn display_message(text: Option<String>, title: &String) -> (r: Option<String>)
    ensures
        r.deep_view() == spec_display_message(text.deep_view(), title@),
{
    match text {
        Some(t) => Some(t),
        None => if !title.as_str().is_empty() {
            Some(title.clone())
        } else {
            None
        },
    }
}

/// Builds the session snapshot for a project of this family, from its
/// selected session object, that session's messages, and the matched
/// process.
pub fn build_project_session(
    session: &OpenCodeSession,
    messages: &Vec<OpenCodeMessage>,
    process: &AgentProcess,
    worktree: &String,
) -> (s: Session)
    ensures
        s.id@ == session.id@,
        s.agent_type == AgentType::OpenCode,
        s.project_path@ == spec_actual_path(process.cwd, worktree@),
        s.project_name@ == spec_path_display_name(spec_actual_path(process.cwd, worktree@)),
        s.git_branch is None,
        s.github_url is None,
        s.status == spec_opencode_status(process.cpu_centipercent, spec_last_role(messages@)),
        s.last_message.deep_view() == spec_display_message(
            spec_last_text(messages@),
            session.title@,
        ),
        s.last_message_role.deep_view() == spec_last_role(messages@),
        session.updated as int / 1000 <= ISO_UTC_MAX_SECS as int ==> s.last_activity_at@
            == iso_utc_of(session.updated as int / 1000),
        session.updated as int / 1000 <= ISO_UTC_FIXED_WIDTH_MAX_SECS as int
            ==> s.last_activity_at@.len() == 24,
        s.last_activity_at@ == iso_utc_of(session.updated as int / 1000) || s.last_activity_at@
            == "Unknown"@,
        s.pid == process.pid,
        s.cpu_centipercent == process.cpu_centipercent,
        s.active_subagent_count == 0,
{
    let actual_path: String = match &process.cwd {
        Some(c) => c.clone(),
        None => worktree.clone(),
    };
    build_session_at_path(session, messages, process, actual_path)
}

/// Builds the session snapshot for an unscoped session of this family,
/// displayed under the session's own stored directory.
pub fn build_global_session(
    session: &OpenCodeSession,
    messages: &Vec<OpenCodeMessage>,
    process: &AgentProcess,
) -> (s: Session)
    ensures
        s.id@ == session.id@,
        s.agent_type == AgentType::OpenCode,
        s.project_path@ == session.directory@,
        s.project_name@ == spec_path_display_name(session.directory@),
        s.git_branch is None,
        s.github_url is None,
        s.status == spec_opencode_status(process.cpu_centipercent, spec_last_role(messages@)),
        s.last_message.deep_view() == spec_display_message(
            spec_last_text(messages@),
            session.title@,
        ),
        s.last_message_role.deep_view() == spec_last_role(messages@),
        session.updated as int / 1000 <= ISO_UTC_MAX_SECS as int ==> s.last_activity_at@
            == iso_utc_of(session.updated as int / 1000),
        session.updated as int / 1000 <= ISO_UTC_FIXED_WIDTH_MAX_SECS as int
            ==> s.last_activity_at@.len() == 24,
        s.last_activity_at@ == iso_utc_of(session.updated as int / 1000) || s.last_activity_at@
            == "Unknown"@,
        s.pid == process.pid,
        s.cpu_centipercent == process.cpu_centipercent,
        s.active_subagent_count == 0,
{
    build_session_at_path(session, messages, process, session.directory.clone())
}

fn build_session_at_path(
    session: &OpenCodeSession,
    messages: &Vec<OpenCodeMessage>,
    process: &AgentProcess,
    path: String,
) -> (s: Session)
    ensures
        s.id@ == session.id@,
        s.agent_type == AgentType::OpenCode,
        s.project_path@ == path@,
        s.project_name@ == spec_path_display_name(path@),
        s.git_branch is None,
        s.github_url is None,
        s.status == spec_opencode_status(process.cpu_centipercent, spec_last_role(messages@)),
        s.last_message.deep_view() == spec_display_message(
            spec_last_text(messages@),
            session.title@,
        ),
        s.last_message_role.deep_view() == spec_last_role(messages@),
        session.updated as int / 1000 <= ISO_UTC_MAX_SECS as int ==> s.last_activity_at@
            == iso_utc_of(session.updated as int / 1000),
        session.updated as int / 1000 <= ISO_UTC_FIXED_WIDTH_MAX_SECS as int
            ==> s.last_activity_at@.len() == 24,
        s.last_activity_at@ == iso_utc_of(session.updated as int / 1000) || s.last_activity_at@
            == "Unknown"@,
        s.pid == process.pid,
        s.cpu_centipercent == process.cpu_centipercent,
        s.active_subagent_count == 0,
{
    let (last_role, last_text, _last_time) = get_last_message(messages);
    let status = opencode_status(
        process.cpu_centipercent,
        match &last_role {
            Some(r) => Some(r.as_str()),
            None => None,
        },
    );
    let last_activity_at = format_activity_timestamp(session.updated);
    let project_name = path_display_name(path.as_str());
    let last_message = display_message(last_text, &session.title);
    Session {
        id: session.id.clone(),
        agent_type: AgentType::OpenCode,
        project_name,
        project_path: path,
        git_branch: None,
        github_url: None,
        status,
        last_message,
        last_message_role: last_role,
        last_activity_at,
        pid: process.pid,
        cpu_centipercent: process.cpu_centipercent,
        active_subagent_count: 0,
    }
}

} // verus!

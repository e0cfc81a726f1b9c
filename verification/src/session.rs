//! The session model and the transcript reader for the agent family that
//! writes append-only line-delimited transcripts: scanning the newest records
//! of the most relevant transcript for the session identifier, branch,
//! timestamp, status signals and a displayable preview.

use vstd::prelude::*;

use crate::signals::{
    has_content, has_tool_result, has_tool_use, is_interrupted_request, is_local_slash_command,
    content_preview_text, spec_has_block_of_type, spec_has_content, spec_is_interrupted,
    spec_is_local_command, spec_preview_text, MessageContent,
};
use crate::status::{determine_status, spec_determine_status, AgentType, SessionStatus};
use crate::text::{path_display_name, spec_path_display_name, spec_truncate_preview,
    truncate_preview};

verus! {

/// The externally reported unit: a read-only snapshot of one conversation,
/// produced fresh on every poll.
#[derive(Debug, Clone)]
pub struct Session {
    pub id: String,
    pub agent_type: AgentType,
    pub project_name: String,
    pub project_path: String,
    pub git_branch: Option<String>,
    pub github_url: Option<String>,
    pub status: SessionStatus,
    pub last_message: Option<String>,
    pub last_message_role: Option<String>,
    pub last_activity_at: String,
    pub pid: u32,
    pub cpu_centipercent: u32,
    pub active_subagent_count: u32,
}

/// The aggregate poll result: the ordered sessions with summary counts.
#[derive(Debug, Clone)]
pub struct SessionsResponse {
    pub sessions: Vec<Session>,
    pub total_count: usize,
    pub waiting_count: usize,
}

/// One parsed record of a line-delimited transcript. A line that fails to
/// parse is represented by `None` in the record list handed to the reader.
#[derive(Debug, Clone)]
pub struct JsonlRecord {
    pub session_id: Option<String>,
    pub git_branch: Option<String>,
    pub timestamp: Option<String>,
    pub msg_type: Option<String>,
    pub role: Option<String>,
    pub content: MessageContent,
}

/// How many of the newest records of a transcript are inspected.
pub const RECORD_WINDOW: usize = 100;

/// Preview text of this family is truncated to this many characters.
pub const PREVIEW_LIMIT: usize = 100;

/// The first record index of the inspected window.
pub open spec fn window_start(n: int) -> int {
    if n > RECORD_WINDOW {
        n - RECORD_WINDOW
    } else {
        0
    }
}

/// A property a scanned record can supply.
pub enum RecProp {
    HasId,
    HasBranch,
    HasTimestamp,
    HasSignal,
    HasPreview,
}

/// Whether a parsed record supplies the given property.
pub open spec fn rec_prop(p: RecProp, r: JsonlRecord) -> bool {
    match p {
        RecProp::HasId => r.session_id matches Some(s) && s@.len() > 0,
        RecProp::HasBranch => r.git_branch is Some,
        RecProp::HasTimestamp => r.timestamp is Some,
        RecProp::HasSignal => spec_has_content(r.content),
        RecProp::HasPreview => spec_preview_text(r.content) is Some,
    }
}

/// The largest index in `[lo, i]` whose record is parsed and supplies `p`:
/// the first such record when walking from newest to oldest.
pub open spec fn first_from_top(
    records: Seq<Option<JsonlRecord>>,
    p: RecProp,
    i: int,
    lo: int,
) -> Option<int>
    decreases i - lo + 1,
{
    if i < lo || lo < 0 || i >= records.len() {
        None
    } else if records[i] matches Some(r) && rec_prop(p, r) {
        Some(i)
    } else {
        first_from_top(records, p, i - 1, lo)
    }
}

/// Extending the scanned range downward by one record either keeps the found
/// index or finds the newly included record.
pub proof fn lemma_first_from_top_extend(
    records: Seq<Option<JsonlRecord>>,
    p: RecProp,
    i: int,
    lo: int,
)
    requires
        1 <= lo,
        lo - 1 <= i < records.len(),
    ensures
        first_from_top(records, p, i, lo - 1) == match first_from_top(records, p, i, lo) {
            Some(j) => Some(j),
            None => if records[lo - 1] matches Some(r) && rec_prop(p, r) {
                Some(lo - 1)
            } else {
                None
            },
        },
    decreases i - lo + 2,
{
    if i >= lo {
        if records[i] matches Some(r) && rec_prop(p, r) {
        } else {
            lemma_first_from_top_extend(records, p, i - 1, lo);
        }
    } else {
        assert(first_from_top(records, p, i - 1, lo - 1) is None);
    }
}

/// A found index lies in range, at a parsed record supplying the property.
pub proof fn lemma_first_from_top_props(
    records: Seq<Option<JsonlRecord>>,
    p: RecProp,
    i: int,
    lo: int,
    j: int,
)
    requires
        first_from_top(records, p, i, lo) == Some(j),
    ensures
        lo <= j <= i < records.len(),
        records[j] matches Some(r) && rec_prop(p, r),
    decreases i - lo + 1,
{
    if i < lo || lo < 0 || i >= records.len() {
    } else if records[i] matches Some(r) && rec_prop(p, r) {
    } else {
        lemma_first_from_top_props(records, p, i - 1, lo, j);
    }
}

/// Lowering the scan floor does not change an already found index.
pub proof fn lemma_first_from_top_lower(
    records: Seq<Option<JsonlRecord>>,
    p: RecProp,
    i: int,
    lo: int,
    lo2: int,
)
    requires
        0 <= lo2 <= lo,
        i < records.len(),
        first_from_top(records, p, i, lo) is Some,
    ensures
        first_from_top(records, p, i, lo2) == first_from_top(records, p, i, lo),
    decreases lo - lo2,
{
    if lo2 < lo {
        if lo - 1 <= i {
            lemma_first_from_top_extend(records, p, i, lo);
            lemma_first_from_top_lower(records, p, i, lo - 1, lo2);
        } else {
            lemma_first_from_top_props(
                records,
                p,
                i,
                lo,
                first_from_top(records, p, i, lo)->0,
            );
        }
    }
}

/// The record stored at index `j`.
pub open spec fn rec_at(records: Seq<Option<JsonlRecord>>, j: int) -> JsonlRecord {
    records[j]->0
}

/// The session identifier found at or above scan floor `lo`.
pub open spec fn id_from(records: Seq<Option<JsonlRecord>>, lo: int) -> Option<Seq<char>> {
    match first_from_top(records, RecProp::HasId, records.len() - 1, lo) {
        Some(j) => Some(rec_at(records, j).session_id->0@),
        None => None,
    }
}

/// The branch found at or above scan floor `lo`.
pub open spec fn branch_from(records: Seq<Option<JsonlRecord>>, lo: int) -> Option<Seq<char>> {
    match first_from_top(records, RecProp::HasBranch, records.len() - 1, lo) {
        Some(j) => Some(rec_at(records, j).git_branch->0@),
        None => None,
    }
}

/// The timestamp found at or above scan floor `lo`.
pub open spec fn ts_from(records: Seq<Option<JsonlRecord>>, lo: int) -> Option<Seq<char>> {
    match first_from_top(records, RecProp::HasTimestamp, records.len() - 1, lo) {
        Some(j) => Some(rec_at(records, j).timestamp->0@),
        None => None,
    }
}

/// The index of the newest record with non-empty content at or above `lo`.
pub open spec fn sig_idx_from(records: Seq<Option<JsonlRecord>>, lo: int) -> Option<int> {
    first_from_top(records, RecProp::HasSignal, records.len() - 1, lo)
}

/// The truncated preview found at or above scan floor `lo`.
pub open spec fn preview_from(records: Seq<Option<JsonlRecord>>, lo: int) -> Option<Seq<char>> {
    match first_from_top(records, RecProp::HasPreview, records.len() - 1, lo) {
        Some(j) => Some(
            spec_truncate_preview(
                spec_preview_text(rec_at(records, j).content)->0,
                PREVIEW_LIMIT as int,
                PREVIEW_LIMIT as int,
            ),
        ),
        None => None,
    }
}

/// The session identifier of a transcript: the newest windowed record
/// carrying a non-empty one.
pub open spec fn spec_scan_session_id(records: Seq<Option<JsonlRecord>>) -> Option<Seq<char>> {
    id_from(records, window_start(records.len() as int))
}

/// The index of the newest windowed record with non-empty content.
pub open spec fn spec_scan_sig_idx(records: Seq<Option<JsonlRecord>>) -> Option<int> {
    sig_idx_from(records, window_start(records.len() as int))
}

/// Where the identifier-and-signals scan stops: the older of the record that
/// supplied the identifier and the record that supplied the signals, or the
/// window start when one of the two was never found.
pub open spec fn spec_scan_floor(records: Seq<Option<JsonlRecord>>) -> int {
    let w = window_start(records.len() as int);
    match first_from_top(records, RecProp::HasId, records.len() - 1, w) {
        Some(a) => match first_from_top(records, RecProp::HasSignal, records.len() - 1, w) {
            Some(b) => if a < b {
                a
            } else {
                b
            },
            None => w,
        },
        None => w,
    }
}

/// The branch reported for a transcript: the newest one found before the
/// identifier-and-signals scan stopped.
pub open spec fn spec_scan_branch(records: Seq<Option<JsonlRecord>>) -> Option<Seq<char>> {
    branch_from(records, spec_scan_floor(records))
}

/// The last-activity timestamp reported for a transcript: the newest one
/// found before the identifier-and-signals scan stopped.
pub open spec fn spec_scan_timestamp(records: Seq<Option<JsonlRecord>>) -> Option<Seq<char>> {
    ts_from(records, spec_scan_floor(records))
}

/// The record that determines the status signals, if any.
pub open spec fn spec_scan_signal_rec(records: Seq<Option<JsonlRecord>>) -> Option<JsonlRecord> {
    match spec_scan_sig_idx(records) {
        Some(j) => Some(rec_at(records, j)),
        None => None,
    }
}

/// The message type of the signal record.
pub open spec fn spec_scan_msg_type(records: Seq<Option<JsonlRecord>>) -> Option<Seq<char>> {
    match spec_scan_signal_rec(records) {
        Some(r) => r.msg_type.deep_view(),
        None => None,
    }
}

/// The message role of the signal record.
pub open spec fn spec_scan_role(records: Seq<Option<JsonlRecord>>) -> Option<Seq<char>> {
    match spec_scan_signal_rec(records) {
        Some(r) => r.role.deep_view(),
        None => None,
    }
}

/// Whether the signal record carries a tool invocation marker.
pub open spec fn spec_scan_tool_use(records: Seq<Option<JsonlRecord>>) -> bool {
    spec_scan_signal_rec(records) matches Some(r) && spec_has_block_of_type(
        r.content,
        "tool_use"@,
    )
}

/// Whether the signal record carries a tool result marker.
pub open spec fn spec_scan_tool_result(records: Seq<Option<JsonlRecord>>) -> bool {
    spec_scan_signal_rec(records) matches Some(r) && spec_has_block_of_type(
        r.content,
        "tool_result"@,
    )
}

/// Whether the signal record's text is a local no-op command.
pub open spec fn spec_scan_local_command(records: Seq<Option<JsonlRecord>>) -> bool {
    spec_scan_signal_rec(records) matches Some(r) && spec_is_local_command(r.content)
}

/// Whether the signal record's text marks an interrupted request.
pub open spec fn spec_scan_interrupted(records: Seq<Option<JsonlRecord>>) -> bool {
    spec_scan_signal_rec(records) matches Some(r) && spec_is_interrupted(r.content)
}

/// The truncated preview of a transcript: from the newest windowed record
/// with displayable text.
pub open spec fn spec_scan_preview(records: Seq<Option<JsonlRecord>>) -> Option<Seq<char>> {
    preview_from(records, window_start(records.len() as int))
}

/// The status inferred for a transcript from its scanned signals and the
/// transcript file's recency.
pub open spec fn spec_claude_status(
    records: Seq<Option<JsonlRecord>>,
    file_recently_modified: bool,
) -> SessionStatus {
    spec_determine_status(
        spec_scan_msg_type(records),
        spec_scan_tool_use(records),
        spec_scan_tool_result(records),
        spec_scan_local_command(records),
        spec_scan_interrupted(records),
        file_recently_modified,
    )
}

/// The timestamp string reported when none was found in the transcript.
pub open spec fn spec_or_unknown(o: Option<Seq<char>>) -> Seq<char> {
    match o {
        Some(t) => t,
        None => "Unknown"@,
    }
}

fn rec_has_nonempty_id(rec: &JsonlRecord) -> (r: bool)
    ensures
        r == rec_prop(RecProp::HasId, *rec),
{
    match &rec.session_id {
        Some(s) => !s.as_str().is_empty(),
        None => false,
    }
}

/// Builds the session snapshot for one line-delimited transcript, given its
/// parsed records in file order (unparseable lines as `None`), walking the
/// newest records first. Yields nothing when no windowed record carries a
/// non-empty session identifier.
pub fn find_active_session(
    records: &Vec<Option<JsonlRecord>>,
    project_path: &String,
    pid: u32,
    cpu_centipercent: u32,
    file_recently_modified: bool,
) -> (r: Option<Session>)
    ensures
        r is Some <==> spec_scan_session_id(records@) is Some,
        r matches Some(s) ==> {
            &&& Some(s.id@) == spec_scan_session_id(records@)
            &&& s.agent_type == AgentType::Claude
            &&& s.project_name@ == spec_path_display_name(project_path@)
            &&& s.project_path@ == project_path@
            &&& s.git_branch.deep_view() == spec_scan_branch(records@)
            &&& s.github_url is None
            &&& s.status == spec_claude_status(records@, file_recently_modified)
            &&& s.last_message.deep_view() == spec_scan_preview(records@)
            &&& s.last_message_role.deep_view() == spec_scan_role(records@)
            &&& s.last_activity_at@ == spec_or_unknown(spec_scan_timestamp(records@))
            &&& s.pid == pid
            &&& s.cpu_centipercent == cpu_centipercent
            &&& s.active_subagent_count == 0
        },
{
    let n = records.len();
    let lo = if n > RECORD_WINDOW {
        n - RECORD_WINDOW
    } else {
        0
    };
    assert(lo as int == window_start(n as int));

    let mut sid: Option<String> = None;
    let mut branch: Option<String> = None;
    let mut ts: Option<String> = None;
    let mut msg_type: Option<String> = None;
    let mut role: Option<String> = None;
    let mut tool_use: bool = false;
    let mut tool_result: bool = false;
    let mut local_cmd: bool = false;
    let mut interrupted: bool = false;
    let mut found_sig: bool = false;
    let mut i: usize = n;
    while i > lo
        invariant_except_break
            !(sid is Some && found_sig),
        invariant
            n == records@.len(),
            lo as int == window_start(n as int),
            lo <= i <= n,
            sid.deep_view() == id_from(records@, i as int),
            branch.deep_view() == branch_from(records@, i as int),
            ts.deep_view() == ts_from(records@, i as int),
            found_sig == (sig_idx_from(records@, i as int) is Some),
            found_sig ==> (sig_idx_from(records@, i as int) matches Some(j) && {
                &&& msg_type.deep_view() == rec_at(records@, j).msg_type.deep_view()
                &&& role.deep_view() == rec_at(records@, j).role.deep_view()
                &&& tool_use == spec_has_block_of_type(rec_at(records@, j).content, "tool_use"@)
                &&& tool_result == spec_has_block_of_type(
                    rec_at(records@, j).content,
                    "tool_result"@,
                )
                &&& local_cmd == spec_is_local_command(rec_at(records@, j).content)
                &&& interrupted == spec_is_interrupted(rec_at(records@, j).content)
            }),
            !found_sig ==> msg_type is None && role is None && !tool_use && !tool_result
                && !local_cmd && !interrupted,
        ensures
            lo <= i <= n,
            sid.deep_view() == id_from(records@, i as int),
            branch.deep_view() == branch_from(records@, i as int),
            ts.deep_view() == ts_from(records@, i as int),
            found_sig == (sig_idx_from(records@, i as int) is Some),
            found_sig ==> (sig_idx_from(records@, i as int) matches Some(j) && {
                &&& msg_type.deep_view() == rec_at(records@, j).msg_type.deep_view()
                &&& role.deep_view() == rec_at(records@, j).role.deep_view()
                &&& tool_use == spec_has_block_of_type(rec_at(records@, j).content, "tool_use"@)
                &&& tool_result == spec_has_block_of_type(
                    rec_at(records@, j).content,
                    "tool_result"@,
                )
                &&& local_cmd == spec_is_local_command(rec_at(records@, j).content)
                &&& interrupted == spec_is_interrupted(rec_at(records@, j).content)
            }),
            !found_sig ==> msg_type is None && role is None && !tool_use && !tool_result
                && !local_cmd && !interrupted,
            i > lo ==> sid is Some && found_sig,
            (sid is Some && found_sig) ==> !(id_from(records@, i + 1) is Some && sig_idx_from(
                records@,
                i + 1,
            ) is Some),
        decreases i,
    {
        let j = i - 1;
        proof {
            lemma_first_from_top_extend(records@, RecProp::HasId, n - 1, i as int);
            lemma_first_from_top_extend(records@, RecProp::HasBranch, n - 1, i as int);
            lemma_first_from_top_extend(records@, RecProp::HasTimestamp, n - 1, i as int);
            lemma_first_from_top_extend(records@, RecProp::HasSignal, n - 1, i as int);
        }
        let rec_opt = &records[j];
        match rec_opt {
            Some(rec) => {
                if sid.is_none() && rec_has_nonempty_id(rec) {
                    match &rec.session_id {
                        Some(s) => { sid = Some(s.clone()) },
                        None => {},
                    }
                }
                if branch.is_none() {
                    match &rec.git_branch {
                        Some(b) => { branch = Some(b.clone()) },
                        None => {},
                    }
                }
                if ts.is_none() {
                    match &rec.timestamp {
                        Some(t) => { ts = Some(t.clone()) },
                        None => {},
                    }
                }
                if !found_sig {
                    if has_content(&rec.content) {
                        msg_type = match &rec.msg_type {
                            Some(m) => Some(m.clone()),
                            None => None,
                        };
                        role = match &rec.role {
                            Some(m) => Some(m.clone()),
                            None => None,
                        };
                        tool_use = has_tool_use(&rec.content);
                        tool_result = has_tool_result(&rec.content);
                        local_cmd = is_local_slash_command(&rec.content);
                        interrupted = is_interrupted_request(&rec.content);
                        found_sig = true;
                        assert(sig_idx_from(records@, j as int) == Some(j as int));
                    }
                }
            },
            None => {},
        }
        i = j;
        if sid.is_some() && found_sig {
            break ;
        }
    }

    proof {
        let w = window_start(n as int);
        if sid is Some && found_sig {
            let a = first_from_top(records@, RecProp::HasId, n - 1, i as int)->0;
            let b = first_from_top(records@, RecProp::HasSignal, n - 1, i as int)->0;
            lemma_first_from_top_props(records@, RecProp::HasId, n - 1, i as int, a);
            lemma_first_from_top_props(records@, RecProp::HasSignal, n - 1, i as int, b);
            lemma_first_from_top_lower(records@, RecProp::HasId, n - 1, i as int, w);
            lemma_first_from_top_lower(records@, RecProp::HasSignal, n - 1, i as int, w);
            // at the previous floor one of the two was still missing, so
            // the older of the two supplying records is where the scan stopped
            if first_from_top(records@, RecProp::HasId, n - 1, i + 1) is Some {
                lemma_first_from_top_lower(records@, RecProp::HasId, n - 1, i + 1, i as int);
            } else {
                lemma_first_from_top_extend(records@, RecProp::HasId, n - 1, i + 1);
            }
            if first_from_top(records@, RecProp::HasSignal, n - 1, i + 1) is Some {
                lemma_first_from_top_lower(records@, RecProp::HasSignal, n - 1, i + 1, i as int);
            } else {
                lemma_first_from_top_extend(records@, RecProp::HasSignal, n - 1, i + 1);
            }
            assert(spec_scan_floor(records@) == i as int);
        } else {
            assert(i as int == w);
            assert(spec_scan_floor(records@) == i as int);
        }
    }

    let sid_string = match sid {
        Some(s) => s,
        None => {
            return None;
        },
    };

    // A separate newest-to-oldest walk finds the preview text: the record
    // that determines the status is not necessarily the one with text.
    let mut last_message: Option<String> = None;
    let mut k: usize = n;
    while k > lo
        invariant_except_break
            lo <= k <= n,
            last_message is None,
            first_from_top(records@, RecProp::HasPreview, n - 1, k as int) is None,
        invariant
            n == records@.len(),
            lo as int == window_start(n as int),
        ensures
            last_message.deep_view() == spec_scan_preview(records@),
        decreases k,
    {
        let j = k - 1;
        proof {
            lemma_first_from_top_extend(records@, RecProp::HasPreview, n - 1, k as int);
        }
        let rec_opt = &records[j];
        match rec_opt {
            Some(rec) => {
                match content_preview_text(&rec.content) {
                    Some(text) => {
                        last_message = Some(truncate_preview(text, PREVIEW_LIMIT, PREVIEW_LIMIT));
                        proof {
                            lemma_first_from_top_lower(
                                records@,
                                RecProp::HasPreview,
                                n - 1,
                                j as int,
                                window_start(n as int),
                            );
                        }
                        break ;
                    },
                    None => {},
                }
            },
            None => {},
        }
        k = j;
    }

    let status = determine_status(
        match &msg_type {
            Some(m) => Some(m.as_str()),
            None => None,
        },
        tool_use,
        tool_result,
        local_cmd,
        interrupted,
        file_recently_modified,
    );

    let project_name = path_display_name(project_path.as_str());
    let last_activity_at = match ts {
        Some(t) => t,
        None => String::from_str("Unknown"),
    };

    Some(
        Session {
            id: sid_string,
            agent_type: AgentType::Claude,
            project_name,
            project_path: project_path.clone(),
            git_branch: branch,
            github_url: None,
            status,
            last_message,
            last_message_role: role,
            last_activity_at,
            pid,
            cpu_centipercent,
            active_subagent_count: 0,
        },
    )
}

} // verus!

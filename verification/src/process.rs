//! Process models and the rules that decide whether a live OS process is an
//! agent CLI instance. Enumerating processes is the business of an outside
//! collaborator; the classification of what it reports is the library's.
//! Each agent family's process signature — its command name, its process
//! name — is data supplied by the caller.

use vstd::prelude::*;

use crate::text::{contains_seq, is_suffix, str_contains, str_eq, str_ends_with};

verus! {

/// A live process of the line-delimited-transcript agent family. CPU
/// utilisation is carried in hundredths of a percent.
#[derive(Debug, Clone)]
pub struct ClaudeProcess {
    pub pid: u32,
    pub cwd: Option<String>,
    pub cpu_centipercent: u32,
    pub memory: u64,
}

/// A live process of any agent family. CPU utilisation is carried in
/// hundredths of a percent.
#[derive(Debug, Clone)]
pub struct AgentProcess {
    pub pid: u32,
    pub cpu_centipercent: u32,
    pub cwd: Option<String>,
}

/// The case-folded form of a string. The folding depends on the characters
/// alone.
pub uninterp spec fn lower_of(s: Seq<char>) -> Seq<char>;

/// Relies on std's `str::to_lowercase`: the lowercase mapping of a string is
/// a function of its characters.
#[verifier::external_body]
fn lowercase(s: &str) -> (r: String)
    ensures
        r@ == lower_of(s@),
{
    s.to_lowercase()
}

/// The first command-line argument invokes the agent CLI whose (lower-case)
/// command name is given: case-folded, the argument is exactly that command
/// or ends with it after a path separator.
pub open spec fn spec_is_agent_command(arg: Seq<char>, command: Seq<char>) -> bool {
    lower_of(arg) == command || is_suffix(seq!['/'] + command, lower_of(arg))
}

/// Decides whether a first command-line argument invokes the agent CLI named
/// by `command` (given in lower case).
pub fn is_agent_command(first_arg: &str, command: &str) -> (r: bool)
    ensures
        r == spec_is_agent_command(first_arg@, command@),
{
    let lower = lowercase(first_arg);
    if str_eq(lower.as_str(), command) {
        true
    } else {
        let mut pattern = String::new();
        crate::text::string_push(&mut pattern, '/');
        pattern.append(command);
        str_ends_with(lower.as_str(), pattern.as_str())
    }
}

/// The process name carries one of the monitoring tool's own name markers;
/// such a process is never reported as a session.
pub open spec fn spec_is_own_app_name(name: Seq<char>, markers: Seq<Seq<char>>) -> bool {
    exists|i: int| 0 <= i < markers.len() && contains_seq(name, #[trigger] markers[i])
}

/// Decides whether a process name contains one of the monitoring tool's own
/// name markers.
pub fn is_own_app_name(name: &str, markers: &Vec<String>) -> (r: bool)
    ensures
        r == spec_is_own_app_name(name@, markers.deep_view()),
{
    let mut i: usize = 0;
    while i < markers.len()
        invariant
            i <= markers.len(),
            forall|j: int|
                0 <= j < i ==> !contains_seq(name@, #[trigger] markers.deep_view()[j]),
        decreases markers.len() - i,
    {
        if str_contains(name, markers[i].as_str()) {
            assert(contains_seq(name@, markers.deep_view()[i as int]));
            return true;
        }
        i += 1;
    }
    false
}

/// The process name, case-folded, is the directory-tree-transcript agent
/// CLI's.
pub open spec fn spec_is_opencode_process(name: Seq<char>) -> bool {
    lower_of(name) == "opencode"@
}

/// Decides whether a process name is the directory-tree-transcript agent
/// CLI's.
pub fn is_opencode_process_name(name: &str) -> (r: bool)
    ensures
        r == spec_is_opencode_process(name@),
{
    let lower = lowercase(name);
    str_eq(lower.as_str(), "opencode")
}

} // verus!

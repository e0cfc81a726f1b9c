//! The process-to-session matcher: pairs live agent processes with candidate
//! projects by working-directory containment, deterministically and with each
//! process claimed at most once.

use vstd::prelude::*;

use crate::codec::{convert_dir_name_to_path, spec_convert_dir_name};
use crate::opencode::OpenCodeProject;
use crate::process::{AgentProcess, ClaudeProcess};
use crate::text::{eq_or_extends, str_eq, str_eq_or_extends};

verus! {

/// The working directory lies within the base path: it equals it, or extends
/// it below a path separator.
pub open spec fn path_within(cwd: Seq<char>, base: Seq<char>) -> bool {
    eq_or_extends(cwd, base, '/')
}

/// A matching outcome as index pairs.
pub open spec fn pairs_view(s: Seq<(usize, usize)>) -> Seq<(int, int)> {
    s.map_values(|p: (usize, usize)| (p.0 as int, p.1 as int))
}

/// The first unclaimed process at or after `j` whose working directory is
/// exactly the given project path.
pub open spec fn claude_first_match(
    procs: Seq<ClaudeProcess>,
    path: Seq<char>,
    claimed: Seq<bool>,
    j: int,
) -> Option<int>
    decreases procs.len() - j,
{
    if j < 0 || j >= procs.len() {
        None
    } else if !claimed[j] && (procs[j].cwd matches Some(c) && c@ == path) {
        Some(j)
    } else {
        claude_first_match(procs, path, claimed, j + 1)
    }
}

/// The matching of the line-delimited-transcript family: each encoded
/// project directory, in order, claims the first unclaimed process whose
/// working directory equals the decoded project path.
pub open spec fn spec_claude_matching(
    dirs: Seq<Seq<char>>,
    procs: Seq<ClaudeProcess>,
    d: int,
    claimed: Seq<bool>,
) -> Seq<(int, int)>
    decreases dirs.len() - d,
{
    if d < 0 || d >= dirs.len() {
        Seq::<(int, int)>::empty()
    } else {
        match claude_first_match(procs, spec_convert_dir_name(dirs[d]), claimed, 0) {
            Some(j) => seq![(d, j)] + spec_claude_matching(
                dirs,
                procs,
                d + 1,
                claimed.update(j, true),
            ),
            None => spec_claude_matching(dirs, procs, d + 1, claimed),
        }
    }
}

proof fn lemma_claude_first_match_props(
    procs: Seq<ClaudeProcess>,
    path: Seq<char>,
    claimed: Seq<bool>,
    j: int,
    m: int,
)
    requires
        claude_first_match(procs, path, claimed, j) == Some(m),
    ensures
        j <= m < procs.len(),
        !claimed[m],
        procs[m].cwd matches Some(c) && c@ == path,
    decreases procs.len() - j,
{
    if j < 0 || j >= procs.len() {
    } else if !claimed[j] && (procs[j].cwd matches Some(c) && c@ == path) {
    } else {
        lemma_claude_first_match_props(procs, path, claimed, j + 1, m);
    }
}

/// Matches the encoded project directories of the line-delimited-transcript
/// family against live processes, first match in iteration order, each
/// process claimed at most once.
pub fn match_claude_projects(dir_names: &Vec<String>, processes: &Vec<ClaudeProcess>) -> (pairs:
    Vec<(usize, usize)>)
    ensures
        pairs_view(pairs@) == spec_claude_matching(
            dir_names.deep_view(),
            processes@,
            0,
            Seq::new(processes@.len(), |j: int| false),
        ),
{
    let ghost dirs = dir_names.deep_view();
    let mut claimed: Vec<bool> = Vec::new();
    let mut c: usize = 0;
    while c < processes.len()
        invariant
            c <= processes.len(),
            claimed@ =~= Seq::new(c as nat, |j: int| false),
        decreases processes.len() - c,
    {
        claimed.push(false);
        c += 1;
    }

    let mut pairs: Vec<(usize, usize)> = Vec::new();
    let mut d: usize = 0;
    while d < dir_names.len()
        invariant
            d <= dir_names.len(),
            dirs == dir_names.deep_view(),
            claimed.len() == processes.len(),
            spec_claude_matching(dirs, processes@, 0, Seq::new(processes@.len(), |j: int| false))
                =~= pairs_view(pairs@) + spec_claude_matching(
                dirs,
                processes@,
                d as int,
                claimed@,
            ),
        decreases dir_names.len() - d,
    {
        let path = convert_dir_name_to_path(dir_names[d].as_str());
        assert(path@ == spec_convert_dir_name(dirs[d as int]));
        let ghost claimed_entry = claimed@;

        let mut j: usize = 0;
        let mut found: Option<usize> = None;
        while j < processes.len()
            invariant_except_break
                j <= processes.len(),
                found is None,
                claimed@ == claimed_entry,
                claimed.len() == processes.len(),
                claude_first_match(processes@, path@, claimed@, 0) == claude_first_match(
                    processes@,
                    path@,
                    claimed@,
                    j as int,
                ),
            ensures
                claimed@ == claimed_entry,
                match found {
                    Some(m) => claude_first_match(processes@, path@, claimed@, 0) == Some(
                        m as int,
                    ) && m < processes.len(),
                    None => claude_first_match(processes@, path@, claimed@, 0) is None,
                },
            decreases processes.len() - j,
        {
            if !claimed[j] {
                let mut hit: bool = false;
                match &processes[j].cwd {
                    Some(cw) => {
                        if str_eq(cw.as_str(), path.as_str()) {
                            hit = true;
                        }
                    },
                    None => {},
                }
                if hit {
                    found = Some(j);
                    break ;
                }
            }
            j += 1;
        }

        match found {
            Some(m) => {
                claimed.set(m, true);
                pairs.push((d, m));
                proof {
                    assert(claimed@ =~= claimed_entry.update(m as int, true));
                    assert(pairs_view(pairs@) =~= pairs_view(pairs@.drop_last()).push(
                        (d as int, m as int),
                    ));
                    assert(spec_claude_matching(dirs, processes@, d as int, claimed_entry)
                        == seq![(d as int, m as int)] + spec_claude_matching(
                        dirs,
                        processes@,
                        d + 1,
                        claimed@,
                    ));
                }
            },
            None => {},
        }
        d += 1;
    }
    assert(spec_claude_matching(dirs, processes@, dir_names@.len() as int, claimed@)
        =~= Seq::<(int, int)>::empty());
    pairs
}

/// The working directory belongs to the project: it lies within the
/// worktree, or within one of the declared sandbox paths.
pub open spec fn spec_oc_project_match(p: OpenCodeProject, cwd: Seq<char>) -> bool {
    path_within(cwd, p.worktree@) || exists|k: int|
        0 <= k < p.sandboxes@.len() && path_within(cwd, #[trigger] p.sandboxes@[k]@)
}

/// Tests whether a working directory belongs to a project.
#[verifier::loop_isolation(false)]
fn oc_project_match(project: &OpenCodeProject, cwd: &str) -> (r: bool)
    ensures
        r == spec_oc_project_match(*project, cwd@),
{
    if str_eq_or_extends(cwd, project.worktree.as_str(), '/') {
        return true;
    }
    let mut k: usize = 0;
    while k < project.sandboxes.len()
        invariant
            k <= project.sandboxes.len(),
            forall|m: int| 0 <= m < k ==> !path_within(cwd@, #[trigger] project.sandboxes@[m]@),
        decreases project.sandboxes.len() - k,
    {
        if str_eq_or_extends(cwd, project.sandboxes[k].as_str(), '/') {
            return true;
        }
        k += 1;
    }
    false
}

/// The first unclaimed process at or after `j` whose working directory
/// belongs to the project.
pub open spec fn oc_first_match(
    procs: Seq<AgentProcess>,
    p: OpenCodeProject,
    claimed: Seq<bool>,
    j: int,
) -> Option<int>
    decreases procs.len() - j,
{
    if j < 0 || j >= procs.len() {
        None
    } else if !claimed[j] && (procs[j].cwd matches Some(c) && spec_oc_project_match(p, c@)) {
        Some(j)
    } else {
        oc_first_match(procs, p, claimed, j + 1)
    }
}

/// The matching of the directory-tree-transcript family: each project, in
/// order and skipping the unscoped "global" project, claims the first
/// unclaimed process whose working directory belongs to it.
pub open spec fn spec_oc_matching(
    projects: Seq<OpenCodeProject>,
    procs: Seq<AgentProcess>,
    d: int,
    claimed: Seq<bool>,
) -> Seq<(int, int)>
    decreases projects.len() - d,
{
    if d < 0 || d >= projects.len() {
        Seq::<(int, int)>::empty()
    } else if projects[d].id@ == "global"@ {
        spec_oc_matching(projects, procs, d + 1, claimed)
    } else {
        match oc_first_match(procs, projects[d], claimed, 0) {
            Some(j) => seq![(d, j)] + spec_oc_matching(projects, procs, d + 1, claimed.update(j, true)),
            None => spec_oc_matching(projects, procs, d + 1, claimed),
        }
    }
}

proof fn lemma_oc_first_match_props(
    procs: Seq<AgentProcess>,
    p: OpenCodeProject,
    claimed: Seq<bool>,
    j: int,
    m: int,
)
    requires
        oc_first_match(procs, p, claimed, j) == Some(m),
    ensures
        j <= m < procs.len(),
        !claimed[m],
        procs[m].cwd matches Some(c) && spec_oc_project_match(p, c@),
    decreases procs.len() - j,
{
    if j < 0 || j >= procs.len() {
    } else if !claimed[j] && (procs[j].cwd matches Some(c) && spec_oc_project_match(p, c@)) {
    } else {
        lemma_oc_first_match_props(procs, p, claimed, j + 1, m);
    }
}

/// Matches the projects of the directory-tree-transcript family against live
/// processes, first match in iteration order, each process claimed at most
/// once; the unscoped "global" project is left to the second pass.
pub fn match_opencode_projects(
    projects: &Vec<OpenCodeProject>,
    processes: &Vec<AgentProcess>,
) -> (pairs: Vec<(usize, usize)>)
    ensures
        pairs_view(pairs@) == spec_oc_matching(
            projects@,
            processes@,
            0,
            Seq::new(processes@.len(), |j: int| false),
        ),
{
    let mut claimed: Vec<bool> = Vec::new();
    let mut c: usize = 0;
    while c < processes.len()
        invariant
            c <= processes.len(),
            claimed@ =~= Seq::new(c as nat, |j: int| false),
        decreases processes.len() - c,
    {
        claimed.push(false);
        c += 1;
    }

    let mut pairs: Vec<(usize, usize)> = Vec::new();
    let mut d: usize = 0;
    while d < projects.len()
        invariant
            d <= projects.len(),
            claimed.len() == processes.len(),
            spec_oc_matching(projects@, processes@, 0, Seq::new(processes@.len(), |j: int| false))
                =~= pairs_view(pairs@) + spec_oc_matching(
                projects@,
                processes@,
                d as int,
                claimed@,
            ),
        decreases projects.len() - d,
    {
        let project = &projects[d];
        if !str_eq(project.id.as_str(), "global") {
            let ghost claimed_entry = claimed@;
            let mut j: usize = 0;
            let mut found: Option<usize> = None;
            while j < processes.len()
                invariant_except_break
                    j <= processes.len(),
                    found is None,
                    claimed@ == claimed_entry,
                    claimed.len() == processes.len(),
                    d < projects.len(),
                    *project == projects@[d as int],
                    oc_first_match(processes@, projects@[d as int], claimed@, 0) == oc_first_match(
                        processes@,
                        projects@[d as int],
                        claimed@,
                        j as int,
                    ),
                ensures
                    claimed@ == claimed_entry,
                    match found {
                        Some(m) => oc_first_match(processes@, projects@[d as int], claimed@, 0)
                            == Some(m as int) && m < processes.len(),
                        None => oc_first_match(processes@, projects@[d as int], claimed@, 0)
                            is None,
                    },
                decreases processes.len() - j,
            {
                if !claimed[j] {
                    let mut hit: bool = false;
                    match &processes[j].cwd {
                        Some(cw) => {
                            if oc_project_match(project, cw.as_str()) {
                                hit = true;
                            }
                        },
                        None => {},
                    }
                    if hit {
                        found = Some(j);
                        break ;
                    }
                }
                j += 1;
            }

            match found {
                Some(m) => {
                    claimed.set(m, true);
                    pairs.push((d, m));
                    proof {
                        assert(claimed@ =~= claimed_entry.update(m as int, true));
                        assert(pairs_view(pairs@) =~= pairs_view(pairs@.drop_last()).push(
                            (d as int, m as int),
                        ));
                        assert(spec_oc_matching(projects@, processes@, d as int, claimed_entry)
                            == seq![(d as int, m as int)] + spec_oc_matching(
                            projects@,
                            processes@,
                            d + 1,
                            claimed@,
                        ));
                    }
                },
                None => {},
            }
        }
        d += 1;
    }
    assert(spec_oc_matching(projects@, processes@, projects@.len() as int, claimed@)
        =~= Seq::<(int, int)>::empty());
    pairs
}

/// The process index appears in the matching.
pub open spec fn process_matched(pairs: Seq<(int, int)>, j: int) -> bool {
    exists|k: int| 0 <= k < pairs.len() && #[trigger] pairs[k].1 == j
}

/// The process indices of `[0, n)` that the matching left unclaimed, in
/// ascending order: the second, unscoped pass considers these alone.
pub open spec fn spec_unmatched(n: int, pairs: Seq<(int, int)>, j: int) -> Seq<int>
    decreases n - j,
{
    if j < 0 || j >= n {
        Seq::<int>::empty()
    } else if process_matched(pairs, j) {
        spec_unmatched(n, pairs, j + 1)
    } else {
        seq![j] + spec_unmatched(n, pairs, j + 1)
    }
}

/// Lists the process indices that a matching left unclaimed.
pub fn unmatched_processes(n: usize, pairs: &Vec<(usize, usize)>) -> (r: Vec<usize>)
    ensures
        r@.map_values(|x: usize| x as int) == spec_unmatched(n as int, pairs_view(pairs@), 0),
{
    let mut r: Vec<usize> = Vec::new();
    let mut j: usize = 0;
    #[verifier::loop_isolation(false)]
    while j < n
        invariant
            j <= n,
            spec_unmatched(n as int, pairs_view(pairs@), 0) =~= r@.map_values(|x: usize| x as int)
                + spec_unmatched(n as int, pairs_view(pairs@), j as int),
        decreases n - j,
    {
        let mut hit: bool = false;
        let mut k: usize = 0;
        while k < pairs.len()
            invariant_except_break
                k <= pairs.len(),
                !hit,
                forall|m: int| 0 <= m < k ==> #[trigger] pairs_view(pairs@)[m].1 != j as int,
            ensures
                hit == process_matched(pairs_view(pairs@), j as int),
            decreases pairs.len() - k,
        {
            if pairs[k].1 == j {
                hit = true;
                assert(pairs_view(pairs@)[k as int].1 == j as int);
                break ;
            }
            k += 1;
        }
        if !hit {
            r.push(j);
            assert(r@.map_values(|x: usize| x as int) =~= r@.drop_last().map_values(
                |x: usize| x as int,
            ).push(j as int));
        }
        j += 1;
    }
    r
}

/// Every pair of a matching claims a live process for a live project, and no
/// process or project appears twice: a process is matched to at most one
/// session, and a session to at most one process.
pub proof fn lemma_claude_matching_claims_once(
    dirs: Seq<Seq<char>>,
    procs: Seq<ClaudeProcess>,
    d: int,
    claimed: Seq<bool>,
)
    requires
        claimed.len() == procs.len(),
    ensures
        forall|k: int|
            0 <= k < spec_claude_matching(dirs, procs, d, claimed).len() ==> {
                let pr = #[trigger] spec_claude_matching(dirs, procs, d, claimed)[k];
                d <= pr.0 < dirs.len() && 0 <= pr.1 < procs.len() && !claimed[pr.1]
            },
        forall|k1: int, k2: int|
            0 <= k1 < k2 < spec_claude_matching(dirs, procs, d, claimed).len() ==> {
                let a = #[trigger] spec_claude_matching(dirs, procs, d, claimed)[k1];
                let b = #[trigger] spec_claude_matching(dirs, procs, d, claimed)[k2];
                a.0 < b.0 && a.1 != b.1
            },
    decreases dirs.len() - d,
{
    if d < 0 || d >= dirs.len() {
    } else {
        let r = spec_claude_matching(dirs, procs, d, claimed);
        match claude_first_match(procs, spec_convert_dir_name(dirs[d]), claimed, 0) {
            Some(j) => {
                lemma_claude_first_match_props(
                    procs,
                    spec_convert_dir_name(dirs[d]),
                    claimed,
                    0,
                    j,
                );
                lemma_claude_matching_claims_once(dirs, procs, d + 1, claimed.update(j, true));
                let rest = spec_claude_matching(dirs, procs, d + 1, claimed.update(j, true));
                assert(r[0] == (d, j));
                assert(forall|k: int| 1 <= k < r.len() ==> #[trigger] r[k] == rest[k - 1]);
            },
            None => {
                lemma_claude_matching_claims_once(dirs, procs, d + 1, claimed);
                assert(forall|k: int|
                    0 <= k < r.len() ==> #[trigger] r[k] == spec_claude_matching(
                        dirs,
                        procs,
                        d + 1,
                        claimed,
                    )[k]);
            },
        }
    }
}

/// The same claims-once property for the directory-tree-transcript family's
/// matching.
pub proof fn lemma_oc_matching_claims_once(
    projects: Seq<OpenCodeProject>,
    procs: Seq<AgentProcess>,
    d: int,
    claimed: Seq<bool>,
)
    requires
        claimed.len() == procs.len(),
    ensures
        forall|k: int|
            0 <= k < spec_oc_matching(projects, procs, d, claimed).len() ==> {
                let pr = #[trigger] spec_oc_matching(projects, procs, d, claimed)[k];
                d <= pr.0 < projects.len() && 0 <= pr.1 < procs.len() && !claimed[pr.1]
            },
        forall|k1: int, k2: int|
            0 <= k1 < k2 < spec_oc_matching(projects, procs, d, claimed).len() ==> {
                let a = #[trigger] spec_oc_matching(projects, procs, d, claimed)[k1];
                let b = #[trigger] spec_oc_matching(projects, procs, d, claimed)[k2];
                a.0 < b.0 && a.1 != b.1
            },
    decreases projects.len() - d,
{
    if d < 0 || d >= projects.len() {
    } else if projects[d].id@ == "global"@ {
        lemma_oc_matching_claims_once(projects, procs, d + 1, claimed);
        let r = spec_oc_matching(projects, procs, d, claimed);
        assert(forall|k: int|
            0 <= k < r.len() ==> #[trigger] r[k] == spec_oc_matching(
                projects,
                procs,
                d + 1,
                claimed,
            )[k]);
    } else {
        let r = spec_oc_matching(projects, procs, d, claimed);
        match oc_first_match(procs, projects[d], claimed, 0) {
            Some(j) => {
                lemma_oc_first_match_props(procs, projects[d], claimed, 0, j);
                lemma_oc_matching_claims_once(projects, procs, d + 1, claimed.update(j, true));
                let rest = spec_oc_matching(projects, procs, d + 1, claimed.update(j, true));
                assert(r[0] == (d, j));
                assert(forall|k: int| 1 <= k < r.len() ==> #[trigger] r[k] == rest[k - 1]);
            },
            None => {
                lemma_oc_matching_claims_once(projects, procs, d + 1, claimed);
                assert(forall|k: int|
                    0 <= k < r.len() ==> #[trigger] r[k] == spec_oc_matching(
                        projects,
                        procs,
                        d + 1,
                        claimed,
                    )[k]);
            },
        }
    }
}

} // verus!

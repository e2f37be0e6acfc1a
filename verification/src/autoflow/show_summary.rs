//! What `autoflow show` says about one autoflow before its YAML: the header
//! facts (entity, source, priority) and the detail lines, in order.

use vstd::prelude::*;
use vstd::string::*;
use crate::autoflow::cycle::WorkspaceStrategy;
use crate::autoflow::select::IssueState;
use crate::autoflow::sources::issue_state_name;
use crate::autoflow::visible::VisibleAutoflow;
use crate::number::{decimal, i64_to_string, signed_decimal, usize_to_string};
use crate::text::{join_seqs, join_strings};

verus! {

/// The workspace an autoflow asks for.
#[derive(Debug, Clone)]
pub struct AutoflowWorkspaceView {
    pub strategy: WorkspaceStrategy,
    pub branch: Option<String>,
}

/// The fields of an autoflow declaration that `show` reports.
#[derive(Debug, Clone)]
pub struct AutoflowView {
    pub source: Option<String>,
    pub priority: i32,
    pub workspace: Option<AutoflowWorkspaceView>,
    pub reconcile_every: Option<String>,
    pub claim_ttl: Option<String>,
    pub outcome_output: Option<String>,
    pub wake_on: Vec<String>,
    pub labels_all: Vec<String>,
    pub labels_any: Vec<String>,
    pub labels_none: Vec<String>,
    pub states: Vec<IssueState>,
    pub limit: Option<usize>,
}

pub open spec fn sviews(v: Seq<String>) -> Seq<Seq<char>> {
    v.map_values(|s: String| s@)
}

pub open spec fn or_dash(o: Option<String>) -> Seq<char> {
    match o {
        Some(s) => s@,
        None => "-"@,
    }
}

/// `entity: issue  ·  source: <source>  ·  priority: <n>`: the source the
/// autoflow names, else its repo, else `-`.
pub open spec fn spec_show_meta(entry: VisibleAutoflow, a: AutoflowView) -> Seq<char> {
    "entity: issue  ·  source: "@ + match a.source {
        Some(s) => s@,
        None => or_dash(entry.repo_ref),
    } + "  ·  priority: "@ + signed_decimal(a.priority as int)
}

pub fn show_summary_meta(entry: &VisibleAutoflow, a: &AutoflowView) -> (r: String)
    ensures
        r@ == spec_show_meta(*entry, *a),
{
    let mut out = String::from_str("entity: issue  ·  source: ");
    match &a.source {
        Some(s) => out.append(s.as_str()),
        None => match &entry.repo_ref {
            Some(r) => out.append(r.as_str()),
            None => out.append("-"),
        },
    }
    out.append("  ·  priority: ");
    let p = i64_to_string(a.priority as i64);
    out.append(p.as_str());
    out
}

pub open spec fn strategy_word(s: WorkspaceStrategy) -> Seq<char> {
    match s {
        WorkspaceStrategy::Worktree => "worktree"@,
        WorkspaceStrategy::InPlace => "in_place"@,
    }
}

pub open spec fn state_word(s: IssueState) -> Seq<char> {
    match s {
        IssueState::Open => "open"@,
        IssueState::Closed => "closed"@,
    }
}

pub open spec fn opt_line(o: Option<String>, label: Seq<char>) -> Seq<Seq<char>> {
    match o {
        Some(v) => seq![label + v@],
        None => Seq::empty(),
    }
}

pub open spec fn list_line(v: Seq<String>, label: Seq<char>) -> Seq<Seq<char>> {
    if v.len() == 0 {
        Seq::empty()
    } else {
        seq![label + join_seqs(sviews(v), ", "@)]
    }
}

/// The detail lines: scope and workspace strategy (a worktree unless the
/// autoflow says otherwise), then each of workspace branch, reconcile
/// interval, claim ttl, outcome output, project root and preferred checkout
/// that is set, the workflow path, and the wake events, labels, states and
/// limit the autoflow sets.
pub open spec fn spec_show_details(entry: VisibleAutoflow, a: AutoflowView) -> Seq<Seq<char>> {
    let strategy = match a.workspace {
        Some(w) => strategy_word(w.strategy),
        None => "worktree"@,
    };
    let branch = match a.workspace {
        Some(w) => w.branch,
        None => None,
    };
    seq!["scope: "@ + entry.scope@ + "  ·  workspace: "@ + strategy] + opt_line(branch, "workspace branch: "@)
        + opt_line(a.reconcile_every, "reconcile every: "@) + opt_line(a.claim_ttl, "claim ttl: "@) + opt_line(
        a.outcome_output,
        "outcome output: "@,
    ) + opt_line(entry.project_root, "project root: "@) + opt_line(entry.preferred_checkout, "preferred checkout: "@)
        + seq!["path: "@ + entry.workflow_path@] + list_line(a.wake_on@, "wake on: "@) + list_line(
        a.labels_all@,
        "labels all: "@,
    ) + list_line(a.labels_any@, "labels any: "@) + list_line(a.labels_none@, "labels none: "@) + (if a.states@.len()
        == 0 {
        Seq::<Seq<char>>::empty()
    } else {
        seq!["selector states: "@ + join_seqs(a.states@.map_values(|s: IssueState| state_word(s)), ", "@)]
    }) + match a.limit {
        Some(n) => seq!["selector limit: "@ + decimal(n as nat)],
        None => Seq::empty(),
    }
}

fn push_opt(lines: &mut Vec<String>, o: &Option<String>, label: &str)
    ensures
        sviews(final(lines)@) == sviews(old(lines)@) + opt_line(*o, label@),
{
    let ghost pre = sviews(lines@);
    match o {
        Some(v) => {
            let mut s = String::from_str(label);
            s.append(v.as_str());
            lines.push(s);
            proof {
                assert(sviews(lines@) =~= pre + opt_line(*o, label@));
            }
        },
        None => {
            proof {
                assert(sviews(lines@) =~= pre + opt_line(*o, label@));
            }
        },
    }
}

fn push_list(lines: &mut Vec<String>, v: &Vec<String>, label: &str)
    ensures
        sviews(final(lines)@) == sviews(old(lines)@) + list_line(v@, label@),
{
    let ghost pre = sviews(lines@);
    if v.len() == 0 {
        proof {
            assert(sviews(lines@) =~= pre + list_line(v@, label@));
        }
    } else {
        let mut s = String::from_str(label);
        let joined = join_strings(v, ", ");
        s.append(joined.as_str());
        lines.push(s);
        proof {
            assert(sviews(lines@) =~= pre + list_line(v@, label@));
        }
    }
}

fn state_names(states: &Vec<IssueState>) -> (r: Vec<String>)
    ensures
        sviews(r@) == states@.map_values(|s: IssueState| state_word(s)),
{
    let mut out: Vec<String> = Vec::new();
    let mut i: usize = 0;
    while i < states.len()
        invariant
            i <= states@.len(),
            sviews(out@) == states@.subrange(0, i as int).map_values(|s: IssueState| state_word(s)),
        decreases states@.len() - i,
    {
        let ghost pre = sviews(out@);
        out.push(String::from_str(issue_state_name(states[i])));
        proof {
            assert(sviews(out@) =~= pre.push(state_word(states@[i as int])));
            assert(states@.subrange(0, i + 1).map_values(|s: IssueState| state_word(s)) =~= states@.subrange(
                0,
                i as int,
            ).map_values(|s: IssueState| state_word(s)).push(state_word(states@[i as int])));
        }
        i = i + 1;
    }
    proof {
        assert(states@.subrange(0, states@.len() as int) =~= states@);
    }
    out
}

/// The detail lines of `autoflow show` (see `spec_show_details`).
pub fn show_summary_details(entry: &VisibleAutoflow, a: &AutoflowView) -> (r: Vec<String>)
    ensures
        sviews(r@) == spec_show_details(*entry, *a),
{
    let mut lines: Vec<String> = Vec::new();
    let mut first = String::from_str("scope: ");
    first.append(entry.scope.as_str());
    first.append("  ·  workspace: ");
    let no_branch: Option<String> = None;
    let branch: &Option<String> = match &a.workspace {
        Some(w) => {
            match w.strategy {
                WorkspaceStrategy::Worktree => first.append("worktree"),
                WorkspaceStrategy::InPlace => first.append("in_place"),
            }
            &w.branch
        },
        None => {
            first.append("worktree");
            &no_branch
        },
    };
    lines.push(first);
    push_opt(&mut lines, branch, "workspace branch: ");
    push_opt(&mut lines, &a.reconcile_every, "reconcile every: ");
    push_opt(&mut lines, &a.claim_ttl, "claim ttl: ");
    push_opt(&mut lines, &a.outcome_output, "outcome output: ");
    push_opt(&mut lines, &entry.project_root, "project root: ");
    push_opt(&mut lines, &entry.preferred_checkout, "preferred checkout: ");
    let mut path = String::from_str("path: ");
    path.append(entry.workflow_path.as_str());
    let ghost before_path = sviews(lines@);
    lines.push(path);
    proof {
        assert(sviews(lines@) =~= before_path + seq!["path: "@ + entry.workflow_path@]);
    }
    push_list(&mut lines, &a.wake_on, "wake on: ");
    push_list(&mut lines, &a.labels_all, "labels all: ");
    push_list(&mut lines, &a.labels_any, "labels any: ");
    push_list(&mut lines, &a.labels_none, "labels none: ");
    let ghost before_states = sviews(lines@);
    if a.states.len() > 0 {
        let names = state_names(&a.states);
        let mut s = String::from_str("selector states: ");
        let joined = join_strings(&names, ", ");
        s.append(joined.as_str());
        lines.push(s);
    }
    proof {
        assert(sviews(lines@) =~= before_states + (if a.states@.len() == 0 {
            Seq::<Seq<char>>::empty()
        } else {
            seq!["selector states: "@ + join_seqs(a.states@.map_values(|s: IssueState| state_word(s)), ", "@)]
        }));
    }
    let ghost before_limit = sviews(lines@);
    match a.limit {
        Some(n) => {
            let mut s = String::from_str("selector limit: ");
            let t = usize_to_string(n);
            s.append(t.as_str());
            lines.push(s);
        },
        None => {},
    }
    proof {
        assert(sviews(lines@) =~= before_limit + match a.limit {
            Some(n) => seq!["selector limit: "@ + decimal(n as nat)],
            None => Seq::<Seq<char>>::empty(),
        });
    }
    lines
}

} // verus!

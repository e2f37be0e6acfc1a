//! The one-line run facts of the autoflow show and history views: who ran,
//! how many steps finished, and what changed in the workspace.

use vstd::prelude::*;
use vstd::string::*;
use crate::autoflow::shape::{format_count, group_thousands, spec_truncate, truncate_text};
use crate::number::{decimal, usize_to_string};
use crate::text::{join_seqs, join_strings};
use crate::ui::UiStatus;

verus! {

/// What changed in a run's workspace.
#[derive(Debug, Clone)]
pub struct RunDiffSummary {
    pub files_changed: usize,
    pub created: usize,
    pub modified: usize,
    pub deleted: usize,
    pub renamed: usize,
    pub insertions: u64,
    pub deletions: u64,
    pub top_files: Vec<String>,
    pub merge_target: Option<String>,
}

/// The parts of a run summary that these lines show.
#[derive(Debug, Clone)]
pub struct RunSummary {
    pub agents: Vec<String>,
    pub providers: Vec<String>,
    pub models: Vec<String>,
    pub file_edit_events: u64,
    pub file_creates: u64,
    pub file_modifies: u64,
    pub file_deletes: u64,
    pub diff: Option<RunDiffSummary>,
    /// The status class of each step, in order.
    pub steps: Vec<UiStatus>,
}

pub open spec fn views(v: Seq<String>) -> Seq<Seq<char>> {
    v.map_values(|s: String| s@)
}

/// A step counts as done when it completed or was skipped.
pub open spec fn step_done(s: UiStatus) -> bool {
    s == UiStatus::Complete || s == UiStatus::Skipped
}

pub open spec fn done_count(steps: Seq<UiStatus>) -> nat
    decreases steps.len(),
{
    if steps.len() == 0 {
        0
    } else {
        done_count(steps.drop_last()) + if step_done(steps.last()) { 1nat } else { 0nat }
    }
}

/// How many steps of the run completed or were skipped.
pub fn completed_steps(summary: &RunSummary) -> (r: usize)
    ensures
        r == done_count(summary.steps@),
{
    let mut n: usize = 0;
    let mut i: usize = 0;
    while i < summary.steps.len()
        invariant
            i <= summary.steps@.len(),
            n == done_count(summary.steps@.subrange(0, i as int)),
            n <= i,
        decreases summary.steps@.len() - i,
    {
        proof {
            assert(summary.steps@.subrange(0, i + 1).drop_last() =~= summary.steps@.subrange(0, i as int));
        }
        let s = summary.steps[i];
        if matches!(s, UiStatus::Complete) || matches!(s, UiStatus::Skipped) {
            n = n + 1;
        }
        i = i + 1;
    }
    proof {
        assert(summary.steps@.subrange(0, summary.steps@.len() as int) =~= summary.steps@);
    }
    n
}

/// A list joined with `, ` and cut to `max` characters, or `—` when empty.
pub open spec fn names_cell(names: Seq<Seq<char>>, max: nat) -> Seq<char> {
    if names.len() == 0 {
        "—"@
    } else {
        spec_truncate(join_seqs(names, ", "@), max)
    }
}

fn names_cell_of(names: &Vec<String>, max: usize) -> (r: String)
    ensures
        r@ == names_cell(views(names@), max as nat),
{
    if names.len() == 0 {
        String::from_str("—")
    } else {
        let joined = join_strings(names, ", ");
        truncate_text(joined.as_str(), max)
    }
}

/// `agents <a>  ·  providers <p>  ·  models <m>`, each list cut to 28, 24
/// and 36 characters.
pub open spec fn spec_models_line(s: RunSummary) -> Seq<char> {
    "agents "@ + names_cell(views(s.agents@), 28) + "  ·  providers "@ + names_cell(views(s.providers@), 24)
        + "  ·  models "@ + names_cell(views(s.models@), 36)
}

pub fn format_run_models_line(summary: &RunSummary) -> (r: String)
    ensures
        r@ == spec_models_line(*summary),
{
    let mut out = String::from_str("agents ");
    let a = names_cell_of(&summary.agents, 28);
    out.append(a.as_str());
    out.append("  ·  providers ");
    let p = names_cell_of(&summary.providers, 24);
    out.append(p.as_str());
    out.append("  ·  models ");
    let m = names_cell_of(&summary.models, 36);
    out.append(m.as_str());
    out
}

pub open spec fn counted(n: u64) -> Seq<char> {
    group_thousands(decimal(n as nat))
}

/// The edit counts that lead the changes line.
pub open spec fn spec_edit_counts(s: RunSummary) -> Seq<char> {
    "edit events "@ + counted(s.file_edit_events) + "  ·  creates "@ + counted(s.file_creates)
        + "  ·  modifies "@ + counted(s.file_modifies) + "  ·  deletes "@ + counted(s.file_deletes)
}

/// The workspace parts of the changes line: the counts, then the top files
/// (cut to 44 characters) where there are some, then the merge target.
pub open spec fn diff_parts(d: RunDiffSummary) -> Seq<Seq<char>> {
    let head = "workspace "@ + decimal(d.files_changed as nat) + " file(s)  ·  "@ + decimal(d.created as nat)
        + " new  ·  "@ + decimal(d.modified as nat) + " modified  ·  "@ + decimal(d.deleted as nat)
        + " deleted  ·  "@ + decimal(d.renamed as nat) + " renamed  ·  +"@ + counted(d.insertions) + "/-"@
        + counted(d.deletions);
    let with_files = if d.top_files@.len() > 0 {
        seq![head, "files "@ + spec_truncate(join_seqs(views(d.top_files@), ", "@), 44)]
    } else {
        seq![head]
    };
    match d.merge_target {
        Some(t) => with_files.push("merge -> "@ + t@),
        None => with_files,
    }
}

/// The changes line: the edit counts, then the workspace parts where a
/// workspace diff was taken.
pub open spec fn spec_diff_line(s: RunSummary) -> Seq<char> {
    match s.diff {
        Some(d) => spec_edit_counts(s) + "  ·  "@ + join_seqs(diff_parts(d), "  ·  "@),
        None => spec_edit_counts(s),
    }
}

fn edit_counts(summary: &RunSummary) -> (r: String)
    ensures
        r@ == spec_edit_counts(*summary),
{
    let mut out = String::from_str("edit events ");
    let a = format_count(summary.file_edit_events);
    out.append(a.as_str());
    out.append("  ·  creates ");
    let b = format_count(summary.file_creates);
    out.append(b.as_str());
    out.append("  ·  modifies ");
    let c = format_count(summary.file_modifies);
    out.append(c.as_str());
    out.append("  ·  deletes ");
    let d = format_count(summary.file_deletes);
    out.append(d.as_str());
    out
}

fn diff_head(d: &RunDiffSummary) -> (r: String)
    ensures
        r@ == diff_parts(*d)[0],
{
    let mut out = String::from_str("workspace ");
    let a = usize_to_string(d.files_changed);
    out.append(a.as_str());
    out.append(" file(s)  ·  ");
    let b = usize_to_string(d.created);
    out.append(b.as_str());
    out.append(" new  ·  ");
    let c = usize_to_string(d.modified);
    out.append(c.as_str());
    out.append(" modified  ·  ");
    let e = usize_to_string(d.deleted);
    out.append(e.as_str());
    out.append(" deleted  ·  ");
    let f = usize_to_string(d.renamed);
    out.append(f.as_str());
    out.append(" renamed  ·  +");
    let g = format_count(d.insertions);
    out.append(g.as_str());
    out.append("/-");
    let h = format_count(d.deletions);
    out.append(h.as_str());
    out
}

fn diff_part_strings(d: &RunDiffSummary) -> (r: Vec<String>)
    ensures
        views(r@) == diff_parts(*d),
{
    let mut parts: Vec<String> = Vec::new();
    parts.push(diff_head(d));
    if d.top_files.len() > 0 {
        let joined = join_strings(&d.top_files, ", ");
        let mut f = String::from_str("files ");
        let t = truncate_text(joined.as_str(), 44);
        f.append(t.as_str());
        parts.push(f);
    }
    match &d.merge_target {
        Some(t) => {
            let mut m = String::from_str("merge -> ");
            m.append(t.as_str());
            parts.push(m);
        },
        None => {},
    }
    proof {
        assert(views(parts@) =~= diff_parts(*d));
    }
    parts
}

pub fn format_run_diff_line(summary: &RunSummary) -> (r: String)
    ensures
        r@ == spec_diff_line(*summary),
{
    let mut out = edit_counts(summary);
    match &summary.diff {
        Some(d) => {
            let parts = diff_part_strings(d);
            let joined = join_strings(&parts, "  ·  ");
            out.append("  ·  ");
            out.append(joined.as_str());
        },
        None => {},
    }
    out
}

} // verus!

//! Which run is the live one for a claim: the latest top-level run of the
//! claim's workflow on its issue that has not finished.

use vstd::prelude::*;
use crate::autoflow::cycle::{run_status_from_name, spec_run_status_name, RunStatus};
use crate::text::str_eq;
use crate::time::{lt, parse_rfc3339, spec_rfc3339_instant, ts_le, ts_lt, Timestamp};

verus! {

/// What a run record says about where it belongs and how far it got.
#[derive(Debug, Clone)]
pub struct RunHeader {
    /// Whether the run was started by another run.
    pub has_parent: bool,
    pub issue_ref: Option<String>,
    pub workflow: String,
    pub status: RunStatus,
    pub started_at: Timestamp,
}

/// The header of a run record from its fields as stored: the status by its
/// name and the start as RFC 3339 text. Nothing where either cannot be read.
pub fn run_header(has_parent: bool, issue_ref: Option<String>, workflow: String, status_name: &str, started_at: &str) -> (r:
    Option<RunHeader>)
    ensures
        match r {
            Some(h) => {
                &&& h.has_parent == has_parent
                &&& h.issue_ref == issue_ref
                &&& h.workflow == workflow
                &&& spec_run_status_name(h.status) == status_name@
                &&& spec_rfc3339_instant(started_at@) == Some((h.started_at.secs as int, h.started_at.nanos as int))
            },
            None => (forall|s: RunStatus| spec_run_status_name(s) != status_name@) || spec_rfc3339_instant(started_at@) is None,
        },
{
    let status = match run_status_from_name(status_name) {
        Some(s) => s,
        None => return None,
    };
    match parse_rfc3339(started_at) {
        Some(t) => Some(RunHeader { has_parent, issue_ref, workflow, status, started_at: t }),
        None => None,
    }
}

/// A run is live for an issue and workflow when it is top-level, about that
/// issue, of that workflow, and not completed, failed or rejected.
pub open spec fn live_for(r: RunHeader, issue: Seq<char>, workflow: Seq<char>) -> bool {
    &&& !r.has_parent
    &&& r.issue_ref matches Some(i) && i@ == issue
    &&& r.workflow@ == workflow
    &&& !(r.status == RunStatus::Completed || r.status == RunStatus::Failed || r.status == RunStatus::Rejected)
}

fn is_live(r: &RunHeader, issue: &str, workflow: &str) -> (b: bool)
    ensures
        b == live_for(*r, issue@, workflow@),
{
    if r.has_parent {
        return false;
    }
    let same_issue = match &r.issue_ref {
        Some(i) => str_eq(i.as_str(), issue),
        None => false,
    };
    same_issue && str_eq(r.workflow.as_str(), workflow) && !matches!(r.status, RunStatus::Completed)
        && !matches!(r.status, RunStatus::Failed) && !matches!(r.status, RunStatus::Rejected)
}

/// The live run for `issue` and `workflow`: among the live runs, the one
/// started last, the first listed where several started at that instant.
pub fn find_live_run(runs: &Vec<RunHeader>, issue: &str, workflow: &str) -> (r: Option<usize>)
    ensures
        match r {
            Some(i) => {
                &&& i < runs@.len()
                &&& live_for(runs@[i as int], issue@, workflow@)
                &&& forall|k: int|
                    0 <= k < runs@.len() && live_for(#[trigger] runs@[k], issue@, workflow@) ==> ts_le(
                        runs@[k].started_at,
                        runs@[i as int].started_at,
                    )
                &&& forall|k: int|
                    0 <= k < i && live_for(#[trigger] runs@[k], issue@, workflow@) ==> ts_lt(
                        runs@[k].started_at,
                        runs@[i as int].started_at,
                    )
            },
            None => forall|k: int| 0 <= k < runs@.len() ==> !live_for(#[trigger] runs@[k], issue@, workflow@),
        },
{
    let mut best: Option<usize> = None;
    let mut i: usize = 0;
    while i < runs.len()
        invariant
            i <= runs@.len(),
            match best {
                Some(b) => {
                    &&& b < i
                    &&& live_for(runs@[b as int], issue@, workflow@)
                    &&& forall|k: int|
                        0 <= k < i && live_for(#[trigger] runs@[k], issue@, workflow@) ==> ts_le(
                            runs@[k].started_at,
                            runs@[b as int].started_at,
                        )
                    &&& forall|k: int|
                        0 <= k < b && live_for(#[trigger] runs@[k], issue@, workflow@) ==> ts_lt(
                            runs@[k].started_at,
                            runs@[b as int].started_at,
                        )
                },
                None => forall|k: int| 0 <= k < i ==> !live_for(#[trigger] runs@[k], issue@, workflow@),
            },
        decreases runs@.len() - i,
    {
        if is_live(&runs[i], issue, workflow) {
            match best {
                Some(b) => {
                    if lt(runs[b].started_at, runs[i].started_at) {
                        best = Some(i);
                    }
                },
                None => {
                    best = Some(i);
                },
            }
        }
        i = i + 1;
    }
    best
}

} // verus!

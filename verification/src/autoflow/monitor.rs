//! The monitor and history views: recorded pass events and passes filtered
//! by repo and worker, the latest activity per issue, and the rows shown for
//! claims, workers and events.

use vstd::prelude::*;
use vstd::string::*;
use crate::autoflow::claims::{
    claim_summary, format_contenders, next_action_summary, selected_priority, spec_next_action, spec_selected_priority,
    spec_status_name, status_name, AutoflowClaimRow, AutoflowContender, ClaimRecord, contender_text,
};
use crate::autoflow::events::{monitor_event_name, spec_monitor_event_name, CycleEvent};
use crate::autoflow::history::{ov, HistoryEvent};
use crate::autoflow::runtime::{CycleMode, WorkerKind};
use crate::autoflow::shape::spec_truncate;
use crate::number::{i64_to_string, signed_decimal};
use crate::autoflow::select::{lemma_lex_lt_irreflexive, lemma_lex_lt_total, lemma_lex_lt_transitive, lex_less, lex_lt};
use crate::text::{join_seqs, str_eq, trim_seq};

verus! {

/// One recorded event with the pass it belongs to.
#[derive(Debug, Clone)]
pub struct HistoryRecord {
    pub at: String,
    pub cycle_id: String,
    pub mode: CycleMode,
    pub worker_id: Option<String>,
    pub worker_name: Option<String>,
    pub repo_filter: Option<String>,
    pub event: HistoryEvent,
}

/// One recorded pass.
#[derive(Debug, Clone)]
pub struct CycleRecord {
    pub started_at: String,
    pub worker_id: Option<String>,
    pub worker_name: Option<String>,
    pub repo_filter: Option<String>,
    pub ran_cycles: usize,
    pub failed_cycles: usize,
    pub events: Vec<HistoryEvent>,
}

pub open spec fn opt_str(o: Option<&str>) -> Option<Seq<char>> {
    match o {
        Some(s) => Some(s@),
        None => None,
    }
}

pub open spec fn is_some_text(o: Option<String>, t: Seq<char>) -> bool {
    o matches Some(s) && s@ == t
}

/// A `--worker` filter admits the worker by id or by name; no filter admits
/// every worker. A missing id or name reads as empty.
pub open spec fn worker_admits(filter: Option<Seq<char>>, id: Option<String>, name: Option<String>) -> bool {
    match filter {
        Some(f) => f == (match id {
            Some(s) => s@,
            None => Seq::empty(),
        }) || f == (match name {
            Some(s) => s@,
            None => Seq::empty(),
        }),
        None => true,
    }
}

/// A recorded event shows under the repo filter when its pass was filtered
/// to that repo or the event is about it, and under the worker filter when
/// its worker matches.
pub open spec fn event_admitted(repo: Option<Seq<char>>, worker: Option<Seq<char>>, r: HistoryRecord) -> bool {
    &&& match repo {
        Some(f) => is_some_text(r.repo_filter, f) || is_some_text(r.event.repo_ref, f),
        None => true,
    }
    &&& worker_admits(worker, r.worker_id, r.worker_name)
}

/// Some event of the pass is about `repo`.
pub open spec fn cycle_touches(events: Seq<HistoryEvent>, repo: Seq<char>) -> bool {
    exists|i: int| 0 <= i < events.len() && is_some_text((#[trigger] events[i]).repo_ref, repo)
}

/// A recorded pass shows under the repo filter when it was filtered to that
/// repo or one of its events is about it, and under the worker filter when
/// its worker matches.
pub open spec fn cycle_admitted(repo: Option<Seq<char>>, worker: Option<Seq<char>>, c: CycleRecord) -> bool {
    &&& match repo {
        Some(f) => is_some_text(c.repo_filter, f) || cycle_touches(c.events@, f),
        None => true,
    }
    &&& worker_admits(worker, c.worker_id, c.worker_name)
}

fn text_is(o: &Option<String>, t: &str) -> (r: bool)
    ensures
        r == is_some_text(*o, t@),
{
    match o {
        Some(s) => str_eq(s.as_str(), t),
        None => false,
    }
}

fn worker_ok(filter: Option<&str>, id: &Option<String>, name: &Option<String>) -> (r: bool)
    ensures
        r == worker_admits(opt_str(filter), *id, *name),
{
    match filter {
        None => true,
        Some(f) => {
            let a = match id {
                Some(s) => str_eq(f, s.as_str()),
                None => str_eq(f, ""),
            };
            let b = match name {
                Some(s) => str_eq(f, s.as_str()),
                None => str_eq(f, ""),
            };
            proof {
                reveal_strlit("");
                assert(""@ =~= Seq::<char>::empty());
            }
            a || b
        },
    }
}

/// Keep the items whose flag is set, in order.
pub(crate) fn keep_flagged<T>(v: Vec<T>, flags: &Vec<bool>, Ghost(pred): Ghost<spec_fn(T) -> bool>) -> (r: Vec<T>)
    requires
        flags@.len() == v@.len(),
        forall|i: int| 0 <= i < v@.len() ==> flags@[i] == pred(#[trigger] v@[i]),
    ensures
        r@ == v@.filter(pred),
{
    let ghost all = v@;
    let total = v.len();
    let mut v = v;
    let mut kept: Vec<T> = Vec::new();
    let mut i: usize = 0;
    proof {
        reveal(Seq::filter);
        assert(all.subrange(0, 0).filter(pred) =~= Seq::<T>::empty());
        assert(v@ =~= all.subrange(0, total as int));
    }
    while v.len() > 0
        invariant
            all.len() == total,
            flags@.len() == total,
            forall|k: int| 0 <= k < total ==> flags@[k] == pred(#[trigger] all[k]),
            i + v@.len() == total,
            v@ == all.subrange(i as int, total as int),
            kept@ == all.subrange(0, i as int).filter(pred),
        decreases v@.len(),
    {
        let x = v.remove(0);
        proof {
            assert(v@ =~= all.subrange(i + 1, total as int));
            assert(all.subrange(0, i + 1) =~= all.subrange(0, i as int).push(all[i as int]));
            all.subrange(0, i as int).lemma_filter_push(all[i as int], pred);
        }
        if flags[i] {
            kept.push(x);
        }
        i = i + 1;
    }
    proof {
        assert(all.subrange(0, total as int) =~= all);
    }
    kept
}

/// The recorded events the filters admit, in order.
pub fn filter_monitor_events(events: Vec<HistoryRecord>, repo_filter: Option<&str>, worker_filter: Option<&str>) -> (r:
    Vec<HistoryRecord>)
    ensures
        r@ == events@.filter(|e: HistoryRecord| event_admitted(opt_str(repo_filter), opt_str(worker_filter), e)),
{
    let ghost pred = |e: HistoryRecord| event_admitted(opt_str(repo_filter), opt_str(worker_filter), e);
    let mut flags: Vec<bool> = Vec::new();
    let mut i: usize = 0;
    while i < events.len()
        invariant
            i <= events@.len(),
            flags@.len() == i,
            pred == (|e: HistoryRecord| event_admitted(opt_str(repo_filter), opt_str(worker_filter), e)),
            forall|k: int| 0 <= k < i ==> flags@[k] == pred(#[trigger] events@[k]),
        decreases events@.len() - i,
    {
        let e = &events[i];
        let repo_ok = match repo_filter {
            Some(f) => text_is(&e.repo_filter, f) || text_is(&e.event.repo_ref, f),
            None => true,
        };
        flags.push(repo_ok && worker_ok(worker_filter, &e.worker_id, &e.worker_name));
        i = i + 1;
    }
    keep_flagged(events, &flags, Ghost(pred))
}

fn touches(events: &Vec<HistoryEvent>, repo: &str) -> (r: bool)
    ensures
        r == cycle_touches(events@, repo@),
{
    let mut i: usize = 0;
    while i < events.len()
        invariant
            i <= events@.len(),
            forall|k: int| 0 <= k < i ==> !is_some_text((#[trigger] events@[k]).repo_ref, repo@),
        decreases events@.len() - i,
    {
        if text_is(&events[i].repo_ref, repo) {
            return true;
        }
        i = i + 1;
    }
    false
}

/// The recorded passes the filters admit, in order.
pub fn filter_monitor_cycles(cycles: Vec<CycleRecord>, repo_filter: Option<&str>, worker_filter: Option<&str>) -> (r:
    Vec<CycleRecord>)
    ensures
        r@ == cycles@.filter(|c: CycleRecord| cycle_admitted(opt_str(repo_filter), opt_str(worker_filter), c)),
{
    let ghost pred = |c: CycleRecord| cycle_admitted(opt_str(repo_filter), opt_str(worker_filter), c);
    let mut flags: Vec<bool> = Vec::new();
    let mut i: usize = 0;
    while i < cycles.len()
        invariant
            i <= cycles@.len(),
            flags@.len() == i,
            pred == (|c: CycleRecord| cycle_admitted(opt_str(repo_filter), opt_str(worker_filter), c)),
            forall|k: int| 0 <= k < i ==> flags@[k] == pred(#[trigger] cycles@[k]),
        decreases cycles@.len() - i,
    {
        let c = &cycles[i];
        let repo_ok = match repo_filter {
            Some(f) => text_is(&c.repo_filter, f) || touches(&c.events, f),
            None => true,
        };
        flags.push(repo_ok && worker_ok(worker_filter, &c.worker_id, &c.worker_name));
        i = i + 1;
    }
    keep_flagged(cycles, &flags, Ghost(pred))
}

/// The latest recorded activity on an issue.
#[derive(Debug, Clone)]
pub struct RecentIssueActivity {
    pub at: String,
    pub event: String,
    pub run_id: Option<String>,
}

pub open spec fn history_cycle_event(e: HistoryEvent) -> CycleEvent {
    CycleEvent { kind: e.kind, status: e.status, issue_ref: e.issue_ref }
}

/// The index of the first (most recent) event about the issue.
pub open spec fn first_about(events: Seq<HistoryRecord>, issue_ref: Seq<char>) -> Option<int> {
    if exists|i: int| 0 <= i < events.len() && is_some_text((#[trigger] events[i]).event.issue_ref, issue_ref) {
        Some(
            choose|i: int|
                0 <= i < events.len() && is_some_text((#[trigger] events[i]).event.issue_ref, issue_ref) && forall|j: int|
                    0 <= j < i ==> !is_some_text(events[j].event.issue_ref, issue_ref),
        )
    } else {
        None
    }
}

/// The latest activity on an issue among events listed newest first: the
/// time, the event's monitor name and its run of the first event about it.
pub fn recent_activity_for(events: &Vec<HistoryRecord>, issue_ref: &str) -> (r: Option<RecentIssueActivity>)
    ensures
        match first_about(events@, issue_ref@) {
            Some(i) => r matches Some(a) && a.at@ == events@[i].at@ && a.event@ == spec_monitor_event_name(
                history_cycle_event(events@[i].event),
            ) && ov(a.run_id) == ov(events@[i].event.run_id),
            None => r is None,
        },
{
    let mut i: usize = 0;
    while i < events.len()
        invariant
            i <= events@.len(),
            forall|k: int| 0 <= k < i ==> !is_some_text((#[trigger] events@[k]).event.issue_ref, issue_ref@),
        decreases events@.len() - i,
    {
        let e = &events[i];
        if text_is(&e.event.issue_ref, issue_ref) {
            proof {
                let w = choose|w: int|
                    0 <= w < events@.len() && is_some_text((#[trigger] events@[w]).event.issue_ref, issue_ref@) && forall|
                        j: int,
                    | 0 <= j < w ==> !is_some_text(events@[j].event.issue_ref, issue_ref@);
                if w < i {
                } else if w > i {
                }
            }
            let ce = CycleEvent { kind: e.event.kind, status: e.event.status.clone(), issue_ref: e.event.issue_ref.clone() };
            return Some(
                RecentIssueActivity {
                    at: e.at.clone(),
                    event: monitor_event_name(&ce),
                    run_id: e.event.run_id.clone(),
                },
            );
        }
        i = i + 1;
    }
    None
}

/// A text field shown as `-` when absent.
pub open spec fn or_dash(o: Option<Seq<char>>) -> Seq<char> {
    match o {
        Some(s) => s,
        None => "-"@,
    }
}

fn text_or_dash(o: &Option<String>) -> (r: String)
    ensures
        r@ == or_dash(ov(*o)),
{
    match o {
        Some(s) => s.clone(),
        None => String::from_str("-"),
    }
}

/// The row a claim shows as in the claim and monitor listings, given the
/// latest activity on its issue.
pub open spec fn claim_row_ok(claim: ClaimRecord, recent: Option<RecentIssueActivity>, row: AutoflowClaimRow) -> bool {
    &&& row.issue@ == claim.issue_ref@
    &&& ov(row.issue_display) == ov(claim.issue_display_ref)
    &&& ov(row.tracker) == ov(claim.issue_tracker)
    &&& ov(row.state) == ov(claim.issue_state_name)
    &&& ov(row.source) == ov(claim.source_ref)
    &&& row.repo@ == claim.repo_ref@
    &&& row.workflow@ == claim.workflow@
    &&& row.priority@ == match spec_selected_priority(claim.contenders@) {
        Some(p) => signed_decimal(p as int),
        None => "-"@,
    }
    &&& row.status@ == spec_status_name(claim.status)
    &&& row.next@ == spec_next_action(claim)
    &&& row.branch@ == or_dash(ov(claim.branch))
    &&& row.pr@ == or_dash(ov(claim.pr_url))
    &&& row.summary@ == match claim.last_summary {
        Some(s) => spec_truncate(trim_seq(s@), 48),
        None => "-"@,
    }
    &&& row.contenders@ == (if claim.contenders@.len() == 0 {
        "-"@
    } else {
        join_seqs(claim.contenders@.map_values(|c: AutoflowContender| contender_text(c)), ", "@)
    })
    &&& row.workspace@ == or_dash(ov(claim.worktree_path))
    &&& row.last_cycle@ == match recent {
        Some(a) => a.at@,
        None => "-"@,
    }
    &&& row.last_event@ == match recent {
        Some(a) => a.event@,
        None => "-"@,
    }
    &&& row.last_run@ == match recent {
        Some(a) => match a.run_id {
            Some(r) => r@,
            None => or_dash(ov(claim.last_run_id)),
        },
        None => or_dash(ov(claim.last_run_id)),
    }
}

/// The row a claim shows as.
pub fn claim_row(claim: &ClaimRecord, recent: Option<&RecentIssueActivity>) -> (r: AutoflowClaimRow)
    ensures
        claim_row_ok(
            *claim,
            match recent {
                Some(a) => Some(*a),
                None => None,
            },
            r,
        ),
{
    let priority = match selected_priority(&claim.contenders) {
        Some(p) => i64_to_string(p as i64),
        None => String::from_str("-"),
    };
    let (last_cycle, last_event) = match recent {
        Some(a) => (a.at.clone(), a.event.clone()),
        None => (String::from_str("-"), String::from_str("-")),
    };
    let last_run = match recent {
        Some(a) => match &a.run_id {
            Some(r) => r.clone(),
            None => text_or_dash(&claim.last_run_id),
        },
        None => text_or_dash(&claim.last_run_id),
    };
    AutoflowClaimRow {
        issue: claim.issue_ref.clone(),
        issue_display: claim.issue_display_ref.clone(),
        tracker: claim.issue_tracker.clone(),
        state: claim.issue_state_name.clone(),
        source: claim.source_ref.clone(),
        repo: claim.repo_ref.clone(),
        workflow: claim.workflow.clone(),
        priority,
        status: String::from_str(status_name(claim.status)),
        next: next_action_summary(claim),
        branch: text_or_dash(&claim.branch),
        pr: text_or_dash(&claim.pr_url),
        summary: claim_summary(claim),
        contenders: format_contenders(&claim.contenders),
        workspace: text_or_dash(&claim.worktree_path),
        last_cycle,
        last_event,
        last_run,
    }
}


/// The first recorded pass (newest first) run by the worker with this id or
/// name.
pub open spec fn spec_latest_cycle(cycles: Seq<CycleRecord>, key: Seq<char>) -> Option<int> {
    if exists|i: int|
        0 <= i < cycles.len() && (is_some_text((#[trigger] cycles[i]).worker_id, key) || is_some_text(
            cycles[i].worker_name,
            key,
        )) {
        Some(
            choose|i: int|
                0 <= i < cycles.len() && (is_some_text((#[trigger] cycles[i]).worker_id, key) || is_some_text(
                    cycles[i].worker_name,
                    key,
                )) && forall|j: int|
                    0 <= j < i ==> !(is_some_text(cycles[j].worker_id, key) || is_some_text(cycles[j].worker_name, key)),
        )
    } else {
        None
    }
}

/// The latest recorded pass of the worker with this id or name.
pub fn latest_cycle_for(cycles: &Vec<CycleRecord>, key: &str) -> (r: Option<usize>)
    ensures
        match spec_latest_cycle(cycles@, key@) {
            Some(i) => r matches Some(k) && k as int == i,
            None => r is None,
        },
        r matches Some(i) ==> i < cycles@.len(),
{
    let mut i: usize = 0;
    while i < cycles.len()
        invariant
            i <= cycles@.len(),
            forall|k: int|
                0 <= k < i ==> !(is_some_text((#[trigger] cycles@[k]).worker_id, key@) || is_some_text(
                    cycles@[k].worker_name,
                    key@,
                )),
        decreases cycles@.len() - i,
    {
        if text_is(&cycles[i].worker_id, key) || text_is(&cycles[i].worker_name, key) {
            proof {
                let w = choose|w: int|
                    0 <= w < cycles@.len() && (is_some_text((#[trigger] cycles@[w]).worker_id, key@) || is_some_text(
                        cycles@[w].worker_name,
                        key@,
                    )) && forall|j: int|
                        0 <= j < w ==> !(is_some_text(cycles@[j].worker_id, key@) || is_some_text(
                            cycles@[j].worker_name,
                            key@,
                        ));
                if w < i {
                } else if w > i {
                }
            }
            return Some(i);
        }
        i = i + 1;
    }
    None
}

/// A worker as the worker store keeps it.
#[derive(Debug, Clone)]
pub struct WorkerRecord {
    pub worker_id: String,
    pub name: String,
    pub kind: WorkerKind,
    pub last_seen_at: String,
}

/// A worker as the monitor shows it.
#[derive(Debug, Clone)]
pub struct MonitorWorkerRow {
    pub worker: String,
    pub kind: String,
    pub last_seen: String,
    pub last_cycle: String,
    pub repo_scope: String,
    pub ran: usize,
    pub failed: usize,
}

/// The pass a worker row reports: the worker's latest by id, else by name.
pub open spec fn worker_cycle(cycles: Seq<CycleRecord>, w: WorkerRecord) -> Option<int> {
    match spec_latest_cycle(cycles, w.worker_id@) {
        Some(i) => Some(i),
        None => spec_latest_cycle(cycles, w.name@),
    }
}

/// A worker shows when the worker filter admits it and, under a repo filter,
/// when it ran a pass the filter kept.
pub open spec fn worker_shown(cycles: Seq<CycleRecord>, repo: Option<Seq<char>>, worker: Option<Seq<char>>, w: WorkerRecord) -> bool {
    &&& match worker {
        Some(f) => f == w.worker_id@ || f == w.name@,
        None => true,
    }
    &&& (repo is Some ==> worker_cycle(cycles, w) is Some)
}

pub open spec fn worker_kind_name(k: WorkerKind) -> Seq<char> {
    match k {
        WorkerKind::Cli => "cli"@,
        WorkerKind::AutoflowServe => "autoflow_serve"@,
    }
}

/// The row a worker shows as.
pub open spec fn worker_row_ok(cycles: Seq<CycleRecord>, w: WorkerRecord, row: MonitorWorkerRow) -> bool {
    &&& row.worker@ == w.name@
    &&& row.kind@ == worker_kind_name(w.kind)
    &&& row.last_seen@ == w.last_seen_at@
    &&& match worker_cycle(cycles, w) {
        Some(i) => {
            &&& row.last_cycle@ == cycles[i].started_at@
            &&& row.repo_scope@ == or_dash(ov(cycles[i].repo_filter))
            &&& row.ran == cycles[i].ran_cycles
            &&& row.failed == cycles[i].failed_cycles
        },
        None => row.last_cycle@ == "-"@ && row.repo_scope@ == "-"@ && row.ran == 0 && row.failed == 0,
    }
}

/// The rows of the shown workers, in the order given.
pub open spec fn worker_rows_ok(
    cycles: Seq<CycleRecord>,
    repo: Option<Seq<char>>,
    worker: Option<Seq<char>>,
    ws: Seq<WorkerRecord>,
    rows: Seq<MonitorWorkerRow>,
) -> bool {
    let shown = ws.filter(|w: WorkerRecord| worker_shown(cycles, repo, worker, w));
    &&& rows.len() == shown.len()
    &&& forall|i: int| 0 <= i < rows.len() ==> worker_row_ok(cycles, shown[i], #[trigger] rows[i])
}

fn worker_row(cycles: &Vec<CycleRecord>, w: &WorkerRecord, cycle: Option<usize>) -> (r: MonitorWorkerRow)
    requires
        cycle matches Some(i) ==> i < cycles@.len(),
        match worker_cycle(cycles@, *w) {
            Some(i) => cycle matches Some(c) && c as int == i,
            None => cycle is None,
        },
    ensures
        worker_row_ok(cycles@, *w, r),
{
    match cycle {
        Some(i) => {
            let c = &cycles[i];
            MonitorWorkerRow {
                worker: w.name.clone(),
                kind: String::from_str(
                    match w.kind {
                        WorkerKind::Cli => "cli",
                        WorkerKind::AutoflowServe => "autoflow_serve",
                    },
                ),
                last_seen: w.last_seen_at.clone(),
                last_cycle: c.started_at.clone(),
                repo_scope: text_or_dash(&c.repo_filter),
                ran: c.ran_cycles,
                failed: c.failed_cycles,
            }
        },
        None => MonitorWorkerRow {
            worker: w.name.clone(),
            kind: String::from_str(
                match w.kind {
                    WorkerKind::Cli => "cli",
                    WorkerKind::AutoflowServe => "autoflow_serve",
                },
            ),
            last_seen: w.last_seen_at.clone(),
            last_cycle: String::from_str("-"),
            repo_scope: String::from_str("-"),
            ran: 0,
            failed: 0,
        },
    }
}

/// The rows of the shown workers, in the order given.
pub fn worker_rows(
    workers: &Vec<WorkerRecord>,
    cycles: &Vec<CycleRecord>,
    repo_filter: Option<&str>,
    worker_filter: Option<&str>,
) -> (r: Vec<MonitorWorkerRow>)
    ensures
        worker_rows_ok(cycles@, opt_str(repo_filter), opt_str(worker_filter), workers@, r@),
{
    let ghost pred = |w: WorkerRecord| worker_shown(cycles@, opt_str(repo_filter), opt_str(worker_filter), w);
    let mut rows: Vec<MonitorWorkerRow> = Vec::new();
    let mut i: usize = 0;
    proof {
        reveal(Seq::filter);
        assert(workers@.subrange(0, 0).filter(pred) =~= Seq::<WorkerRecord>::empty());
    }
    while i < workers.len()
        invariant
            i <= workers@.len(),
            pred == (|w: WorkerRecord| worker_shown(cycles@, opt_str(repo_filter), opt_str(worker_filter), w)),
            rows@.len() == workers@.subrange(0, i as int).filter(pred).len(),
            forall|k: int|
                0 <= k < rows@.len() ==> worker_row_ok(
                    cycles@,
                    workers@.subrange(0, i as int).filter(pred)[k],
                    #[trigger] rows@[k],
                ),
        decreases workers@.len() - i,
    {
        let w = &workers[i];
        let ghost before = workers@.subrange(0, i as int).filter(pred);
        proof {
            assert(workers@.subrange(0, i + 1) =~= workers@.subrange(0, i as int).push(workers@[i as int]));
            workers@.subrange(0, i as int).lemma_filter_push(workers@[i as int], pred);
        }
        let admitted = match worker_filter {
            Some(f) => str_eq(f, w.worker_id.as_str()) || str_eq(f, w.name.as_str()),
            None => true,
        };
        let cycle = match latest_cycle_for(cycles, w.worker_id.as_str()) {
            Some(c) => Some(c),
            None => latest_cycle_for(cycles, w.name.as_str()),
        };
        if admitted && !(repo_filter.is_some() && cycle.is_none()) {
            rows.push(worker_row(cycles, w, cycle));
            proof {
                let after = workers@.subrange(0, i + 1).filter(pred);
                assert(after == before.push(workers@[i as int]));
                assert forall|k: int| 0 <= k < rows@.len() implies worker_row_ok(
                    cycles@,
                    after[k],
                    #[trigger] rows@[k],
                ) by {
                    if k < before.len() {
                        assert(after[k] == before[k]);
                    }
                }
            }
        }
        i = i + 1;
    }
    proof {
        assert(workers@.subrange(0, workers@.len() as int) =~= workers@);
    }
    rows
}

/// Workers in ascending name order.
pub open spec fn names_ascending(ws: Seq<WorkerRecord>) -> bool {
    forall|i: int, j: int| 0 <= i < j < ws.len() ==> !lex_lt((#[trigger] ws[j]).name@, (#[trigger] ws[i]).name@)
}

/// `x` placed into `s` after every worker whose name is not above its own.
pub open spec fn insert_by_name(s: Seq<WorkerRecord>, x: WorkerRecord) -> Seq<WorkerRecord>
    decreases s.len(),
{
    if s.len() == 0 {
        seq![x]
    } else if lex_lt(x.name@, s[0].name@) {
        seq![x] + s
    } else {
        seq![s[0]] + insert_by_name(s.drop_first(), x)
    }
}

/// A stable sort by name: the workers inserted one by one, in their order,
/// each after the names not above its own.
pub open spec fn stable_by_name(ws: Seq<WorkerRecord>) -> Seq<WorkerRecord>
    decreases ws.len(),
{
    if ws.len() == 0 {
        Seq::empty()
    } else {
        insert_by_name(stable_by_name(ws.drop_last()), ws.last())
    }
}

proof fn lemma_insert_by_name_at(s: Seq<WorkerRecord>, x: WorkerRecord, p: int)
    requires
        0 <= p <= s.len(),
        forall|k: int| 0 <= k < p ==> !lex_lt(x.name@, (#[trigger] s[k]).name@),
        p < s.len() ==> lex_lt(x.name@, s[p].name@),
    ensures
        insert_by_name(s, x) == s.insert(p, x),
    decreases p,
{
    if p == 0 {
        if s.len() == 0 {
            assert(s.insert(0, x) =~= seq![x]);
        } else {
            assert(s.insert(0, x) =~= seq![x] + s);
        }
    } else {
        let t = s.drop_first();
        assert forall|k: int| 0 <= k < p - 1 implies !lex_lt(x.name@, (#[trigger] t[k]).name@) by {
            assert(t[k] == s[k + 1]);
        }
        assert(!lex_lt(x.name@, s[0].name@));
        lemma_insert_by_name_at(t, x, p - 1);
        assert(s.insert(p, x) =~= seq![s[0]] + t.insert(p - 1, x));
    }
}

/// Order workers by name, keeping the order of equal names.
pub fn sort_workers_by_name(workers: Vec<WorkerRecord>) -> (r: Vec<WorkerRecord>)
    ensures
        r@ == stable_by_name(workers@),
        names_ascending(r@),
        r@.to_multiset() == workers@.to_multiset(),
{
    broadcast use vstd::seq_lib::group_to_multiset_ensures;

    let ghost all = workers@;
    let mut rest = workers;
    let mut out: Vec<WorkerRecord> = Vec::new();
    let ghost mut taken: int = 0;
    proof {
        assert(out@.to_multiset().add(rest@.to_multiset()) =~= all.to_multiset());
        assert(all.subrange(0, 0) =~= Seq::<WorkerRecord>::empty());
        assert(all.subrange(0, all.len() as int) =~= all);
    }
    while rest.len() > 0
        invariant
            names_ascending(out@),
            out@.to_multiset().add(rest@.to_multiset()) == all.to_multiset(),
            0 <= taken <= all.len(),
            rest@ == all.subrange(taken, all.len() as int),
            out@ == stable_by_name(all.subrange(0, taken)),
        decreases rest@.len(),
    {
        let ghost before = rest@;
        let x = rest.remove(0);
        let mut p: usize = 0;
        while p < out.len() && !lex_less(x.name.as_str(), out[p].name.as_str())
            invariant
                p <= out@.len(),
                forall|k: int| 0 <= k < p ==> !lex_lt(x.name@, (#[trigger] out@[k]).name@),
            decreases out@.len() - p,
        {
            p = p + 1;
        }
        let ghost pre = out@;
        proof {
            assert forall|b: int| p <= b < pre.len() implies lex_lt(x.name@, (#[trigger] pre[b]).name@) by {
                if b > p {
                    lemma_lex_lt_total(pre[p as int].name@, pre[b].name@);
                    if lex_lt(pre[p as int].name@, pre[b].name@) {
                        lemma_lex_lt_transitive(x.name@, pre[p as int].name@, pre[b].name@);
                    }
                }
            }
        }
        out.insert(p, x);
        proof {
            lemma_insert_by_name_at(pre, x, p as int);
            assert(x == all[taken]);
            assert(all.subrange(0, taken + 1).drop_last() =~= all.subrange(0, taken));
            assert(rest@ =~= all.subrange(taken + 1, all.len() as int));
            taken = taken + 1;
            assert forall|a: int, b: int| 0 <= a < b < out@.len() implies !lex_lt(
                (#[trigger] out@[b]).name@,
                (#[trigger] out@[a]).name@,
            ) by {
                if b < p {
                    assert(out@[a] == pre[a] && out@[b] == pre[b]);
                } else if b == p {
                    assert(out@[a] == pre[a]);
                } else if a < p {
                    assert(out@[a] == pre[a] && out@[b] == pre[b - 1]);
                    if lex_lt(pre[b - 1].name@, pre[a].name@) {
                        lemma_lex_lt_transitive(x.name@, pre[b - 1].name@, pre[a].name@);
                    }
                } else if a == p {
                    assert(out@[b] == pre[b - 1]);
                    if lex_lt(pre[b - 1].name@, x.name@) {
                        lemma_lex_lt_transitive(x.name@, pre[b - 1].name@, x.name@);
                        lemma_lex_lt_irreflexive(x.name@);
                    }
                } else {
                    assert(out@[a] == pre[a - 1] && out@[b] == pre[b - 1]);
                }
            }
            vstd::seq_lib::to_multiset_insert(pre, p as int, x);
            assert(before =~= rest@.insert(0, x));
            vstd::seq_lib::to_multiset_insert(rest@, 0, x);
            assert(out@.to_multiset().add(rest@.to_multiset()) =~= all.to_multiset());
        }
    }
    proof {
        assert(all.subrange(0, taken) =~= all);
        assert(rest@.to_multiset() =~= vstd::multiset::Multiset::empty());
        assert(out@.to_multiset() =~= all.to_multiset());
    }
    out
}

/// The monitor's worker rows: the shown workers ordered by name.
pub fn monitor_worker_rows(
    workers: Vec<WorkerRecord>,
    cycles: &Vec<CycleRecord>,
    repo_filter: Option<&str>,
    worker_filter: Option<&str>,
) -> (r: Vec<MonitorWorkerRow>)
    ensures
        worker_rows_ok(cycles@, opt_str(repo_filter), opt_str(worker_filter), stable_by_name(workers@), r@),
{
    let sorted = sort_workers_by_name(workers);
    worker_rows(&sorted, cycles, repo_filter, worker_filter)
}


/// The first of two optional texts that is there, else `-`.
pub open spec fn first_or_dash(a: Option<Seq<char>>, b: Option<Seq<char>>) -> Seq<char> {
    match a {
        Some(x) => x,
        None => or_dash(b),
    }
}

fn first_text_or_dash(a: &Option<String>, b: &Option<String>) -> (r: String)
    ensures
        r@ == first_or_dash(ov(*a), ov(*b)),
{
    match a {
        Some(x) => x.clone(),
        None => text_or_dash(b),
    }
}

/// One line of the monitor's activity feed.
#[derive(Debug, Clone)]
pub struct MonitorActivityRow {
    pub at: String,
    pub worker: String,
    pub event: String,
    pub issue: String,
    pub workflow: String,
    pub repo: String,
    pub detail: String,
}

/// The activity line of a recorded event.
pub open spec fn activity_row_ok(e: HistoryRecord, row: MonitorActivityRow) -> bool {
    &&& row.at@ == e.at@
    &&& row.worker@ == first_or_dash(ov(e.worker_name), ov(e.worker_id))
    &&& row.event@ == spec_monitor_event_name(history_cycle_event(e.event))
    &&& row.issue@ == first_or_dash(ov(e.event.issue_display_ref), ov(e.event.issue_ref))
    &&& row.workflow@ == or_dash(ov(e.event.workflow))
    &&& row.repo@ == or_dash(ov(e.event.repo_ref))
    &&& row.detail@ == or_dash(ov(e.event.detail))
}

/// The activity feed: the first `limit` recorded events, one line each.
pub fn monitor_activity_rows(events: &Vec<HistoryRecord>, limit: usize) -> (r: Vec<MonitorActivityRow>)
    ensures
        r@.len() == (if events@.len() < limit {
            events@.len()
        } else {
            limit as nat
        }),
        forall|i: int| 0 <= i < r@.len() ==> activity_row_ok(events@[i], #[trigger] r@[i]),
{
    let mut rows: Vec<MonitorActivityRow> = Vec::new();
    let mut i: usize = 0;
    while i < events.len() && i < limit
        invariant
            i <= events@.len(),
            i <= limit,
            rows@.len() == i,
            forall|k: int| 0 <= k < i ==> activity_row_ok(events@[k], #[trigger] rows@[k]),
        decreases events@.len() - i,
    {
        let e = &events[i];
        let ce = CycleEvent { kind: e.event.kind, status: e.event.status.clone(), issue_ref: e.event.issue_ref.clone() };
        rows.push(
            MonitorActivityRow {
                at: e.at.clone(),
                worker: first_text_or_dash(&e.worker_name, &e.worker_id),
                event: monitor_event_name(&ce),
                issue: first_text_or_dash(&e.event.issue_display_ref, &e.event.issue_ref),
                workflow: text_or_dash(&e.event.workflow),
                repo: text_or_dash(&e.event.repo_ref),
                detail: text_or_dash(&e.event.detail),
            },
        );
        i = i + 1;
    }
    rows
}

/// One line of `autoflow history`.
#[derive(Debug, Clone)]
pub struct HistoryRow {
    pub at: String,
    pub cycle_id: String,
    pub mode: String,
    pub worker: String,
    pub event: String,
    pub issue: String,
    pub source: String,
    pub workflow: String,
    pub repo: String,
    pub run: String,
    pub wake: String,
    pub detail: String,
}

pub open spec fn mode_name(m: CycleMode) -> Seq<char> {
    match m {
        CycleMode::Tick => "tick"@,
        CycleMode::Serve => "serve"@,
    }
}

/// The history filters: by source, by issue (its reference or how it is
/// shown) and by event name; an absent filter admits everything.
pub open spec fn history_admitted(
    issue: Option<Seq<char>>,
    source: Option<Seq<char>>,
    event: Option<Seq<char>>,
    e: HistoryRecord,
) -> bool {
    &&& match source {
        Some(f) => f == or_dash(ov(e.event.source_ref)),
        None => true,
    }
    &&& match issue {
        Some(f) => f == (match e.event.issue_ref {
            Some(s) => s@,
            None => Seq::empty(),
        }) || f == first_or_dash(ov(e.event.issue_display_ref), ov(e.event.issue_ref)),
        None => true,
    }
    &&& match event {
        Some(f) => f == spec_monitor_event_name(history_cycle_event(e.event)),
        None => true,
    }
}

/// The history line of a recorded event.
pub open spec fn history_row_ok(e: HistoryRecord, row: HistoryRow) -> bool {
    &&& row.at@ == e.at@
    &&& row.cycle_id@ == e.cycle_id@
    &&& row.mode@ == mode_name(e.mode)
    &&& row.worker@ == first_or_dash(ov(e.worker_name), ov(e.worker_id))
    &&& row.event@ == spec_monitor_event_name(history_cycle_event(e.event))
    &&& row.issue@ == first_or_dash(ov(e.event.issue_display_ref), ov(e.event.issue_ref))
    &&& row.source@ == or_dash(ov(e.event.source_ref))
    &&& row.workflow@ == or_dash(ov(e.event.workflow))
    &&& row.repo@ == or_dash(ov(e.event.repo_ref))
    &&& row.run@ == or_dash(ov(e.event.run_id))
    &&& row.wake@ == first_or_dash(ov(e.event.wake_id), ov(e.event.wake_event_id))
    &&& row.detail@ == or_dash(ov(e.event.detail))
}

fn history_row(e: &HistoryRecord) -> (r: (HistoryRow, String, String))
    ensures
        history_row_ok(*e, r.0),
        r.1@ == (match e.event.issue_ref {
            Some(s) => s@,
            None => Seq::empty(),
        }),
        r.2@ == spec_monitor_event_name(history_cycle_event(e.event)),
{
    let ce = CycleEvent { kind: e.event.kind, status: e.event.status.clone(), issue_ref: e.event.issue_ref.clone() };
    let name = monitor_event_name(&ce);
    let issue_ref = match &e.event.issue_ref {
        Some(s) => s.clone(),
        None => String::new(),
    };
    let row = HistoryRow {
        at: e.at.clone(),
        cycle_id: e.cycle_id.clone(),
        mode: String::from_str(
            match e.mode {
                CycleMode::Tick => "tick",
                CycleMode::Serve => "serve",
            },
        ),
        worker: first_text_or_dash(&e.worker_name, &e.worker_id),
        event: name.clone(),
        issue: first_text_or_dash(&e.event.issue_display_ref, &e.event.issue_ref),
        source: text_or_dash(&e.event.source_ref),
        workflow: text_or_dash(&e.event.workflow),
        repo: text_or_dash(&e.event.repo_ref),
        run: text_or_dash(&e.event.run_id),
        wake: first_text_or_dash(&e.event.wake_id, &e.event.wake_event_id),
        detail: text_or_dash(&e.event.detail),
    };
    (row, issue_ref, name)
}

/// The history lines of the recorded events the filters admit, in order.
pub fn history_rows_from_events(
    events: &Vec<HistoryRecord>,
    issue_filter: Option<&str>,
    source_filter: Option<&str>,
    event_filter: Option<&str>,
) -> (r: Vec<HistoryRow>)
    ensures
        ({
            let kept = events@.filter(
                |e: HistoryRecord| history_admitted(opt_str(issue_filter), opt_str(source_filter), opt_str(event_filter), e),
            );
            &&& r@.len() == kept.len()
            &&& forall|i: int| 0 <= i < r@.len() ==> history_row_ok(kept[i], #[trigger] r@[i])
        }),
{
    let ghost pred = |e: HistoryRecord|
        history_admitted(opt_str(issue_filter), opt_str(source_filter), opt_str(event_filter), e);
    let mut rows: Vec<HistoryRow> = Vec::new();
    let mut i: usize = 0;
    proof {
        reveal(Seq::filter);
        assert(events@.subrange(0, 0).filter(pred) =~= Seq::<HistoryRecord>::empty());
    }
    while i < events.len()
        invariant
            i <= events@.len(),
            pred == (|e: HistoryRecord|
                history_admitted(opt_str(issue_filter), opt_str(source_filter), opt_str(event_filter), e)),
            rows@.len() == events@.subrange(0, i as int).filter(pred).len(),
            forall|k: int|
                0 <= k < rows@.len() ==> history_row_ok(events@.subrange(0, i as int).filter(pred)[k], #[trigger] rows@[k]),
        decreases events@.len() - i,
    {
        let e = &events[i];
        let ghost before = events@.subrange(0, i as int).filter(pred);
        proof {
            assert(events@.subrange(0, i + 1) =~= events@.subrange(0, i as int).push(events@[i as int]));
            events@.subrange(0, i as int).lemma_filter_push(events@[i as int], pred);
        }
        let (row, issue_ref, name) = history_row(e);
        let source_ok = match source_filter {
            Some(f) => str_eq(f, row.source.as_str()),
            None => true,
        };
        let issue_ok = match issue_filter {
            Some(f) => str_eq(f, issue_ref.as_str()) || str_eq(f, row.issue.as_str()),
            None => true,
        };
        let event_ok = match event_filter {
            Some(f) => str_eq(f, name.as_str()),
            None => true,
        };
        if source_ok && issue_ok && event_ok {
            rows.push(row);
            proof {
                let after = events@.subrange(0, i + 1).filter(pred);
                assert(after == before.push(events@[i as int]));
                assert forall|k: int| 0 <= k < rows@.len() implies history_row_ok(after[k], #[trigger] rows@[k]) by {
                    if k < before.len() {
                        assert(after[k] == before[k]);
                    }
                }
            }
        }
        i = i + 1;
    }
    proof {
        assert(events@.subrange(0, events@.len() as int) =~= events@);
    }
    rows
}

/// `autoflow history`: the admitted lines, cut to `limit`, and how many
/// there were before the cut.
pub fn history_report_rows(
    events: &Vec<HistoryRecord>,
    issue_filter: Option<&str>,
    source_filter: Option<&str>,
    event_filter: Option<&str>,
    limit: usize,
) -> (r: (Vec<HistoryRow>, usize))
    ensures
        ({
            let kept = events@.filter(
                |e: HistoryRecord| history_admitted(opt_str(issue_filter), opt_str(source_filter), opt_str(event_filter), e),
            );
            &&& r.1 == kept.len()
            &&& r.0@.len() == (if kept.len() < limit {
                kept.len()
            } else {
                limit as nat
            })
            &&& forall|i: int| 0 <= i < r.0@.len() ==> history_row_ok(kept[i], #[trigger] r.0@[i])
        }),
{
    let mut rows = history_rows_from_events(events, issue_filter, source_filter, event_filter);
    let total = rows.len();
    if rows.len() > limit {
        rows.truncate(limit);
    }
    (rows, total)
}

} // verus!

//! `autoflow explain`: the state of one issue's claim as a report, and the
//! report as text.

use vstd::prelude::*;
use vstd::string::*;
use crate::autoflow::claims::{
    format_contenders, next_action_summary, selected_priority, spec_next_action, spec_selected_priority,
    spec_status_name, status_name, ClaimRecord, AutoflowContender, contender_text,
};
use crate::autoflow::command::{entry_views, format_inputs, spec_format_inputs};
use crate::autoflow::history::ov;
use crate::number::{i64_to_string, signed_decimal};
use crate::text::{join_seqs, join_strings};

verus! {

/// The issue lock held by a running cycle.
#[derive(Debug, Clone)]
pub struct ExplainLock {
    pub owner: String,
    pub acquired_at: String,
    pub lease_expires: Option<String>,
}

/// The queued follow-up workflow of a claim.
#[derive(Debug, Clone)]
pub struct ExplainPendingDispatch {
    pub workflow: String,
    pub target: String,
    pub inputs: String,
}

/// The claim's last run, as far as it could be read.
#[derive(Debug, Clone)]
pub struct ExplainRun {
    pub run_id: String,
    pub status: String,
    pub backend: String,
    pub worker: String,
    pub source_wake: Option<String>,
    pub approval_step: Option<String>,
    pub approval_expires: Option<String>,
    pub execution: Option<String>,
    pub models: Option<String>,
    pub usage: Option<String>,
    pub changes: Option<String>,
    pub started_at: Option<String>,
    pub finished_at: Option<String>,
    pub workspace: Option<String>,
    pub merge_target: Option<String>,
}

/// What `explain` shows of a claim.
#[derive(Debug, Clone)]
pub struct ExplainClaim {
    pub issue_display: Option<String>,
    pub issue_title: Option<String>,
    pub issue_tracker: Option<String>,
    pub issue_state: Option<String>,
    pub source: Option<String>,
    pub issue_url: Option<String>,
    pub workflow: String,
    pub status: String,
    pub priority: Option<String>,
    pub contenders: String,
    pub workspace: String,
    pub branch: String,
    pub pr: String,
    pub claim_owner: String,
    pub lease_expires: String,
    pub active_lock: Option<ExplainLock>,
    pub last_run: Option<ExplainRun>,
    pub next_action: String,
    pub pending_dispatch: Option<ExplainPendingDispatch>,
    pub next_retry: Option<String>,
    pub summary: Option<String>,
}

/// A wake as `explain` lists it.
#[derive(Debug, Clone)]
pub struct ExplainWake {
    pub wake_id: String,
    pub source: String,
    pub event: String,
    pub not_before: String,
}

/// A recent cycle event as `explain` lists it.
#[derive(Debug, Clone)]
pub struct ExplainEvent {
    pub at: String,
    pub event: String,
    pub workflow: String,
    pub run: String,
    pub detail: String,
}

/// Everything `explain` reports on one issue.
#[derive(Debug, Clone)]
pub struct ExplainItem {
    pub issue: String,
    pub repo: String,
    pub status: String,
    pub source: Option<String>,
    pub candidate_workflows: Vec<String>,
    pub claim: Option<ExplainClaim>,
    pub queued_wakes: Vec<ExplainWake>,
    pub recent_processed_wake: Option<ExplainWake>,
    pub recent_cycle_events: Vec<ExplainEvent>,
}

pub open spec fn or_dash(o: Option<String>) -> Seq<char> {
    match o {
        Some(s) => s@,
        None => "-"@,
    }
}

fn text_or_dash(o: &Option<String>) -> (r: String)
    ensures
        r@ == or_dash(*o),
{
    match o {
        Some(s) => s.clone(),
        None => String::from_str("-"),
    }
}

/// What `explain` shows of a claim, apart from its lock and last run: the
/// claim's fields with `-` for what is missing, the selected priority, the
/// contenders, the next action and the pending dispatch with its inputs.
pub fn explain_claim(claim: &ClaimRecord, active_lock: Option<ExplainLock>, last_run: Option<ExplainRun>) -> (r:
    ExplainClaim)
    ensures
        ov(r.issue_display) == ov(claim.issue_display_ref),
        ov(r.issue_title) == ov(claim.issue_title),
        ov(r.issue_tracker) == ov(claim.issue_tracker),
        ov(r.issue_state) == ov(claim.issue_state_name),
        ov(r.source) == ov(claim.source_ref),
        ov(r.issue_url) == ov(claim.issue_url),
        r.workflow@ == claim.workflow@,
        r.status@ == spec_status_name(claim.status),
        ov(r.priority) == match spec_selected_priority(claim.contenders@) {
            Some(p) => Some(signed_decimal(p as int)),
            None => None,
        },
        r.contenders@ == (if claim.contenders@.len() == 0 {
            "-"@
        } else {
            join_seqs(claim.contenders@.map_values(|c: AutoflowContender| contender_text(c)), ", "@)
        }),
        r.workspace@ == or_dash(claim.worktree_path),
        r.branch@ == or_dash(claim.branch),
        r.pr@ == or_dash(claim.pr_url),
        r.claim_owner@ == or_dash(claim.claim_owner),
        r.lease_expires@ == or_dash(claim.lease_expires_at),
        r.active_lock == active_lock,
        r.last_run == last_run,
        r.next_action@ == spec_next_action(*claim),
        match claim.pending_dispatch {
            Some(d) => r.pending_dispatch matches Some(p) && p.workflow@ == d.workflow@ && p.target@ == d.target@
                && p.inputs@ == spec_format_inputs(entry_views(d.inputs@)),
            None => r.pending_dispatch is None,
        },
        ov(r.next_retry) == ov(claim.next_retry_at),
        ov(r.summary) == ov(claim.last_summary),
{
    let priority = match selected_priority(&claim.contenders) {
        Some(p) => Some(i64_to_string(p as i64)),
        None => None,
    };
    ExplainClaim {
        issue_display: claim.issue_display_ref.clone(),
        issue_title: claim.issue_title.clone(),
        issue_tracker: claim.issue_tracker.clone(),
        issue_state: claim.issue_state_name.clone(),
        source: claim.source_ref.clone(),
        issue_url: claim.issue_url.clone(),
        workflow: claim.workflow.clone(),
        status: String::from_str(status_name(claim.status)),
        priority,
        contenders: format_contenders(&claim.contenders),
        workspace: text_or_dash(&claim.worktree_path),
        branch: text_or_dash(&claim.branch),
        pr: text_or_dash(&claim.pr_url),
        claim_owner: text_or_dash(&claim.claim_owner),
        lease_expires: text_or_dash(&claim.lease_expires_at),
        active_lock,
        last_run,
        next_action: next_action_summary(claim),
        pending_dispatch: match &claim.pending_dispatch {
            Some(d) => Some(
                ExplainPendingDispatch {
                    workflow: d.workflow.clone(),
                    target: d.target.clone(),
                    inputs: format_inputs(&d.inputs),
                },
            ),
            None => None,
        },
        next_retry: claim.next_retry_at.clone(),
        summary: claim.last_summary.clone(),
    }
}

/// `<key>: <value>`.
pub open spec fn kv(key: Seq<char>, value: Seq<char>) -> Seq<char> {
    key + ": "@ + value
}

/// A `<key>: <value>` line where there is a value.
pub open spec fn opt_kv(key: Seq<char>, value: Option<String>) -> Seq<Seq<char>> {
    match value {
        Some(v) => seq![kv(key, v@)],
        None => Seq::empty(),
    }
}

pub open spec fn spec_lock_line(lock: Option<ExplainLock>) -> Seq<char> {
    match lock {
        Some(l) => "active lock: owner="@ + l.owner@ + " acquired_at="@ + l.acquired_at@ + " lease_expires="@
            + or_dash(l.lease_expires),
        None => "active lock: -"@,
    }
}

/// The first lines about a run.
pub open spec fn spec_run_head(r: ExplainRun) -> Seq<Seq<char>> {
    seq![
        kv("last run"@, r.run_id@),
        "watch hint: rupu watch "@ + r.run_id@,
        kv("last run status"@, r.status@),
        kv("last run backend"@, r.backend@),
        kv("last run worker"@, r.worker@),
    ] + opt_kv("source wake"@, r.source_wake) + match r.approval_step {
        Some(step) => seq!["approval gate: step="@ + step@ + " expires="@ + or_dash(r.approval_expires)],
        None => Seq::empty(),
    }
}

/// The metrics lines about a run.
pub open spec fn spec_run_tail(r: ExplainRun) -> Seq<Seq<char>> {
    opt_kv("last run execution"@, r.execution) + opt_kv("last run models"@, r.models) + opt_kv(
        "last run usage"@,
        r.usage,
    ) + opt_kv("last run changes"@, r.changes) + opt_kv("last run started"@, r.started_at) + opt_kv(
        "last run finished"@,
        r.finished_at,
    ) + opt_kv("last run workspace"@, r.workspace) + opt_kv("last run merge target"@, r.merge_target)
}

/// The lines about the last run.
pub open spec fn spec_run_lines(run: Option<ExplainRun>) -> Seq<Seq<char>> {
    match run {
        None => seq!["last run: -"@],
        Some(r) => spec_run_head(r) + spec_run_tail(r),
    }
}

/// The lines about the claimed issue.
pub open spec fn spec_claim_issue_lines(c: ExplainClaim) -> Seq<Seq<char>> {
    opt_kv("issue display"@, c.issue_display) + opt_kv("issue title"@, c.issue_title) + opt_kv(
        "issue tracker"@,
        c.issue_tracker,
    ) + opt_kv("issue state"@, c.issue_state) + opt_kv("source"@, c.source) + opt_kv("issue url"@, c.issue_url)
}

/// The lines about the claim itself.
pub open spec fn spec_claim_core_lines(c: ExplainClaim) -> Seq<Seq<char>> {
    seq![
        kv("workflow"@, c.workflow@),
        kv("status"@, c.status@),
        kv("priority"@, or_dash(c.priority)),
        kv("contenders"@, c.contenders@),
        kv("workspace"@, c.workspace@),
        kv("branch"@, c.branch@),
        kv("pr"@, c.pr@),
        kv("claim owner"@, c.claim_owner@),
        kv("lease expires"@, c.lease_expires@),
        spec_lock_line(c.active_lock),
    ]
}

/// The lines about what the claim does next.
pub open spec fn spec_claim_next_lines(c: ExplainClaim) -> Seq<Seq<char>> {
    seq![kv("next action"@, c.next_action@)] + match c.pending_dispatch {
        Some(d) => seq!["pending dispatch: "@ + d.workflow@ + " target="@ + d.target@ + " inputs="@ + d.inputs@],
        None => Seq::empty(),
    } + opt_kv("next retry"@, c.next_retry) + opt_kv("summary"@, c.summary)
}

/// The lines about a claim.
pub open spec fn spec_claim_lines(c: ExplainClaim) -> Seq<Seq<char>> {
    spec_claim_issue_lines(c) + spec_claim_core_lines(c) + spec_run_lines(c.last_run) + spec_claim_next_lines(c)
}

pub open spec fn texts(v: Seq<String>) -> Seq<Seq<char>> {
    v.map_values(|s: String| s@)
}

pub open spec fn wake_line(w: ExplainWake) -> Seq<char> {
    "- "@ + w.wake_id@ + " "@ + w.source@ + " "@ + w.event@ + " not_before="@ + w.not_before@
}

pub open spec fn event_line(e: ExplainEvent) -> Seq<char> {
    "- "@ + e.at@ + " "@ + e.event@ + " workflow="@ + e.workflow@ + " run="@ + e.run@ + " detail="@ + e.detail@
}

pub open spec fn spec_wake_lines(wakes: Seq<ExplainWake>) -> Seq<Seq<char>> {
    if wakes.len() == 0 {
        seq!["queued wakes: -"@]
    } else {
        seq!["queued wakes:"@] + wakes.map_values(|w: ExplainWake| wake_line(w))
    }
}

pub open spec fn spec_event_lines(events: Seq<ExplainEvent>) -> Seq<Seq<char>> {
    if events.len() == 0 {
        seq!["recent cycle events: -"@]
    } else {
        seq!["recent cycle events:"@] + events.map_values(|e: ExplainEvent| event_line(e))
    }
}

/// The lines of an `explain` report, in order.
pub open spec fn spec_explain_lines(item: ExplainItem) -> Seq<Seq<char>> {
    seq![kv("issue"@, item.issue@), kv("repo"@, item.repo@)] + match item.claim {
        Some(c) => spec_claim_lines(c),
        None => seq![kv("status"@, item.status@)] + opt_kv("source"@, item.source) + if item.candidate_workflows@.len()
            > 0 {
            seq![kv("candidate workflows"@, join_seqs(texts(item.candidate_workflows@), ", "@))]
        } else {
            Seq::empty()
        },
    } + spec_wake_lines(item.queued_wakes@) + match item.recent_processed_wake {
        Some(w) => seq!["recent processed wake: "@ + w.wake_id@ + " "@ + w.source@ + " "@ + w.event@],
        None => Seq::empty(),
    } + spec_event_lines(item.recent_cycle_events@)
}

/// Each line followed by a newline.
pub open spec fn spec_lines_text(lines: Seq<Seq<char>>) -> Seq<char>
    decreases lines.len(),
{
    if lines.len() == 0 {
        Seq::empty()
    } else {
        spec_lines_text(lines.drop_last()) + lines.last() + "\n"@
    }
}

fn push_line(out: &mut Vec<String>, line: String)
    ensures
        texts(final(out)@) == texts(old(out)@).push(line@),
{
    let ghost pre = texts(out@);
    out.push(line);
    proof {
        assert(texts(out@) =~= pre.push(line@));
    }
}

fn kv_line(key: &str, value: &str) -> (r: String)
    ensures
        r@ == kv(key@, value@),
{
    let mut s = String::from_str(key);
    s.append(": ");
    s.append(value);
    s
}

fn push_kv(out: &mut Vec<String>, key: &str, value: &str)
    ensures
        texts(final(out)@) == texts(old(out)@).push(kv(key@, value@)),
{
    push_line(out, kv_line(key, value));
}

fn push_opt_kv(out: &mut Vec<String>, key: &str, value: &Option<String>)
    ensures
        texts(final(out)@) == texts(old(out)@) + opt_kv(key@, *value),
{
    match value {
        Some(v) => {
            push_kv(out, key, v.as_str());
            proof {
                assert(texts(old(out)@).push(kv(key@, v@)) =~= texts(old(out)@) + seq![kv(key@, v@)]);
            }
        },
        None => {
            proof {
                assert(texts(out@) + Seq::<Seq<char>>::empty() =~= texts(out@));
            }
        },
    }
}

fn push_run_head(out: &mut Vec<String>, r: &ExplainRun)
    ensures
        texts(final(out)@) == texts(old(out)@) + spec_run_head(*r),
{
    let ghost pre = texts(out@);
    push_kv(out, "last run", r.run_id.as_str());
    let mut hint = String::from_str("watch hint: rupu watch ");
    hint.append(r.run_id.as_str());
    push_line(out, hint);
    push_kv(out, "last run status", r.status.as_str());
    push_kv(out, "last run backend", r.backend.as_str());
    push_kv(out, "last run worker", r.worker.as_str());
    let ghost head = texts(out@);
    proof {
        assert(head =~= pre + seq![
            kv("last run"@, r.run_id@),
            "watch hint: rupu watch "@ + r.run_id@,
            kv("last run status"@, r.status@),
            kv("last run backend"@, r.backend@),
            kv("last run worker"@, r.worker@),
        ]);
    }
    push_opt_kv(out, "source wake", &r.source_wake);
    let ghost with_wake = texts(out@);
    match &r.approval_step {
        Some(step) => {
            let mut line = String::from_str("approval gate: step=");
            line.append(step.as_str());
            line.append(" expires=");
            let e = text_or_dash(&r.approval_expires);
            line.append(e.as_str());
            push_line(out, line);
            proof {
                assert(with_wake.push(line@) =~= with_wake + seq![line@]);
            }
        },
        None => {
            proof {
                assert(with_wake + Seq::<Seq<char>>::empty() =~= with_wake);
            }
        },
    }
    proof {
        assert(texts(out@) =~= pre + spec_run_head(*r));
    }
}

fn push_run_tail(out: &mut Vec<String>, r: &ExplainRun)
    ensures
        texts(final(out)@) == texts(old(out)@) + spec_run_tail(*r),
{
    let ghost pre = texts(out@);
    push_opt_kv(out, "last run execution", &r.execution);
    push_opt_kv(out, "last run models", &r.models);
    push_opt_kv(out, "last run usage", &r.usage);
    push_opt_kv(out, "last run changes", &r.changes);
    push_opt_kv(out, "last run started", &r.started_at);
    push_opt_kv(out, "last run finished", &r.finished_at);
    push_opt_kv(out, "last run workspace", &r.workspace);
    push_opt_kv(out, "last run merge target", &r.merge_target);
    proof {
        assert(texts(out@) =~= pre + spec_run_tail(*r));
    }
}

fn push_run_lines(out: &mut Vec<String>, run: &Option<ExplainRun>)
    ensures
        texts(final(out)@) == texts(old(out)@) + spec_run_lines(*run),
{
    let ghost pre = texts(out@);
    match run {
        None => {
            push_line(out, String::from_str("last run: -"));
            proof {
                assert(pre.push("last run: -"@) =~= pre + seq!["last run: -"@]);
            }
        },
        Some(r) => {
            push_run_head(out, r);
            push_run_tail(out, r);
            proof {
                assert(pre + spec_run_head(*r) + spec_run_tail(*r) =~= pre + spec_run_lines(*run));
            }
        },
    }
}

fn push_claim_issue_lines(out: &mut Vec<String>, c: &ExplainClaim)
    ensures
        texts(final(out)@) == texts(old(out)@) + spec_claim_issue_lines(*c),
{
    let ghost pre = texts(out@);
    push_opt_kv(out, "issue display", &c.issue_display);
    push_opt_kv(out, "issue title", &c.issue_title);
    push_opt_kv(out, "issue tracker", &c.issue_tracker);
    push_opt_kv(out, "issue state", &c.issue_state);
    push_opt_kv(out, "source", &c.source);
    push_opt_kv(out, "issue url", &c.issue_url);
    proof {
        assert(texts(out@) =~= pre + spec_claim_issue_lines(*c));
    }
}

fn push_claim_core_lines(out: &mut Vec<String>, c: &ExplainClaim)
    ensures
        texts(final(out)@) == texts(old(out)@) + spec_claim_core_lines(*c),
{
    let ghost pre = texts(out@);
    push_kv(out, "workflow", c.workflow.as_str());
    push_kv(out, "status", c.status.as_str());
    let p = text_or_dash(&c.priority);
    push_kv(out, "priority", p.as_str());
    push_kv(out, "contenders", c.contenders.as_str());
    push_kv(out, "workspace", c.workspace.as_str());
    push_kv(out, "branch", c.branch.as_str());
    push_kv(out, "pr", c.pr.as_str());
    push_kv(out, "claim owner", c.claim_owner.as_str());
    push_kv(out, "lease expires", c.lease_expires.as_str());
    let lock_line = match &c.active_lock {
        Some(l) => {
            let mut s = String::from_str("active lock: owner=");
            s.append(l.owner.as_str());
            s.append(" acquired_at=");
            s.append(l.acquired_at.as_str());
            s.append(" lease_expires=");
            let e = text_or_dash(&l.lease_expires);
            s.append(e.as_str());
            s
        },
        None => String::from_str("active lock: -"),
    };
    push_line(out, lock_line);
    proof {
        assert(texts(out@) =~= pre + spec_claim_core_lines(*c));
    }
}

fn push_claim_next_lines(out: &mut Vec<String>, c: &ExplainClaim)
    ensures
        texts(final(out)@) == texts(old(out)@) + spec_claim_next_lines(*c),
{
    let ghost pre = texts(out@);
    push_kv(out, "next action", c.next_action.as_str());
    let ghost with_next = texts(out@);
    match &c.pending_dispatch {
        Some(d) => {
            let mut s = String::from_str("pending dispatch: ");
            s.append(d.workflow.as_str());
            s.append(" target=");
            s.append(d.target.as_str());
            s.append(" inputs=");
            s.append(d.inputs.as_str());
            push_line(out, s);
            proof {
                assert(with_next.push(s@) =~= with_next + seq![s@]);
            }
        },
        None => {
            proof {
                assert(with_next + Seq::<Seq<char>>::empty() =~= with_next);
            }
        },
    }
    push_opt_kv(out, "next retry", &c.next_retry);
    push_opt_kv(out, "summary", &c.summary);
    proof {
        assert(texts(out@) =~= pre + spec_claim_next_lines(*c));
    }
}

fn push_claim_lines(out: &mut Vec<String>, c: &ExplainClaim)
    ensures
        texts(final(out)@) == texts(old(out)@) + spec_claim_lines(*c),
{
    let ghost pre = texts(out@);
    push_claim_issue_lines(out, c);
    push_claim_core_lines(out, c);
    push_run_lines(out, &c.last_run);
    push_claim_next_lines(out, c);
    proof {
        assert(texts(out@) =~= pre + spec_claim_lines(*c));
    }
}

fn push_wake_lines(out: &mut Vec<String>, wakes: &Vec<ExplainWake>)
    ensures
        texts(final(out)@) == texts(old(out)@) + spec_wake_lines(wakes@),
{
    let ghost pre = texts(out@);
    if wakes.len() == 0 {
        push_line(out, String::from_str("queued wakes: -"));
        proof {
            assert(pre.push("queued wakes: -"@) =~= pre + seq!["queued wakes: -"@]);
        }
        return;
    }
    push_line(out, String::from_str("queued wakes:"));
    let ghost start = texts(out@);
    let mut i: usize = 0;
    while i < wakes.len()
        invariant
            i <= wakes@.len(),
            texts(out@) == start + wakes@.subrange(0, i as int).map_values(|w: ExplainWake| wake_line(w)),
        decreases wakes@.len() - i,
    {
        let w = &wakes[i];
        let mut s = String::from_str("- ");
        s.append(w.wake_id.as_str());
        s.append(" ");
        s.append(w.source.as_str());
        s.append(" ");
        s.append(w.event.as_str());
        s.append(" not_before=");
        s.append(w.not_before.as_str());
        push_line(out, s);
        proof {
            assert(wakes@.subrange(0, i + 1).map_values(|w: ExplainWake| wake_line(w)) =~= wakes@.subrange(
                0,
                i as int,
            ).map_values(|w: ExplainWake| wake_line(w)).push(wake_line(wakes@[i as int])));
        }
        i = i + 1;
    }
    proof {
        assert(wakes@.subrange(0, wakes@.len() as int) =~= wakes@);
        assert(texts(out@) =~= pre + spec_wake_lines(wakes@));
    }
}

fn push_event_lines(out: &mut Vec<String>, events: &Vec<ExplainEvent>)
    ensures
        texts(final(out)@) == texts(old(out)@) + spec_event_lines(events@),
{
    let ghost pre = texts(out@);
    if events.len() == 0 {
        push_line(out, String::from_str("recent cycle events: -"));
        proof {
            assert(pre.push("recent cycle events: -"@) =~= pre + seq!["recent cycle events: -"@]);
        }
        return;
    }
    push_line(out, String::from_str("recent cycle events:"));
    let ghost start = texts(out@);
    let mut i: usize = 0;
    while i < events.len()
        invariant
            i <= events@.len(),
            texts(out@) == start + events@.subrange(0, i as int).map_values(|e: ExplainEvent| event_line(e)),
        decreases events@.len() - i,
    {
        let e = &events[i];
        let mut s = String::from_str("- ");
        s.append(e.at.as_str());
        s.append(" ");
        s.append(e.event.as_str());
        s.append(" workflow=");
        s.append(e.workflow.as_str());
        s.append(" run=");
        s.append(e.run.as_str());
        s.append(" detail=");
        s.append(e.detail.as_str());
        push_line(out, s);
        proof {
            assert(events@.subrange(0, i + 1).map_values(|e: ExplainEvent| event_line(e)) =~= events@.subrange(
                0,
                i as int,
            ).map_values(|e: ExplainEvent| event_line(e)).push(event_line(events@[i as int])));
        }
        i = i + 1;
    }
    proof {
        assert(events@.subrange(0, events@.len() as int) =~= events@);
        assert(texts(out@) =~= pre + spec_event_lines(events@));
    }
}

/// The lines of an `explain` report.
pub fn explain_lines(item: &ExplainItem) -> (r: Vec<String>)
    ensures
        texts(r@) == spec_explain_lines(*item),
{
    let mut out: Vec<String> = Vec::new();
    proof {
        assert(texts(out@) =~= Seq::<Seq<char>>::empty());
    }
    push_kv(&mut out, "issue", item.issue.as_str());
    push_kv(&mut out, "repo", item.repo.as_str());
    match &item.claim {
        Some(c) => push_claim_lines(&mut out, c),
        None => {
            push_kv(&mut out, "status", item.status.as_str());
            push_opt_kv(&mut out, "source", &item.source);
            let ghost with_source = texts(out@);
            if item.candidate_workflows.len() > 0 {
                let joined = join_strings(&item.candidate_workflows, ", ");
                push_kv(&mut out, "candidate workflows", joined.as_str());
                proof {
                    assert(with_source.push(kv("candidate workflows"@, joined@)) =~= with_source + seq![
                        kv("candidate workflows"@, joined@),
                    ]);
                }
            } else {
                proof {
                    assert(with_source + Seq::<Seq<char>>::empty() =~= with_source);
                }
            }
        },
    }
    push_wake_lines(&mut out, &item.queued_wakes);
    let ghost with_wakes = texts(out@);
    match &item.recent_processed_wake {
        Some(w) => {
            let mut s = String::from_str("recent processed wake: ");
            s.append(w.wake_id.as_str());
            s.append(" ");
            s.append(w.source.as_str());
            s.append(" ");
            s.append(w.event.as_str());
            push_line(&mut out, s);
            proof {
                assert(with_wakes.push(s@) =~= with_wakes + seq![s@]);
            }
        },
        None => {
            proof {
                assert(with_wakes + Seq::<Seq<char>>::empty() =~= with_wakes);
            }
        },
    }
    push_event_lines(&mut out, &item.recent_cycle_events);
    proof {
        assert(texts(out@) =~= spec_explain_lines(*item));
    }
    out
}

/// The `explain` report as text: one line per fact, each ended by a newline.
pub fn render_autoflow_explain_report(item: &ExplainItem) -> (r: String)
    ensures
        r@ == spec_lines_text(spec_explain_lines(*item)),
{
    let lines = explain_lines(item);
    let mut out = String::new();
    let mut i: usize = 0;
    while i < lines.len()
        invariant
            i <= lines@.len(),
            out@ == spec_lines_text(texts(lines@).subrange(0, i as int)),
        decreases lines@.len() - i,
    {
        out.append(lines[i].as_str());
        out.append("\n");
        proof {
            let pre = texts(lines@).subrange(0, i as int);
            let next = texts(lines@).subrange(0, i + 1);
            assert(next.drop_last() =~= pre);
        }
        i = i + 1;
    }
    proof {
        assert(texts(lines@).subrange(0, lines@.len() as int) =~= texts(lines@));
    }
    out
}

} // verus!

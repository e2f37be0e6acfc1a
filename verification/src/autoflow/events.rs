//! Cycle events: what happened to an issue during one reconcile pass, how
//! the monitor names each event and how live views label it.

use vstd::prelude::*;
use vstd::string::*;
use crate::autoflow::shape::{spec_truncate, truncate_detail};
use crate::text::{chars_of, str_eq, trim_seq};
use crate::ui::UiStatus;

verus! {

/// The kinds of event a cycle records.
#[derive(Debug, Clone, Copy, PartialEq, Eq, Structural)]
pub enum CycleEventKind {
    WakeConsumed,
    WakeSkipped,
    ClaimAcquired,
    ClaimReleased,
    ClaimTakeover,
    RunLaunched,
    IssueCommented,
    IssueStateChanged,
    PullRequestOpened,
    AwaitingHuman,
    AwaitingExternal,
    RetryScheduled,
    DispatchQueued,
    CleanupPerformed,
    CycleSkipped,
    CycleFailed,
}

/// The parts of a cycle event that decide its name and label.
#[derive(Debug, Clone)]
pub struct CycleEvent {
    pub kind: CycleEventKind,
    pub status: Option<String>,
    pub issue_ref: Option<String>,
}

pub open spec fn status_is(event: CycleEvent, s: Seq<char>) -> bool {
    event.status matches Some(v) && v@ == s
}

pub open spec fn spec_monitor_event_name(event: CycleEvent) -> Seq<char> {
    match event.kind {
        CycleEventKind::WakeConsumed => "wake_consumed"@,
        CycleEventKind::WakeSkipped => "wake_skipped"@,
        CycleEventKind::ClaimAcquired => "claim_acquired"@,
        CycleEventKind::ClaimReleased => "claim_released"@,
        CycleEventKind::ClaimTakeover => "claim_takeover"@,
        CycleEventKind::RunLaunched => "run_launched"@,
        CycleEventKind::IssueCommented => "issue_commented"@,
        CycleEventKind::IssueStateChanged => if status_is(event, "closed"@) {
            "issue_closed"@
        } else if status_is(event, "open"@) {
            "issue_reopened"@
        } else {
            "issue_state_changed"@
        },
        CycleEventKind::PullRequestOpened => if status_is(event, "draft"@) {
            "draft_pr_opened"@
        } else {
            "pr_opened"@
        },
        CycleEventKind::AwaitingHuman => "awaiting_human"@,
        CycleEventKind::AwaitingExternal => "awaiting_external"@,
        CycleEventKind::RetryScheduled => "retry_scheduled"@,
        CycleEventKind::DispatchQueued => "dispatch_queued"@,
        CycleEventKind::CleanupPerformed => "cleanup_performed"@,
        CycleEventKind::CycleSkipped => "cycle_skipped"@,
        CycleEventKind::CycleFailed => "cycle_failed"@,
    }
}

fn event_status_is(event: &CycleEvent, s: &str) -> (r: bool)
    ensures
        r == status_is(*event, s@),
{
    match &event.status {
        Some(v) => str_eq(v.as_str(), s),
        None => false,
    }
}

/// The event name the monitor and history use.
pub fn monitor_event_name(event: &CycleEvent) -> (r: String)
    ensures
        r@ == spec_monitor_event_name(*event),
{
    let name: &str = match event.kind {
        CycleEventKind::WakeConsumed => "wake_consumed",
        CycleEventKind::WakeSkipped => "wake_skipped",
        CycleEventKind::ClaimAcquired => "claim_acquired",
        CycleEventKind::ClaimReleased => "claim_released",
        CycleEventKind::ClaimTakeover => "claim_takeover",
        CycleEventKind::RunLaunched => "run_launched",
        CycleEventKind::IssueCommented => "issue_commented",
        CycleEventKind::IssueStateChanged => if event_status_is(event, "closed") {
            "issue_closed"
        } else if event_status_is(event, "open") {
            "issue_reopened"
        } else {
            "issue_state_changed"
        },
        CycleEventKind::PullRequestOpened => if event_status_is(event, "draft") {
            "draft_pr_opened"
        } else {
            "pr_opened"
        },
        CycleEventKind::AwaitingHuman => "awaiting_human",
        CycleEventKind::AwaitingExternal => "awaiting_external",
        CycleEventKind::RetryScheduled => "retry_scheduled",
        CycleEventKind::DispatchQueued => "dispatch_queued",
        CycleEventKind::CleanupPerformed => "cleanup_performed",
        CycleEventKind::CycleSkipped => "cycle_skipped",
        CycleEventKind::CycleFailed => "cycle_failed",
    };
    String::from_str(name)
}

pub open spec fn spec_cycle_event_status_and_label(event: CycleEvent) -> (UiStatus, Seq<char>) {
    match event.kind {
        CycleEventKind::ClaimAcquired => (UiStatus::Active, "picked up"@),
        CycleEventKind::ClaimReleased => (UiStatus::Skipped, "released"@),
        CycleEventKind::ClaimTakeover => (UiStatus::Active, "took over"@),
        CycleEventKind::RunLaunched => (UiStatus::Working, "launched run"@),
        CycleEventKind::IssueCommented => (UiStatus::Working, "commented"@),
        CycleEventKind::IssueStateChanged => if status_is(event, "closed"@) {
            (UiStatus::Complete, "closed issue"@)
        } else if status_is(event, "open"@) {
            (UiStatus::Active, "reopened issue"@)
        } else {
            (UiStatus::Working, "updated issue"@)
        },
        CycleEventKind::PullRequestOpened => if status_is(event, "draft"@) {
            (UiStatus::Active, "opened draft PR"@)
        } else {
            (UiStatus::Active, "opened PR"@)
        },
        CycleEventKind::AwaitingHuman => (UiStatus::Awaiting, "awaiting approval"@),
        CycleEventKind::AwaitingExternal => (UiStatus::Awaiting, "awaiting external"@),
        CycleEventKind::RetryScheduled => (UiStatus::Retrying, "scheduled retry"@),
        CycleEventKind::DispatchQueued => (UiStatus::Working, "queued dispatch"@),
        CycleEventKind::CleanupPerformed => (UiStatus::Skipped, "cleaned up"@),
        CycleEventKind::CycleFailed => (UiStatus::Failed, "cycle failed"@),
        CycleEventKind::CycleSkipped => (UiStatus::Waiting, "skipped"@),
        CycleEventKind::WakeConsumed => (UiStatus::Waiting, "consumed wake"@),
        CycleEventKind::WakeSkipped => (UiStatus::Skipped, "skipped wake"@),
    }
}

/// The status class and label a live cycle frame shows for an event.
pub fn cycle_event_status_and_label(event: &CycleEvent) -> (r: (UiStatus, &'static str))
    ensures
        (r.0, r.1@) == spec_cycle_event_status_and_label(*event),
{
    match event.kind {
        CycleEventKind::ClaimAcquired => (UiStatus::Active, "picked up"),
        CycleEventKind::ClaimReleased => (UiStatus::Skipped, "released"),
        CycleEventKind::ClaimTakeover => (UiStatus::Active, "took over"),
        CycleEventKind::RunLaunched => (UiStatus::Working, "launched run"),
        CycleEventKind::IssueCommented => (UiStatus::Working, "commented"),
        CycleEventKind::IssueStateChanged => if event_status_is(event, "closed") {
            (UiStatus::Complete, "closed issue")
        } else if event_status_is(event, "open") {
            (UiStatus::Active, "reopened issue")
        } else {
            (UiStatus::Working, "updated issue")
        },
        CycleEventKind::PullRequestOpened => if event_status_is(event, "draft") {
            (UiStatus::Active, "opened draft PR")
        } else {
            (UiStatus::Active, "opened PR")
        },
        CycleEventKind::AwaitingHuman => (UiStatus::Awaiting, "awaiting approval"),
        CycleEventKind::AwaitingExternal => (UiStatus::Awaiting, "awaiting external"),
        CycleEventKind::RetryScheduled => (UiStatus::Retrying, "scheduled retry"),
        CycleEventKind::DispatchQueued => (UiStatus::Working, "queued dispatch"),
        CycleEventKind::CleanupPerformed => (UiStatus::Skipped, "cleaned up"),
        CycleEventKind::CycleFailed => (UiStatus::Failed, "cycle failed"),
        CycleEventKind::CycleSkipped => (UiStatus::Waiting, "skipped"),
        CycleEventKind::WakeConsumed => (UiStatus::Waiting, "consumed wake"),
        CycleEventKind::WakeSkipped => (UiStatus::Skipped, "skipped wake"),
    }
}

pub open spec fn spec_activity_status_and_label(event: Seq<char>) -> (UiStatus, Seq<char>) {
    if event == "claim_acquired"@ {
        (UiStatus::Active, "picked up"@)
    } else if event == "claim_released"@ {
        (UiStatus::Skipped, "released"@)
    } else if event == "claim_takeover"@ {
        (UiStatus::Active, "took over"@)
    } else if event == "run_launched"@ {
        (UiStatus::Working, "launched run"@)
    } else if event == "issue_commented"@ {
        (UiStatus::Working, "commented"@)
    } else if event == "issue_closed"@ {
        (UiStatus::Complete, "closed issue"@)
    } else if event == "issue_reopened"@ {
        (UiStatus::Active, "reopened issue"@)
    } else if event == "issue_state_changed"@ {
        (UiStatus::Working, "updated issue"@)
    } else if event == "pr_opened"@ {
        (UiStatus::Active, "opened PR"@)
    } else if event == "draft_pr_opened"@ {
        (UiStatus::Active, "opened draft PR"@)
    } else if event == "awaiting_human"@ {
        (UiStatus::Awaiting, "awaiting approval"@)
    } else if event == "awaiting_external"@ {
        (UiStatus::Awaiting, "awaiting external"@)
    } else if event == "retry_scheduled"@ {
        (UiStatus::Retrying, "scheduled retry"@)
    } else if event == "dispatch_queued"@ {
        (UiStatus::Working, "queued dispatch"@)
    } else if event == "cleanup_performed"@ {
        (UiStatus::Skipped, "cleaned up"@)
    } else if event == "cycle_failed"@ {
        (UiStatus::Failed, "cycle failed"@)
    } else {
        (UiStatus::Waiting, "updated"@)
    }
}

/// The status class and label the activity section shows for a recorded
/// event name.
pub fn activity_status_and_label(event: &str) -> (r: (UiStatus, &'static str))
    ensures
        (r.0, r.1@) == spec_activity_status_and_label(event@),
{
    if str_eq(event, "claim_acquired") {
        (UiStatus::Active, "picked up")
    } else if str_eq(event, "claim_released") {
        (UiStatus::Skipped, "released")
    } else if str_eq(event, "claim_takeover") {
        (UiStatus::Active, "took over")
    } else if str_eq(event, "run_launched") {
        (UiStatus::Working, "launched run")
    } else if str_eq(event, "issue_commented") {
        (UiStatus::Working, "commented")
    } else if str_eq(event, "issue_closed") {
        (UiStatus::Complete, "closed issue")
    } else if str_eq(event, "issue_reopened") {
        (UiStatus::Active, "reopened issue")
    } else if str_eq(event, "issue_state_changed") {
        (UiStatus::Working, "updated issue")
    } else if str_eq(event, "pr_opened") {
        (UiStatus::Active, "opened PR")
    } else if str_eq(event, "draft_pr_opened") {
        (UiStatus::Active, "opened draft PR")
    } else if str_eq(event, "awaiting_human") {
        (UiStatus::Awaiting, "awaiting approval")
    } else if str_eq(event, "awaiting_external") {
        (UiStatus::Awaiting, "awaiting external")
    } else if str_eq(event, "retry_scheduled") {
        (UiStatus::Retrying, "scheduled retry")
    } else if str_eq(event, "dispatch_queued") {
        (UiStatus::Working, "queued dispatch")
    } else if str_eq(event, "cleanup_performed") {
        (UiStatus::Skipped, "cleaned up")
    } else if str_eq(event, "cycle_failed") {
        (UiStatus::Failed, "cycle failed")
    } else {
        (UiStatus::Waiting, "updated")
    }
}

/// Whether a tool call made during a run becomes an issue-history event.
pub open spec fn spec_is_promoted_tool(tool: Seq<char>) -> bool {
    tool == "issues.comment"@ || tool == "issues.update_state"@ || tool == "scm.prs.create"@
}

/// Comments, issue-state updates and pull-request creation are promoted.
pub fn is_promoted_autoflow_tool(tool: &str) -> (r: bool)
    ensures
        r == spec_is_promoted_tool(tool@),
{
    str_eq(tool, "issues.comment") || str_eq(tool, "issues.update_state") || str_eq(tool, "scm.prs.create")
}

/// The detail of an issue-state change: none for plain open/closed or a blank
/// state; otherwise `state <state>` with the state trimmed and cut to 48.
pub fn issue_state_detail(state: &str) -> (r: Option<String>)
    ensures
        r matches Some(d) ==> d@ == "state "@ + spec_truncate(trim_seq(state@), 48),
        r is Some <==> (state@ != "closed"@ && state@ != "open"@ && trim_seq(state@).len() > 0),
{
    if str_eq(state, "closed") || str_eq(state, "open") {
        return None;
    }
    let t = crate::text::trim_str(state);
    if t.len() == 0 {
        return None;
    }
    let mut s = String::from_str("state ");
    let cut = truncate_detail(state, 48);
    s.append(cut.as_str());
    Some(s)
}

} // verus!

verus! {

proof fn lemma_activity_claim_acquired()
    ensures
        spec_activity_status_and_label("claim_acquired"@) == (UiStatus::Active, "picked up"@),
{
    reveal_strlit("claim_acquired");

}

proof fn lemma_activity_claim_released()
    ensures
        spec_activity_status_and_label("claim_released"@) == (UiStatus::Skipped, "released"@),
{
    reveal_strlit("claim_released");
    reveal_strlit("claim_acquired");
    assert("claim_released"@[6] != "claim_acquired"@[6]);
}

proof fn lemma_activity_claim_takeover()
    ensures
        spec_activity_status_and_label("claim_takeover"@) == (UiStatus::Active, "took over"@),
{
    reveal_strlit("claim_takeover");
    reveal_strlit("claim_acquired");
    reveal_strlit("claim_released");
    assert("claim_takeover"@[6] != "claim_acquired"@[6]);
    assert("claim_takeover"@[6] != "claim_released"@[6]);
}

proof fn lemma_activity_run_launched()
    ensures
        spec_activity_status_and_label("run_launched"@) == (UiStatus::Working, "launched run"@),
{
    reveal_strlit("run_launched");
    reveal_strlit("claim_acquired");
    reveal_strlit("claim_released");
    reveal_strlit("claim_takeover");
    assert("run_launched"@.len() != "claim_acquired"@.len());
    assert("run_launched"@.len() != "claim_released"@.len());
    assert("run_launched"@.len() != "claim_takeover"@.len());
}

proof fn lemma_activity_issue_commented()
    ensures
        spec_activity_status_and_label("issue_commented"@) == (UiStatus::Working, "commented"@),
{
    reveal_strlit("issue_commented");
    reveal_strlit("claim_acquired");
    reveal_strlit("claim_released");
    reveal_strlit("claim_takeover");
    reveal_strlit("run_launched");
    assert("issue_commented"@.len() != "claim_acquired"@.len());
    assert("issue_commented"@.len() != "claim_released"@.len());
    assert("issue_commented"@.len() != "claim_takeover"@.len());
    assert("issue_commented"@.len() != "run_launched"@.len());
}

proof fn lemma_activity_issue_closed()
    ensures
        spec_activity_status_and_label("issue_closed"@) == (UiStatus::Complete, "closed issue"@),
{
    reveal_strlit("issue_closed");
    reveal_strlit("claim_acquired");
    reveal_strlit("claim_released");
    reveal_strlit("claim_takeover");
    reveal_strlit("run_launched");
    reveal_strlit("issue_commented");
    assert("issue_closed"@.len() != "claim_acquired"@.len());
    assert("issue_closed"@.len() != "claim_released"@.len());
    assert("issue_closed"@.len() != "claim_takeover"@.len());
    assert("issue_closed"@[0] != "run_launched"@[0]);
    assert("issue_closed"@.len() != "issue_commented"@.len());
}

proof fn lemma_activity_issue_reopened()
    ensures
        spec_activity_status_and_label("issue_reopened"@) == (UiStatus::Active, "reopened issue"@),
{
    reveal_strlit("issue_reopened");
    reveal_strlit("claim_acquired");
    reveal_strlit("claim_released");
    reveal_strlit("claim_takeover");
    reveal_strlit("run_launched");
    reveal_strlit("issue_commented");
    reveal_strlit("issue_closed");
    assert("issue_reopened"@[0] != "claim_acquired"@[0]);
    assert("issue_reopened"@[0] != "claim_released"@[0]);
    assert("issue_reopened"@[0] != "claim_takeover"@[0]);
    assert("issue_reopened"@.len() != "run_launched"@.len());
    assert("issue_reopened"@.len() != "issue_commented"@.len());
    assert("issue_reopened"@.len() != "issue_closed"@.len());
}

proof fn lemma_activity_issue_state_changed()
    ensures
        spec_activity_status_and_label("issue_state_changed"@) == (UiStatus::Working, "updated issue"@),
{
    reveal_strlit("issue_state_changed");
    reveal_strlit("claim_acquired");
    reveal_strlit("claim_released");
    reveal_strlit("claim_takeover");
    reveal_strlit("run_launched");
    reveal_strlit("issue_commented");
    reveal_strlit("issue_closed");
    reveal_strlit("issue_reopened");
    assert("issue_state_changed"@.len() != "claim_acquired"@.len());
    assert("issue_state_changed"@.len() != "claim_released"@.len());
    assert("issue_state_changed"@.len() != "claim_takeover"@.len());
    assert("issue_state_changed"@.len() != "run_launched"@.len());
    assert("issue_state_changed"@.len() != "issue_commented"@.len());
    assert("issue_state_changed"@.len() != "issue_closed"@.len());
    assert("issue_state_changed"@.len() != "issue_reopened"@.len());
}

proof fn lemma_activity_pr_opened()
    ensures
        spec_activity_status_and_label("pr_opened"@) == (UiStatus::Active, "opened PR"@),
{
    reveal_strlit("pr_opened");
    reveal_strlit("claim_acquired");
    reveal_strlit("claim_released");
    reveal_strlit("claim_takeover");
    reveal_strlit("run_launched");
    reveal_strlit("issue_commented");
    reveal_strlit("issue_closed");
    reveal_strlit("issue_reopened");
    reveal_strlit("issue_state_changed");
    assert("pr_opened"@.len() != "claim_acquired"@.len());
    assert("pr_opened"@.len() != "claim_released"@.len());
    assert("pr_opened"@.len() != "claim_takeover"@.len());
    assert("pr_opened"@.len() != "run_launched"@.len());
    assert("pr_opened"@.len() != "issue_commented"@.len());
    assert("pr_opened"@.len() != "issue_closed"@.len());
    assert("pr_opened"@.len() != "issue_reopened"@.len());
    assert("pr_opened"@.len() != "issue_state_changed"@.len());
}

proof fn lemma_activity_draft_pr_opened()
    ensures
        spec_activity_status_and_label("draft_pr_opened"@) == (UiStatus::Active, "opened draft PR"@),
{
    reveal_strlit("draft_pr_opened");
    reveal_strlit("claim_acquired");
    reveal_strlit("claim_released");
    reveal_strlit("claim_takeover");
    reveal_strlit("run_launched");
    reveal_strlit("issue_commented");
    reveal_strlit("issue_closed");
    reveal_strlit("issue_reopened");
    reveal_strlit("issue_state_changed");
    reveal_strlit("pr_opened");
    assert("draft_pr_opened"@.len() != "claim_acquired"@.len());
    assert("draft_pr_opened"@.len() != "claim_released"@.len());
    assert("draft_pr_opened"@.len() != "claim_takeover"@.len());
    assert("draft_pr_opened"@.len() != "run_launched"@.len());
    assert("draft_pr_opened"@[0] != "issue_commented"@[0]);
    assert("draft_pr_opened"@.len() != "issue_closed"@.len());
    assert("draft_pr_opened"@.len() != "issue_reopened"@.len());
    assert("draft_pr_opened"@.len() != "issue_state_changed"@.len());
    assert("draft_pr_opened"@.len() != "pr_opened"@.len());
}

proof fn lemma_activity_awaiting_human()
    ensures
        spec_activity_status_and_label("awaiting_human"@) == (UiStatus::Awaiting, "awaiting approval"@),
{
    reveal_strlit("awaiting_human");
    reveal_strlit("claim_acquired");
    reveal_strlit("claim_released");
    reveal_strlit("claim_takeover");
    reveal_strlit("run_launched");
    reveal_strlit("issue_commented");
    reveal_strlit("issue_closed");
    reveal_strlit("issue_reopened");
    reveal_strlit("issue_state_changed");
    reveal_strlit("pr_opened");
    reveal_strlit("draft_pr_opened");
    assert("awaiting_human"@[0] != "claim_acquired"@[0]);
    assert("awaiting_human"@[0] != "claim_released"@[0]);
    assert("awaiting_human"@[0] != "claim_takeover"@[0]);
    assert("awaiting_human"@.len() != "run_launched"@.len());
    assert("awaiting_human"@.len() != "issue_commented"@.len());
    assert("awaiting_human"@.len() != "issue_closed"@.len());
    assert("awaiting_human"@[0] != "issue_reopened"@[0]);
    assert("awaiting_human"@.len() != "issue_state_changed"@.len());
    assert("awaiting_human"@.len() != "pr_opened"@.len());
    assert("awaiting_human"@.len() != "draft_pr_opened"@.len());
}

proof fn lemma_activity_awaiting_external()
    ensures
        spec_activity_status_and_label("awaiting_external"@) == (UiStatus::Awaiting, "awaiting external"@),
{
    reveal_strlit("awaiting_external");
    reveal_strlit("claim_acquired");
    reveal_strlit("claim_released");
    reveal_strlit("claim_takeover");
    reveal_strlit("run_launched");
    reveal_strlit("issue_commented");
    reveal_strlit("issue_closed");
    reveal_strlit("issue_reopened");
    reveal_strlit("issue_state_changed");
    reveal_strlit("pr_opened");
    reveal_strlit("draft_pr_opened");
    reveal_strlit("awaiting_human");
    assert("awaiting_external"@.len() != "claim_acquired"@.len());
    assert("awaiting_external"@.len() != "claim_released"@.len());
    assert("awaiting_external"@.len() != "claim_takeover"@.len());
    assert("awaiting_external"@.len() != "run_launched"@.len());
    assert("awaiting_external"@.len() != "issue_commented"@.len());
    assert("awaiting_external"@.len() != "issue_closed"@.len());
    assert("awaiting_external"@.len() != "issue_reopened"@.len());
    assert("awaiting_external"@.len() != "issue_state_changed"@.len());
    assert("awaiting_external"@.len() != "pr_opened"@.len());
    assert("awaiting_external"@.len() != "draft_pr_opened"@.len());
    assert("awaiting_external"@.len() != "awaiting_human"@.len());
}

proof fn lemma_activity_retry_scheduled()
    ensures
        spec_activity_status_and_label("retry_scheduled"@) == (UiStatus::Retrying, "scheduled retry"@),
{
    reveal_strlit("retry_scheduled");
    reveal_strlit("claim_acquired");
    reveal_strlit("claim_released");
    reveal_strlit("claim_takeover");
    reveal_strlit("run_launched");
    reveal_strlit("issue_commented");
    reveal_strlit("issue_closed");
    reveal_strlit("issue_reopened");
    reveal_strlit("issue_state_changed");
    reveal_strlit("pr_opened");
    reveal_strlit("draft_pr_opened");
    reveal_strlit("awaiting_human");
    reveal_strlit("awaiting_external");
    assert("retry_scheduled"@.len() != "claim_acquired"@.len());
    assert("retry_scheduled"@.len() != "claim_released"@.len());
    assert("retry_scheduled"@.len() != "claim_takeover"@.len());
    assert("retry_scheduled"@.len() != "run_launched"@.len());
    assert("retry_scheduled"@[0] != "issue_commented"@[0]);
    assert("retry_scheduled"@.len() != "issue_closed"@.len());
    assert("retry_scheduled"@.len() != "issue_reopened"@.len());
    assert("retry_scheduled"@.len() != "issue_state_changed"@.len());
    assert("retry_scheduled"@.len() != "pr_opened"@.len());
    assert("retry_scheduled"@[0] != "draft_pr_opened"@[0]);
    assert("retry_scheduled"@.len() != "awaiting_human"@.len());
    assert("retry_scheduled"@.len() != "awaiting_external"@.len());
}

proof fn lemma_activity_dispatch_queued()
    ensures
        spec_activity_status_and_label("dispatch_queued"@) == (UiStatus::Working, "queued dispatch"@),
{
    reveal_strlit("dispatch_queued");
    reveal_strlit("claim_acquired");
    reveal_strlit("claim_released");
    reveal_strlit("claim_takeover");
    reveal_strlit("run_launched");
    reveal_strlit("issue_commented");
    reveal_strlit("issue_closed");
    reveal_strlit("issue_reopened");
    reveal_strlit("issue_state_changed");
    reveal_strlit("pr_opened");
    reveal_strlit("draft_pr_opened");
    reveal_strlit("awaiting_human");
    reveal_strlit("awaiting_external");
    reveal_strlit("retry_scheduled");
    assert("dispatch_queued"@.len() != "claim_acquired"@.len());
    assert("dispatch_queued"@.len() != "claim_released"@.len());
    assert("dispatch_queued"@.len() != "claim_takeover"@.len());
    assert("dispatch_queued"@.len() != "run_launched"@.len());
    assert("dispatch_queued"@[0] != "issue_commented"@[0]);
    assert("dispatch_queued"@.len() != "issue_closed"@.len());
    assert("dispatch_queued"@.len() != "issue_reopened"@.len());
    assert("dispatch_queued"@.len() != "issue_state_changed"@.len());
    assert("dispatch_queued"@.len() != "pr_opened"@.len());
    assert("dispatch_queued"@[1] != "draft_pr_opened"@[1]);
    assert("dispatch_queued"@.len() != "awaiting_human"@.len());
    assert("dispatch_queued"@.len() != "awaiting_external"@.len());
    assert("dispatch_queued"@[0] != "retry_scheduled"@[0]);
}

proof fn lemma_activity_cleanup_performed()
    ensures
        spec_activity_status_and_label("cleanup_performed"@) == (UiStatus::Skipped, "cleaned up"@),
{
    reveal_strlit("cleanup_performed");
    reveal_strlit("claim_acquired");
    reveal_strlit("claim_released");
    reveal_strlit("claim_takeover");
    reveal_strlit("run_launched");
    reveal_strlit("issue_commented");
    reveal_strlit("issue_closed");
    reveal_strlit("issue_reopened");
    reveal_strlit("issue_state_changed");
    reveal_strlit("pr_opened");
    reveal_strlit("draft_pr_opened");
    reveal_strlit("awaiting_human");
    reveal_strlit("awaiting_external");
    reveal_strlit("retry_scheduled");
    reveal_strlit("dispatch_queued");
    assert("cleanup_performed"@.len() != "claim_acquired"@.len());
    assert("cleanup_performed"@.len() != "claim_released"@.len());
    assert("cleanup_performed"@.len() != "claim_takeover"@.len());
    assert("cleanup_performed"@.len() != "run_launched"@.len());
    assert("cleanup_performed"@.len() != "issue_commented"@.len());
    assert("cleanup_performed"@.len() != "issue_closed"@.len());
    assert("cleanup_performed"@.len() != "issue_reopened"@.len());
    assert("cleanup_performed"@.len() != "issue_state_changed"@.len());
    assert("cleanup_performed"@.len() != "pr_opened"@.len());
    assert("cleanup_performed"@.len() != "draft_pr_opened"@.len());
    assert("cleanup_performed"@.len() != "awaiting_human"@.len());
    assert("cleanup_performed"@[0] != "awaiting_external"@[0]);
    assert("cleanup_performed"@.len() != "retry_scheduled"@.len());
    assert("cleanup_performed"@.len() != "dispatch_queued"@.len());
}

proof fn lemma_activity_cycle_failed()
    ensures
        spec_activity_status_and_label("cycle_failed"@) == (UiStatus::Failed, "cycle failed"@),
{
    reveal_strlit("cycle_failed");
    reveal_strlit("claim_acquired");
    reveal_strlit("claim_released");
    reveal_strlit("claim_takeover");
    reveal_strlit("run_launched");
    reveal_strlit("issue_commented");
    reveal_strlit("issue_closed");
    reveal_strlit("issue_reopened");
    reveal_strlit("issue_state_changed");
    reveal_strlit("pr_opened");
    reveal_strlit("draft_pr_opened");
    reveal_strlit("awaiting_human");
    reveal_strlit("awaiting_external");
    reveal_strlit("retry_scheduled");
    reveal_strlit("dispatch_queued");
    reveal_strlit("cleanup_performed");
    assert("cycle_failed"@.len() != "claim_acquired"@.len());
    assert("cycle_failed"@.len() != "claim_released"@.len());
    assert("cycle_failed"@.len() != "claim_takeover"@.len());
    assert("cycle_failed"@[0] != "run_launched"@[0]);
    assert("cycle_failed"@.len() != "issue_commented"@.len());
    assert("cycle_failed"@[0] != "issue_closed"@[0]);
    assert("cycle_failed"@.len() != "issue_reopened"@.len());
    assert("cycle_failed"@.len() != "issue_state_changed"@.len());
    assert("cycle_failed"@.len() != "pr_opened"@.len());
    assert("cycle_failed"@.len() != "draft_pr_opened"@.len());
    assert("cycle_failed"@.len() != "awaiting_human"@.len());
    assert("cycle_failed"@.len() != "awaiting_external"@.len());
    assert("cycle_failed"@.len() != "retry_scheduled"@.len());
    assert("cycle_failed"@.len() != "dispatch_queued"@.len());
    assert("cycle_failed"@.len() != "cleanup_performed"@.len());
}

/// The live cycle frame and the activity section agree: labelling an event
/// directly, or by the name the monitor records for it, gives the same status
/// and label — for every kind except skipped cycles and consumed or skipped
/// wakes, which the activity section shows as a generic update.
pub proof fn law_event_label_matches_recorded_name(event: CycleEvent)
    requires
        event.kind != CycleEventKind::CycleSkipped,
        event.kind != CycleEventKind::WakeConsumed,
        event.kind != CycleEventKind::WakeSkipped,
    ensures
        spec_activity_status_and_label(spec_monitor_event_name(event)) == spec_cycle_event_status_and_label(event),
{
    match event.kind {
        CycleEventKind::ClaimAcquired => lemma_activity_claim_acquired(),
        CycleEventKind::ClaimReleased => lemma_activity_claim_released(),
        CycleEventKind::ClaimTakeover => lemma_activity_claim_takeover(),
        CycleEventKind::RunLaunched => lemma_activity_run_launched(),
        CycleEventKind::IssueCommented => lemma_activity_issue_commented(),
        CycleEventKind::IssueStateChanged => {
            lemma_activity_issue_closed();
            lemma_activity_issue_reopened();
            lemma_activity_issue_state_changed();
        },
        CycleEventKind::PullRequestOpened => {
            lemma_activity_pr_opened();
            lemma_activity_draft_pr_opened();
        },
        CycleEventKind::AwaitingHuman => lemma_activity_awaiting_human(),
        CycleEventKind::AwaitingExternal => lemma_activity_awaiting_external(),
        CycleEventKind::RetryScheduled => lemma_activity_retry_scheduled(),
        CycleEventKind::DispatchQueued => lemma_activity_dispatch_queued(),
        CycleEventKind::CleanupPerformed => lemma_activity_cleanup_performed(),
        CycleEventKind::CycleFailed => lemma_activity_cycle_failed(),
        _ => {},
    }
}

} // verus!

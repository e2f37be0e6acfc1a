//! Claim state: the statuses an issue claim moves through, how each is named
//! and shown, and the decisions taken on a claim outside the scheduler.

use vstd::prelude::*;
use vstd::string::*;
use crate::autoflow::shape::{human_tracker_name, spec_human_tracker_name, spec_truncate, truncate_for_table, truncate_text};
use crate::number::{i64_to_string, signed_decimal};
use crate::text::{chars_of, join_seqs, join_strings, str_eq};
use crate::json::Json;
use crate::ui::UiStatus;

verus! {

/// The lifecycle of an autoflow claim on one issue.
#[derive(Debug, Clone, Copy, PartialEq, Eq, Structural)]
pub enum ClaimStatus {
    Eligible,
    Claimed,
    Running,
    AwaitHuman,
    AwaitExternal,
    RetryBackoff,
    Blocked,
    Complete,
    Released,
}

pub open spec fn spec_status_name(status: ClaimStatus) -> Seq<char> {
    match status {
        ClaimStatus::Eligible => "eligible"@,
        ClaimStatus::Claimed => "claimed"@,
        ClaimStatus::Running => "running"@,
        ClaimStatus::AwaitHuman => "await_human"@,
        ClaimStatus::AwaitExternal => "await_external"@,
        ClaimStatus::RetryBackoff => "retry_backoff"@,
        ClaimStatus::Blocked => "blocked"@,
        ClaimStatus::Complete => "complete"@,
        ClaimStatus::Released => "released"@,
    }
}

/// The persisted spelling of a claim status.
pub fn status_name(status: ClaimStatus) -> (r: &'static str)
    ensures
        r@ == spec_status_name(status),
{
    match status {
        ClaimStatus::Eligible => "eligible",
        ClaimStatus::Claimed => "claimed",
        ClaimStatus::Running => "running",
        ClaimStatus::AwaitHuman => "await_human",
        ClaimStatus::AwaitExternal => "await_external",
        ClaimStatus::RetryBackoff => "retry_backoff",
        ClaimStatus::Blocked => "blocked",
        ClaimStatus::Complete => "complete",
        ClaimStatus::Released => "released",
    }
}

/// The same spelling, as the runtime names it in history records.
pub fn claim_status_name(status: ClaimStatus) -> (r: &'static str)
    ensures
        r@ == spec_status_name(status),
{
    status_name(status)
}

/// Whether a claim holds one of a repo's `max_active` slots.
pub open spec fn spec_counts_toward_max_active(status: ClaimStatus) -> bool {
    !(status == ClaimStatus::Complete || status == ClaimStatus::Released)
}

/// Every status but `complete` and `released` holds a slot.
pub fn claim_counts_toward_max_active(status: ClaimStatus) -> (r: bool)
    ensures
        r == spec_counts_toward_max_active(status),
{
    match status {
        ClaimStatus::Complete | ClaimStatus::Released => false,
        _ => true,
    }
}

/// A claim holds one of its repo's `max_active` slots exactly while it is
/// unfinished: every status but complete and released holds one, those
/// waiting on a human, on something external, on a retry or blocked included.
pub proof fn law_unfinished_claims_hold_slots(status: ClaimStatus)
    ensures
        spec_counts_toward_max_active(status) <==> !(status is Complete || status is Released),
        spec_counts_toward_max_active(ClaimStatus::AwaitHuman),
        spec_counts_toward_max_active(ClaimStatus::AwaitExternal),
        spec_counts_toward_max_active(ClaimStatus::RetryBackoff),
        spec_counts_toward_max_active(ClaimStatus::Blocked),
        !spec_counts_toward_max_active(ClaimStatus::Complete),
        !spec_counts_toward_max_active(ClaimStatus::Released),
{
}

/// The UI status class of a status name.
pub open spec fn spec_claim_status_ui(status: Seq<char>) -> UiStatus {
    if status == "claimed"@ || status == "running"@ {
        UiStatus::Working
    } else if status == "await_human"@ || status == "await_external"@ {
        UiStatus::Awaiting
    } else if status == "retry_backoff"@ {
        UiStatus::Retrying
    } else if status == "blocked"@ {
        UiStatus::Failed
    } else if status == "complete"@ {
        UiStatus::Complete
    } else if status == "released"@ {
        UiStatus::Skipped
    } else {
        UiStatus::Waiting
    }
}

/// How a claim status is coloured.
pub fn claim_status_ui(status: &str) -> (r: UiStatus)
    ensures
        r == spec_claim_status_ui(status@),
{
    if str_eq(status, "claimed") || str_eq(status, "running") {
        UiStatus::Working
    } else if str_eq(status, "await_human") || str_eq(status, "await_external") {
        UiStatus::Awaiting
    } else if str_eq(status, "retry_backoff") {
        UiStatus::Retrying
    } else if str_eq(status, "blocked") {
        UiStatus::Failed
    } else if str_eq(status, "complete") {
        UiStatus::Complete
    } else if str_eq(status, "released") {
        UiStatus::Skipped
    } else {
        UiStatus::Waiting
    }
}

/// One row of `autoflow claims` / the monitor's claims section.
#[derive(Debug, Clone)]
pub struct AutoflowClaimRow {
    pub issue: String,
    pub issue_display: Option<String>,
    pub tracker: Option<String>,
    pub state: Option<String>,
    pub source: Option<String>,
    pub repo: String,
    pub workflow: String,
    pub priority: String,
    pub status: String,
    pub next: String,
    pub branch: String,
    pub pr: String,
    pub summary: String,
    pub contenders: String,
    pub workspace: String,
    pub last_cycle: String,
    pub last_event: String,
    pub last_run: String,
}

/// A claim keeps the heartbeat busy until it is complete.
pub fn claim_is_live_for_heartbeat(claim: &AutoflowClaimRow) -> (r: bool)
    ensures
        r == (claim.status@ != "complete"@),
{
    !str_eq(claim.status.as_str(), "complete")
}

pub open spec fn spec_heartbeat_action_label(status: Seq<char>) -> Seq<char> {
    if status == "running"@ || status == "claimed"@ {
        "processing"@
    } else if status == "await_human"@ {
        "awaiting input on"@
    } else if status == "await_external"@ {
        "waiting on"@
    } else if status == "blocked"@ {
        "blocked on"@
    } else {
        "tracking"@
    }
}

/// The verb the serve heartbeat uses for a claim in this status.
pub fn heartbeat_action_label(claim: &AutoflowClaimRow) -> (r: &'static str)
    ensures
        r@ == spec_heartbeat_action_label(claim.status@),
{
    let s = claim.status.as_str();
    if str_eq(s, "running") || str_eq(s, "claimed") {
        "processing"
    } else if str_eq(s, "await_human") {
        "awaiting input on"
    } else if str_eq(s, "await_external") {
        "waiting on"
    } else if str_eq(s, "blocked") {
        "blocked on"
    } else {
        "tracking"
    }
}

/// A claim is drawn in a cycle frame when the cycle touched it or it is still live.
pub fn claim_should_render_in_cycle_frame(claim: &AutoflowClaimRow, claim_event_count: usize) -> (r: bool)
    ensures
        r == (claim_event_count > 0 || claim.status@ != "complete"@),
{
    claim_event_count > 0 || claim_is_live_for_heartbeat(claim)
}

pub open spec fn all_ascii_digits(s: Seq<char>) -> bool {
    forall|i: int| 0 <= i < s.len() ==> '0' <= #[trigger] s[i] && s[i] <= '9'
}

fn is_all_ascii_digits(s: &str) -> (r: bool)
    ensures
        r == all_ascii_digits(s@),
{
    let cs = chars_of(s);
    let mut i: usize = 0;
    while i < cs.len()
        invariant
            cs@ == s@,
            i <= cs@.len(),
            forall|j: int| 0 <= j < i ==> '0' <= #[trigger] s@[j] && s@[j] <= '9',
        decreases cs@.len() - i,
    {
        if !('0' <= cs[i] && cs[i] <= '9') {
            return false;
        }
        i = i + 1;
    }
    true
}

/// The display text of a claim's issue (`issue_display`, else `issue`).
pub open spec fn claim_display(claim: AutoflowClaimRow) -> Seq<char> {
    match claim.issue_display {
        Some(d) => d@,
        None => claim.issue@,
    }
}

/// `GitHub #42` for a numeric GitHub issue, the bare key for Jira/Linear,
/// `<Tracker> <display>` for other trackers, the display alone without one.
pub open spec fn spec_issue_headline(claim: AutoflowClaimRow) -> Seq<char> {
    let display = claim_display(claim);
    match claim.tracker {
        Some(t) => if t@ == "github"@ && all_ascii_digits(display) {
            "GitHub #"@ + display
        } else if t@ == "jira"@ || t@ == "linear"@ {
            display
        } else {
            spec_human_tracker_name(t@) + " "@ + display
        },
        None => display,
    }
}

/// The headline of a claim's issue in live views.
pub fn display_issue_headline(claim: &AutoflowClaimRow) -> (r: String)
    ensures
        r@ == spec_issue_headline(*claim),
{
    let display: &str = match &claim.issue_display {
        Some(d) => d.as_str(),
        None => claim.issue.as_str(),
    };
    match &claim.tracker {
        Some(t) => {
            let t = t.as_str();
            if str_eq(t, "github") && is_all_ascii_digits(display) {
                let mut s = String::from_str("GitHub #");
                s.append(display);
                s
            } else if str_eq(t, "jira") || str_eq(t, "linear") {
                String::from_str(display)
            } else {
                let mut s = String::from_str(human_tracker_name(t));
                s.append(" ");
                s.append(display);
                s
            }
        },
        None => String::from_str(display),
    }
}

/// One workflow competing for an issue.
#[derive(Debug, Clone)]
pub struct AutoflowContender {
    pub workflow: String,
    pub priority: i32,
    pub scope: Option<String>,
    pub selected: bool,
}

pub open spec fn contender_text(c: AutoflowContender) -> Seq<char> {
    (if c.selected { "*"@ } else { Seq::empty() }) + c.workflow@ + "["@ + signed_decimal(c.priority as int) + "]"@
}

/// `*winner[10], other[5]`, or `-` when nobody contended.
pub fn format_contenders(contenders: &Vec<AutoflowContender>) -> (r: String)
    ensures
        r@ == (if contenders@.len() == 0 {
            "-"@
        } else {
            join_seqs(contenders@.map_values(|c: AutoflowContender| contender_text(c)), ", "@)
        }),
{
    if contenders.len() == 0 {
        return String::from_str("-");
    }
    let mut parts: Vec<String> = Vec::new();
    let mut i: usize = 0;
    while i < contenders.len()
        invariant
            i <= contenders@.len(),
            parts@.map_values(|s: String| s@) == contenders@.subrange(0, i as int).map_values(
                |c: AutoflowContender| contender_text(c),
            ),
        decreases contenders@.len() - i,
    {
        let c = &contenders[i];
        let mut s = String::new();
        if c.selected {
            s.append("*");
        }
        s.append(c.workflow.as_str());
        s.append("[");
        let p = i64_to_string(c.priority as i64);
        s.append(p.as_str());
        s.append("]");
        proof {
            assert(s@ =~= contender_text(*c));
        }
        let ghost before = parts@;
        parts.push(s);
        proof {
            assert(parts@.map_values(|s: String| s@) =~= before.map_values(|s: String| s@).push(
                contender_text(contenders@[i as int]),
            ));
            assert(contenders@.subrange(0, i + 1).map_values(|c: AutoflowContender| contender_text(c))
                =~= contenders@.subrange(0, i as int).map_values(|c: AutoflowContender| contender_text(c)).push(
                contender_text(contenders@[i as int]),
            ));
        }
        i = i + 1;
    }
    proof {
        assert(contenders@.subrange(0, contenders@.len() as int) =~= contenders@);
    }
    join_strings(&parts, ", ")
}

/// The priority of the selected contender, if one is marked.
pub open spec fn spec_selected_priority(contenders: Seq<AutoflowContender>) -> Option<i32>
    decreases contenders.len(),
{
    if contenders.len() == 0 {
        None
    } else if contenders[0].selected {
        Some(contenders[0].priority)
    } else {
        spec_selected_priority(contenders.drop_first())
    }
}

/// The priority of the first selected contender.
pub fn selected_priority(contenders: &Vec<AutoflowContender>) -> (r: Option<i32>)
    ensures
        r == spec_selected_priority(contenders@),
{
    let mut i: usize = 0;
    proof {
        assert(contenders@.subrange(0, contenders@.len() as int) =~= contenders@);
    }
    while i < contenders.len()
        invariant
            i <= contenders@.len(),
            spec_selected_priority(contenders@) == spec_selected_priority(
                contenders@.subrange(i as int, contenders@.len() as int),
            ),
        decreases contenders@.len() - i,
    {
        proof {
            let rest = contenders@.subrange(i as int, contenders@.len() as int);
            assert(rest.drop_first() =~= contenders@.subrange(i + 1, contenders@.len() as int));
            assert(rest[0] == contenders@[i as int]);
        }
        if contenders[i].selected {
            return Some(contenders[i].priority);
        }
        i = i + 1;
    }
    None
}

/// A follow-up workflow a claim will run on its next pass.
#[derive(Debug, Clone)]
pub struct PendingDispatch {
    pub workflow: String,
    pub target: String,
    /// Workflow inputs, in key order.
    pub inputs: Vec<(String, String)>,
}

/// The fields of a persisted claim that the decisions below read and write.
#[derive(Debug, Clone)]
pub struct ClaimRecord {
    pub issue_ref: String,
    pub repo_ref: String,
    pub source_ref: Option<String>,
    pub issue_display_ref: Option<String>,
    pub issue_title: Option<String>,
    pub issue_url: Option<String>,
    pub issue_state_name: Option<String>,
    pub issue_tracker: Option<String>,
    pub workflow: String,
    pub status: ClaimStatus,
    pub updated_at: String,
    pub worktree_path: Option<String>,
    pub branch: Option<String>,
    pub claim_owner: Option<String>,
    pub lease_expires_at: Option<String>,
    pub next_retry_at: Option<String>,
    pub last_run_id: Option<String>,
    pub last_error: Option<String>,
    pub last_summary: Option<String>,
    pub pr_url: Option<String>,
    pub artifact_manifest_path: Option<String>,
    /// The artifacts the last outcome reported, as it gave them.
    pub artifacts: Option<Json>,
    pub pending_dispatch: Option<PendingDispatch>,
    pub contenders: Vec<AutoflowContender>,
}

/// What a claim will do next.
pub open spec fn spec_next_action(claim: ClaimRecord) -> Seq<char> {
    match claim.pending_dispatch {
        Some(d) => "dispatch "@ + d.workflow@,
        None => match claim.next_retry_at {
            Some(t) => "retry "@ + t@,
            None => match claim.status {
                ClaimStatus::AwaitHuman => "human approval"@,
                ClaimStatus::AwaitExternal => "external change"@,
                ClaimStatus::Running => match claim.last_run_id {
                    Some(r) => r@,
                    None => "running"@,
                },
                _ => match claim.last_run_id {
                    Some(r) => r@,
                    None => "-"@,
                },
            },
        },
    }
}

/// The `next` column of a claim: a queued dispatch, a scheduled retry, what
/// it waits on, or its last run.
pub fn next_action_summary(claim: &ClaimRecord) -> (r: String)
    ensures
        r@ == spec_next_action(*claim),
{
    if let Some(d) = &claim.pending_dispatch {
        let mut s = String::from_str("dispatch ");
        s.append(d.workflow.as_str());
        return s;
    }
    if let Some(t) = &claim.next_retry_at {
        let mut s = String::from_str("retry ");
        s.append(t.as_str());
        return s;
    }
    match claim.status {
        ClaimStatus::AwaitHuman => String::from_str("human approval"),
        ClaimStatus::AwaitExternal => String::from_str("external change"),
        ClaimStatus::Running => match &claim.last_run_id {
            Some(r) => r.clone(),
            None => String::from_str("running"),
        },
        _ => match &claim.last_run_id {
            Some(r) => r.clone(),
            None => String::from_str("-"),
        },
    }
}

/// The last summary of a claim, trimmed and cut to 48 characters, or `-`.
pub fn claim_summary(claim: &ClaimRecord) -> (r: String)
    ensures
        r@ == match claim.last_summary {
            Some(s) => spec_truncate(crate::text::trim_seq(s@), 48),
            None => "-"@,
        },
{
    match &claim.last_summary {
        Some(s) => truncate_for_table(s.as_str(), 48),
        None => String::from_str("-"),
    }
}

/// A claim owned by one workflow yields the issue to a different winning
/// workflow, unless a cycle holds its lock or it waits on a human, is blocked,
/// complete or released.
pub fn claim_should_yield_to_winner(claim: &ClaimRecord, winner_workflow: Option<&str>, active_lock_held: bool) -> (r:
    bool)
    ensures
        r == (!active_lock_held && (winner_workflow matches Some(w) && w@ != claim.workflow@) && !(
        claim.status == ClaimStatus::AwaitHuman || claim.status == ClaimStatus::Blocked || claim.status
            == ClaimStatus::Complete || claim.status == ClaimStatus::Released)),
{
    if active_lock_held {
        return false;
    }
    let w = match winner_workflow {
        Some(w) => w,
        None => return false,
    };
    if str_eq(w, claim.workflow.as_str()) {
        return false;
    }
    match claim.status {
        ClaimStatus::AwaitHuman | ClaimStatus::Blocked | ClaimStatus::Complete | ClaimStatus::Released => false,
        _ => true,
    }
}

} // verus!

//! One autonomous cycle on an issue's claim: how the claim is taken, what a
//! finished or unfinished run does to it, how a workflow's outcome is
//! applied, and which follow-up wake the claim asks for.

use vstd::prelude::*;
use vstd::string::*;
use crate::autoflow::claims::{AutoflowContender, ClaimRecord, ClaimStatus, PendingDispatch};
use crate::autoflow::command::entry_views;
use crate::autoflow::history::ov;
use crate::autoflow::duration::{duration_text_ok, parse_duration, spec_parse_duration, DurationError};
use crate::autoflow::issue_ref::{canonical_autoflow_issue_ref, spec_canonical_issue_ref, IssueRefError};
use crate::autoflow::wake_hints::WakeSource;
use crate::json::{json_copy, jview, Json, JsonV};
use crate::number::u64_to_string;
use crate::text::{str_eq, trim_chars, trim_seq, string_from_chars, chars_of};
use crate::time::{format_rfc3339, parse_rfc3339, spec_rfc3339_instant, spec_rfc3339_text, Timestamp};

verus! {

/// Where a cycle works on the issue.
#[derive(Debug, Clone, Copy, PartialEq, Eq, Structural)]
pub enum WorkspaceStrategy {
    /// A managed worktree per issue.
    Worktree,
    /// The repo's own checkout.
    InPlace,
}

/// The checkout mode configured for autoflow.
#[derive(Debug, Clone, Copy, PartialEq, Eq, Structural)]
pub enum CheckoutMode {
    Worktree,
    InPlace,
}

/// The workflow's own strategy wins; otherwise the configured checkout mode,
/// a worktree by default.
pub fn resolve_workspace_strategy(workflow_strategy: Option<WorkspaceStrategy>, checkout: Option<CheckoutMode>) -> (r:
    WorkspaceStrategy)
    ensures
        r == match workflow_strategy {
            Some(s) => s,
            None => match checkout {
                Some(CheckoutMode::InPlace) => WorkspaceStrategy::InPlace,
                _ => WorkspaceStrategy::Worktree,
            },
        },
{
    if let Some(s) = workflow_strategy {
        return s;
    }
    match checkout {
        Some(CheckoutMode::InPlace) => WorkspaceStrategy::InPlace,
        _ => WorkspaceStrategy::Worktree,
    }
}

/// The name a run envelope gives the strategy.
pub fn workspace_strategy_name(s: WorkspaceStrategy) -> (r: &'static str)
    ensures
        r@ == match s {
            WorkspaceStrategy::Worktree => "managed_worktree"@,
            WorkspaceStrategy::InPlace => "in_place_checkout"@,
        },
{
    match s {
        WorkspaceStrategy::Worktree => "managed_worktree",
        WorkspaceStrategy::InPlace => "in_place_checkout",
    }
}

/// The branch a cycle works on: the rendered branch template, trimmed, where
/// it is not blank; else `rupu/<issue directory name>`.
pub fn resolve_branch_name(rendered_template: Option<&str>, issue_dir_name: &str) -> (r: String)
    ensures
        r@ == match rendered_template {
            Some(t) => if trim_seq(t@).len() > 0 {
                trim_seq(t@)
            } else {
                "rupu/"@ + issue_dir_name@
            },
            None => "rupu/"@ + issue_dir_name@,
        },
{
    if let Some(t) = rendered_template {
        let trimmed = trim_chars(chars_of(t).as_slice());
        if trimmed.len() > 0 {
            return string_from_chars(trimmed.as_slice());
        }
    }
    let mut s = String::from_str("rupu/");
    s.append(issue_dir_name);
    s
}

/// `<user>:pid-<pid>`: who holds a cycle's lock.
pub fn claim_owner_text(user: &str, pid: u32) -> (r: String)
    ensures
        r@ == user@ + ":pid-"@ + crate::number::decimal(pid as nat),
{
    let mut s = String::from_str(user);
    s.append(":pid-");
    let n = u64_to_string(pid as u64);
    s.append(n.as_str());
    s
}

/// The claim a cycle starts from when the issue has none: claimed by the
/// workflow on the repo, with nothing else known.
pub fn new_cycle_claim(issue_ref: &str, repo_ref: &str, workflow: &str, updated_at: &str) -> (r: ClaimRecord)
    ensures
        r.issue_ref@ == issue_ref@,
        r.repo_ref@ == repo_ref@,
        r.workflow@ == workflow@,
        r.status == ClaimStatus::Claimed,
        r.updated_at@ == updated_at@,
        r.source_ref is None && r.issue_display_ref is None && r.issue_title is None && r.issue_url is None,
        r.issue_state_name is None && r.issue_tracker is None && r.worktree_path is None && r.branch is None,
        r.claim_owner is None && r.lease_expires_at is None && r.next_retry_at is None && r.last_run_id is None,
        r.last_error is None && r.last_summary is None && r.pr_url is None && r.artifact_manifest_path is None,
        r.pending_dispatch is None && r.artifacts is None && r.contenders@.len() == 0,
{
    ClaimRecord {
        issue_ref: String::from_str(issue_ref),
        repo_ref: String::from_str(repo_ref),
        source_ref: None,
        issue_display_ref: None,
        issue_title: None,
        issue_url: None,
        issue_state_name: None,
        issue_tracker: None,
        workflow: String::from_str(workflow),
        status: ClaimStatus::Claimed,
        updated_at: String::from_str(updated_at),
        worktree_path: None,
        branch: None,
        claim_owner: None,
        lease_expires_at: None,
        next_retry_at: None,
        last_run_id: None,
        last_error: None,
        last_summary: None,
        pr_url: None,
        artifact_manifest_path: None,
        artifacts: None,
        pending_dispatch: None,
        contenders: Vec::new(),
    }
}

/// What a cycle records on the claim before it runs the workflow.
#[derive(Debug, Clone)]
pub struct CycleStart {
    pub source_ref: String,
    pub issue_display_ref: String,
    pub issue_title: String,
    pub issue_url: Option<String>,
    pub issue_state_name: String,
    pub issue_tracker: String,
    pub workflow: String,
    pub worktree_path: String,
    pub branch: String,
    pub owner: String,
    pub lease_expires_at: Option<String>,
    pub contenders: Vec<AutoflowContender>,
    pub updated_at: String,
}

/// Take the claim for a cycle: the issue's details, the workspace, the owner
/// and lease; the claim is running, and any pending dispatch is consumed.
pub fn begin_cycle(claim: &mut ClaimRecord, start: CycleStart)
    ensures
        final(claim).issue_ref == old(claim).issue_ref,
        final(claim).repo_ref == old(claim).repo_ref,
        final(claim).status == ClaimStatus::Running,
        final(claim).source_ref == Some(start.source_ref),
        final(claim).issue_display_ref == Some(start.issue_display_ref),
        final(claim).issue_title == Some(start.issue_title),
        final(claim).issue_url == start.issue_url,
        final(claim).issue_state_name == Some(start.issue_state_name),
        final(claim).issue_tracker == Some(start.issue_tracker),
        final(claim).workflow == start.workflow,
        final(claim).worktree_path == Some(start.worktree_path),
        final(claim).branch == Some(start.branch),
        final(claim).claim_owner == Some(start.owner),
        final(claim).lease_expires_at == start.lease_expires_at,
        final(claim).pending_dispatch is None,
        final(claim).contenders == start.contenders,
        final(claim).updated_at == start.updated_at,
        final(claim).next_retry_at == old(claim).next_retry_at,
        final(claim).last_run_id == old(claim).last_run_id,
        final(claim).last_error == old(claim).last_error,
        final(claim).last_summary == old(claim).last_summary,
        final(claim).pr_url == old(claim).pr_url,
        final(claim).artifact_manifest_path == old(claim).artifact_manifest_path,
{
    claim.source_ref = Some(start.source_ref);
    claim.issue_display_ref = Some(start.issue_display_ref);
    claim.issue_title = Some(start.issue_title);
    claim.issue_url = start.issue_url;
    claim.issue_state_name = Some(start.issue_state_name);
    claim.issue_tracker = Some(start.issue_tracker);
    claim.workflow = start.workflow;
    claim.status = ClaimStatus::Running;
    claim.worktree_path = Some(start.worktree_path);
    claim.branch = Some(start.branch);
    claim.claim_owner = Some(start.owner);
    claim.lease_expires_at = start.lease_expires_at;
    claim.pending_dispatch = None;
    claim.contenders = start.contenders;
    claim.updated_at = start.updated_at;
}

/// How the workflow run of a cycle ended.
#[derive(Debug, Clone)]
pub enum CycleRunResult {
    /// The run ended or paused: its id, its artifact manifest, and whether it
    /// waits at an approval step.
    Finished { run_id: String, artifact_manifest_path: Option<String>, awaiting_approval: bool },
    /// The run could not be carried out.
    Failed { error: String },
}

/// What a cycle does after recording the run.
#[derive(Debug, Clone, Copy, PartialEq, Eq, Structural)]
pub enum CycleNext {
    /// The claim is settled; save it.
    Save,
    /// Read the run's outcome and apply it to the claim.
    ApplyOutcome,
    /// Save the claim and report the failure.
    SaveAndFail,
}

/// Record how the run ended: a run waiting for approval waits on a human; a
/// finished run has its outcome applied next; a failed run blocks the claim
/// with the error.
pub fn record_cycle_run(claim: &mut ClaimRecord, result: &CycleRunResult, updated_at: &str) -> (r: CycleNext)
    ensures
        match *result {
            CycleRunResult::Finished { run_id, artifact_manifest_path, awaiting_approval } => {
                &&& final(claim).last_run_id matches Some(id) && id@ == run_id@
                &&& final(claim).artifact_manifest_path == artifact_manifest_path
                &&& if awaiting_approval {
                    &&& r == CycleNext::Save
                    &&& final(claim).status == ClaimStatus::AwaitHuman
                    &&& final(claim).last_error is None
                    &&& final(claim).updated_at@ == updated_at@
                } else {
                    &&& r == CycleNext::ApplyOutcome
                    &&& final(claim).status == old(claim).status
                    &&& final(claim).last_error == old(claim).last_error
                    &&& final(claim).updated_at == old(claim).updated_at
                }
            },
            CycleRunResult::Failed { error } => {
                &&& r == CycleNext::SaveAndFail
                &&& final(claim).status == ClaimStatus::Blocked
                &&& final(claim).last_error matches Some(e) && e@ == error@
                &&& final(claim).updated_at@ == updated_at@
                &&& final(claim).last_run_id == old(claim).last_run_id
                &&& final(claim).artifact_manifest_path == old(claim).artifact_manifest_path
            },
        },
        final(claim).issue_ref == old(claim).issue_ref,
        final(claim).workflow == old(claim).workflow,
        final(claim).pending_dispatch == old(claim).pending_dispatch,
{
    match result {
        CycleRunResult::Finished { run_id, artifact_manifest_path, awaiting_approval } => {
            claim.last_run_id = Some(run_id.clone());
            claim.artifact_manifest_path = artifact_manifest_path.clone();
            if *awaiting_approval {
                claim.status = ClaimStatus::AwaitHuman;
                claim.last_error = None;
                claim.updated_at = String::from_str(updated_at);
                CycleNext::Save
            } else {
                CycleNext::ApplyOutcome
            }
        },
        CycleRunResult::Failed { error } => {
            claim.status = ClaimStatus::Blocked;
            claim.last_error = Some(error.clone());
            claim.updated_at = String::from_str(updated_at);
            CycleNext::SaveAndFail
        },
    }
}

/// Where a workflow run stands.
#[derive(Debug, Clone, Copy, PartialEq, Eq, Structural)]
pub enum RunStatus {
    Pending,
    Running,
    AwaitingApproval,
    Completed,
    Failed,
    Rejected,
}

pub open spec fn spec_run_status_name(s: RunStatus) -> Seq<char> {
    match s {
        RunStatus::Pending => "pending"@,
        RunStatus::Running => "running"@,
        RunStatus::AwaitingApproval => "awaiting_approval"@,
        RunStatus::Completed => "completed"@,
        RunStatus::Failed => "failed"@,
        RunStatus::Rejected => "rejected"@,
    }
}

/// The stored name of a run status.
pub fn run_status_name(s: RunStatus) -> (r: &'static str)
    ensures
        r@ == spec_run_status_name(s),
{
    match s {
        RunStatus::Pending => "pending",
        RunStatus::Running => "running",
        RunStatus::AwaitingApproval => "awaiting_approval",
        RunStatus::Completed => "completed",
        RunStatus::Failed => "failed",
        RunStatus::Rejected => "rejected",
    }
}

/// The run status a stored name stands for, if any.
pub fn run_status_from_name(text: &str) -> (r: Option<RunStatus>)
    ensures
        match r {
            Some(s) => spec_run_status_name(s) == text@,
            None => forall|s: RunStatus| spec_run_status_name(s) != text@,
        },
{
    if str_eq(text, "pending") {
        Some(RunStatus::Pending)
    } else if str_eq(text, "running") {
        Some(RunStatus::Running)
    } else if str_eq(text, "awaiting_approval") {
        Some(RunStatus::AwaitingApproval)
    } else if str_eq(text, "completed") {
        Some(RunStatus::Completed)
    } else if str_eq(text, "failed") {
        Some(RunStatus::Failed)
    } else if str_eq(text, "rejected") {
        Some(RunStatus::Rejected)
    } else {
        None
    }
}

/// Bring the claim in line with a run that has not completed: waiting for
/// approval waits on a human; failed or rejected blocks with the run's error
/// (or its status); pending or running is running. `true` when the run has
/// completed and its outcome is to be applied instead.
pub fn apply_unfinished_run(claim: &mut ClaimRecord, status: RunStatus, error_message: Option<&str>, updated_at: &str) -> (r:
    bool)
    ensures
        r == (status == RunStatus::Completed),
        r ==> *final(claim) == *old(claim),
        !r ==> final(claim).updated_at@ == updated_at@,
        status == RunStatus::AwaitingApproval ==> final(claim).status == ClaimStatus::AwaitHuman
            && final(claim).last_error == old(claim).last_error,
        (status == RunStatus::Pending || status == RunStatus::Running) ==> final(claim).status == ClaimStatus::Running
            && final(claim).last_error == old(claim).last_error,
        (status == RunStatus::Failed || status == RunStatus::Rejected) ==> (final(claim).status == ClaimStatus::Blocked
            && (final(claim).last_error matches Some(e) && e@ == match error_message {
            Some(m) => m@,
            None => spec_run_status_name(status),
        })),
        final(claim).issue_ref == old(claim).issue_ref,
        final(claim).workflow == old(claim).workflow,
        final(claim).pending_dispatch == old(claim).pending_dispatch,
{
    match status {
        RunStatus::Completed => true,
        RunStatus::AwaitingApproval => {
            claim.status = ClaimStatus::AwaitHuman;
            claim.updated_at = String::from_str(updated_at);
            false
        },
        RunStatus::Failed | RunStatus::Rejected => {
            claim.status = ClaimStatus::Blocked;
            claim.last_error = Some(
                match error_message {
                    Some(m) => String::from_str(m),
                    None => String::from_str(run_status_name(status)),
                },
            );
            claim.updated_at = String::from_str(updated_at);
            false
        },
        RunStatus::Pending | RunStatus::Running => {
            claim.status = ClaimStatus::Running;
            claim.updated_at = String::from_str(updated_at);
            false
        },
    }
}

/// The status a workflow's outcome asks for.
#[derive(Debug, Clone, Copy, PartialEq, Eq, Structural)]
pub enum OutcomeStatus {
    Continue,
    AwaitHuman,
    AwaitExternal,
    Retry,
    Blocked,
    Complete,
}

/// A follow-up workflow an outcome asks for.
#[derive(Debug, Clone)]
pub struct OutcomeDispatch {
    pub workflow: String,
    pub target: String,
    pub inputs: Vec<(String, String)>,
}

/// A workflow's validated outcome.
#[derive(Debug, Clone)]
pub struct OutcomeDoc {
    pub status: OutcomeStatus,
    pub summary: Option<String>,
    pub dispatch: Option<OutcomeDispatch>,
    pub retry_after: Option<String>,
    pub pr_url: Option<String>,
    pub reason: Option<String>,
    /// Artifacts the workflow reports, as free-form JSON.
    pub artifacts: Option<Json>,
}

/// The claim status an outcome status becomes.
pub open spec fn spec_outcome_claim_status(s: OutcomeStatus) -> ClaimStatus {
    match s {
        OutcomeStatus::Continue => ClaimStatus::Claimed,
        OutcomeStatus::AwaitHuman => ClaimStatus::AwaitHuman,
        OutcomeStatus::AwaitExternal => ClaimStatus::AwaitExternal,
        OutcomeStatus::Retry => ClaimStatus::RetryBackoff,
        OutcomeStatus::Blocked => ClaimStatus::Blocked,
        OutcomeStatus::Complete => ClaimStatus::Complete,
    }
}

/// Why an outcome could not be applied.
#[derive(Debug, Clone)]
pub enum OutcomeError {
    /// The dispatch target is not an issue reference.
    DispatchTarget(IssueRefError),
    /// The dispatch targets another issue than the claimed one.
    DispatchMismatch { target: String, issue_ref: String },
    /// A retry outcome without `retry_after`.
    MissingRetryAfter,
    /// `retry_after` is neither a timestamp nor a duration.
    RetryAfter(DurationError),
    /// The retry time falls outside what a timestamp can hold.
    RetryOutOfRange,
}

impl OutcomeError {
    pub fn message(&self) -> (r: String)
        ensures
            match *self {
                OutcomeError::DispatchMismatch { target, issue_ref } => r@ == "autoflow dispatch target `"@ + target@
                    + "` does not match claimed issue `"@ + issue_ref@ + "`"@,
                OutcomeError::MissingRetryAfter => r@ == "autoflow retry outcome must include `retry_after`"@,
                OutcomeError::RetryOutOfRange => r@ == "autoflow retry time is out of range"@,
                _ => true,
            },
    {
        match self {
            OutcomeError::DispatchTarget(e) => e.message(),
            OutcomeError::DispatchMismatch { target, issue_ref } => {
                let mut s = String::from_str("autoflow dispatch target `");
                s.append(target.as_str());
                s.append("` does not match claimed issue `");
                s.append(issue_ref.as_str());
                s.append("`");
                s
            },
            OutcomeError::MissingRetryAfter => String::from_str("autoflow retry outcome must include `retry_after`"),
            OutcomeError::RetryAfter(e) => e.message(),
            OutcomeError::RetryOutOfRange => String::from_str("autoflow retry time is out of range"),
        }
    }
}

/// When a retry is due: a timestamp is taken as it is (written in UTC), a
/// duration counts from `now`.
pub open spec fn spec_retry_at(value: Seq<char>, now: Timestamp) -> Option<Option<Seq<char>>> {
    match spec_rfc3339_instant(value) {
        Some((secs, nanos)) => Some(spec_rfc3339_text(secs, nanos)),
        None => match spec_parse_duration(value) {
            Err(_) => None,
            Ok(d) => if i64::MIN <= now.secs + d <= i64::MAX {
                Some(spec_rfc3339_text(now.secs + d, now.nanos as int))
            } else {
                Some(None)
            },
        },
    }
}

/// When a retry is due, as RFC 3339 text.
pub fn resolve_retry_at(value: &str, now: Timestamp) -> (r: Result<String, OutcomeError>)
    requires
        duration_text_ok(value@),
    ensures
        match spec_retry_at(value@, now) {
            Some(Some(text)) => r matches Ok(s) && s@ == text,
            Some(None) => r matches Err(OutcomeError::RetryOutOfRange),
            None => r matches Err(OutcomeError::RetryAfter(_)),
        },
{
    if let Some(t) = parse_rfc3339(value) {
        return match format_rfc3339(t) {
            Some(s) => Ok(s),
            None => Err(OutcomeError::RetryOutOfRange),
        };
    }
    let secs = match parse_duration(value) {
        Ok(s) => s,
        Err(e) => return Err(OutcomeError::RetryAfter(e)),
    };
    let shifted: i128 = now.secs as i128 + secs as i128;
    if shifted < i64::MIN as i128 || shifted > i64::MAX as i128 {
        return Err(OutcomeError::RetryOutOfRange);
    }
    match format_rfc3339(Timestamp { secs: shifted as i64, nanos: now.nanos }) {
        Some(s) => Ok(s),
        None => Err(OutcomeError::RetryOutOfRange),
    }
}

/// What applying a completed run's outcome does to the claim, field by
/// field, where it succeeds.
pub open spec fn outcome_applied(
    pre: ClaimRecord,
    post: ClaimRecord,
    outcome: OutcomeDoc,
    artifact_manifest_path: Option<String>,
    issue_state: Option<String>,
    updated_at: Seq<char>,
) -> bool {
    &&& post.issue_ref == pre.issue_ref
    &&& post.repo_ref == pre.repo_ref
    &&& post.workflow == pre.workflow
    &&& post.status == spec_outcome_claim_status(outcome.status)
    &&& ov(post.last_summary) == ov(outcome.summary)
    &&& ov(post.pr_url) == ov(outcome.pr_url)
    &&& post.artifact_manifest_path == artifact_manifest_path
    &&& opt_jview(post.artifacts) == opt_jview(outcome.artifacts)
    &&& ov(post.last_error) == ov(outcome.reason)
    &&& (outcome.status != OutcomeStatus::Retry ==> post.next_retry_at is None)
    &&& match outcome.dispatch {
        Some(d) => post.pending_dispatch matches Some(p) && p.workflow@ == d.workflow@ && p.target@ == pre.issue_ref@
            && entry_views(p.inputs@) == entry_views(d.inputs@),
        None => post.pending_dispatch is None,
    }
    &&& post.issue_state_name == match issue_state {
        Some(s) => Some(s),
        None => pre.issue_state_name,
    }
    &&& post.updated_at@ == updated_at
    &&& post.source_ref == pre.source_ref
    &&& post.issue_display_ref == pre.issue_display_ref
    &&& post.issue_title == pre.issue_title
    &&& post.issue_url == pre.issue_url
    &&& post.issue_tracker == pre.issue_tracker
    &&& post.worktree_path == pre.worktree_path
    &&& post.branch == pre.branch
    &&& post.claim_owner == pre.claim_owner
    &&& post.lease_expires_at == pre.lease_expires_at
    &&& post.last_run_id == pre.last_run_id
    &&& post.contenders == pre.contenders
}

/// Applying an outcome leaves the claim in the status the outcome names:
/// continue keeps it claimed, await_human and await_external wait, retry
/// backs off, blocked blocks and complete completes; it queues a dispatch
/// exactly when the outcome asks for one, aimed at the claimed issue; and it
/// keeps a retry time only for a retry.
pub proof fn law_outcome_sets_claim_status(
    pre: ClaimRecord,
    post: ClaimRecord,
    outcome: OutcomeDoc,
    artifact_manifest_path: Option<String>,
    issue_state: Option<String>,
    updated_at: Seq<char>,
)
    requires
        outcome_applied(pre, post, outcome, artifact_manifest_path, issue_state, updated_at),
    ensures
        outcome.status is Continue ==> post.status is Claimed,
        outcome.status is AwaitHuman ==> post.status is AwaitHuman,
        outcome.status is AwaitExternal ==> post.status is AwaitExternal,
        outcome.status is Retry ==> post.status is RetryBackoff,
        outcome.status is Blocked ==> post.status is Blocked,
        outcome.status is Complete ==> post.status is Complete,
        !(post.status is Released || post.status is Eligible || post.status is Running),
        post.pending_dispatch is Some <==> outcome.dispatch is Some,
        post.pending_dispatch matches Some(p) ==> p.target@ == pre.issue_ref@,
        !(outcome.status is Retry) ==> post.next_retry_at is None,
        post.issue_ref == pre.issue_ref && post.workflow == pre.workflow && post.repo_ref == pre.repo_ref,
{
}

/// The plain value of an optional JSON value.
pub open spec fn opt_jview(j: Option<Json>) -> Option<JsonV> {
    match j {
        Some(v) => Some(jview(v)),
        None => None,
    }
}

fn copy_json_opt(j: &Option<Json>) -> (r: Option<Json>)
    ensures
        opt_jview(r) == opt_jview(*j),
{
    match j {
        Some(v) => Some(json_copy(v)),
        None => None,
    }
}

/// A copy of workflow inputs.
pub fn copy_inputs(inputs: &Vec<(String, String)>) -> (r: Vec<(String, String)>)
    ensures
        entry_views(r@) == entry_views(inputs@),
{
    let mut out: Vec<(String, String)> = Vec::new();
    let mut i: usize = 0;
    while i < inputs.len()
        invariant
            i <= inputs@.len(),
            entry_views(out@) == entry_views(inputs@.subrange(0, i as int)),
        decreases inputs@.len() - i,
    {
        let ghost before = entry_views(out@);
        out.push((inputs[i].0.clone(), inputs[i].1.clone()));
        proof {
            assert(entry_views(out@) =~= before.push((inputs@[i as int].0@, inputs@[i as int].1@)));
            assert(entry_views(inputs@.subrange(0, i + 1)) =~= entry_views(inputs@.subrange(0, i as int)).push(
                (inputs@[i as int].0@, inputs@[i as int].1@),
            ));
        }
        i = i + 1;
    }
    proof {
        assert(inputs@.subrange(0, inputs@.len() as int) =~= inputs@);
    }
    out
}

fn copy_opt(o: &Option<String>) -> (r: Option<String>)
    ensures
        ov(r) == ov(*o),
{
    match o {
        Some(s) => Some(s.clone()),
        None => None,
    }
}

/// Apply a completed run's validated outcome to the claim at `now`: the
/// summary, PR, artifacts and manifest path are recorded, a dispatch for the same issue is
/// queued, the reason becomes the last error, the status follows the
/// outcome, and a retry is scheduled from `retry_after`.
pub fn apply_outcome_to_claim(
    claim: &mut ClaimRecord,
    outcome: &OutcomeDoc,
    artifact_manifest_path: Option<String>,
    issue_state: Option<String>,
    now: Timestamp,
    updated_at: &str,
) -> (r: Result<(), OutcomeError>)
    requires
        outcome.retry_after matches Some(v) ==> duration_text_ok(v@),
    ensures
        r is Ok ==> outcome_applied(*old(claim), *final(claim), *outcome, artifact_manifest_path, issue_state, updated_at@),
        r is Ok && outcome.status == OutcomeStatus::Retry ==> (outcome.retry_after matches Some(v) && (spec_retry_at(
            v@,
            now,
        ) matches Some(Some(t)) && (final(claim).next_retry_at matches Some(n) && n@ == t))),
        outcome.dispatch matches Some(d) ==> match spec_canonical_issue_ref(d.target@) {
            None => r matches Err(OutcomeError::DispatchTarget(_)),
            Some(c) => c != old(claim).issue_ref@ ==> (r matches Err(OutcomeError::DispatchMismatch { target, issue_ref })
                && target@ == c && issue_ref@ == old(claim).issue_ref@),
        },
        (outcome.dispatch matches Some(d) ==> spec_canonical_issue_ref(d.target@) == Some(old(claim).issue_ref@)) ==> (
        r is Ok <==> (outcome.status == OutcomeStatus::Retry ==> (outcome.retry_after matches Some(v) && (spec_retry_at(
            v@,
            now,
        ) matches Some(Some(_)))))),
        outcome.status == OutcomeStatus::Retry && outcome.retry_after is None ==> r is Err,
{
    claim.last_error = None;
    claim.last_summary = copy_opt(&outcome.summary);
    claim.pr_url = copy_opt(&outcome.pr_url);
    claim.artifacts = copy_json_opt(&outcome.artifacts);
    claim.artifact_manifest_path = artifact_manifest_path;
    claim.next_retry_at = None;
    claim.pending_dispatch = None;
    if let Some(d) = &outcome.dispatch {
        let target = match canonical_autoflow_issue_ref(d.target.as_str()) {
            Ok(t) => t,
            Err(e) => return Err(OutcomeError::DispatchTarget(e)),
        };
        if !str_eq(target.as_str(), claim.issue_ref.as_str()) {
            return Err(OutcomeError::DispatchMismatch { target, issue_ref: claim.issue_ref.clone() });
        }
        claim.pending_dispatch = Some(
            PendingDispatch { workflow: d.workflow.clone(), target, inputs: copy_inputs(&d.inputs) },
        );
    }
    claim.last_error = copy_opt(&outcome.reason);
    let status = match outcome.status {
        OutcomeStatus::Continue => ClaimStatus::Claimed,
        OutcomeStatus::AwaitHuman => ClaimStatus::AwaitHuman,
        OutcomeStatus::AwaitExternal => ClaimStatus::AwaitExternal,
        OutcomeStatus::Retry => {
            let retry_after = match &outcome.retry_after {
                Some(v) => v,
                None => return Err(OutcomeError::MissingRetryAfter),
            };
            let at = match resolve_retry_at(retry_after.as_str(), now) {
                Ok(t) => t,
                Err(e) => return Err(e),
            };
            claim.next_retry_at = Some(at);
            ClaimStatus::RetryBackoff
        },
        OutcomeStatus::Blocked => ClaimStatus::Blocked,
        OutcomeStatus::Complete => ClaimStatus::Complete,
    };
    claim.status = status;
    if let Some(s) = issue_state {
        claim.issue_state_name = Some(s);
    }
    claim.updated_at = String::from_str(updated_at);
    Ok(())
}

/// When a follow-up wake becomes visible.
#[derive(Debug, Clone)]
pub enum WakeTime {
    /// At once.
    Now,
    /// This many seconds from now.
    NowPlus { secs: i64 },
    /// At this RFC 3339 time.
    At { text: String },
}

/// A wake to enqueue for an issue.
#[derive(Debug, Clone)]
pub struct FollowUpWake {
    pub source: WakeSource,
    pub repo_ref: String,
    pub issue_ref: String,
    pub event_id: String,
    pub dedupe_key: String,
    pub not_before: WakeTime,
}

/// The follow-up wake a claim asks for after a cycle: a retry when its
/// backoff ends (at once without a retry time), an approval check in thirty
/// seconds while it waits on a human, and at once for a claimed issue with a
/// pending dispatch; none otherwise. The dedupe key is
/// `<event id>:<issue>:<updated at>`.
pub fn follow_up_wake_request(claim: &ClaimRecord) -> (r: Option<FollowUpWake>)
    ensures
        match claim.status {
            ClaimStatus::RetryBackoff => r matches Some(w) && w.source == WakeSource::Retry && w.event_id@
                == "autoflow.retry.due"@ && match claim.next_retry_at {
                Some(t) => w.not_before matches WakeTime::At { text } && text@ == t@,
                None => w.not_before matches WakeTime::Now,
            },
            ClaimStatus::AwaitHuman => r matches Some(w) && w.source == WakeSource::ApprovalResume && w.event_id@
                == "autoflow.approval.resume"@ && (w.not_before matches WakeTime::NowPlus { secs } && secs == 30),
            ClaimStatus::Claimed => if claim.pending_dispatch is Some {
                r matches Some(w) && w.source == WakeSource::AutoflowDispatch && w.event_id@
                    == "autoflow.dispatch.pending"@ && w.not_before matches WakeTime::Now
            } else {
                r is None
            },
            _ => r is None,
        },
        r matches Some(w) ==> w.repo_ref@ == claim.repo_ref@ && w.issue_ref@ == claim.issue_ref@ && w.dedupe_key@
            == w.event_id@ + ":"@ + claim.issue_ref@ + ":"@ + claim.updated_at@,
{
    let (source, event_id, not_before) = match claim.status {
        ClaimStatus::RetryBackoff => (
            WakeSource::Retry,
            "autoflow.retry.due",
            match &claim.next_retry_at {
                Some(t) => WakeTime::At { text: t.clone() },
                None => WakeTime::Now,
            },
        ),
        ClaimStatus::AwaitHuman => (WakeSource::ApprovalResume, "autoflow.approval.resume", WakeTime::NowPlus { secs: 30 }),
        ClaimStatus::Claimed => {
            if claim.pending_dispatch.is_some() {
                (WakeSource::AutoflowDispatch, "autoflow.dispatch.pending", WakeTime::Now)
            } else {
                return None;
            }
        },
        _ => return None,
    };
    let mut key = String::from_str(event_id);
    key.append(":");
    key.append(claim.issue_ref.as_str());
    key.append(":");
    key.append(claim.updated_at.as_str());
    Some(
        FollowUpWake {
            source,
            repo_ref: claim.repo_ref.clone(),
            issue_ref: claim.issue_ref.clone(),
            event_id: String::from_str(event_id),
            dedupe_key: key,
            not_before,
        },
    )
}

} // verus!

//! The decisions of one reconcile pass: which issues it visits, what it does
//! with an issue's existing claim, and whether a winning workflow may start.

use vstd::prelude::*;
use vstd::string::*;
use crate::autoflow::claims::{claim_should_yield_to_winner, ClaimRecord, ClaimStatus};
use crate::autoflow::cycle::{spec_run_status_name, run_status_name, CycleRunResult, RunStatus};
use crate::autoflow::wake_hints::{insert_sorted, sorted_set, text_set, WakeSource};
use crate::autoflow::runtime::{count_issue_outcome, IssueOutcome, TickReport};
use crate::autoflow::select::{lemma_lex_lt_irreflexive, lex_lt};
use crate::text::str_eq;

verus! {

/// The issues a pass visits: every issue with a winning match or a claim,
/// once each, in ascending order.
pub fn tick_issue_keys(winner_keys: &Vec<String>, claim_keys: &Vec<String>) -> (r: Vec<String>)
    ensures
        sorted_set(r@),
        text_set(r@) == text_set(winner_keys@).union(text_set(claim_keys@)),
{
    let mut keys: Vec<String> = Vec::new();
    proof {
        assert(text_set(keys@) =~= Set::<Seq<char>>::empty());
    }
    let mut i: usize = 0;
    while i < winner_keys.len()
        invariant
            i <= winner_keys@.len(),
            sorted_set(keys@),
            text_set(keys@) == text_set(winner_keys@.subrange(0, i as int)),
        decreases winner_keys@.len() - i,
    {
        insert_sorted(&mut keys, winner_keys[i].as_str());
        proof {
            assert(text_set(winner_keys@.subrange(0, i + 1)) =~= text_set(winner_keys@.subrange(0, i as int)).insert(
                winner_keys@[i as int]@,
            )) by {
                let s = winner_keys@.subrange(0, i + 1);
                let p = winner_keys@.subrange(0, i as int);
                assert forall|t: Seq<char>| text_set(s).contains(t) implies text_set(p).insert(
                    winner_keys@[i as int]@,
                ).contains(t) by {
                    let k = choose|k: int| 0 <= k < s.len() && (#[trigger] s[k])@ == t;
                    if k < i {
                        assert(p[k] == s[k]);
                    }
                }
                assert forall|t: Seq<char>| text_set(p).insert(winner_keys@[i as int]@).contains(t) implies text_set(
                    s,
                ).contains(t) by {
                    if t == winner_keys@[i as int]@ {
                        assert(s[i as int] == winner_keys@[i as int]);
                    } else {
                        let k = choose|k: int| 0 <= k < p.len() && (#[trigger] p[k])@ == t;
                        assert(s[k] == p[k]);
                    }
                }
            }
        }
        i = i + 1;
    }
    proof {
        assert(winner_keys@.subrange(0, winner_keys@.len() as int) =~= winner_keys@);
    }
    let mut j: usize = 0;
    while j < claim_keys.len()
        invariant
            j <= claim_keys@.len(),
            sorted_set(keys@),
            text_set(keys@) == text_set(winner_keys@).union(text_set(claim_keys@.subrange(0, j as int))),
        decreases claim_keys@.len() - j,
    {
        insert_sorted(&mut keys, claim_keys[j].as_str());
        proof {
            let s = claim_keys@.subrange(0, j + 1);
            let p = claim_keys@.subrange(0, j as int);
            assert(text_set(s) =~= text_set(p).insert(claim_keys@[j as int]@)) by {
                assert forall|t: Seq<char>| text_set(s).contains(t) implies text_set(p).insert(
                    claim_keys@[j as int]@,
                ).contains(t) by {
                    let k = choose|k: int| 0 <= k < s.len() && (#[trigger] s[k])@ == t;
                    if k < j {
                        assert(p[k] == s[k]);
                    }
                }
                assert forall|t: Seq<char>| text_set(p).insert(claim_keys@[j as int]@).contains(t) implies text_set(
                    s,
                ).contains(t) by {
                    if t == claim_keys@[j as int]@ {
                        assert(s[j as int] == claim_keys@[j as int]);
                    } else {
                        let k = choose|k: int| 0 <= k < p.len() && (#[trigger] p[k])@ == t;
                        assert(s[k] == p[k]);
                    }
                }
            }
            assert(text_set(keys@) =~= text_set(winner_keys@).union(text_set(s)));
        }
        j = j + 1;
    }
    proof {
        assert(claim_keys@.subrange(0, claim_keys@.len() as int) =~= claim_keys@);
    }
    keys
}

/// What a pass does first with an issue's existing claim, before it reads
/// the claim's last run.
#[derive(Debug, Clone, Copy, PartialEq, Eq, Structural)]
pub enum ClaimGate {
    /// Leave the claim as it is and skip the issue.
    Leave,
    /// The claim's workflow is gone and its lease ran out with no cycle
    /// holding its lock: release it, then offer the issue to the winner.
    ReleaseOrphan,
    /// The claim's workflow resolves: go on with it.
    Proceed,
}

/// The first step for an existing claim. A claim whose workflow no longer
/// resolves is left alone while its lease runs or a cycle holds its lock,
/// and released once neither holds.
pub fn claim_gate(owner_resolved: bool, lease_expired: bool, lock_held: bool) -> (r: ClaimGate)
    ensures
        owner_resolved ==> r == ClaimGate::Proceed,
        !owner_resolved && (!lease_expired || lock_held) ==> r == ClaimGate::Leave,
        !owner_resolved && lease_expired && !lock_held ==> r == ClaimGate::ReleaseOrphan,
{
    if !owner_resolved && (!lease_expired || lock_held) {
        ClaimGate::Leave
    } else if !owner_resolved {
        ClaimGate::ReleaseOrphan
    } else {
        ClaimGate::Proceed
    }
}

/// What a pass does with a claim whose workflow resolves, once the claim has
/// caught up with its last run.
#[derive(Debug, Clone, Copy, PartialEq, Eq, Structural)]
pub enum ClaimStep {
    /// Release the claim to the winning workflow and offer it the issue.
    YieldToWinner,
    /// The claim is released: save it and offer the issue to the winner.
    OfferReleased,
    /// The claim is complete or blocked: save it and skip the issue.
    Settle,
    /// A queued dispatch waits for the next pass: save and skip.
    HoldDispatch,
    /// Run the queued dispatch.
    RunDispatch,
    /// Run the claim's own workflow.
    RunCycle,
    /// Nothing is due: save and skip.
    Idle,
}

/// The step for a resolved claim, in the order the pass checks them.
pub open spec fn spec_claim_step(
    claim: ClaimRecord,
    winner_workflow: Option<Seq<char>>,
    lock_held: bool,
    updated_before_tick: bool,
    run_due: bool,
) -> ClaimStep {
    if !lock_held && (winner_workflow matches Some(w) && w != claim.workflow@) && !(claim.status
        == ClaimStatus::AwaitHuman || claim.status == ClaimStatus::Blocked || claim.status == ClaimStatus::Complete
        || claim.status == ClaimStatus::Released) {
        ClaimStep::YieldToWinner
    } else if claim.status == ClaimStatus::Released {
        ClaimStep::OfferReleased
    } else if claim.status == ClaimStatus::Complete || claim.status == ClaimStatus::Blocked {
        ClaimStep::Settle
    } else if claim.pending_dispatch is Some {
        if updated_before_tick {
            ClaimStep::RunDispatch
        } else {
            ClaimStep::HoldDispatch
        }
    } else if run_due {
        ClaimStep::RunCycle
    } else {
        ClaimStep::Idle
    }
}

/// The step for a resolved claim: yield to a different winner where the
/// claim may yield, else settle a released, complete or blocked claim, else
/// run a queued dispatch once the claim was last written before this pass,
/// else run the claim where it is due (`run_due`, what `should_run_claim`
/// says of it).
pub fn claim_step(
    claim: &ClaimRecord,
    winner_workflow: Option<&str>,
    lock_held: bool,
    updated_before_tick: bool,
    run_due: bool,
) -> (r: ClaimStep)
    ensures
        r == spec_claim_step(
            *claim,
            match winner_workflow {
                Some(w) => Some(w@),
                None => None,
            },
            lock_held,
            updated_before_tick,
            run_due,
        ),
{
    if claim_should_yield_to_winner(claim, winner_workflow, lock_held) {
        return ClaimStep::YieldToWinner;
    }
    match claim.status {
        ClaimStatus::Released => ClaimStep::OfferReleased,
        ClaimStatus::Complete | ClaimStatus::Blocked => ClaimStep::Settle,
        _ => if claim.pending_dispatch.is_some() {
            if updated_before_tick {
                ClaimStep::RunDispatch
            } else {
                ClaimStep::HoldDispatch
            }
        } else if run_due {
            ClaimStep::RunCycle
        } else {
            ClaimStep::Idle
        },
    }
}

/// Release a claim: it no longer runs and drops its queued dispatch.
pub fn release_claim(claim: &mut ClaimRecord, now: String)
    ensures
        final(claim).status == ClaimStatus::Released,
        final(claim).pending_dispatch is None,
        final(claim).updated_at@ == now@,
        final(claim).issue_ref == old(claim).issue_ref,
        final(claim).repo_ref == old(claim).repo_ref,
        final(claim).workflow == old(claim).workflow,
        final(claim).contenders == old(claim).contenders,
        final(claim).last_run_id == old(claim).last_run_id,
{
    claim.status = ClaimStatus::Released;
    claim.pending_dispatch = None;
    claim.updated_at = now;
}

/// A winning workflow may start on an issue while its repo has fewer active
/// claims than the workflow's `max_active` (no limit where it sets none).
pub fn winner_may_start(active: usize, max_active: Option<u32>) -> (r: bool)
    ensures
        r == match max_active {
            Some(m) => active < m,
            None => active < u32::MAX,
        },
{
    let limit: u32 = match max_active {
        Some(m) => m,
        None => u32::MAX,
    };
    (active as u64) < (limit as u64)
}

/// How a consumed wake's source reads in the pass's history.
pub open spec fn spec_wake_consumed_detail(source: WakeSource) -> Seq<char> {
    match source {
        WakeSource::Manual => "manual"@,
        WakeSource::CronPoll => "cronpoll"@,
        WakeSource::Webhook => "webhook"@,
        WakeSource::AutoflowDispatch => "autoflowdispatch"@,
        WakeSource::Retry => "retry"@,
        WakeSource::ApprovalResume => "approvalresume"@,
        WakeSource::Repair => "repair"@,
    }
}

/// The detail of a wake-consumed event: the source's name in lower case,
/// words run together.
pub fn wake_consumed_detail(source: WakeSource) -> (r: &'static str)
    ensures
        r@ == spec_wake_consumed_detail(source),
{
    match source {
        WakeSource::Manual => "manual",
        WakeSource::CronPoll => "cronpoll",
        WakeSource::Webhook => "webhook",
        WakeSource::AutoflowDispatch => "autoflowdispatch",
        WakeSource::Retry => "retry",
        WakeSource::ApprovalResume => "approvalresume",
        WakeSource::Repair => "repair",
    }
}

/// Start a queued dispatch: the claim runs, its last error and the queued
/// dispatch are cleared.
pub fn begin_dispatch_run(claim: &mut ClaimRecord, now: String)
    ensures
        final(claim).status == ClaimStatus::Running,
        final(claim).last_error is None,
        final(claim).pending_dispatch is None,
        final(claim).updated_at@ == now@,
        final(claim).issue_ref == old(claim).issue_ref,
        final(claim).repo_ref == old(claim).repo_ref,
        final(claim).workflow == old(claim).workflow,
        final(claim).worktree_path == old(claim).worktree_path,
        final(claim).last_run_id == old(claim).last_run_id,
        final(claim).contenders == old(claim).contenders,
{
    claim.status = ClaimStatus::Running;
    claim.last_error = None;
    claim.pending_dispatch = None;
    claim.updated_at = now;
}

/// Record how a dispatched run ended: a run that stopped for approval waits
/// on a human, a finished one leaves the claim claimed for the next pass,
/// a failed one blocks it with the error.
pub fn finish_dispatch_run(claim: &mut ClaimRecord, result: &CycleRunResult, now: String)
    ensures
        final(claim).updated_at@ == now@,
        final(claim).issue_ref == old(claim).issue_ref,
        final(claim).repo_ref == old(claim).repo_ref,
        final(claim).workflow == old(claim).workflow,
        final(claim).pending_dispatch == old(claim).pending_dispatch,
        match *result {
            CycleRunResult::Finished { run_id, artifact_manifest_path, awaiting_approval } => {
                &&& final(claim).last_run_id matches Some(id) && id@ == run_id@
                &&& final(claim).artifact_manifest_path == artifact_manifest_path
                &&& final(claim).status == (if awaiting_approval {
                    ClaimStatus::AwaitHuman
                } else {
                    ClaimStatus::Claimed
                })
                &&& final(claim).last_error == old(claim).last_error
            },
            CycleRunResult::Failed { error } => {
                &&& final(claim).status == ClaimStatus::Blocked
                &&& final(claim).last_error matches Some(e) && e@ == error@
                &&& final(claim).last_run_id == old(claim).last_run_id
                &&& final(claim).artifact_manifest_path == old(claim).artifact_manifest_path
            },
        },
{
    match result {
        CycleRunResult::Finished { run_id, artifact_manifest_path, awaiting_approval } => {
            claim.last_run_id = Some(run_id.clone());
            claim.artifact_manifest_path = artifact_manifest_path.clone();
            claim.status = if *awaiting_approval {
                ClaimStatus::AwaitHuman
            } else {
                ClaimStatus::Claimed
            };
        },
        CycleRunResult::Failed { error } => {
            claim.status = ClaimStatus::Blocked;
            claim.last_error = Some(error.clone());
        },
    }
    claim.updated_at = now;
}

/// Catch a claim that waits on a human or runs up with its last run, read
/// back with `status` (and its error message): a run waiting for approval
/// leaves the claim waiting on a human; a failed or rejected run blocks it
/// with the run's error (or its status). `true` when the run completed and
/// its outcome is to be applied. Claims in other states, and runs still
/// pending or running, change nothing.
pub fn reconcile_claim_with_run(
    claim: &mut ClaimRecord,
    status: RunStatus,
    error_message: Option<&str>,
    updated_at: &str,
) -> (r: bool)
    ensures
        !(old(claim).status == ClaimStatus::AwaitHuman || old(claim).status == ClaimStatus::Running) ==> !r && *final(claim)
            == *old(claim),
        (old(claim).status == ClaimStatus::AwaitHuman || old(claim).status == ClaimStatus::Running) ==> {
            &&& r == (status == RunStatus::Completed)
            &&& (status == RunStatus::Completed || status == RunStatus::Pending || status == RunStatus::Running)
                ==> *final(claim) == *old(claim)
            &&& status == RunStatus::AwaitingApproval ==> *final(claim) == (ClaimRecord {
                status: ClaimStatus::AwaitHuman,
                ..*old(claim)
            })
            &&& (status == RunStatus::Failed || status == RunStatus::Rejected) ==> {
                &&& final(claim).status == ClaimStatus::Blocked
                &&& final(claim).last_error matches Some(e) && e@ == match error_message {
                    Some(m) => m@,
                    None => spec_run_status_name(status),
                }
                &&& final(claim).updated_at@ == updated_at@
                &&& final(claim).issue_ref == old(claim).issue_ref
                &&& final(claim).last_run_id == old(claim).last_run_id
                &&& final(claim).pending_dispatch == old(claim).pending_dispatch
            }
        },
{
    match claim.status {
        ClaimStatus::AwaitHuman | ClaimStatus::Running => {},
        _ => return false,
    }
    match status {
        RunStatus::AwaitingApproval => {
            claim.status = ClaimStatus::AwaitHuman;
            false
        },
        RunStatus::Completed => true,
        RunStatus::Failed | RunStatus::Rejected => {
            claim.status = ClaimStatus::Blocked;
            claim.last_error = Some(
                match error_message {
                    Some(m) => String::from_str(m),
                    None => String::from_str(run_status_name(status)),
                },
            );
            claim.updated_at = String::from_str(updated_at);
            false
        },
        RunStatus::Pending | RunStatus::Running => false,
    }
}

/// A claim the pass may clean up: complete or released, in the filtered
/// repo (any repo without a filter).
pub fn cleanup_candidate(claim: &ClaimRecord, repo_filter: Option<&str>) -> (r: bool)
    ensures
        r == ((match repo_filter {
            Some(f) => claim.repo_ref@ == f@,
            None => true,
        }) && (claim.status == ClaimStatus::Complete || claim.status == ClaimStatus::Released)),
{
    let in_repo = match repo_filter {
        Some(f) => str_eq(claim.repo_ref.as_str(), f),
        None => true,
    };
    in_repo && match claim.status {
        ClaimStatus::Complete | ClaimStatus::Released => true,
        _ => false,
    }
}

/// A claim is never run while it is complete, blocked or released, nor while
/// a different winner takes it over.
pub proof fn law_settled_claims_do_not_run(
    claim: ClaimRecord,
    winner_workflow: Option<Seq<char>>,
    lock_held: bool,
    updated_before_tick: bool,
    run_due: bool,
)
    requires
        claim.status == ClaimStatus::Complete || claim.status == ClaimStatus::Blocked || claim.status
            == ClaimStatus::Released,
    ensures
        spec_claim_step(claim, winner_workflow, lock_held, updated_before_tick, run_due) != ClaimStep::RunCycle,
        spec_claim_step(claim, winner_workflow, lock_held, updated_before_tick, run_due) != ClaimStep::RunDispatch,
        spec_claim_step(claim, winner_workflow, lock_held, updated_before_tick, run_due) != ClaimStep::YieldToWinner,
{
}

/// A claim with a queued dispatch runs it only on a pass after the one that
/// queued it, and never runs its own workflow instead.
pub proof fn law_dispatch_waits_a_pass(
    claim: ClaimRecord,
    winner_workflow: Option<Seq<char>>,
    lock_held: bool,
    run_due: bool,
)
    requires
        claim.pending_dispatch is Some,
    ensures
        spec_claim_step(claim, winner_workflow, lock_held, false, run_due) != ClaimStep::RunDispatch,
        spec_claim_step(claim, winner_workflow, lock_held, false, run_due) != ClaimStep::RunCycle,
        spec_claim_step(claim, winner_workflow, lock_held, true, run_due) != ClaimStep::RunCycle,
{
}

/// What a pass does with a resolved claim. With no cycle holding its lock,
/// a claim on another workflow than the winner's yields to it unless it
/// waits on a human or is blocked, complete or released; a claim never
/// yields to its own workflow, to no winner, or under a held lock. A claim
/// that does not yield: released is offered to the winner, complete or
/// blocked settles; else a queued dispatch runs once the claim was written
/// before this pass and waits otherwise; else the claim runs when due and
/// idles when not.
pub proof fn law_claim_step_cases(
    claim: ClaimRecord,
    winner_workflow: Option<Seq<char>>,
    lock_held: bool,
    updated_before_tick: bool,
    run_due: bool,
)
    ensures
        ({
            let may_yield = claim.status is Eligible || claim.status is Claimed || claim.status is Running
                || claim.status is AwaitExternal || claim.status is RetryBackoff;
            let other_winner = winner_workflow matches Some(w) && w != claim.workflow@;
            let step = spec_claim_step(claim, winner_workflow, lock_held, updated_before_tick, run_due);
            &&& (step == ClaimStep::YieldToWinner) == (!lock_held && other_winner && may_yield)
            &&& step != ClaimStep::YieldToWinner ==> {
                &&& claim.status is Released ==> step == ClaimStep::OfferReleased
                &&& (claim.status is Complete || claim.status is Blocked) ==> step == ClaimStep::Settle
                &&& !(claim.status is Released || claim.status is Complete || claim.status is Blocked) ==> {
                    &&& claim.pending_dispatch is Some && updated_before_tick ==> step == ClaimStep::RunDispatch
                    &&& claim.pending_dispatch is Some && !updated_before_tick ==> step == ClaimStep::HoldDispatch
                    &&& claim.pending_dispatch is None && run_due ==> step == ClaimStep::RunCycle
                    &&& claim.pending_dispatch is None && !run_due ==> step == ClaimStep::Idle
                }
            }
        }),
{
}

/// What became of an issue's claim before the pass chose its turn.
#[derive(Debug, Clone, Copy, PartialEq, Eq, Structural)]
pub enum ClaimDecision {
    /// `claim_gate` said to leave the claim.
    Left,
    /// `claim_gate` released an orphaned claim.
    OrphanReleased,
    /// The claim resolved, and `claim_step` chose this step.
    Step(ClaimStep),
}

/// What a pass does with one issue.
#[derive(Debug, Clone, Copy, PartialEq, Eq, Structural)]
pub enum IssueTurn {
    /// Nothing runs.
    Skip,
    /// The claim's queued dispatch runs.
    RunDispatch,
    /// The claim's own workflow runs.
    RunCycle,
    /// The winning workflow starts a cycle on the issue.
    StartWinner,
}

/// One issue's turn: with no claim, or once the claim was released (orphaned,
/// yielded or already released), the winner starts where there is one and
/// its repo has room; a dispatch or a due cycle runs; anything else skips.
pub open spec fn spec_issue_turn(claim: Option<ClaimDecision>, has_winner: bool, winner_can_start: bool) -> IssueTurn {
    let offer = if has_winner && winner_can_start { IssueTurn::StartWinner } else { IssueTurn::Skip };
    match claim {
        None => offer,
        Some(ClaimDecision::Left) => IssueTurn::Skip,
        Some(ClaimDecision::OrphanReleased) => offer,
        Some(ClaimDecision::Step(step)) => match step {
            ClaimStep::YieldToWinner => offer,
            ClaimStep::OfferReleased => offer,
            ClaimStep::RunDispatch => IssueTurn::RunDispatch,
            ClaimStep::RunCycle => IssueTurn::RunCycle,
            _ => IssueTurn::Skip,
        },
    }
}

pub fn issue_turn(claim: Option<ClaimDecision>, has_winner: bool, winner_can_start: bool) -> (r: IssueTurn)
    ensures
        r == spec_issue_turn(claim, has_winner, winner_can_start),
{
    let offer = if has_winner && winner_can_start { IssueTurn::StartWinner } else { IssueTurn::Skip };
    match claim {
        None => offer,
        Some(ClaimDecision::Left) => IssueTurn::Skip,
        Some(ClaimDecision::OrphanReleased) => offer,
        Some(ClaimDecision::Step(step)) => match step {
            ClaimStep::YieldToWinner => offer,
            ClaimStep::OfferReleased => offer,
            ClaimStep::RunDispatch => IssueTurn::RunDispatch,
            ClaimStep::RunCycle => IssueTurn::RunCycle,
            _ => IssueTurn::Skip,
        },
    }
}

/// How a finished turn counts: it ran unless it skipped; a turn that ended
/// in an error counts as failed.
pub fn turn_outcome(turn: IssueTurn, failed: bool) -> (r: IssueOutcome)
    ensures
        r == (if failed {
            IssueOutcome::Failed
        } else if turn == IssueTurn::Skip {
            IssueOutcome::Skipped
        } else {
            IssueOutcome::Ran
        }),
{
    if failed {
        IssueOutcome::Failed
    } else if matches!(turn, IssueTurn::Skip) {
        IssueOutcome::Skipped
    } else {
        IssueOutcome::Ran
    }
}

/// Ran, skipped and failed turns among `outs`.
pub open spec fn pass_counts(outs: Seq<IssueOutcome>) -> (nat, nat, nat)
    decreases outs.len(),
{
    if outs.len() == 0 {
        (0, 0, 0)
    } else {
        let (a, b, c) = pass_counts(outs.drop_last());
        match outs.last() {
            IssueOutcome::Ran => (a + 1, b, c),
            IssueOutcome::Skipped => (a, b + 1, c),
            IssueOutcome::Failed => (a, b, c + 1),
        }
    }
}

/// Count a pass's turns, one outcome per issue, into its report.
pub fn count_pass(report: &mut TickReport, outcomes: &Vec<IssueOutcome>)
    requires
        old(report).ran_cycles + outcomes@.len() <= usize::MAX,
        old(report).skipped_cycles + outcomes@.len() <= usize::MAX,
        old(report).failed_cycles + outcomes@.len() <= usize::MAX,
    ensures
        final(report).ran_cycles == old(report).ran_cycles + pass_counts(outcomes@).0,
        final(report).skipped_cycles == old(report).skipped_cycles + pass_counts(outcomes@).1,
        final(report).failed_cycles == old(report).failed_cycles + pass_counts(outcomes@).2,
        final(report).workflow_count == old(report).workflow_count,
        final(report).polled_event_count == old(report).polled_event_count,
        final(report).webhook_event_count == old(report).webhook_event_count,
        final(report).cleaned_claims == old(report).cleaned_claims,
{
    let ghost r0 = *report;
    let mut i: usize = 0;
    while i < outcomes.len()
        invariant
            i <= outcomes@.len(),
            r0.ran_cycles + outcomes@.len() <= usize::MAX,
            r0.skipped_cycles + outcomes@.len() <= usize::MAX,
            r0.failed_cycles + outcomes@.len() <= usize::MAX,
            report.ran_cycles == r0.ran_cycles + pass_counts(outcomes@.subrange(0, i as int)).0,
            report.skipped_cycles == r0.skipped_cycles + pass_counts(outcomes@.subrange(0, i as int)).1,
            report.failed_cycles == r0.failed_cycles + pass_counts(outcomes@.subrange(0, i as int)).2,
            report.workflow_count == r0.workflow_count,
            report.polled_event_count == r0.polled_event_count,
            report.webhook_event_count == r0.webhook_event_count,
            report.cleaned_claims == r0.cleaned_claims,
        decreases outcomes@.len() - i,
    {
        proof {
            law_pass_counts_every_turn(outcomes@.subrange(0, i as int));
            assert(outcomes@.subrange(0, i + 1).drop_last() =~= outcomes@.subrange(0, i as int));
        }
        count_issue_outcome(report, outcomes[i]);
        i = i + 1;
    }
    proof {
        assert(outcomes@.subrange(0, outcomes@.len() as int) =~= outcomes@);
    }
}

/// Every turn of a pass is counted once: ran, skipped and failed turns add
/// up to the number of turns, so a pass over its issue keys (one turn per
/// key of `tick_issue_keys`) counts each key exactly once.
pub proof fn law_pass_counts_every_turn(outs: Seq<IssueOutcome>)
    ensures
        pass_counts(outs).0 + pass_counts(outs).1 + pass_counts(outs).2 == outs.len(),
    decreases outs.len(),
{
    if outs.len() > 0 {
        law_pass_counts_every_turn(outs.drop_last());
    }
}

/// A sorted set of texts holds as many texts as it has entries.
proof fn lemma_sorted_set_len(v: Seq<String>)
    requires
        sorted_set(v),
    ensures
        text_set(v).finite(),
        text_set(v).len() == v.len(),
    decreases v.len(),
{
    if v.len() == 0 {
        assert(text_set(v) =~= Set::<Seq<char>>::empty());
    } else {
        let p = v.drop_last();
        assert(sorted_set(p)) by {
            assert forall|i: int, j: int| 0 <= i < j < p.len() implies lex_lt((#[trigger] p[i])@, (#[trigger] p[j])@) by {
                assert(p[i] == v[i] && p[j] == v[j]);
            }
        }
        lemma_sorted_set_len(p);
        assert(text_set(v) =~= text_set(p).insert(v.last()@)) by {
            assert forall|t: Seq<char>| text_set(v).contains(t) implies text_set(p).insert(v.last()@).contains(t) by {
                let i = choose|i: int| 0 <= i < v.len() && (#[trigger] v[i])@ == t;
                if i < v.len() - 1 {
                    assert(p[i] == v[i]);
                }
            }
            assert forall|t: Seq<char>| text_set(p).insert(v.last()@).contains(t) implies text_set(v).contains(t) by {
                if t != v.last()@ {
                    let i = choose|i: int| 0 <= i < p.len() && (#[trigger] p[i])@ == t;
                    assert(v[i] == p[i]);
                } else {
                    assert(v[v.len() - 1]@ == t);
                }
            }
        }
        if text_set(p).contains(v.last()@) {
            let i = choose|i: int| 0 <= i < p.len() && (#[trigger] p[i])@ == v.last()@;
            assert(v[i] == p[i]);
            assert(lex_lt(v[i]@, v[v.len() - 1]@));
            lemma_lex_lt_irreflexive(v.last()@);
        }
    }
}

/// A pass takes one turn per issue key (`tick_issue_keys`), so its ran,
/// skipped and failed counts add up to the number of distinct issues it
/// visits: every issue is counted exactly once.
pub proof fn law_pass_counts_each_issue_once(keys: Seq<String>, outs: Seq<IssueOutcome>)
    requires
        sorted_set(keys),
        outs.len() == keys.len(),
    ensures
        pass_counts(outs).0 + pass_counts(outs).1 + pass_counts(outs).2 == text_set(keys).len(),
{
    law_pass_counts_every_turn(outs);
    lemma_sorted_set_len(keys);
}

/// A claim released in this pass, whether the winner changed or the claim
/// was orphaned, leaves the issue as if it had no claim; and an issue with
/// no claim starts the winning workflow exactly when there is one and its
/// repo has room, and is skipped otherwise.
pub proof fn law_released_claim_turn_is_unclaimed_turn(has_winner: bool, winner_can_start: bool)
    ensures
        spec_issue_turn(Some(ClaimDecision::Step(ClaimStep::OfferReleased)), has_winner, winner_can_start) == spec_issue_turn(
            None,
            has_winner,
            winner_can_start,
        ),
        spec_issue_turn(Some(ClaimDecision::OrphanReleased), has_winner, winner_can_start) == spec_issue_turn(
            None,
            has_winner,
            winner_can_start,
        ),
        spec_issue_turn(Some(ClaimDecision::Step(ClaimStep::YieldToWinner)), has_winner, winner_can_start) == spec_issue_turn(
            None,
            has_winner,
            winner_can_start,
        ),
        (spec_issue_turn(None, has_winner, winner_can_start) == IssueTurn::StartWinner) == (has_winner && winner_can_start),
        (spec_issue_turn(None, has_winner, winner_can_start) == IssueTurn::Skip) == !(has_winner && winner_can_start),
{
}

/// A claim that keeps the issue decides its turn whatever the winner: a
/// dispatch runs as a dispatch, a due cycle runs as a cycle, and a claim
/// that settles, holds its dispatch, idles or is left alone skips.
pub proof fn law_kept_claim_turn_ignores_winner(has_winner: bool, winner_can_start: bool)
    ensures
        spec_issue_turn(Some(ClaimDecision::Step(ClaimStep::RunDispatch)), has_winner, winner_can_start) == IssueTurn::RunDispatch,
        spec_issue_turn(Some(ClaimDecision::Step(ClaimStep::RunCycle)), has_winner, winner_can_start) == IssueTurn::RunCycle,
        spec_issue_turn(Some(ClaimDecision::Step(ClaimStep::Settle)), has_winner, winner_can_start) == IssueTurn::Skip,
        spec_issue_turn(Some(ClaimDecision::Step(ClaimStep::HoldDispatch)), has_winner, winner_can_start) == IssueTurn::Skip,
        spec_issue_turn(Some(ClaimDecision::Step(ClaimStep::Idle)), has_winner, winner_can_start) == IssueTurn::Skip,
        spec_issue_turn(Some(ClaimDecision::Left), has_winner, winner_can_start) == IssueTurn::Skip,
{
}

} // verus!

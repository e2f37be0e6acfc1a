use rupu_cli::autoflow::claims::{AutoflowClaimRow, ClaimRecord, ClaimStatus};
use rupu_cli::autoflow::command::{repair_plan, repair_report, RepairPlan};
use rupu_cli::autoflow::cycle::RunStatus;
use rupu_cli::autoflow::sources::{poll_groups, PollingAutoflow};
use rupu_cli::autoflow::tick::{cleanup_candidate, reconcile_claim_with_run};
use rupu_cli::autoflow::ticker::serve_ticker_message;
use rupu_cli::autoflow::wake_hints::{collect_wake_hints, wake_enabled_repo_refs, DueWake, WakeSource};

fn row(issue: &str, status: &str, branch: &str, last_run: &str) -> AutoflowClaimRow {
    AutoflowClaimRow {
        issue: issue.into(),
        issue_display: Some("42".into()),
        tracker: None,
        state: None,
        source: None,
        repo: "github:o/r".into(),
        workflow: "issue-supervisor-dispatch".into(),
        priority: "-".into(),
        status: status.into(),
        next: "-".into(),
        branch: branch.into(),
        pr: "-".into(),
        summary: "-".into(),
        contenders: "-".into(),
        workspace: "-".into(),
        last_cycle: "-".into(),
        last_event: "-".into(),
        last_run: last_run.into(),
    }
}

fn claim(status: ClaimStatus, repo: &str) -> ClaimRecord {
    ClaimRecord {
        issue_ref: "github:o/r/issues/1".into(),
        repo_ref: repo.into(),
        source_ref: None,
        issue_display_ref: None,
        issue_title: None,
        issue_url: None,
        issue_state_name: None,
        issue_tracker: None,
        workflow: "wf".into(),
        status,
        updated_at: "t0".into(),
        worktree_path: None,
        branch: None,
        claim_owner: None,
        lease_expires_at: None,
        next_retry_at: None,
        last_run_id: Some("run_1".into()),
        last_error: None,
        last_summary: None,
        pr_url: None,
        artifact_manifest_path: None,
        artifacts: None,
        pending_dispatch: None,
        contenders: vec![],
    }
}

fn due(id: &str, repo: &str, source: WakeSource, event: &str, issue: Option<&str>) -> DueWake {
    DueWake {
        wake_id: id.into(),
        repo_ref: repo.into(),
        source,
        event_id: event.into(),
        issue_ref: issue.map(|s| s.to_string()),
    }
}

#[test]
fn wake_hints_count_and_group_the_due_wakes_of_waking_repos() {
    let wakes = vec![
        due("w1", "github:o/a", WakeSource::CronPoll, "github.issue.labeled", Some("github:o/a/issues/1")),
        due("w2", "github:o/b", WakeSource::Webhook, "github.issue.opened", Some("github:o/b/issues/2")),
        due("w3", "github:o/a", WakeSource::Webhook, "github.push", None),
        due("w4", "github:o/a", WakeSource::Retry, "autoflow.retry", Some("github:o/a/issues/1")),
    ];
    let hints = collect_wake_hints(&wakes, &vec!["github:o/a".to_string()]);
    assert_eq!(hints.total_polled_events, 1);
    assert_eq!(hints.total_webhook_events, 1);
    assert_eq!(hints.due_wake_ids, vec!["w1", "w3", "w4"]);
    assert_eq!(
        hints.events_for("github:o/a/issues/1", "github:o/a"),
        vec!["autoflow.retry", "github.issue.labeled", "github.push"]
    );
    assert!(hints.events_for("github:o/b/issues/2", "github:o/b").is_empty());
    let none = collect_wake_hints(&wakes, &vec![]);
    assert!(none.due_wake_ids.is_empty());
}

#[test]
fn only_autoflows_that_wake_on_events_enable_their_repo() {
    let afs = vec![("github:o/b".to_string(), true), ("github:o/a".to_string(), false), ("github:o/b".to_string(), true)];
    assert_eq!(wake_enabled_repo_refs(&afs), vec!["github:o/b"]);
}

#[test]
fn poll_groups_gather_repos_by_source() {
    let af = |source: &str, repo: &str, wakes: bool| PollingAutoflow {
        source_ref: source.into(),
        repo_ref: repo.into(),
        wakes,
    };
    let groups = poll_groups(&vec![
        af("jira:ENG", "github:o/b", true),
        af("github:o/a", "github:o/a", true),
        af("jira:ENG", "github:o/a", true),
        af("linear:t", "github:o/c", false),
    ]);
    assert_eq!(
        groups,
        vec![
            ("github:o/a".to_string(), vec!["github:o/a".to_string()]),
            ("jira:ENG".to_string(), vec!["github:o/a".to_string(), "github:o/b".to_string()]),
        ]
    );
}

#[test]
fn the_ticker_reports_the_running_claim_or_polling() {
    let claims = vec![
        row("github:o/r/issues/1", "complete", "-", "-"),
        row("github:o/r/issues/42", "running", "rupu/issue-42", "run_9"),
    ];
    assert_eq!(
        serve_ticker_message(&claims, 3, 1, 0),
        "processing issue 42  ·  issue-supervisor-dispatch  ·  running  ·  branch rupu/issue-42  ·  run run_9  ·  wakes queued=1 due=0"
    );
    let idle = vec![row("github:o/r/issues/1", "complete", "-", "-")];
    assert_eq!(
        serve_ticker_message(&idle, 3, 2, 1),
        "polling for work  ·  cycles=3  ·  wakes queued=2 due=1  ·  no active claims"
    );
    let waiting = vec![row("github:o/r/issues/7", "await_external", "-", "-")];
    assert_eq!(
        serve_ticker_message(&waiting, 0, 0, 0),
        "waiting on issue 42  ·  issue-supervisor-dispatch  ·  await_external  ·  wakes queued=0 due=0"
    );
}

#[test]
fn cleanup_takes_terminal_claims_of_the_filtered_repo() {
    assert!(cleanup_candidate(&claim(ClaimStatus::Complete, "github:o/r"), None));
    assert!(cleanup_candidate(&claim(ClaimStatus::Released, "github:o/r"), Some("github:o/r")));
    assert!(!cleanup_candidate(&claim(ClaimStatus::Complete, "github:o/r"), Some("github:o/x")));
    assert!(!cleanup_candidate(&claim(ClaimStatus::Blocked, "github:o/r"), None));
}

#[test]
fn claims_catch_up_with_their_last_run() {
    let mut waiting = claim(ClaimStatus::Running, "r");
    assert!(!reconcile_claim_with_run(&mut waiting, RunStatus::AwaitingApproval, None, "t1"));
    assert_eq!(waiting.status, ClaimStatus::AwaitHuman);
    assert_eq!(waiting.updated_at, "t0");
    let mut failed = claim(ClaimStatus::AwaitHuman, "r");
    assert!(!reconcile_claim_with_run(&mut failed, RunStatus::Rejected, None, "t1"));
    assert_eq!(failed.status, ClaimStatus::Blocked);
    assert_eq!(failed.last_error.as_deref(), Some("rejected"));
    let mut done = claim(ClaimStatus::Running, "r");
    assert!(reconcile_claim_with_run(&mut done, RunStatus::Completed, None, "t1"));
    let mut idle = claim(ClaimStatus::Claimed, "r");
    assert!(!reconcile_claim_with_run(&mut idle, RunStatus::Failed, Some("boom"), "t1"));
    assert_eq!(idle.status, ClaimStatus::Claimed);
}

#[test]
fn repairs_take_one_action_and_report_each() {
    assert_eq!(
        repair_plan(true, true, true, false),
        Err("repair accepts at most one of `--release` or `--requeue`".to_string())
    );
    assert_eq!(
        repair_plan(false, true, true, false),
        Ok(RepairPlan { rebuild_worktree: true, release: false, requeue: true })
    );
    assert_eq!(
        repair_plan(true, false, true, false),
        Ok(RepairPlan { rebuild_worktree: false, release: true, requeue: false })
    );
    assert_eq!(repair_report("github:o/r/issues/1", &vec![]), "no repairs applied for github:o/r/issues/1");
    assert_eq!(
        repair_report("github:o/r/issues/1", &vec!["deleted invalid queued wake w1".into(), "queued repair wake w2".into()]),
        "repaired github:o/r/issues/1:\n- deleted invalid queued wake w1\n- queued repair wake w2"
    );
}

use rupu_cli::autoflow::cycle::{apply_outcome_to_claim, OutcomeDispatch, OutcomeDoc, OutcomeStatus};
use rupu_cli::json::{json_get, Json};
use rupu_cli::time::Timestamp;

#[test]
fn outcome_persists_dispatch_and_artifacts_for_next_tick() {
    let mut c = claim(ClaimStatus::Running, "github:o/r");
    c.branch = Some("rupu/issue-1".into());
    let outcome = OutcomeDoc {
        status: OutcomeStatus::Continue,
        summary: Some("phase 1 is ready".into()),
        dispatch: Some(OutcomeDispatch {
            workflow: "phase-delivery-cycle".into(),
            target: "github:o/r/issues/1".into(),
            inputs: vec![("phase".into(), "phase-1".into())],
        }),
        retry_after: None,
        pr_url: Some("https://github.com/o/r/pull/42".into()),
        reason: None,
        artifacts: Some(Json::Object(vec![(
            "review_packet".into(),
            Json::Str("docs/reviews/issue-42.json".into()),
        )])),
    };
    let now = Timestamp { secs: 1_700_000_000, nanos: 0 };
    apply_outcome_to_claim(&mut c, &outcome, Some("/runs/run_1/artifacts.json".into()), None, now, "t1").unwrap();
    assert_eq!(c.status, ClaimStatus::Claimed);
    assert_eq!(c.last_summary.as_deref(), Some("phase 1 is ready"));
    let dispatch = c.pending_dispatch.clone().expect("dispatch");
    assert_eq!(dispatch.workflow, "phase-delivery-cycle");
    assert_eq!(dispatch.target, "github:o/r/issues/1");
    let artifacts = c.artifacts.as_ref().expect("artifacts");
    assert!(matches!(json_get(artifacts, "review_packet"), Some(Json::Str(p)) if p == "docs/reviews/issue-42.json"));
    assert_eq!(c.artifact_manifest_path.as_deref(), Some("/runs/run_1/artifacts.json"));
    assert_eq!(c.branch.as_deref(), Some("rupu/issue-1"));
    assert_eq!(c.last_run_id.as_deref(), Some("run_1"));
    assert_eq!(c.updated_at, "t1");
}

use rupu_cli::autoflow::runtime::{IssueOutcome, TickReport};
use rupu_cli::autoflow::tick::{count_pass, issue_turn, turn_outcome, ClaimDecision, ClaimStep, IssueTurn};

#[test]
fn issue_turns_follow_the_claim_then_the_winner() {
    assert_eq!(issue_turn(None, true, true), IssueTurn::StartWinner);
    assert_eq!(issue_turn(None, true, false), IssueTurn::Skip);
    assert_eq!(issue_turn(None, false, true), IssueTurn::Skip);
    assert_eq!(issue_turn(Some(ClaimDecision::Left), true, true), IssueTurn::Skip);
    assert_eq!(issue_turn(Some(ClaimDecision::OrphanReleased), true, true), IssueTurn::StartWinner);
    assert_eq!(issue_turn(Some(ClaimDecision::Step(ClaimStep::YieldToWinner)), true, true), IssueTurn::StartWinner);
    assert_eq!(issue_turn(Some(ClaimDecision::Step(ClaimStep::RunDispatch)), false, false), IssueTurn::RunDispatch);
    assert_eq!(issue_turn(Some(ClaimDecision::Step(ClaimStep::RunCycle)), true, true), IssueTurn::RunCycle);
    assert_eq!(issue_turn(Some(ClaimDecision::Step(ClaimStep::HoldDispatch)), true, true), IssueTurn::Skip);
    assert_eq!(turn_outcome(IssueTurn::Skip, false), IssueOutcome::Skipped);
    assert_eq!(turn_outcome(IssueTurn::RunCycle, false), IssueOutcome::Ran);
    assert_eq!(turn_outcome(IssueTurn::Skip, true), IssueOutcome::Failed);
}

#[test]
fn a_pass_counts_every_issue_once() {
    let mut report = TickReport::new();
    let outs = vec![IssueOutcome::Ran, IssueOutcome::Skipped, IssueOutcome::Skipped, IssueOutcome::Failed];
    count_pass(&mut report, &outs);
    assert_eq!((report.ran_cycles, report.skipped_cycles, report.failed_cycles), (1, 2, 1));
    assert_eq!(report.ran_cycles + report.skipped_cycles + report.failed_cycles, outs.len());
}

#[test]
fn a_pass_over_winners_and_claims_counts_each_issue_once() {
    let winners: Vec<String> = vec!["issue-b".into(), "issue-a".into(), "issue-b".into()];
    let claims: Vec<String> = vec!["issue-a".into(), "issue-c".into()];
    let keys = rupu_cli::autoflow::tick::tick_issue_keys(&winners, &claims);
    assert_eq!(keys, vec!["issue-a".to_string(), "issue-b".to_string(), "issue-c".to_string()]);
    let outs: Vec<IssueOutcome> = keys
        .iter()
        .map(|k| if k == "issue-b" { IssueOutcome::Failed } else { IssueOutcome::Ran })
        .collect();
    let mut report = TickReport::new();
    count_pass(&mut report, &outs);
    assert_eq!((report.ran_cycles, report.skipped_cycles, report.failed_cycles), (2, 0, 1));
}

use rupu_cli::autoflow::runtime::{serve_idle_sleep, serve_summary_line, tick_summary_line, IdleSleepError, ServeReport};

#[test]
fn serve_and_tick_print_their_counts() {
    let mut total = TickReport::new();
    total.ran_cycles = 3;
    total.skipped_cycles = 4;
    total.failed_cycles = 1;
    total.cleaned_claims = 2;
    let report = ServeReport { cycles: 5, total };
    assert_eq!(serve_summary_line(&report, false), "autoflow serve stopped after 5 cycle(s): ran=3 skipped=4 failed=1 cleaned=2");
    assert_eq!(serve_summary_line(&report, true), "autoflow serve interrupted after 5 cycle(s): ran=3 skipped=4 failed=1 cleaned=2");
    let mut tick = TickReport::new();
    assert_eq!(tick_summary_line(&tick), "(no autoflows)");
    tick.cleaned_claims = 2;
    assert_eq!(
        tick_summary_line(&tick),
        "autoflow tick: 0 workflow(s), 0 polled event(s), 0 webhook event(s), 0 cycle(s) ran, 0 skipped, 2 cleaned"
    );
    tick.workflow_count = 1;
    tick.ran_cycles = 1;
    assert_eq!(
        tick_summary_line(&tick),
        "autoflow tick: 1 workflow(s), 0 polled event(s), 0 webhook event(s), 1 cycle(s) ran, 0 skipped, 0 failed, 2 cleaned"
    );
}

#[test]
fn idle_sleep_must_be_a_non_negative_duration() {
    assert_eq!(serve_idle_sleep("30s").ok(), Some(30));
    assert_eq!(serve_idle_sleep("2m").ok(), Some(120));
    match serve_idle_sleep("-5s") {
        Err(e @ IdleSleepError::Negative) => assert_eq!(e.message(), "idle sleep must be non-negative"),
        other => panic!("unexpected {other:?}"),
    }
    match serve_idle_sleep("soon") {
        Err(e @ IdleSleepError::Unreadable(_)) => assert!(e.message().starts_with("invalid duration `soon`")),
        other => panic!("unexpected {other:?}"),
    }
}

use rupu_cli::autoflow::runtime::{record_serve_cycle, serve_next_step, ServeStep};

#[test]
fn serve_with_a_cycle_limit_runs_that_many_passes_and_sums_them() {
    let pass = |ran: usize, failed: usize, polled: usize, workflows: usize| {
        let mut t = TickReport::new();
        t.ran_cycles = ran;
        t.failed_cycles = failed;
        t.polled_event_count = polled;
        t.workflow_count = workflows;
        t
    };
    let passes = [pass(1, 0, 2, 1), pass(0, 0, 0, 2), pass(2, 1, 5, 3), pass(9, 9, 9, 9)];
    let mut report = ServeReport::new();
    let mut seen = Vec::new();
    for tick in passes.iter() {
        record_serve_cycle(&mut report, tick);
        seen.push((report.cycles, report.total.ran_cycles, report.total.failed_cycles));
        let step = serve_next_step(report.cycles, Some(3), tick, 10_000);
        if step == ServeStep::Stop {
            break;
        }
        assert_eq!(step, if tick.ran_cycles > 0 { ServeStep::Sleep { ms: 250 } } else { ServeStep::Sleep { ms: 10_000 } });
    }
    assert_eq!(seen, vec![(1, 1, 0), (2, 1, 0), (3, 3, 1)]);
    assert_eq!(report.cycles, 3);
    assert_eq!(report.total.polled_event_count, 7);
    assert_eq!(report.total.workflow_count, 3);
    assert_eq!(serve_next_step(1, Some(0), &pass(0, 0, 0, 0), 0), ServeStep::Stop);
    assert_eq!(serve_next_step(1, None, &pass(0, 0, 0, 0), 0), ServeStep::Again);
}

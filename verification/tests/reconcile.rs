use rupu_cli::autoflow::claims::{AutoflowContender, ClaimRecord, ClaimStatus, PendingDispatch};
use rupu_cli::autoflow::contenders::summarize_issue_contenders;
use rupu_cli::autoflow::issue_ref::{IssueRef, IssueTracker};
use rupu_cli::autoflow::select::IssueCandidate;
use rupu_cli::autoflow::sources::{
    autoflow_poll_source_due, expand_user_path, issue_discovery_target, resolved_source_ref_text, source_slug, UserPath,
};
use rupu_cli::autoflow::tick::{
    claim_gate, claim_step, release_claim, tick_issue_keys, wake_consumed_detail, winner_may_start, ClaimGate, ClaimStep,
};
use rupu_cli::autoflow::wake_events::{EventSource, Platform, WakeEntityKind};
use rupu_cli::autoflow::wake_hints::WakeSource;
use rupu_cli::autoflow::wakes::{
    describe_wake_source, filter_claims_by_repo, filter_wakes_by_repo, invalid_wake_payload_detail, recent_processed,
    requeue_repo_ref, source_matches_issue_ref, wake_file_state, wake_rows, wakes_for_issue, WakeFileState, WakeRecord,
};
use rupu_cli::time::Timestamp;

fn claim(issue_ref: &str, repo_ref: &str, workflow: &str, status: ClaimStatus) -> ClaimRecord {
    ClaimRecord {
        issue_ref: issue_ref.into(),
        repo_ref: repo_ref.into(),
        source_ref: None,
        issue_display_ref: None,
        issue_title: None,
        issue_url: None,
        issue_state_name: None,
        issue_tracker: None,
        workflow: workflow.into(),
        status,
        updated_at: "2026-05-08T20:00:00Z".into(),
        worktree_path: None,
        branch: None,
        claim_owner: None,
        lease_expires_at: None,
        next_retry_at: None,
        last_run_id: None,
        last_error: None,
        last_summary: None,
        pr_url: None,
        artifact_manifest_path: None,
        artifacts: None,
        pending_dispatch: None,
        contenders: vec![],
    }
}

fn wake(id: &str, repo: &str, entity: &str, kind: WakeEntityKind, received_at: &str) -> WakeRecord {
    WakeRecord {
        wake_id: id.into(),
        source: WakeSource::Webhook,
        repo_ref: repo.into(),
        entity_kind: kind,
        entity_ref: entity.into(),
        event_id: "github.issue.labeled".into(),
        received_at: received_at.into(),
        not_before: received_at.into(),
    }
}

fn candidate(issue: &str, workflow: &str, priority: i32, scope: &str) -> IssueCandidate {
    IssueCandidate { issue_ref: issue.into(), workflow: workflow.into(), priority, scope: scope.into() }
}

#[test]
fn a_pass_visits_each_issue_once_in_order() {
    let winners = vec!["github:o/r/issues/3".to_string(), "github:o/r/issues/1".to_string()];
    let claims = vec!["github:o/r/issues/1".to_string(), "github:o/r/issues/2".to_string()];
    assert_eq!(
        tick_issue_keys(&winners, &claims),
        vec!["github:o/r/issues/1", "github:o/r/issues/2", "github:o/r/issues/3"]
    );
}

#[test]
fn orphaned_claims_wait_for_their_lease_and_lock() {
    assert_eq!(claim_gate(true, true, true), ClaimGate::Proceed);
    assert_eq!(claim_gate(false, false, false), ClaimGate::Leave);
    assert_eq!(claim_gate(false, true, true), ClaimGate::Leave);
    assert_eq!(claim_gate(false, true, false), ClaimGate::ReleaseOrphan);
}

#[test]
fn claim_steps_follow_the_pass_order() {
    let running = claim("i", "r", "a", ClaimStatus::Running);
    assert_eq!(claim_step(&running, Some("b"), false, true, true), ClaimStep::YieldToWinner);
    assert_eq!(claim_step(&running, Some("b"), true, true, true), ClaimStep::RunCycle);
    assert_eq!(claim_step(&running, Some("a"), false, true, false), ClaimStep::Idle);
    let done = claim("i", "r", "a", ClaimStatus::Complete);
    assert_eq!(claim_step(&done, Some("b"), false, true, true), ClaimStep::Settle);
    let released = claim("i", "r", "a", ClaimStatus::Released);
    assert_eq!(claim_step(&released, None, false, true, true), ClaimStep::OfferReleased);
    let mut dispatching = claim("i", "r", "a", ClaimStatus::AwaitExternal);
    dispatching.pending_dispatch =
        Some(PendingDispatch { workflow: "next".into(), target: "i".into(), inputs: vec![] });
    assert_eq!(claim_step(&dispatching, None, false, false, true), ClaimStep::HoldDispatch);
    assert_eq!(claim_step(&dispatching, None, false, true, true), ClaimStep::RunDispatch);
}

#[test]
fn releasing_a_claim_drops_its_dispatch() {
    let mut c = claim("i", "r", "a", ClaimStatus::AwaitExternal);
    c.pending_dispatch = Some(PendingDispatch { workflow: "next".into(), target: "i".into(), inputs: vec![] });
    release_claim(&mut c, "2026-05-09T00:00:00Z".into());
    assert_eq!(c.status, ClaimStatus::Released);
    assert!(c.pending_dispatch.is_none());
    assert_eq!(c.updated_at, "2026-05-09T00:00:00Z");
}

#[test]
fn max_active_limits_new_claims() {
    assert!(winner_may_start(0, Some(1)));
    assert!(!winner_may_start(1, Some(1)));
    assert!(!winner_may_start(0, Some(0)));
    assert!(winner_may_start(1000, None));
}

#[test]
fn consumed_wakes_name_their_source() {
    assert_eq!(wake_consumed_detail(WakeSource::CronPoll), "cronpoll");
    assert_eq!(wake_consumed_detail(WakeSource::ApprovalResume), "approvalresume");
}

#[test]
fn contenders_keep_each_workflow_once_best_first() {
    let ms = vec![
        candidate("i", "beta", 10, "project"),
        candidate("other", "alpha", 99, "global"),
        candidate("i", "alpha", 10, "global"),
        candidate("i", "beta", 50, "global"),
        candidate("i", "gamma", 50, "project"),
        candidate("i", "beta", 50, "project"),
    ];
    let out = summarize_issue_contenders(&ms, "i");
    let shown: Vec<(String, i32, Option<String>, bool)> =
        out.iter().map(|c: &AutoflowContender| (c.workflow.clone(), c.priority, c.scope.clone(), c.selected)).collect();
    assert_eq!(
        shown,
        vec![
            ("beta".to_string(), 50, Some("global".to_string()), true),
            ("gamma".to_string(), 50, Some("project".to_string()), false),
            ("alpha".to_string(), 10, Some("global".to_string()), false),
        ]
    );
    assert!(summarize_issue_contenders(&ms, "none").is_empty());
}

#[test]
fn wakes_filter_by_repo_and_issue() {
    let wakes = vec![
        wake("w1", "github:o/a", "github:o/a/issues/1", WakeEntityKind::Issue, "2026-01-01T00:00:00Z"),
        wake("w2", "github:o/b", "github:o/b", WakeEntityKind::Repo, "2026-01-02T00:00:00Z"),
        wake("w3", "github:o/a", "github:o/a/issues/2", WakeEntityKind::Issue, "2026-01-03T00:00:00Z"),
    ];
    let ids = |ws: Vec<WakeRecord>| ws.into_iter().map(|w| w.wake_id).collect::<Vec<_>>();
    assert_eq!(ids(filter_wakes_by_repo(wakes.clone(), Some("github:o/a"))), vec!["w1", "w3"]);
    assert_eq!(ids(filter_wakes_by_repo(wakes.clone(), None)), vec!["w1", "w2", "w3"]);
    assert_eq!(ids(wakes_for_issue(wakes, "github:o/a/issues/2")), vec!["w3"]);
    let claims = vec![claim("i1", "github:o/a", "x", ClaimStatus::Running), claim("i2", "github:o/b", "x", ClaimStatus::Running)];
    let kept = filter_claims_by_repo(claims, Some("github:o/b"));
    assert_eq!(kept.len(), 1);
    assert_eq!(kept[0].issue_ref, "i2");
}

#[test]
fn recent_processed_wakes_are_newest_first_and_capped() {
    let mut processed = Vec::new();
    for i in 0..12 {
        processed.push(wake(&format!("w{i:02}"), "github:o/a", "e", WakeEntityKind::Repo, &format!("2026-01-{:02}T00:00:00Z", i + 1)));
    }
    processed.push(wake("tie-b", "github:o/a", "e", WakeEntityKind::Repo, "2026-01-12T00:00:00Z"));
    processed.push(wake("skip", "github:o/z", "e", WakeEntityKind::Repo, "2027-01-01T00:00:00Z"));
    let recent = recent_processed(processed, Some("github:o/a"), 10);
    let ids: Vec<String> = recent.iter().map(|w| w.wake_id.clone()).collect();
    assert_eq!(ids, vec!["w11", "tie-b", "w10", "w09", "w08", "w07", "w06", "w05", "w04", "w03"]);
    let rows = wake_rows(&vec![wake("q", "github:o/a", "e", WakeEntityKind::Repo, "x")], &recent);
    assert_eq!(rows.len(), 11);
    assert_eq!(rows[0].state, "queued");
    assert_eq!(rows[0].source, "webhook");
    assert_eq!(rows[1].state, "processed");
    assert_eq!(rows[1].wake_id, "w11");
}

#[test]
fn wake_descriptions_name_state_source_and_event() {
    let w = wake("w1", "github:o/a", "e", WakeEntityKind::Repo, "t");
    assert_eq!(wake_file_state(false, true), WakeFileState::Processed);
    assert_eq!(describe_wake_source("w1", Ok(&w), WakeFileState::Queued), "w1 [queued] webhook github.issue.labeled");
    assert_eq!(describe_wake_source("w9", Err("not found"), WakeFileState::Unknown), "w9 (missing: not found)");
    assert_eq!(invalid_wake_payload_detail(None, false, None), None);
    assert_eq!(
        invalid_wake_payload_detail(Some("/tmp/p.json"), false, None).as_deref(),
        Some("references missing payload `/tmp/p.json`")
    );
    assert_eq!(
        invalid_wake_payload_detail(Some("/tmp/p.json"), true, Some("bad json")).as_deref(),
        Some("has unreadable payload: bad json")
    );
    assert_eq!(invalid_wake_payload_detail(Some("/tmp/p.json"), true, None), None);
}

#[test]
fn sources_match_the_issues_they_cover() {
    let repo = EventSource::Repo { platform: Platform::Github, owner: "o".into(), repo: "r".into() };
    let gh = IssueRef { tracker: IssueTracker::Github, project: "o/r".into(), number: 1 };
    let gl = IssueRef { tracker: IssueTracker::Gitlab, project: "o/r".into(), number: 1 };
    assert!(source_matches_issue_ref(&repo, &gh));
    assert!(!source_matches_issue_ref(&repo, &gl));
    let jira = EventSource::TrackerProject { tracker: IssueTracker::Jira, project: "ENG".into() };
    let jira_issue = IssueRef { tracker: IssueTracker::Jira, project: "acme.atlassian.net/ENG".into(), number: 42 };
    assert!(source_matches_issue_ref(&jira, &jira_issue));
    let jira_full = EventSource::TrackerProject { tracker: IssueTracker::Jira, project: "x/ENG".into() };
    assert!(!source_matches_issue_ref(&jira_full, &jira_issue));
    let linear = EventSource::TrackerProject { tracker: IssueTracker::Linear, project: "team".into() };
    assert!(source_matches_issue_ref(&linear, &IssueRef { tracker: IssueTracker::Linear, project: "team".into(), number: 3 }));
    assert!(!source_matches_issue_ref(&linear, &jira_issue));
}

#[test]
fn requeue_needs_a_repo() {
    assert_eq!(requeue_repo_ref(Some("github:o/r"), "linear:t/issues/1").unwrap(), "github:o/r");
    assert_eq!(requeue_repo_ref(None, "github:o/r/issues/1").unwrap(), "github:o/r");
    assert_eq!(
        requeue_repo_ref(None, "linear:t/issues/1").unwrap_err(),
        "could not resolve repo for `linear:t/issues/1`"
    );
}

#[test]
fn discovery_targets_and_slugs_follow_the_source() {
    let repo = EventSource::Repo { platform: Platform::Gitlab, owner: "grp".into(), repo: "my repo".into() };
    let (tracker, project) = issue_discovery_target(&repo);
    assert_eq!(tracker, IssueTracker::Gitlab);
    assert_eq!(project, "grp/my repo");
    assert_eq!(source_slug(&repo), "repo-grp-my-repo");
    let jira = EventSource::TrackerProject { tracker: IssueTracker::Jira, project: "acme/ENG".into() };
    assert_eq!(source_slug(&jira), "project-acme-ENG");
    assert_eq!(resolved_source_ref_text(Some("jira:ENG"), "github:o/r"), "jira:ENG");
    assert_eq!(resolved_source_ref_text(None, "github:o/r"), "github:o/r");
}

#[test]
fn poll_sources_come_due_after_their_interval() {
    let last = Timestamp { secs: 1_000, nanos: 0 };
    assert_eq!(autoflow_poll_source_due(None, Some(last), last).unwrap(), true);
    assert_eq!(autoflow_poll_source_due(Some("10m"), None, last).unwrap(), true);
    assert_eq!(autoflow_poll_source_due(Some("10m"), Some(last), Timestamp { secs: 1_599, nanos: 0 }).unwrap(), false);
    assert_eq!(autoflow_poll_source_due(Some("10m"), Some(last), Timestamp { secs: 1_600, nanos: 0 }).unwrap(), true);
    assert!(autoflow_poll_source_due(Some("10x"), Some(last), last).is_err());
}

#[test]
fn home_paths_expand() {
    assert_eq!(expand_user_path("~"), UserPath::Home);
    assert_eq!(expand_user_path("~/work/rupu"), UserPath::UnderHome("work/rupu".into()));
    assert_eq!(expand_user_path("~\\work"), UserPath::UnderHome("work".into()));
    assert_eq!(expand_user_path("/srv/rupu"), UserPath::AsIs("/srv/rupu".into()));
    assert_eq!(expand_user_path("~x"), UserPath::AsIs("~x".into()));
}

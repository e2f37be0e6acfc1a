use rupu_cli::autoflow::duration::duration_text_checked;
use rupu_cli::autoflow::claims::{
    claim_is_live_for_heartbeat, claim_should_render_in_cycle_frame, claim_should_yield_to_winner, heartbeat_action_label,
    AutoflowClaimRow, ClaimRecord, ClaimStatus, PendingDispatch,
};
use rupu_cli::autoflow::command::{resolve_autoflow_permission_mode, PermissionModeError};
use rupu_cli::autoflow::duration::parse_duration;
use rupu_cli::autoflow::issue_ref::{
    canonical_autoflow_issue_ref, issue_display_ref, issue_ref_to_repo_ref, issue_url, IssueRef, IssueTracker,
    RepoRefError,
};
use rupu_cli::autoflow::schedule::{claim_cleanup_due, manual_run_can_take_claim_at, should_run_claim_at, ManualRunError};
use rupu_cli::autoflow::select::{choose_winning_matches, selector_matches, IssueCandidate, IssueSelector, IssueState};
use rupu_cli::autoflow::serve_entries::{build_serve_issue_entries, serve_issue_rank};
use rupu_cli::time::Timestamp;

fn claim_with_status(status: &str) -> AutoflowClaimRow {
    AutoflowClaimRow {
        issue: "github:Section9Labs/rupu/issues/1".into(),
        issue_display: Some("1".into()),
        tracker: Some("github".into()),
        state: Some("open".into()),
        source: Some("github:Section9Labs/rupu".into()),
        repo: "github:Section9Labs/rupu".into(),
        workflow: "demo".into(),
        priority: "100".into(),
        status: status.into(),
        next: "-".into(),
        branch: "-".into(),
        pr: "-".into(),
        summary: "-".into(),
        contenders: "*demo[100]".into(),
        workspace: "-".into(),
        last_cycle: "-".into(),
        last_event: "-".into(),
        last_run: "-".into(),
    }
}

fn now() -> Timestamp {
    let n = chrono::Utc::now();
    Timestamp { secs: n.timestamp(), nanos: n.timestamp_subsec_nanos() }
}

fn rfc3339_from_now(delta_secs: i64) -> String {
    (chrono::Utc::now() + chrono::Duration::seconds(delta_secs)).to_rfc3339()
}

fn claim_record(issue_ref: &str, workflow: &str, status: ClaimStatus) -> ClaimRecord {
    ClaimRecord {
        issue_ref: issue_ref.into(),
        repo_ref: "github:Section9Labs/rupu".into(),
        source_ref: None,
        issue_display_ref: None,
        issue_title: None,
        issue_url: None,
        issue_state_name: None,
        issue_tracker: None,
        workflow: workflow.into(),
        status,
        updated_at: chrono::Utc::now().to_rfc3339(),
        worktree_path: None,
        branch: None,
        claim_owner: None,
        lease_expires_at: None,
        next_retry_at: None,
        last_run_id: None,
        last_error: None,
        last_summary: None,
        pr_url: None,
        artifact_manifest_path: None,
        artifacts: None,
        pending_dispatch: None,
        contenders: vec![],
    }
}

#[test]
fn heartbeat_ignores_complete_claims() {
    assert!(!claim_is_live_for_heartbeat(&claim_with_status("complete")));
    assert!(claim_is_live_for_heartbeat(&claim_with_status("running")));
}

#[test]
fn heartbeat_uses_status_specific_labels() {
    assert_eq!(heartbeat_action_label(&claim_with_status("running")), "processing");
    assert_eq!(heartbeat_action_label(&claim_with_status("await_external")), "waiting on");
    assert_eq!(heartbeat_action_label(&claim_with_status("blocked")), "blocked on");
}

#[test]
fn cycle_frame_hides_complete_claim_without_current_events() {
    let claim = claim_with_status("complete");
    assert!(!claim_should_render_in_cycle_frame(&claim, 0));
}

#[test]
fn cycle_frame_keeps_complete_claim_with_current_events() {
    let claim = claim_with_status("complete");
    assert!(claim_should_render_in_cycle_frame(&claim, 1));
}

#[test]
fn canonical_autoflow_issue_ref_accepts_tracker_native_refs() {
    assert_eq!(canonical_autoflow_issue_ref("linear:team-123/issues/42").unwrap(), "linear:team-123/issues/42");
    assert_eq!(
        canonical_autoflow_issue_ref("jira:acme.atlassian.net/ENG/issues/42").unwrap(),
        "jira:acme.atlassian.net/ENG/issues/42"
    );
    assert_eq!(
        canonical_autoflow_issue_ref("github:Section9Labs/rupu/issues/42").unwrap(),
        "github:Section9Labs/rupu/issues/42"
    );
}

#[test]
fn issue_ref_to_repo_ref_rejects_tracker_native_refs() {
    assert_eq!(issue_ref_to_repo_ref("github:Section9Labs/rupu/issues/42").unwrap(), "github:Section9Labs/rupu");
    assert!(issue_ref_to_repo_ref("linear:team-123/issues/42").is_err());
    assert!(issue_ref_to_repo_ref("jira:acme.atlassian.net/ENG/issues/42").is_err());
}

#[test]
fn autoflow_permission_mode_defaults_to_bypass() {
    assert_eq!(resolve_autoflow_permission_mode(None, None).unwrap(), "bypass");
}

#[test]
fn autoflow_permission_mode_accepts_readonly() {
    assert_eq!(resolve_autoflow_permission_mode(Some("readonly"), Some("bypass")).unwrap(), "readonly");
}

#[test]
fn autoflow_permission_mode_rejects_ask_override() {
    let err = resolve_autoflow_permission_mode(Some("ask"), Some("bypass")).unwrap_err();
    assert!(err.message().contains("autoflow does not support `ask` permission mode"));
}

#[test]
fn autoflow_permission_mode_rejects_ask_config() {
    let err = resolve_autoflow_permission_mode(None, Some("ask")).unwrap_err();
    assert!(err.message().contains("autoflow does not support `ask` permission mode"));
}

#[test]
fn autoflow_permission_mode_rejects_unknown_override() {
    let err = resolve_autoflow_permission_mode(Some("admin"), Some("bypass")).unwrap_err();
    assert!(err.message().contains("invalid autoflow permission mode `admin`"));
}

#[test]
fn autoflow_permission_mode_rejects_unknown_config() {
    let err = resolve_autoflow_permission_mode(None, Some("admin")).unwrap_err();
    assert!(err.message().contains("invalid autoflow permission mode `admin`"));
}

#[test]
fn parse_duration_accepts_supported_units() {
    assert_eq!(parse_duration("10m").unwrap(), 600);
    assert_eq!(parse_duration("2h").unwrap(), 7200);
}

#[test]
fn selector_matches_honors_labels_all_any_and_none() {
    let sel = IssueSelector {
        states: vec![],
        labels_all: vec!["autoflow".into()],
        labels_any: vec!["bug".into(), "urgent".into()],
        labels_none: vec!["blocked".into()],
    };
    let labels = |ls: &[&str]| ls.iter().map(|l| l.to_string()).collect::<Vec<String>>();
    assert!(selector_matches(&sel, IssueState::Open, &labels(&["autoflow", "bug"])));
    assert!(selector_matches(&sel, IssueState::Open, &labels(&["autoflow", "urgent"])));
    assert!(!selector_matches(&sel, IssueState::Open, &labels(&["bug"])));
    assert!(!selector_matches(&sel, IssueState::Open, &labels(&["autoflow"])));
    assert!(!selector_matches(&sel, IssueState::Open, &labels(&["autoflow", "bug", "blocked"])));
}

#[test]
fn terminal_claim_cleanup_respects_grace_period() {
    let mut claim = claim_record("github:Section9Labs/rupu/issues/42", "issue-supervisor-dispatch", ClaimStatus::Complete);
    claim.updated_at = rfc3339_from_now(-3 * 86_400);
    assert!(claim_cleanup_due(&claim, now(), 86_400).unwrap());
    assert!(!claim_cleanup_due(&claim, now(), 7 * 86_400).unwrap());
}

#[test]
fn matching_wake_event_makes_await_external_claim_due() {
    let claim = claim_record(
        "github:Section9Labs/rupu/issues/42",
        "issue-supervisor-dispatch",
        ClaimStatus::AwaitExternal,
    );
    assert!(should_run_claim_at(&claim, false, true, Some("1d"), now(), now()).unwrap());
    assert!(!should_run_claim_at(&claim, false, false, Some("1d"), now(), now()).unwrap());
}

#[test]
fn manual_run_rejects_owned_non_terminal_claim() {
    let issue_ref = "github:Section9Labs/rupu/issues/42";
    let mut claim = claim_record(issue_ref, "controller", ClaimStatus::AwaitExternal);
    claim.lease_expires_at = Some(rfc3339_from_now(3600));
    let err = manual_run_can_take_claim_at(Some(&claim), issue_ref, false, now()).unwrap_err();
    assert!(err.message().contains("already has an owned autoflow claim"));
}

#[test]
fn manual_run_allows_expired_claim_takeover() {
    let issue_ref = "github:Section9Labs/rupu/issues/42";
    let mut claim = claim_record(issue_ref, "controller", ClaimStatus::AwaitExternal);
    claim.lease_expires_at = Some("2000-01-01T00:00:00Z".into());
    manual_run_can_take_claim_at(Some(&claim), issue_ref, false, now()).unwrap();
}

#[test]
fn manual_run_rejects_blocked_claim_until_release() {
    let issue_ref = "github:Section9Labs/rupu/issues/42";
    let mut claim = claim_record(issue_ref, "controller", ClaimStatus::Blocked);
    claim.lease_expires_at = Some("2000-01-01T00:00:00Z".into());
    let err = manual_run_can_take_claim_at(Some(&claim), issue_ref, false, now()).unwrap_err();
    assert!(err.message().contains("blocked autoflow claim"));
    assert!(err.message().contains("rupu autoflow release"));
}

#[test]
fn idle_claim_yields_to_higher_priority_winner() {
    let mut claim = claim_record(
        "github:Section9Labs/rupu/issues/42",
        "issue-supervisor-dispatch",
        ClaimStatus::AwaitExternal,
    );
    assert!(claim_should_yield_to_winner(&claim, Some("phase-delivery-cycle"), false));
    assert!(!claim_should_yield_to_winner(&claim, Some("phase-delivery-cycle"), true));
    claim.status = ClaimStatus::AwaitHuman;
    assert!(!claim_should_yield_to_winner(&claim, Some("phase-delivery-cycle"), false));
}

#[test]
fn winners_prefer_priority_then_workflow_name() {
    let candidate = |workflow: &str, priority: i32| IssueCandidate {
        issue_ref: "github:Section9Labs/rupu/issues/42".into(),
        workflow: workflow.into(),
        priority,
        scope: "project".into(),
    };
    let ms = vec![candidate("beta", 50), candidate("alpha", 50), candidate("gamma", 100)];
    let winners = choose_winning_matches(&ms);
    assert_eq!(winners.len(), 1);
    assert_eq!(ms[winners[0]].workflow, "gamma");
}

#[test]
fn equal_priorities_fall_back_to_workflow_name() {
    let candidate = |issue: &str, workflow: &str, priority: i32| IssueCandidate {
        issue_ref: issue.into(),
        workflow: workflow.into(),
        priority,
        scope: "project".into(),
    };
    let ms = vec![
        candidate("github:o/r/issues/1", "beta", 50),
        candidate("github:o/r/issues/2", "zeta", 1),
        candidate("github:o/r/issues/1", "alpha", 50),
    ];
    let winners = choose_winning_matches(&ms);
    assert_eq!(winners.len(), 2);
    let names: Vec<&str> = winners.iter().map(|i| ms[*i].workflow.as_str()).collect();
    assert!(names.contains(&"alpha"));
    assert!(names.contains(&"zeta"));
}

#[test]
fn canonical_issue_ref_is_idempotent_on_examples() {
    let once = canonical_autoflow_issue_ref("github:o/r/issues/007").unwrap();
    assert_eq!(once, "github:o/r/issues/7");
    assert_eq!(canonical_autoflow_issue_ref(&once).unwrap(), once);
    let odd = canonical_autoflow_issue_ref("jira:a/issues/b/issues/+3").unwrap();
    assert_eq!(odd, "jira:a/issues/b/issues/3");
    assert_eq!(canonical_autoflow_issue_ref(&odd).unwrap(), odd);
}

#[test]
fn issue_ref_errors_name_the_problem() {
    assert!(canonical_autoflow_issue_ref("nonsense").unwrap_err().message().contains("invalid issue ref `nonsense`"));
    assert!(canonical_autoflow_issue_ref("gitea:o/r/issues/1").unwrap_err().message().contains("gitea"));
    assert!(canonical_autoflow_issue_ref("github:o/r/issues/x").unwrap_err().message().contains("invalid digit"));
    match issue_ref_to_repo_ref("linear:team/issues/1") {
        Err(RepoRefError::NoRepoBinding { issue_ref }) => assert_eq!(issue_ref, "linear:team/issues/1"),
        _ => panic!("expected a missing repo binding"),
    }
    assert_eq!(
        issue_ref_to_repo_ref("jira:a/issues/1").unwrap_err().message(),
        "tracker issue `jira:a/issues/1` does not imply a repo binding"
    );
}

#[test]
fn jira_issues_display_with_their_project_key() {
    let jira = IssueRef { tracker: IssueTracker::Jira, project: "acme.atlassian.net/ENG".into(), number: 42 };
    assert_eq!(issue_display_ref(&jira), "ENG-42");
    let trailing = IssueRef { tracker: IssueTracker::Jira, project: "acme/".into(), number: 7 };
    assert_eq!(issue_display_ref(&trailing), "acme/-7");
    let github = IssueRef { tracker: IssueTracker::Github, project: "o/r".into(), number: 9 };
    assert_eq!(issue_display_ref(&github), "9");
}

#[test]
fn issue_urls_follow_the_tracker() {
    let github = IssueRef { tracker: IssueTracker::Github, project: "o/r".into(), number: 9 };
    assert_eq!(issue_url(&github, None).as_deref(), Some("https://github.com/o/r/issues/9"));
    let jira = IssueRef { tracker: IssueTracker::Jira, project: "acme.atlassian.net/ENG".into(), number: 42 };
    assert_eq!(issue_url(&jira, Some("https://acme.atlassian.net//")).as_deref(), Some("https://acme.atlassian.net/browse/ENG-42"));
    assert_eq!(issue_url(&jira, None), None);
    let linear = IssueRef { tracker: IssueTracker::Linear, project: "team".into(), number: 1 };
    assert_eq!(issue_url(&linear, Some("x")), None);
}

#[test]
fn permission_errors_read_in_full() {
    assert_eq!(
        PermissionModeError::Ask.message(),
        "autoflow does not support `ask` permission mode; use `bypass` or `readonly`"
    );
    let resolved = resolve_autoflow_permission_mode(Some("readonly"), Some("ask")).unwrap();
    assert_eq!(resolve_autoflow_permission_mode(Some(&resolved), Some("admin")).unwrap(), resolved);
}

#[test]
fn manual_run_refuses_a_locked_claim_and_takes_a_free_issue() {
    let issue_ref = "github:Section9Labs/rupu/issues/42";
    let claim = claim_record(issue_ref, "controller", ClaimStatus::Running);
    match manual_run_can_take_claim_at(Some(&claim), issue_ref, true, now()) {
        Err(ManualRunError::ActiveCycle { workflow, .. }) => assert_eq!(workflow, "controller"),
        _ => panic!("expected an active cycle"),
    }
    assert!(manual_run_can_take_claim_at(None, issue_ref, true, now()).is_ok());
    let done = claim_record(issue_ref, "controller", ClaimStatus::Complete);
    assert!(manual_run_can_take_claim_at(Some(&done), issue_ref, true, now()).is_ok());
}

#[test]
fn pending_dispatch_waits_for_the_next_pass() {
    let mut claim = claim_record("github:o/r/issues/1", "controller", ClaimStatus::Claimed);
    claim.pending_dispatch = Some(PendingDispatch {
        workflow: "follow".into(),
        target: "github:o/r/issues/1".into(),
        inputs: vec![],
    });
    let tick_started = now();
    claim.updated_at = rfc3339_from_now(60);
    assert!(!should_run_claim_at(&claim, false, true, None, tick_started, now()).unwrap());
    claim.updated_at = rfc3339_from_now(-60);
    assert!(should_run_claim_at(&claim, false, true, None, tick_started, now()).unwrap());
    assert!(!should_run_claim_at(&claim, true, true, None, tick_started, now()).unwrap());
}

#[test]
fn serve_entries_prioritize_running_issue_with_events() {
    let running = claim_with_status("running");
    let mut complete = claim_with_status("complete");
    complete.issue = "github:Section9Labs/rupu/issues/2".into();
    complete.issue_display = Some("2".into());
    let events = vec![Some(running.issue.clone())];

    let claims = vec![complete, running.clone()];
    let entries = build_serve_issue_entries(&claims, &events);
    assert_eq!(
        entries.first().and_then(|entry| entry.claim).map(|claim| claims[claim].issue.as_str()),
        Some(running.issue.as_str())
    );
}

#[test]
fn serve_entries_include_event_only_issues() {
    let events = vec![Some("github:Section9Labs/rupu/issues/99".to_string())];

    let entries = build_serve_issue_entries(&vec![], &events);
    assert_eq!(entries.len(), 1);
    assert_eq!(entries[0].issue_ref, "github:Section9Labs/rupu/issues/99");
    assert!(entries[0].claim.is_none());
}

#[test]
fn serve_entries_hide_quiet_complete_claims_and_rank_the_rest() {
    let mut blocked = claim_with_status("blocked");
    blocked.issue = "github:Section9Labs/rupu/issues/3".into();
    let quiet_done = claim_with_status("complete");
    let mut waiting = claim_with_status("await_external");
    waiting.issue = "github:Section9Labs/rupu/issues/4".into();
    let claims = vec![quiet_done, blocked.clone(), waiting.clone()];
    let events = vec![None, Some(waiting.issue.clone()), Some("github:Section9Labs/rupu/issues/9".to_string())];
    let entries = build_serve_issue_entries(&claims, &events);
    let order: Vec<String> = entries.iter().map(|e| e.issue_ref.clone()).collect();
    assert_eq!(
        order,
        vec![waiting.issue.clone(), "github:Section9Labs/rupu/issues/9".to_string(), blocked.issue.clone()]
    );
    assert_eq!(entries[0].events, vec![1]);
    assert_eq!(serve_issue_rank(Some("running"), true), (0, 0));
    assert_eq!(serve_issue_rank(None, false), (4, 6));
    assert_eq!(serve_issue_rank(Some("complete"), false), (5, 7));
}

#[test]
fn duration_text_checked_flags_what_parse_duration_cannot_take() {
    assert!(duration_text_checked("10m"));
    assert!(duration_text_checked(" 2d "));
    assert!(duration_text_checked(""));
    assert!(duration_text_checked("abc"));
    assert!(!duration_text_checked("5\u{20ac}"));
    assert!(!duration_text_checked("9999999999999999d"));
    assert!(duration_text_checked("9223372036854775s"));
    assert!(!duration_text_checked("9223372036854776s"));
}

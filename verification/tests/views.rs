use rupu_cli::autoflow::claims::{AutoflowContender, ClaimRecord, ClaimStatus};
use rupu_cli::autoflow::cycle::CycleRunResult;
use rupu_cli::autoflow::events::CycleEventKind;
use rupu_cli::autoflow::history::HistoryEvent;
use rupu_cli::autoflow::issue_ref::{IssueRef, IssueTracker};
use rupu_cli::autoflow::cycle::WorkspaceStrategy;
use rupu_cli::autoflow::select::IssueState;
use rupu_cli::autoflow::show_summary::{show_summary_details, show_summary_meta, AutoflowView, AutoflowWorkspaceView};
use rupu_cli::autoflow::live_cycle::{already_written, events_to_write};
use rupu_cli::autoflow::monitor::{
    claim_row, filter_monitor_cycles, filter_monitor_events, history_report_rows, history_rows_from_events,
    latest_cycle_for, monitor_activity_rows, monitor_worker_rows, recent_activity_for, CycleRecord, HistoryRecord,
    WorkerRecord,
};
use rupu_cli::autoflow::runtime::{CycleMode, WorkerKind};
use rupu_cli::autoflow::tick::{begin_dispatch_run, finish_dispatch_run};
use rupu_cli::autoflow::visible::{
    choose_named_autoflow, issue_matches_visible_source, issue_ref_for_autoflow, repo_ref_matches_issue_ref,
    resolve_repo_binding_for_issue, sort_texts, visible_binding, AutoflowSource, VisibleAutoflow,
};
use rupu_cli::autoflow::wake_events::{EventSource, Platform};

fn event(kind: CycleEventKind, issue: Option<&str>, repo: Option<&str>) -> HistoryEvent {
    HistoryEvent {
        kind,
        issue_ref: issue.map(|s| s.to_string()),
        issue_display_ref: None,
        repo_ref: repo.map(|s| s.to_string()),
        source_ref: None,
        workflow: Some("wf".into()),
        run_id: None,
        status: None,
        detail: None,
        wake_id: None,
        wake_event_id: None,
    }
}

fn record(at: &str, worker: Option<&str>, repo_filter: Option<&str>, event: HistoryEvent) -> HistoryRecord {
    HistoryRecord {
        at: at.into(),
        cycle_id: "c1".into(),
        mode: CycleMode::Serve,
        worker_id: worker.map(|s| s.to_string()),
        worker_name: None,
        repo_filter: repo_filter.map(|s| s.to_string()),
        event,
    }
}

fn cycle(started: &str, worker_id: Option<&str>, worker_name: Option<&str>, repo_filter: Option<&str>) -> CycleRecord {
    CycleRecord {
        started_at: started.into(),
        worker_id: worker_id.map(|s| s.to_string()),
        worker_name: worker_name.map(|s| s.to_string()),
        repo_filter: repo_filter.map(|s| s.to_string()),
        ran_cycles: 2,
        failed_cycles: 1,
        events: vec![],
    }
}

fn claim(issue: &str) -> ClaimRecord {
    ClaimRecord {
        issue_ref: issue.into(),
        repo_ref: "github:o/r".into(),
        source_ref: None,
        issue_display_ref: Some("1".into()),
        issue_title: None,
        issue_url: None,
        issue_state_name: Some("open".into()),
        issue_tracker: Some("github".into()),
        workflow: "wf".into(),
        status: ClaimStatus::AwaitExternal,
        updated_at: "t".into(),
        worktree_path: None,
        branch: Some("rupu/issue-1".into()),
        claim_owner: None,
        lease_expires_at: None,
        next_retry_at: None,
        last_run_id: Some("run_old".into()),
        last_error: Some("boom".into()),
        last_summary: Some("  waiting  ".into()),
        pr_url: None,
        artifact_manifest_path: None,
        artifacts: None,
        pending_dispatch: None,
        contenders: vec![AutoflowContender { workflow: "wf".into(), priority: 7, scope: None, selected: true }],
    }
}

fn visible(name: &str, repo: Option<&str>, scope: &str, source: AutoflowSource) -> VisibleAutoflow {
    VisibleAutoflow {
        name: name.into(),
        scope: scope.into(),
        workflow_path: format!("/w/{name}.yaml"),
        project_root: Some("/w".into()),
        repo_ref: repo.map(|s| s.to_string()),
        preferred_checkout: None,
        has_autoflow: true,
        source,
    }
}

#[test]
fn monitor_filters_events_and_cycles_by_repo_and_worker() {
    let events = vec![
        record("t3", Some("w1"), None, event(CycleEventKind::RunLaunched, Some("i1"), Some("github:o/a"))),
        record("t2", Some("w2"), Some("github:o/b"), event(CycleEventKind::ClaimAcquired, Some("i2"), None)),
        record("t1", Some("w1"), None, event(CycleEventKind::CycleFailed, None, Some("github:o/b"))),
    ];
    let kept = filter_monitor_events(events.clone(), Some("github:o/b"), None);
    assert_eq!(kept.iter().map(|r| r.at.clone()).collect::<Vec<_>>(), vec!["t2", "t1"]);
    let kept = filter_monitor_events(events, Some("github:o/b"), Some("w1"));
    assert_eq!(kept.iter().map(|r| r.at.clone()).collect::<Vec<_>>(), vec!["t1"]);
    let mut touching = cycle("c-b", Some("w9"), None, None);
    touching.events.push(event(CycleEventKind::RunLaunched, None, Some("github:o/b")));
    let cycles = vec![cycle("c-a", Some("w1"), None, Some("github:o/a")), touching];
    let kept = filter_monitor_cycles(cycles, Some("github:o/b"), None);
    assert_eq!(kept.len(), 1);
    assert_eq!(kept[0].started_at, "c-b");
}

#[test]
fn recent_activity_is_the_newest_event_about_the_issue() {
    let events = vec![
        record("t3", None, None, event(CycleEventKind::RunLaunched, Some("i2"), None)),
        record("t2", None, None, event(CycleEventKind::ClaimAcquired, Some("i1"), None)),
        record("t1", None, None, event(CycleEventKind::CycleFailed, Some("i1"), None)),
    ];
    let a = recent_activity_for(&events, "i1").expect("activity");
    assert_eq!(a.at, "t2");
    assert_eq!(a.event, "claim_acquired");
    assert!(recent_activity_for(&events, "i9").is_none());
    let row = claim_row(&claim("i1"), Some(&a));
    assert_eq!(row.priority, "7");
    assert_eq!(row.status, "await_external");
    assert_eq!(row.summary, "waiting");
    assert_eq!(row.contenders, "*wf[7]");
    assert_eq!(row.last_cycle, "t2");
    assert_eq!(row.last_run, "run_old");
    assert_eq!(row.pr, "-");
    let bare = claim_row(&claim("i9"), None);
    assert_eq!(bare.last_event, "-");
}

#[test]
fn worker_rows_report_each_workers_latest_pass_by_name() {
    let cycles = vec![cycle("c2", Some("id-b"), None, Some("github:o/a")), cycle("c1", None, Some("alpha"), None)];
    assert_eq!(latest_cycle_for(&cycles, "alpha"), Some(1));
    assert_eq!(latest_cycle_for(&cycles, "zzz"), None);
    let workers = vec![
        WorkerRecord { worker_id: "id-b".into(), name: "beta".into(), kind: WorkerKind::AutoflowServe, last_seen_at: "s2".into() },
        WorkerRecord { worker_id: "id-a".into(), name: "alpha".into(), kind: WorkerKind::Cli, last_seen_at: "s1".into() },
        WorkerRecord { worker_id: "id-c".into(), name: "gamma".into(), kind: WorkerKind::Cli, last_seen_at: "s3".into() },
    ];
    let rows = monitor_worker_rows(workers.clone(), &cycles, None, None);
    assert_eq!(rows.iter().map(|r| r.worker.clone()).collect::<Vec<_>>(), vec!["alpha", "beta", "gamma"]);
    assert_eq!(rows[1].kind, "autoflow_serve");
    assert_eq!(rows[1].repo_scope, "github:o/a");
    assert_eq!(rows[1].ran, 2);
    assert_eq!(rows[2].last_cycle, "-");
    let scoped = monitor_worker_rows(workers, &cycles, Some("github:o/a"), None);
    assert_eq!(scoped.len(), 2);
}

#[test]
fn activity_and_history_rows_name_events_and_fill_gaps() {
    let mut e = event(CycleEventKind::IssueStateChanged, Some("i1"), Some("github:o/a"));
    e.status = Some("closed".into());
    e.wake_event_id = Some("github.issue.closed".into());
    let events = vec![
        record("t2", Some("w1"), None, e),
        record("t1", None, None, event(CycleEventKind::RunLaunched, Some("i2"), None)),
    ];
    let act = monitor_activity_rows(&events, 1);
    assert_eq!(act.len(), 1);
    assert_eq!(act[0].event, "issue_closed");
    assert_eq!(act[0].worker, "w1");
    let rows = history_rows_from_events(&events, None, None, Some("run_launched"));
    assert_eq!(rows.len(), 1);
    assert_eq!(rows[0].issue, "i2");
    assert_eq!(rows[0].mode, "serve");
    assert_eq!(rows[0].worker, "-");
    let all = history_rows_from_events(&events, Some("i1"), None, None);
    assert_eq!(all[0].wake, "github.issue.closed");
    let (cut, total) = history_report_rows(&events, None, Some("-"), None, 1);
    assert_eq!(total, 2);
    assert_eq!(cut.len(), 1);
}

#[test]
fn dispatch_runs_move_the_claim() {
    let mut c = claim("i1");
    begin_dispatch_run(&mut c, "t1".into());
    assert_eq!(c.status, ClaimStatus::Running);
    assert!(c.last_error.is_none());
    let mut waiting = c.clone();
    finish_dispatch_run(
        &mut waiting,
        &CycleRunResult::Finished { run_id: "run_2".into(), artifact_manifest_path: None, awaiting_approval: true },
        "t2".into(),
    );
    assert_eq!(waiting.status, ClaimStatus::AwaitHuman);
    assert_eq!(waiting.last_run_id.as_deref(), Some("run_2"));
    let mut done = c.clone();
    finish_dispatch_run(
        &mut done,
        &CycleRunResult::Finished { run_id: "run_3".into(), artifact_manifest_path: Some("/a".into()), awaiting_approval: false },
        "t2".into(),
    );
    assert_eq!(done.status, ClaimStatus::Claimed);
    let mut failed = c;
    finish_dispatch_run(&mut failed, &CycleRunResult::Failed { error: "no such workflow".into() }, "t3".into());
    assert_eq!(failed.status, ClaimStatus::Blocked);
    assert_eq!(failed.last_error.as_deref(), Some("no such workflow"));
    assert_eq!(failed.updated_at, "t3");
}

#[test]
fn visible_autoflows_cover_issues_through_source_or_repo() {
    let issue = IssueRef { tracker: IssueTracker::Github, project: "o/r".into(), number: 4 };
    assert!(repo_ref_matches_issue_ref("github:o/r", &issue));
    assert!(!repo_ref_matches_issue_ref("github:o/x", &issue));
    let by_repo = visible("a", Some("github:o/r"), "project", AutoflowSource::Absent);
    assert!(issue_matches_visible_source(&issue, &by_repo));
    let by_source = visible(
        "b",
        None,
        "global",
        AutoflowSource::Named(EventSource::Repo { platform: Platform::Github, owner: "o".into(), repo: "r".into() }),
    );
    assert!(issue_matches_visible_source(&issue, &by_source));
    let invalid = visible("c", Some("github:o/r"), "global", AutoflowSource::Invalid);
    assert!(!issue_matches_visible_source(&issue, &invalid));
    let mut disabled = visible("d", Some("github:o/r"), "global", AutoflowSource::Absent);
    disabled.has_autoflow = false;
    assert!(!issue_matches_visible_source(&issue, &disabled));
}

#[test]
fn jira_issues_take_the_project_their_source_names() {
    let issue = IssueRef { tracker: IssueTracker::Jira, project: "acme.atlassian.net/ENG".into(), number: 42 };
    let source = AutoflowSource::Named(EventSource::TrackerProject { tracker: IssueTracker::Jira, project: "ENG".into() });
    let adjusted = issue_ref_for_autoflow(&issue, &source);
    assert_eq!(adjusted.project, "ENG");
    assert_eq!(issue_ref_for_autoflow(&issue, &AutoflowSource::Absent).project, "acme.atlassian.net/ENG");
}

#[test]
fn a_name_picks_one_autoflow_or_explains_why_not() {
    let entries = vec![
        visible("dispatch", Some("github:o/b"), "project", AutoflowSource::Absent),
        visible("other", Some("github:o/a"), "global", AutoflowSource::Absent),
        visible("dispatch", Some("github:o/a"), "global", AutoflowSource::Absent),
    ];
    assert_eq!(choose_named_autoflow(&entries, "other", "github:o/a/issues/1", None), Ok(1));
    assert_eq!(
        choose_named_autoflow(&entries, "nope", "github:o/a/issues/1", Some("github:o/a")),
        Err("no autoflow named `nope` is visible for issue `github:o/a/issues/1` and repo `github:o/a`".to_string())
    );
    assert_eq!(
        choose_named_autoflow(&entries, "dispatch", "jira:x/ENG/issues/1", None),
        Err("multiple autoflows named `dispatch` are visible for issue `jira:x/ENG/issues/1`:\n- github:o/a (global, /w/dispatch.yaml)\n- github:o/b (project, /w/dispatch.yaml)\npass `--repo <platform>:<owner>/<repo>` to disambiguate".to_string())
    );
}

#[test]
fn tracker_issues_bind_to_the_one_visible_repo() {
    let issue = IssueRef { tracker: IssueTracker::Linear, project: "team".into(), number: 3 };
    let src = || AutoflowSource::Named(EventSource::TrackerProject { tracker: IssueTracker::Linear, project: "team".into() });
    let one = vec![visible("a", Some("github:o/r"), "global", src()), visible("b", Some("github:o/r"), "project", src())];
    assert_eq!(resolve_repo_binding_for_issue(None, &issue, &one), Ok("github:o/r".to_string()));
    assert_eq!(resolve_repo_binding_for_issue(Some("github:o/z"), &issue, &one), Ok("github:o/z".to_string()));
    let two = vec![visible("a", Some("github:o/s"), "global", src()), visible("b", Some("github:o/r"), "project", src())];
    assert_eq!(
        resolve_repo_binding_for_issue(None, &issue, &two),
        Err("multiple repo bindings are visible for tracker issue `linear:team/issues/3`: github:o/r, github:o/s\npass `--repo <platform>:<owner>/<repo>` to disambiguate".to_string())
    );
    assert_eq!(
        resolve_repo_binding_for_issue(None, &issue, &vec![]),
        Err("no visible autoflow is bound to tracker issue `linear:team/issues/3`".to_string())
    );
    let gh = IssueRef { tracker: IssueTracker::Github, project: "o/q".into(), number: 1 };
    assert_eq!(resolve_repo_binding_for_issue(None, &gh, &two), Ok("github:o/q".to_string()));
}

#[test]
fn visible_bindings_need_a_repo_and_a_checkout() {
    let mut e = visible("a", Some("github:o/r"), "global", AutoflowSource::Absent);
    assert_eq!(visible_binding(&e), Ok(("github:o/r".to_string(), "/w".to_string())));
    e.preferred_checkout = Some("/co".into());
    assert_eq!(visible_binding(&e), Ok(("github:o/r".to_string(), "/co".to_string())));
    e.preferred_checkout = None;
    e.project_root = None;
    assert_eq!(visible_binding(&e), Err("autoflow `a` is missing a preferred checkout".to_string()));
    e.repo_ref = None;
    assert_eq!(visible_binding(&e), Err("autoflow `a` is missing a repo binding".to_string()));
}

#[test]
fn texts_sort_with_duplicates_kept() {
    let sorted = sort_texts(vec!["b".into(), "a".into(), "b".into(), "A".into()]);
    assert_eq!(sorted, vec!["A", "a", "b", "b"]);
}

#[test]
fn live_cycle_events_are_written_once() {
    let a = event(CycleEventKind::ClaimAcquired, Some("github:o/r/issues/1"), None);
    let b = event(CycleEventKind::RunLaunched, Some("github:o/r/issues/1"), None);
    let c = event(CycleEventKind::ClaimReleased, Some("github:o/r/issues/2"), None);
    let written = vec![a.clone()];
    assert!(already_written(&written, &a));
    assert!(!already_written(&written, &b));
    let cycle = vec![a.clone(), b.clone(), c.clone(), b.clone(), a];
    assert_eq!(events_to_write(&written, &cycle), vec![1, 2]);
    assert_eq!(events_to_write(&vec![], &cycle), vec![0, 1, 2]);
}

#[test]
fn show_summary_lists_what_the_autoflow_sets() {
    let entry = visible("triage", Some("github:o/r"), "project", AutoflowSource::Absent);
    let bare = AutoflowView {
        source: None,
        priority: -3,
        workspace: None,
        reconcile_every: None,
        claim_ttl: None,
        outcome_output: None,
        wake_on: vec![],
        labels_all: vec![],
        labels_any: vec![],
        labels_none: vec![],
        states: vec![],
        limit: None,
    };
    assert_eq!(show_summary_meta(&entry, &bare), "entity: issue  ·  source: github:o/r  ·  priority: -3");
    assert_eq!(
        show_summary_details(&entry, &bare),
        vec!["scope: project  ·  workspace: worktree", "project root: /w", "path: /w/triage.yaml"]
    );
    let full = AutoflowView {
        source: Some("jira:ENG".into()),
        priority: 10,
        workspace: Some(AutoflowWorkspaceView { strategy: WorkspaceStrategy::InPlace, branch: Some("rupu/{{ issue.number }}".into()) }),
        reconcile_every: Some("10m".into()),
        claim_ttl: Some("2h".into()),
        outcome_output: Some("result".into()),
        wake_on: vec!["github.issue.opened".into(), "github.issue.labeled".into()],
        labels_all: vec!["bug".into()],
        labels_any: vec![],
        labels_none: vec!["wontfix".into(), "dup".into()],
        states: vec![IssueState::Open, IssueState::Closed],
        limit: Some(25),
    };
    assert_eq!(show_summary_meta(&entry, &full), "entity: issue  ·  source: jira:ENG  ·  priority: 10");
    assert_eq!(
        show_summary_details(&entry, &full),
        vec![
            "scope: project  ·  workspace: in_place",
            "workspace branch: rupu/{{ issue.number }}",
            "reconcile every: 10m",
            "claim ttl: 2h",
            "outcome output: result",
            "project root: /w",
            "path: /w/triage.yaml",
            "wake on: github.issue.opened, github.issue.labeled",
            "labels all: bug",
            "labels none: wontfix, dup",
            "selector states: open, closed",
            "selector limit: 25",
        ]
    );
}

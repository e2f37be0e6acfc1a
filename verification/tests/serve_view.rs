use rupu_cli::autoflow::claims::AutoflowClaimRow;
use rupu_cli::autoflow::cycle::{run_status_from_name, run_status_name, RunStatus};
use rupu_cli::autoflow::live_run::run_header;
use rupu_cli::autoflow::monitor::MonitorActivityRow;
use rupu_cli::autoflow::serve_entries::{sort_serve_entries, ServeIssueEntry};
use rupu_cli::autoflow::serve_rows::{
    primary_claim, retained_serve_rows, LiveRunView, MonitorView, ServeLine, ServeProgress, StatusGlyphs, UsageView,
    WakeCounts,
};
use rupu_cli::ui::{LiveViewMode, UiStatus};

fn claim_with_status(status: &str) -> AutoflowClaimRow {
    AutoflowClaimRow {
        issue: "github:Section9Labs/rupu/issues/1".into(),
        issue_display: Some("1".into()),
        tracker: Some("github".into()),
        state: Some("open".into()),
        source: Some("github:Section9Labs/rupu".into()),
        repo: "github:Section9Labs/rupu".into(),
        workflow: "demo".into(),
        priority: "100".into(),
        status: status.into(),
        next: "-".into(),
        branch: "-".into(),
        pr: "-".into(),
        summary: "-".into(),
        contenders: "*demo[100]".into(),
        workspace: "-".into(),
        last_cycle: "-".into(),
        last_event: "-".into(),
        last_run: "-".into(),
    }
}

fn activity(event: &str, issue: &str, workflow: &str, detail: &str) -> MonitorActivityRow {
    MonitorActivityRow {
        at: "2026-05-14T05:00:00Z".into(),
        worker: "team-mini-01".into(),
        event: event.into(),
        issue: issue.into(),
        workflow: workflow.into(),
        repo: "github:Section9Labs/rupu".into(),
        detail: detail.into(),
    }
}

fn sample_monitor_report() -> MonitorView {
    let mut running = claim_with_status("running");
    running.issue = "github:Section9Labs/rupu/issues/7".into();
    running.issue_display = Some("7".into());
    running.workflow = "storefront-feature-delivery".into();
    running.branch = "rupu/issue-7".into();
    running.summary = "implementing storefront feature".into();

    MonitorView {
        claims: vec![running],
        activity: vec![
            activity(
                "issue_commented",
                "github:Section9Labs/rupu/issues/7",
                "storefront-feature-delivery",
                "commented on issue",
            ),
            activity("cycle_failed", "github:Section9Labs/rupu/issues/8", "verify-followup", "waiting on approval"),
        ],
        wakes: WakeCounts { queued: 1, due: 2, processed_recent: 3 },
    }
}

fn glyphs() -> StatusGlyphs {
    StatusGlyphs {
        active: "●".into(),
        working: "◐".into(),
        waiting: "○".into(),
        awaiting: "◆".into(),
        retrying: "↻".into(),
        complete: "✓".into(),
        failed: "✗".into(),
        skipped: "·".into(),
    }
}

fn idle_progress() -> ServeProgress {
    ServeProgress { cycles: 0, ran: 0, skipped: 0, failed: 0, cleaned: 0, cycle_running: false }
}

fn rows_for(view: LiveViewMode, live: Option<LiveRunView>, width: usize, height: usize) -> Vec<String> {
    retained_serve_rows(
        &sample_monitor_report(),
        live,
        Some("github:Section9Labs/rupu"),
        Some("team-mini-01"),
        "10",
        view,
        &idle_progress(),
        width,
        height,
        &glyphs(),
    )
}

#[test]
fn retained_serve_focused_mode_omits_claims_section() {
    let rows = rows_for(LiveViewMode::Focused, None, 80, 24);
    assert!(rows.iter().any(|row| row.starts_with("active     ")));
    assert!(!rows.iter().any(|row| row == "claims"));
}

#[test]
fn retained_serve_full_mode_includes_claims_section() {
    let rows = rows_for(LiveViewMode::Full, None, 80, 24);
    assert!(rows.iter().any(|row| row == "claims"));
    assert!(rows.iter().any(|row| row.contains("storefront-feature-delivery")));
}

#[test]
fn retained_serve_full_view_rows_in_order() {
    let rows = rows_for(LiveViewMode::Full, None, 200, 40);
    let expected: Vec<String> = vec![
        "▶ autoflow serve  ·  repo github:Section9Labs/rupu  ·  worker team-mini-01  ·  idle 10s".into(),
        "".into(),
        "serve      cycles 0  ·  ran 0  ·  skipped 0  ·  failed 0  ·  cleaned 0  ·  watching".into(),
        "active     GitHub #7  ·  storefront-feature-delivery  ·  running".into(),
        "route      repo Section9Labs/rupu  ·  branch rupu/issue-7".into(),
        "summary    implementing storefront feature".into(),
        "".into(),
        "claims".into(),
        "◐ GitHub #7  ·  storefront-feature-deli…  ·  running".into(),
        "".into(),
        "recent".into(),
        "◐ github:Section9Labs/rupu/issues/7  ·  commented  ·  storefront-feature-deli…".into(),
        "  commented on issue".into(),
        "✗ github:Section9Labs/rupu/issues/8  ·  cycle failed  ·  verify-followup".into(),
        "  waiting on approval".into(),
        "".into(),
        "queue      queued 1  ·  due 2  ·  processed 3".into(),
    ];
    assert_eq!(rows, expected);
}

#[test]
fn retained_serve_rows_cut_to_height_and_width() {
    let rows = rows_for(LiveViewMode::Full, None, 40, 5);
    assert_eq!(rows.len(), 5);
    assert_eq!(rows[0], "▶ autoflow serve  ·  repo github:Sectio…");
    assert_eq!(rows[0].chars().count(), 40);
    assert!(rows.iter().all(|row| row.chars().count() <= 40));
}

#[test]
fn retained_serve_live_run_keeps_last_event_rows() {
    let lines: Vec<ServeLine> =
        (1..=12).map(|k| ServeLine { status: UiStatus::Working, text: format!("line {k}") }).collect();
    let live = LiveRunView {
        run_id: "run_01JABCDEF".into(),
        status: "running".into(),
        duration_text: "3m 2s".into(),
        current_step: "implement".into(),
        completed_steps: 2,
        total_steps: 5,
        usage: Some(UsageView {
            input_tokens: 12345,
            output_tokens: 678,
            total_tokens: 13023,
            cost_text: Some("1.25".into()),
        }),
        lines,
    };
    let focused = rows_for(LiveViewMode::Focused, Some(live.clone()), 200, 60);
    assert_eq!(focused[5], "run        run_01JABCDEF  ·  running  ·  3m 2s");
    assert_eq!(focused[6], "step       implement  ·  2/5 complete");
    assert_eq!(focused[7], "usage      in 12,345  ·  out 678  ·  total 13,023  ·  $1.25");
    assert_eq!(focused[8], "");
    assert_eq!(focused[9], "◐ line 7");
    assert_eq!(focused[14], "◐ line 12");
    assert_eq!(focused[15], "");
    assert_eq!(focused[16], "recent");
    assert!(!focused.iter().any(|row| row.starts_with("summary    ")));

    let full = rows_for(LiveViewMode::Full, Some(live), 200, 60);
    assert_eq!(full[9], "◐ line 3");
    assert_eq!(full[18], "◐ line 12");
    assert_eq!(full[20], "claims");
}

#[test]
fn retained_serve_recent_limit_follows_view() {
    let mut monitor = sample_monitor_report();
    monitor.activity = (0..10)
        .map(|k| activity("run_launched", &format!("github:Section9Labs/rupu/issues/{k}"), "demo", "-"))
        .collect();
    let count = |view: LiveViewMode| {
        retained_serve_rows(&monitor, None, None, None, "10", view, &idle_progress(), 200, 100, &glyphs())
            .iter()
            .filter(|row| row.contains("launched run"))
            .count()
    };
    assert_eq!(count(LiveViewMode::Focused), 4);
    assert_eq!(count(LiveViewMode::Full), 8);
}

#[test]
fn retained_serve_without_live_claims_reports_none_active() {
    let mut monitor = sample_monitor_report();
    monitor.claims = vec![claim_with_status("complete")];
    let rows = retained_serve_rows(&monitor, None, None, None, "10", LiveViewMode::Focused, &idle_progress(), 200, 40, &glyphs());
    assert_eq!(rows[0], "▶ autoflow serve  ·  repo (all)  ·  worker (auto)  ·  idle 10s");
    assert_eq!(rows[3], "active     no active issues");
}

#[test]
fn primary_claim_prefers_running_over_blocked() {
    let mut blocked = claim_with_status("blocked");
    blocked.issue = "github:Section9Labs/rupu/issues/1".into();
    let mut running = claim_with_status("running");
    running.issue = "github:Section9Labs/rupu/issues/9".into();
    let done = claim_with_status("complete");
    assert_eq!(primary_claim(&vec![done.clone(), blocked.clone(), running.clone()]), Some(2));
    assert_eq!(primary_claim(&vec![done]), None);
}

#[test]
fn run_status_names_read_back() {
    for s in [
        RunStatus::Pending,
        RunStatus::Running,
        RunStatus::AwaitingApproval,
        RunStatus::Completed,
        RunStatus::Failed,
        RunStatus::Rejected,
    ] {
        assert_eq!(run_status_from_name(run_status_name(s)), Some(s));
    }
    assert_eq!(run_status_from_name("awaiting_approval"), Some(RunStatus::AwaitingApproval));
    assert_eq!(run_status_from_name("Running"), None);
    assert_eq!(run_status_from_name(""), None);
}

#[test]
fn run_header_reads_status_and_start() {
    let h = run_header(
        false,
        Some("github:Section9Labs/rupu/issues/7".into()),
        "storefront-feature-delivery".into(),
        "running",
        "2026-05-14T05:00:00Z",
    )
    .expect("header");
    assert!(!h.has_parent);
    assert_eq!(h.issue_ref.as_deref(), Some("github:Section9Labs/rupu/issues/7"));
    assert_eq!(h.workflow, "storefront-feature-delivery");
    assert_eq!(h.status, RunStatus::Running);
    assert_eq!(h.started_at.secs, 1_778_734_800);
    assert_eq!(h.started_at.nanos, 0);

    let offset = run_header(true, None, "w".into(), "failed", "2026-05-14T07:00:00.5+02:00").expect("header");
    assert!(offset.has_parent);
    assert_eq!(offset.started_at.secs, 1_778_734_800);
    assert_eq!(offset.started_at.nanos, 500_000_000);

    assert!(run_header(false, None, "w".into(), "paused", "2026-05-14T05:00:00Z").is_none());
    assert!(run_header(false, None, "w".into(), "running", "yesterday").is_none());
}

#[test]
fn sorted_serve_entries_keep_the_order_of_ties() {
    let entry = |issue: &str, claim: Option<usize>, events: Vec<usize>| ServeIssueEntry {
        issue_ref: issue.into(),
        claim,
        events,
    };
    let claims = vec![claim_with_status("blocked"), claim_with_status("running")];
    let es = vec![
        entry("issue-b", None, vec![0]),
        entry("issue-a", Some(0), vec![]),
        entry("issue-b", None, vec![1]),
        entry("issue-c", Some(1), vec![2]),
    ];
    let r = sort_serve_entries(es, &claims);
    let order: Vec<(String, Option<usize>, Vec<usize>)> =
        r.into_iter().map(|e| (e.issue_ref, e.claim, e.events)).collect();
    assert_eq!(
        order,
        vec![
            ("issue-c".to_string(), Some(1), vec![2]),
            ("issue-b".to_string(), None, vec![0]),
            ("issue-b".to_string(), None, vec![1]),
            ("issue-a".to_string(), Some(0), vec![]),
        ]
    );
}

use rupu_cli::autoflow::actions::TranscriptItem;
use rupu_cli::autoflow::events::{cycle_event_status_and_label, monitor_event_name, CycleEvent, CycleEventKind};
use rupu_cli::autoflow::run_summary::{
    completed_steps, format_run_diff_line, format_run_models_line, RunDiffSummary, RunSummary,
};
use rupu_cli::autoflow::steps::{latest_issue_state, step_status_ui, step_summary_detail, StepRecord};
use rupu_cli::json::Json;
use rupu_cli::ui::UiStatus;
use rupu_cli::update::{apply_plan, ApplyUpdateArgs};

fn event(kind: CycleEventKind, status: Option<&str>) -> CycleEvent {
    CycleEvent { kind, status: status.map(String::from), issue_ref: None }
}

#[test]
fn promoted_issue_events_use_specific_labels() {
    let commented = event(CycleEventKind::IssueCommented, None);
    assert_eq!(cycle_event_status_and_label(&commented).1, "commented");
    assert_eq!(monitor_event_name(&commented), "issue_commented");

    let closed = event(CycleEventKind::IssueStateChanged, Some("closed"));
    assert_eq!(cycle_event_status_and_label(&closed).1, "closed issue");
    assert_eq!(monitor_event_name(&closed), "issue_closed");

    let draft_pr = event(CycleEventKind::PullRequestOpened, Some("draft"));
    assert_eq!(cycle_event_status_and_label(&draft_pr).1, "opened draft PR");
    assert_eq!(monitor_event_name(&draft_pr), "draft_pr_opened");
}

fn step(skipped: bool, success: bool, findings: usize, items: Vec<bool>, output: &str) -> StepRecord {
    StepRecord { skipped, success, findings, items, output: output.to_string() }
}

#[test]
fn step_status_prefers_skipped_then_success() {
    assert_eq!(step_status_ui(&step(true, true, 0, vec![], "")), UiStatus::Skipped);
    assert_eq!(step_status_ui(&step(false, true, 0, vec![], "")), UiStatus::Complete);
    assert_eq!(step_status_ui(&step(false, false, 0, vec![], "")), UiStatus::Failed);
}

#[test]
fn step_detail_reads_findings_items_then_output() {
    assert_eq!(step_summary_detail(&step(true, false, 3, vec![], "x")).as_deref(), Some("skipped"));
    assert_eq!(step_summary_detail(&step(false, true, 3, vec![true], "x")).as_deref(), Some("3 finding(s)"));
    assert_eq!(
        step_summary_detail(&step(false, true, 0, vec![true, false, true], "x")).as_deref(),
        Some("2/3 item(s) ok")
    );
    assert_eq!(
        step_summary_detail(&step(false, true, 0, vec![], "\n   \n  Fixed the bug  \nmore")).as_deref(),
        Some("Fixed the bug")
    );
    assert_eq!(step_summary_detail(&step(false, true, 0, vec![], " \n\t\n")), None);
}

fn update_state(state: &str) -> TranscriptItem {
    TranscriptItem::ToolCall {
        call_id: "c".into(),
        tool: "issues.update_state".into(),
        input: Json::Object(vec![("state".to_string(), Json::Str(state.to_string()))]),
        summary: String::new(),
    }
}

#[test]
fn latest_issue_state_is_the_last_update_over_all_transcripts() {
    let other = || TranscriptItem::ToolCall {
        call_id: "d".into(),
        tool: "issues.comment".into(),
        input: Json::Object(vec![("state".to_string(), Json::Str("ignored".into()))]),
        summary: String::new(),
    };
    assert_eq!(latest_issue_state(&vec![]), None);
    assert_eq!(latest_issue_state(&vec![vec![other(), TranscriptItem::Other]]), None);
    let t = vec![vec![update_state("open"), other()], vec![], vec![update_state("closed"), other()]];
    assert_eq!(latest_issue_state(&t).as_deref(), Some("closed"));
}

fn summary(diff: Option<RunDiffSummary>) -> RunSummary {
    RunSummary {
        agents: vec!["planner".into(), "coder".into()],
        providers: vec![],
        models: vec!["a-very-long-model-name-that-keeps-going-and-going".into()],
        file_edit_events: 1234,
        file_creates: 1,
        file_modifies: 2,
        file_deletes: 0,
        diff,
        steps: vec![UiStatus::Complete, UiStatus::Failed, UiStatus::Skipped, UiStatus::Working],
    }
}

#[test]
fn run_lines_show_models_and_changes() {
    let s = summary(None);
    assert_eq!(completed_steps(&s), 2);
    assert_eq!(
        format_run_models_line(&s),
        "agents planner, coder  ·  providers —  ·  models a-very-long-model-name-that-keeps-g…"
    );
    assert_eq!(
        format_run_diff_line(&s),
        "edit events 1,234  ·  creates 1  ·  modifies 2  ·  deletes 0"
    );
    let d = RunDiffSummary {
        files_changed: 3,
        created: 1,
        modified: 2,
        deleted: 0,
        renamed: 0,
        insertions: 12345,
        deletions: 7,
        top_files: vec!["src/a.rs".into(), "src/b.rs".into()],
        merge_target: Some("main".into()),
    };
    assert_eq!(
        format_run_diff_line(&summary(Some(d))),
        "edit events 1,234  ·  creates 1  ·  modifies 2  ·  deletes 0  ·  workspace 3 file(s)  ·  1 new  ·  2 modified  ·  0 deleted  ·  0 renamed  ·  +12,345/-7  ·  files src/a.rs, src/b.rs  ·  merge -> main"
    );
}

#[test]
fn apply_plan_checks_the_staged_sum_and_names_the_backup() {
    let args = ApplyUpdateArgs { from: "/tmp/staged".into(), to: "/usr/local/bin/rupu".into(), sha256: "abc".into() };
    let (line, backup) = apply_plan(&args, Some("rupu"));
    assert_eq!(line, "abc  staged");
    assert_eq!(backup, "rupu-rupu");
    assert_eq!(apply_plan(&args, None).1, "rupu-prev");
}

use rupu_cli::autoflow::cycle::RunStatus;
use rupu_cli::autoflow::live_run::{find_live_run, RunHeader};
use rupu_cli::time::Timestamp;

fn run(parent: bool, issue: Option<&str>, workflow: &str, status: RunStatus, secs: i64) -> RunHeader {
    RunHeader {
        has_parent: parent,
        issue_ref: issue.map(String::from),
        workflow: workflow.to_string(),
        status,
        started_at: Timestamp { secs, nanos: 0 },
    }
}

#[test]
fn live_run_is_the_latest_unfinished_top_level_run() {
    let issue = "github:o/r/issues/1";
    let runs = vec![
        run(false, Some(issue), "fix", RunStatus::Running, 10),
        run(true, Some(issue), "fix", RunStatus::Running, 99),
        run(false, Some(issue), "fix", RunStatus::Completed, 98),
        run(false, Some("github:o/r/issues/2"), "fix", RunStatus::Running, 97),
        run(false, Some(issue), "other", RunStatus::Running, 96),
        run(false, Some(issue), "fix", RunStatus::AwaitingApproval, 20),
        run(false, Some(issue), "fix", RunStatus::Pending, 20),
        run(false, None, "fix", RunStatus::Running, 95),
    ];
    // Ties keep the first run found.
    assert_eq!(find_live_run(&runs, issue, "fix"), Some(5));
    assert_eq!(find_live_run(&runs, issue, "missing"), None);
    assert_eq!(find_live_run(&vec![], issue, "fix"), None);
}

use rupu_cli::autoflow::transcript_tally::{
    new_tally, tally_transcript, token_usage, FileEditKind, TokenUsage, TranscriptEvent,
};

#[test]
fn transcripts_add_up_names_counts_and_tokens() {
    let mut t = new_tally();
    assert_eq!(token_usage(&t), None);
    let first = vec![
        TranscriptEvent::RunStart { agent: "planner".into(), provider: "openai".into(), model: "m2".into() },
        TranscriptEvent::AssistantMessage { content: "  \n".into() },
        TranscriptEvent::AssistantMessage { content: "done".into() },
        TranscriptEvent::ToolCall,
        TranscriptEvent::ToolCall,
        TranscriptEvent::FileEdit { kind: FileEditKind::Create },
        TranscriptEvent::FileEdit { kind: FileEditKind::Modify },
        TranscriptEvent::Usage { provider: "anthropic".into(), model: "m1".into(), input_tokens: 100, output_tokens: 20, cached_tokens: 0 },
        TranscriptEvent::Other,
    ];
    tally_transcript(&mut t, &first);
    let second = vec![
        TranscriptEvent::RunStart { agent: "coder".into(), provider: "openai".into(), model: "m2".into() },
        TranscriptEvent::CommandRun,
        TranscriptEvent::ActionEmitted,
        TranscriptEvent::FileEdit { kind: FileEditKind::Delete },
        TranscriptEvent::Usage { provider: "openai".into(), model: "m2".into(), input_tokens: 5, output_tokens: u32::MAX, cached_tokens: 7 },
    ];
    tally_transcript(&mut t, &second);
    assert_eq!(t.agents, vec!["coder", "planner"]);
    assert_eq!(t.providers, vec!["anthropic", "openai"]);
    assert_eq!(t.models, vec!["m1", "m2"]);
    assert_eq!(t.assistant_messages, 1);
    assert_eq!(t.tool_calls, 2);
    assert_eq!((t.command_runs, t.actions_emitted), (1, 1));
    assert_eq!((t.file_edit_events, t.file_creates, t.file_modifies, t.file_deletes), (3, 1, 1, 1));
    assert_eq!(
        token_usage(&t),
        Some(TokenUsage {
            input_tokens: 105,
            output_tokens: 20 + u32::MAX as u64,
            cached_tokens: 7,
            total_tokens: 125 + u32::MAX as u64,
        })
    );
}

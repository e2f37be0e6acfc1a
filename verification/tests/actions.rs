use rupu_cli::autoflow::actions::{
    append_pr_opened_event, comment_preview, dedupe_cycle_events, first_nonblank_line_of, issue_target_display,
    issue_target_ref, promoted_autoflow_tool_event, pull_request_detail, transcript_action_events, transcripts_to_read,
    TranscriptItem,
};
use rupu_cli::autoflow::claims::{ClaimRecord, ClaimStatus};
use rupu_cli::autoflow::events::CycleEventKind;
use rupu_cli::autoflow::history::issue_history_events;
use rupu_cli::json::{Json, JsonNumber};

fn obj(entries: Vec<(&str, Json)>) -> Json {
    Json::Object(entries.into_iter().map(|(k, v)| (k.to_string(), v)).collect())
}

fn text(s: &str) -> Json {
    Json::Str(s.to_string())
}

fn num(n: u64) -> Json {
    Json::Number(JsonNumber::PosInt(n))
}

fn claim() -> ClaimRecord {
    ClaimRecord {
        issue_ref: "github:Section9Labs/rupu-sandbox-gh/issues/10".into(),
        repo_ref: "github:Section9Labs/rupu-sandbox-gh".into(),
        source_ref: None,
        issue_display_ref: Some("10".into()),
        issue_title: None,
        issue_url: None,
        issue_state_name: None,
        issue_tracker: None,
        workflow: "storefront-feature-delivery".into(),
        status: ClaimStatus::Running,
        updated_at: "t".into(),
        worktree_path: None,
        branch: None,
        claim_owner: None,
        lease_expires_at: None,
        next_retry_at: None,
        last_run_id: Some("run_123".into()),
        last_error: None,
        last_summary: None,
        pr_url: Some("https://github.com/Section9Labs/rupu-sandbox-gh/pull/12".into()),
        artifact_manifest_path: None,
        artifacts: None,
        pending_dispatch: None,
        contenders: vec![],
    }
}

const ISSUE: &str = "github:Section9Labs/rupu-sandbox-gh/issues/10";

#[test]
fn comment_previews_use_the_first_non_blank_line() {
    let input = obj(vec![("body", text("\n   \nStarted implementation for the cart drawer.\n\nMore detail follows."))]);
    assert_eq!(comment_preview(&input).as_deref(), Some("comment: Started implementation for the cart drawer."));
    assert_eq!(comment_preview(&obj(vec![("body", text("  \n \n"))])), None);
    assert_eq!(comment_preview(&obj(vec![])), None);
    assert_eq!(first_nonblank_line_of("a\r\nb").into_iter().collect::<String>(), "a");
}

#[test]
fn pull_request_details_join_title_base_and_draft() {
    let input = obj(vec![
        ("title", text("Add cart drawer and checkout summary")),
        ("base", text("main")),
        ("draft", Json::Bool(true)),
    ]);
    assert_eq!(
        pull_request_detail(&input).as_deref(),
        Some("Add cart drawer and checkout summary  ·  → main  ·  draft")
    );
    assert_eq!(pull_request_detail(&obj(vec![("title", text("  "))])), None);
}

#[test]
fn tool_targets_name_their_issue() {
    let input = obj(vec![("project", text("Section9Labs/other")), ("number", num(7))]);
    assert_eq!(issue_target_ref(&input, ISSUE).as_deref(), Some("github:Section9Labs/other/issues/7"));
    assert_eq!(issue_target_display(&input).as_deref(), Some("Section9Labs/other#7"));
    let with_tracker = obj(vec![("project", text("ENG")), ("number", num(7)), ("tracker", text("jira"))]);
    assert_eq!(issue_target_ref(&with_tracker, ISSUE).as_deref(), Some("jira:ENG/issues/7"));
    let stringly = obj(vec![("project", text("p")), ("number", text("7"))]);
    assert_eq!(issue_target_ref(&stringly, ISSUE), None);
    assert_eq!(issue_target_ref(&input, "no-colon"), None);
}

#[test]
fn promoted_tool_calls_become_issue_events() {
    let c = claim();
    let comment = obj(vec![
        ("project", text("Section9Labs/rupu-sandbox-gh")),
        ("number", num(10)),
        ("body", text("Started implementation for the cart drawer.\n\nMore detail follows.")),
    ]);
    let e = promoted_autoflow_tool_event("issues.comment", &comment, "summary", &c, "run_123", ISSUE).expect("event");
    assert_eq!(e.kind, CycleEventKind::IssueCommented);
    assert_eq!(e.issue_ref.as_deref(), Some(ISSUE));
    assert_eq!(e.issue_display_ref.as_deref(), Some("10"));
    assert_eq!(e.detail.as_deref(), Some("comment: Started implementation for the cart drawer."));
    let close = obj(vec![("state", text("closed"))]);
    let e = promoted_autoflow_tool_event("issues.update_state", &close, "", &c, "run_123", ISSUE).expect("event");
    assert_eq!(e.kind, CycleEventKind::IssueStateChanged);
    assert_eq!(e.status.as_deref(), Some("closed"));
    assert_eq!(e.detail, None);
    assert!(promoted_autoflow_tool_event("issues.update_state", &obj(vec![]), "", &c, "run_123", ISSUE).is_none());
    let pr = obj(vec![("owner", text("Section9Labs")), ("title", text("Add cart drawer")), ("draft", Json::Bool(true))]);
    let e = promoted_autoflow_tool_event("scm.prs.create", &pr, "", &c, "run_123", ISSUE).expect("event");
    assert_eq!(e.kind, CycleEventKind::PullRequestOpened);
    assert_eq!(e.status.as_deref(), Some("draft"));
    assert_eq!(e.detail.as_deref(), Some("Add cart drawer  ·  draft"));
    let bare_pr = promoted_autoflow_tool_event("scm.prs.create", &obj(vec![]), "scm.prs.create", &c, "r", ISSUE).unwrap();
    assert_eq!(bare_pr.detail.as_deref(), Some("scm.prs.create"));
    assert!(promoted_autoflow_tool_event("files.write", &obj(vec![]), "", &c, "run_123", ISSUE).is_none());
}

#[test]
fn transcripts_pair_calls_with_their_results() {
    let c = claim();
    let items = vec![
        TranscriptItem::ToolCall {
            call_id: "call_comment".into(),
            tool: "issues.comment".into(),
            input: obj(vec![("body", text("hello"))]),
            summary: String::new(),
        },
        TranscriptItem::ToolCall {
            call_id: "call_close".into(),
            tool: "issues.update_state".into(),
            input: obj(vec![("state", text("closed"))]),
            summary: String::new(),
        },
        TranscriptItem::ToolCall { call_id: "call_read".into(), tool: "files.read".into(), input: obj(vec![]), summary: String::new() },
        TranscriptItem::ToolResult { call_id: "call_close".into(), failed: false },
        TranscriptItem::ToolResult { call_id: "call_read".into(), failed: false },
        TranscriptItem::Other,
        TranscriptItem::ToolResult { call_id: "call_comment".into(), failed: true },
        TranscriptItem::ToolResult { call_id: "call_close".into(), failed: false },
    ];
    let events = transcript_action_events(&items, &c, "run_123", ISSUE);
    assert_eq!(events.len(), 1);
    assert_eq!(events[0].kind, CycleEventKind::IssueStateChanged);
}

#[test]
fn each_transcript_is_read_once() {
    let paths = vec!["a.jsonl".to_string(), "".to_string(), "a.jsonl".to_string(), "b.jsonl".to_string(), "./b.jsonl".to_string()];
    let exists = vec![true, true, true, false, true];
    assert_eq!(transcripts_to_read(&paths, &exists), vec![0, 4]);
    let dup = vec!["x//y".to_string(), "x/y".to_string()];
    assert_eq!(transcripts_to_read(&dup, &vec![true, true]), vec![0]);
}

#[test]
fn an_open_pull_request_is_recorded_once() {
    let c = claim();
    let mut events = Vec::new();
    append_pr_opened_event(&mut events, &c, "run_123", ISSUE);
    assert_eq!(events.len(), 1);
    assert_eq!(events[0].kind, CycleEventKind::PullRequestOpened);
    assert_eq!(events[0].status.as_deref(), Some("open"));
    assert_eq!(events[0].detail.as_deref(), Some("https://github.com/Section9Labs/rupu-sandbox-gh/pull/12"));
    append_pr_opened_event(&mut events, &c, "run_123", ISSUE);
    assert_eq!(events.len(), 1);
    let deduped = dedupe_cycle_events(vec![events[0].clone(), events[0].clone()]);
    assert_eq!(deduped.len(), 1);
}

#[test]
fn append_issue_history_events_promotes_tool_actions_from_run_transcripts() {
    let items = vec![
        TranscriptItem::Other,
        TranscriptItem::ToolCall {
            call_id: "call_comment".into(),
            tool: "issues.comment".into(),
            input: obj(vec![
                ("project", text("Section9Labs/rupu-sandbox-gh")),
                ("number", num(10)),
                ("body", text("Started implementation for the cart drawer.\n\nMore detail follows.")),
            ]),
            summary: "issues.comment".into(),
        },
        TranscriptItem::ToolResult { call_id: "call_comment".into(), failed: false },
        TranscriptItem::ToolCall {
            call_id: "call_close".into(),
            tool: "issues.update_state".into(),
            input: obj(vec![
                ("project", text("Section9Labs/rupu-sandbox-gh")),
                ("number", num(10)),
                ("state", text("closed")),
            ]),
            summary: "issues.update_state".into(),
        },
        TranscriptItem::ToolResult { call_id: "call_close".into(), failed: false },
        TranscriptItem::ToolCall {
            call_id: "call_pr".into(),
            tool: "scm.prs.create".into(),
            input: obj(vec![
                ("owner", text("Section9Labs")),
                ("repo", text("rupu-sandbox-gh")),
                ("title", text("Add cart drawer and checkout summary")),
                ("base", text("main")),
                ("draft", Json::Bool(true)),
            ]),
            summary: "scm.prs.create".into(),
        },
        TranscriptItem::ToolResult { call_id: "call_pr".into(), failed: false },
        TranscriptItem::Other,
    ];
    let mut before = claim();
    before.source_ref = Some("github:Section9Labs/rupu-sandbox-gh".into());
    before.issue_title = Some("cart drawer".into());
    before.issue_state_name = Some("open".into());
    before.issue_tracker = Some("github".into());
    before.status = ClaimStatus::Claimed;
    before.branch = Some("storefront/issue-10".into());
    before.last_run_id = None;
    before.pr_url = None;
    let mut after = before.clone();
    after.last_run_id = Some("run_123".into());
    after.pr_url = Some("https://github.com/Section9Labs/rupu-sandbox-gh/pull/10".into());
    after.status = ClaimStatus::Complete;

    let (mut events, at) = issue_history_events(
        None,
        &after.issue_ref,
        Some(&before),
        Some(&after),
        Some(&after.repo_ref),
        Some(&after.workflow),
    );
    let mut actions = transcript_action_events(&items, &after, "run_123", &after.issue_ref);
    let at = at.expect("a launched run");
    let tail = events.split_off(at);
    events.append(&mut actions);
    events.extend(tail);
    append_pr_opened_event(&mut events, &after, "run_123", &after.issue_ref);

    assert!(events.iter().any(|event| {
        event.kind == CycleEventKind::RunLaunched && event.run_id.as_deref() == Some("run_123")
    }));
    assert!(events.iter().any(|event| {
        event.kind == CycleEventKind::IssueCommented
            && event.detail.as_deref() == Some("comment: Started implementation for the cart drawer.")
    }));
    assert!(events.iter().any(|event| {
        event.kind == CycleEventKind::IssueStateChanged && event.status.as_deref() == Some("closed")
    }));
    assert!(events.iter().any(|event| {
        event.kind == CycleEventKind::PullRequestOpened
            && event.status.as_deref() == Some("draft")
            && event.detail.as_deref().is_some_and(|detail| detail.contains("Add cart drawer"))
    }));
}

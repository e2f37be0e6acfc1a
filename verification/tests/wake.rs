use rupu_cli::autoflow::issue_ref::{IssueRef, IssueTracker};
use rupu_cli::autoflow::wake_events::{
    dedupe_key_from_polled, dedupe_key_from_webhook, extract_issue_ref_from_polled_event, issue_ref_from_webhook_event,
    repo_ref_from_polled_event, repo_ref_from_webhook_event, wake_plans_from_polled, wake_plans_from_webhook,
    EventSource, Platform, PolledEvent, WakeEntityKind, WebhookEvent, WebhookSource,
};
use rupu_cli::autoflow::wake_payload::{normalized_polled_payload, normalized_webhook_payload};
use rupu_cli::json::{json_get, Json, JsonNumber};

fn obj(entries: Vec<(&str, Json)>) -> Json {
    Json::Object(entries.into_iter().map(|(k, v)| (k.to_string(), v)).collect())
}

fn num(n: u64) -> Json {
    Json::Number(JsonNumber::PosInt(n))
}

fn text(s: &str) -> Json {
    Json::Str(s.to_string())
}

fn github_issue_payload() -> Json {
    obj(vec![
        ("issue", obj(vec![("number", num(42))])),
        ("repository", obj(vec![("name", text("rupu")), ("owner", obj(vec![("login", text("Section9Labs"))]))])),
    ])
}

fn github_repo() -> EventSource {
    EventSource::Repo { platform: Platform::Github, owner: "Section9Labs".into(), repo: "rupu".into() }
}

#[test]
fn github_issue_webhook_maps_to_wake_request() {
    let event = WebhookEvent {
        source: WebhookSource::Github,
        event_id: "github.issue.labeled".into(),
        delivery_id: Some("delivery-123".into()),
        payload: github_issue_payload(),
    };
    let ids = vec!["github.issue.labeled".to_string()];
    let wakes = wake_plans_from_webhook(&event, &ids, b"{}").expect("wake request");
    let wake = &wakes[0];
    assert_eq!(wake.repo_ref, "github:Section9Labs/rupu");
    assert_eq!(wake.entity_kind, WakeEntityKind::Issue);
    assert_eq!(wake.entity_ref, "github:Section9Labs/rupu/issues/42");
    assert_eq!(wake.delivery_id.as_deref(), Some("delivery-123"));
}

#[test]
fn polled_issue_event_maps_to_issue_wake_request() {
    let event = PolledEvent {
        id: "github.issue.opened".into(),
        delivery: "evt-123".into(),
        source: github_repo(),
        subject: None,
        payload: obj(vec![("payload", obj(vec![("issue", obj(vec![("number", num(42))]))]))]),
    };
    let ids = vec!["github.issue.opened".to_string()];
    let wakes = wake_plans_from_polled(&event, &ids);
    let wake = &wakes[0];
    assert_eq!(wake.repo_ref, "github:Section9Labs/rupu");
    assert_eq!(wake.entity_kind, WakeEntityKind::Issue);
    assert_eq!(wake.entity_ref, "github:Section9Labs/rupu/issues/42");
    assert_eq!(wake.event_id, "github.issue.opened");
}

#[test]
fn tracker_scoped_polled_events_do_not_emit_repo_wakes() {
    let event = PolledEvent {
        id: "linear.issue.updated".into(),
        delivery: "evt-999".into(),
        source: EventSource::TrackerProject { tracker: IssueTracker::Linear, project: "workspace-123".into() },
        subject: None,
        payload: obj(vec![(
            "state",
            obj(vec![("before", obj(vec![("id", text("todo"))])), ("after", obj(vec![("id", text("in_progress"))]))]),
        )]),
    };
    let ids = vec!["linear.issue.updated".to_string()];
    assert!(wake_plans_from_polled(&event, &ids).is_empty());
}

#[test]
fn github_issue_polled_event_maps_to_issue_ref() {
    let event = PolledEvent {
        id: "github.issue.labeled".into(),
        delivery: "evt_1".into(),
        source: github_repo(),
        subject: None,
        payload: obj(vec![(
            "payload",
            obj(vec![("action", text("labeled")), ("issue", obj(vec![("number", num(123))]))]),
        )]),
    };
    assert_eq!(extract_issue_ref_from_polled_event(&event).as_deref(), Some("github:Section9Labs/rupu/issues/123"));
}

#[test]
fn github_pr_polled_event_does_not_fake_issue_ref() {
    let event = PolledEvent {
        id: "github.pr.closed".into(),
        delivery: "evt_2".into(),
        source: github_repo(),
        subject: None,
        payload: obj(vec![(
            "payload",
            obj(vec![("action", text("closed")), ("pull_request", obj(vec![("number", num(77))]))]),
        )]),
    };
    assert!(extract_issue_ref_from_polled_event(&event).is_none());
}

#[test]
fn webhook_dedupe_key_hashes_the_payload_without_a_delivery_id() {
    assert_eq!(
        dedupe_key_from_webhook("github:o/r", "github.issue.labeled", None, b"abc"),
        "webhook:github:o/r:github.issue.labeled:ba7816bf8f01cfea414140de5dae2223b00361a396177a9cb410ff61f20015ad"
    );
    assert_eq!(dedupe_key_from_webhook("github:o/r", "e", Some("d-1"), b"abc"), "webhook:github:o/r:e:d-1");
}

#[test]
fn polled_dedupe_key_names_every_part() {
    assert_eq!(
        dedupe_key_from_polled(Platform::Gitlab, "grp", "proj", "evt-7", "gitlab.issue.opened"),
        "cron_poll:gitlab:grp:proj:evt-7:gitlab.issue.opened"
    );
}

#[test]
fn gitlab_webhooks_split_the_project_path_and_read_the_iid() {
    let event = WebhookEvent {
        source: WebhookSource::Gitlab,
        event_id: "gitlab.issue.opened".into(),
        delivery_id: None,
        payload: obj(vec![
            ("project", obj(vec![("path_with_namespace", text("grp/sub/proj"))])),
            ("object_attributes", obj(vec![("iid", text("9"))])),
        ]),
    };
    let repo = repo_ref_from_webhook_event(&event).expect("repo");
    assert_eq!(repo, "gitlab:grp/sub/proj");
    assert_eq!(issue_ref_from_webhook_event(&event, &repo).as_deref(), Some("gitlab:grp/sub/proj/issues/9"));
}

#[test]
fn linear_webhooks_and_tracker_sources_belong_to_no_repo() {
    let event = WebhookEvent {
        source: WebhookSource::Linear,
        event_id: "linear.issue.updated".into(),
        delivery_id: None,
        payload: obj(vec![]),
    };
    assert!(repo_ref_from_webhook_event(&event).is_none());
    assert!(wake_plans_from_webhook(&event, &vec!["x".to_string()], b"").is_none());
    let polled = PolledEvent {
        id: "linear.issue.updated".into(),
        delivery: "d".into(),
        source: EventSource::TrackerProject { tracker: IssueTracker::Linear, project: "w".into() },
        subject: Some(IssueRef { tracker: IssueTracker::Linear, project: "w".into(), number: 5 }),
        payload: obj(vec![]),
    };
    assert!(repo_ref_from_polled_event(&polled).is_none());
    assert_eq!(extract_issue_ref_from_polled_event(&polled).as_deref(), Some("linear:w/issues/5"));
}

#[test]
fn webhook_without_an_issue_wakes_the_repo_once_per_matched_id() {
    let event = WebhookEvent {
        source: WebhookSource::Github,
        event_id: "github.push".into(),
        delivery_id: Some("d-9".into()),
        payload: github_issue_payload(),
    };
    let ids = vec!["github.push".to_string(), "repo.changed".to_string()];
    let wakes = wake_plans_from_webhook(&event, &ids, b"{}").expect("wakes");
    assert_eq!(wakes.len(), 2);
    assert_eq!(wakes[1].entity_kind, WakeEntityKind::Repo);
    assert_eq!(wakes[1].entity_ref, "github:Section9Labs/rupu");
    assert_eq!(wakes[1].event_id, "repo.changed");
    assert_eq!(wakes[1].dedupe_key, "webhook:github:Section9Labs/rupu:repo.changed:d-9");
}

fn at<'a>(j: &'a Json, path: &[&str]) -> Option<&'a Json> {
    let mut cur = j;
    for key in path {
        cur = json_get(cur, key)?;
    }
    Some(cur)
}

fn str_at(j: &Json, path: &[&str]) -> Option<String> {
    match at(j, path) {
        Some(Json::Str(s)) => Some(s.clone()),
        _ => None,
    }
}

#[test]
fn webhook_payload_is_normalized_around_the_delivery() {
    let event = WebhookEvent {
        source: WebhookSource::Github,
        event_id: "github.issue.labeled".into(),
        delivery_id: None,
        payload: github_issue_payload(),
    };
    let p = normalized_webhook_payload(&event);
    assert_eq!(str_at(&p, &["id"]).as_deref(), Some("github.issue.labeled"));
    assert_eq!(str_at(&p, &["vendor"]).as_deref(), Some("github"));
    assert!(matches!(at(&p, &["delivery"]), Some(Json::Null)));
    assert_eq!(str_at(&p, &["repo", "full_name"]).as_deref(), Some("Section9Labs/rupu"));
    assert_eq!(str_at(&p, &["repo", "owner"]).as_deref(), Some("Section9Labs"));
    assert_eq!(str_at(&p, &["repo", "name"]).as_deref(), Some("rupu"));
    assert!(matches!(at(&p, &["payload", "issue", "number"]), Some(Json::Number(JsonNumber::PosInt(42)))));

    let gitlab = WebhookEvent {
        source: WebhookSource::Gitlab,
        event_id: "gitlab.issue.opened".into(),
        delivery_id: Some("d-1".into()),
        payload: obj(vec![("project", obj(vec![("path_with_namespace", text("group/sub/proj"))]))]),
    };
    let p = normalized_webhook_payload(&gitlab);
    assert_eq!(str_at(&p, &["delivery"]).as_deref(), Some("d-1"));
    assert_eq!(str_at(&p, &["repo", "owner"]).as_deref(), Some("group"));
    assert_eq!(str_at(&p, &["repo", "name"]).as_deref(), Some("sub/proj"));

    let linear = WebhookEvent {
        source: WebhookSource::Linear,
        event_id: "linear.issue.updated".into(),
        delivery_id: None,
        payload: obj(vec![]),
    };
    let p = normalized_webhook_payload(&linear);
    assert!(matches!(at(&p, &["repo"]), Some(Json::Object(entries)) if entries.is_empty()));
}

#[test]
fn polled_payload_keeps_its_members_and_sets_the_envelope() {
    let event = PolledEvent {
        id: "github.issue.opened".into(),
        delivery: "evt-1".into(),
        source: github_repo(),
        subject: None,
        payload: obj(vec![("vendor", text("stale")), ("action", text("opened"))]),
    };
    let p = normalized_polled_payload(&event);
    assert_eq!(str_at(&p, &["vendor"]).as_deref(), Some("github"));
    assert_eq!(str_at(&p, &["action"]).as_deref(), Some("opened"));
    assert_eq!(str_at(&p, &["delivery"]).as_deref(), Some("evt-1"));
    assert_eq!(str_at(&p, &["source", "kind"]).as_deref(), Some("repo"));
    assert_eq!(str_at(&p, &["source", "ref"]).as_deref(), Some("github:Section9Labs/rupu"));
    assert_eq!(str_at(&p, &["repo", "full_name"]).as_deref(), Some("Section9Labs/rupu"));
    assert_eq!(str_at(&p, &["payload", "action"]).as_deref(), Some("opened"));

    let tracker = PolledEvent {
        id: "jira.issue.updated".into(),
        delivery: "evt-2".into(),
        source: EventSource::TrackerProject { tracker: IssueTracker::Jira, project: "ENG".into() },
        subject: None,
        payload: text("raw"),
    };
    let p = normalized_polled_payload(&tracker);
    assert_eq!(str_at(&p, &["payload"]).as_deref(), Some("raw"));
    assert_eq!(str_at(&p, &["source", "kind"]).as_deref(), Some("tracker_project"));
    assert_eq!(str_at(&p, &["source", "ref"]).as_deref(), Some("jira:ENG"));
    assert_eq!(str_at(&p, &["source", "project"]).as_deref(), Some("ENG"));
    assert!(matches!(at(&p, &["repo"]), Some(Json::Object(entries)) if entries.is_empty()));
}

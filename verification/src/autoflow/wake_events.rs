//! What a webhook delivery or a polled event wakes: the repo it belongs to,
//! the issue it is about, and the key that makes a wake unique.

use vstd::prelude::*;
use vstd::string::*;
use crate::autoflow::issue_ref::{spec_format_issue_ref, format_issue_ref, IssueRef, IssueTracker};
use crate::autoflow::shape::{find_char, first_index_of, lemma_first_index_of_spec};
use crate::json::{
    json_get, json_opt_str, json_opt_u64, json_path, jv_get, jv_opt_str, jv_opt_u64, jv_path, jview, ojv, Json, JsonV,
};
use crate::number::{decimal, u64_to_string};
use crate::text::{chars_of, has_prefix, slice_chars, str_eq, str_starts_with, string_from_chars};

verus! {

/// Where a webhook came from.
#[derive(Debug, Clone, Copy, PartialEq, Eq, Structural)]
pub enum WebhookSource {
    Github,
    Gitlab,
    Linear,
}

/// A verified webhook delivery.
#[derive(Debug)]
pub struct WebhookEvent {
    pub source: WebhookSource,
    pub event_id: String,
    pub delivery_id: Option<String>,
    pub payload: Json,
}

/// A code host.
#[derive(Debug, Clone, Copy, PartialEq, Eq, Structural)]
pub enum Platform {
    Github,
    Gitlab,
}

pub open spec fn platform_name(p: Platform) -> Seq<char> {
    match p {
        Platform::Github => "github"@,
        Platform::Gitlab => "gitlab"@,
    }
}

/// The name of a code host.
pub fn platform_as_str(p: Platform) -> (r: &'static str)
    ensures
        r@ == platform_name(p),
{
    match p {
        Platform::Github => "github",
        Platform::Gitlab => "gitlab",
    }
}

/// Where a polled event was read from.
#[derive(Debug, Clone)]
pub enum EventSource {
    Repo { platform: Platform, owner: String, repo: String },
    TrackerProject { tracker: IssueTracker, project: String },
}

/// An event read by polling a source.
#[derive(Debug)]
pub struct PolledEvent {
    pub id: String,
    pub delivery: String,
    pub source: EventSource,
    /// The issue the event is about, where the source says so.
    pub subject: Option<IssueRef>,
    pub payload: Json,
}

pub open spec fn oj(j: Option<JsonV>, key: Seq<char>) -> Option<JsonV> {
    jv_path(j, key)
}

/// `<platform>:<owner>/<repo>`.
pub open spec fn repo_text(platform: Seq<char>, owner: Seq<char>, repo: Seq<char>) -> Seq<char> {
    platform + ":"@ + owner + "/"@ + repo
}

/// The repo a webhook belongs to: for GitHub the repository's owner login
/// (or owner name) and name; for GitLab the project's `path_with_namespace`
/// split at its first `/`; Linear webhooks belong to no repo.
pub open spec fn spec_webhook_repo_ref(source: WebhookSource, payload: JsonV) -> Option<Seq<char>> {
    match source {
        WebhookSource::Github => {
            let repo = jv_get(payload, "repository"@);
            let owner = oj(repo, "owner"@);
            let owner_value = match oj(owner, "login"@) {
                Some(v) => Some(v),
                None => oj(owner, "name"@),
            };
            match (repo, jv_opt_str(owner_value), jv_opt_str(oj(repo, "name"@))) {
                (Some(_), Some(o), Some(n)) => Some(repo_text("github"@, o, n)),
                _ => None,
            }
        },
        WebhookSource::Gitlab => match jv_opt_str(oj(jv_get(payload, "project"@), "path_with_namespace"@)) {
            Some(path) => match first_index_of(path, '/') {
                Some(i) => Some(repo_text("gitlab"@, path.subrange(0, i), path.subrange(i + 1, path.len() as int))),
                None => None,
            },
            None => None,
        },
        WebhookSource::Linear => None,
    }
}

fn repo_ref_text(platform: &str, owner: &str, repo: &str) -> (r: String)
    ensures
        r@ == repo_text(platform@, owner@, repo@),
{
    let mut s = String::from_str(platform);
    s.append(":");
    s.append(owner);
    s.append("/");
    s.append(repo);
    s
}

/// The repo a webhook belongs to.
pub fn repo_ref_from_webhook_event(event: &WebhookEvent) -> (r: Option<String>)
    ensures
        match spec_webhook_repo_ref(event.source, jview(event.payload)) {
            Some(t) => r matches Some(s) && s@ == t,
            None => r is None,
        },
{
    match event.source {
        WebhookSource::Github => {
            let repo = json_get(&event.payload, "repository");
            if repo.is_none() {
                return None;
            }
            let owner = json_path(repo, "owner");
            let owner_value = match json_path(owner, "login") {
                Some(v) => Some(v),
                None => json_path(owner, "name"),
            };
            let o = match json_opt_str(owner_value) {
                Some(o) => o,
                None => return None,
            };
            let n = match json_opt_str(json_path(repo, "name")) {
                Some(n) => n,
                None => return None,
            };
            Some(repo_ref_text("github", o, n))
        },
        WebhookSource::Gitlab => {
            let path = match json_opt_str(json_path(json_get(&event.payload, "project"), "path_with_namespace")) {
                Some(p) => p,
                None => return None,
            };
            let cs = chars_of(path);
            let n = cs.len();
            match find_char(cs.as_slice(), '/') {
                Some(i) => {
                    let owner = string_from_chars(slice_chars(cs.as_slice(), 0, i).as_slice());
                    let name = string_from_chars(slice_chars(cs.as_slice(), i + 1, n).as_slice());
                    Some(repo_ref_text("gitlab", owner.as_str(), name.as_str()))
                },
                None => None,
            }
        },
        WebhookSource::Linear => None,
    }
}

/// The issue number a webhook is about: a GitHub issue event's issue number;
/// a GitLab issue event's `object_attributes.iid` (else `issue.iid`); a
/// GitLab comment on an issue's `target_iid`.
pub open spec fn spec_webhook_issue_number(source: WebhookSource, event_id: Seq<char>, payload: JsonV) -> Option<nat> {
    match source {
        WebhookSource::Github => if has_prefix(event_id, "github.issue."@) || event_id == "github.issue.commented"@ {
            jv_opt_u64(oj(jv_get(payload, "issue"@), "number"@))
        } else {
            None
        },
        WebhookSource::Gitlab => if has_prefix(event_id, "gitlab.issue."@) {
            match jv_opt_u64(oj(jv_get(payload, "object_attributes"@), "iid"@)) {
                Some(n) => Some(n),
                None => jv_opt_u64(oj(jv_get(payload, "issue"@), "iid"@)),
            }
        } else if event_id == "gitlab.comment"@ && jv_opt_str(jv_get(payload, "target_type"@)) == Some("Issue"@) {
            jv_opt_u64(jv_get(payload, "target_iid"@))
        } else {
            None
        },
        WebhookSource::Linear => None,
    }
}

/// `<repo>/issues/<number>` for the issue a webhook is about.
pub fn issue_ref_from_webhook_event(event: &WebhookEvent, repo_ref: &str) -> (r: Option<String>)
    ensures
        match spec_webhook_issue_number(event.source, event.event_id@, jview(event.payload)) {
            Some(n) => r matches Some(s) && s@ == repo_ref@ + "/issues/"@ + decimal(n),
            None => r is None,
        },
{
    let number = match event.source {
        WebhookSource::Github => {
            if str_starts_with(event.event_id.as_str(), "github.issue.") || str_eq(
                event.event_id.as_str(),
                "github.issue.commented",
            ) {
                json_opt_u64(json_path(json_get(&event.payload, "issue"), "number"))
            } else {
                None
            }
        },
        WebhookSource::Gitlab => {
            if str_starts_with(event.event_id.as_str(), "gitlab.issue.") {
                match json_opt_u64(json_path(json_get(&event.payload, "object_attributes"), "iid")) {
                    Some(n) => Some(n),
                    None => json_opt_u64(json_path(json_get(&event.payload, "issue"), "iid")),
                }
            } else if str_eq(event.event_id.as_str(), "gitlab.comment") && match json_opt_str(
                json_get(&event.payload, "target_type"),
            ) {
                Some(t) => str_eq(t, "Issue"),
                None => false,
            } {
                json_opt_u64(json_get(&event.payload, "target_iid"))
            } else {
                None
            }
        },
        WebhookSource::Linear => None,
    };
    match number {
        Some(n) => {
            let mut s = String::from_str(repo_ref);
            s.append("/issues/");
            let d = u64_to_string(n);
            s.append(d.as_str());
            Some(s)
        },
        None => None,
    }
}

/// The repo a polled event belongs to: its repo source; tracker projects
/// belong to no repo.
pub fn repo_ref_from_polled_event(event: &PolledEvent) -> (r: Option<String>)
    ensures
        match event.source {
            EventSource::Repo { platform, owner, repo } => r matches Some(s) && s@ == repo_text(
                platform_name(platform),
                owner@,
                repo@,
            ),
            EventSource::TrackerProject { .. } => r is None,
        },
{
    match &event.source {
        EventSource::Repo { platform, owner, repo } => Some(
            repo_ref_text(platform_as_str(*platform), owner.as_str(), repo.as_str()),
        ),
        EventSource::TrackerProject { .. } => None,
    }
}

/// The issue number a polled repo event is about: a GitHub issue event's
/// `payload.issue.number`; a GitLab issue event's `target_iid`, else
/// `object_attributes.iid`, else `issue.iid`; a GitLab comment on an issue's
/// `target_iid`.
pub open spec fn spec_polled_issue_number(platform: Platform, id: Seq<char>, payload: JsonV) -> Option<nat> {
    match platform {
        Platform::Github => if has_prefix(id, "github.issue."@) {
            jv_opt_u64(oj(oj(jv_get(payload, "payload"@), "issue"@), "number"@))
        } else {
            None
        },
        Platform::Gitlab => if has_prefix(id, "gitlab.issue."@) {
            match jv_opt_u64(jv_get(payload, "target_iid"@)) {
                Some(n) => Some(n),
                None => match jv_opt_u64(oj(jv_get(payload, "object_attributes"@), "iid"@)) {
                    Some(n) => Some(n),
                    None => jv_opt_u64(oj(jv_get(payload, "issue"@), "iid"@)),
                },
            }
        } else if id == "gitlab.comment"@ && jv_opt_str(jv_get(payload, "target_type"@)) == Some("Issue"@) {
            jv_opt_u64(jv_get(payload, "target_iid"@))
        } else {
            None
        },
    }
}

/// The tracker issues of a code host live on.
pub open spec fn platform_tracker(p: Platform) -> IssueTracker {
    match p {
        Platform::Github => IssueTracker::Github,
        Platform::Gitlab => IssueTracker::Gitlab,
    }
}

/// The issue a polled event is about: its subject where it names one; for a
/// repo source, the issue its payload numbers.
pub open spec fn spec_polled_issue_ref(event: PolledEvent) -> Option<Seq<char>> {
    match event.subject {
        Some(issue) => Some(spec_format_issue_ref(issue.tracker, issue.project@, issue.number as nat)),
        None => match event.source {
            EventSource::Repo { platform, owner, repo } => match spec_polled_issue_number(
                platform,
                event.id@,
                jview(event.payload),
            ) {
                Some(n) => Some(spec_format_issue_ref(platform_tracker(platform), owner@ + "/"@ + repo@, n)),
                None => None,
            },
            EventSource::TrackerProject { .. } => None,
        },
    }
}

/// The issue a polled event is about, as an issue reference.
pub fn extract_issue_ref_from_polled_event(event: &PolledEvent) -> (r: Option<String>)
    ensures
        match spec_polled_issue_ref(*event) {
            Some(t) => r matches Some(s) && s@ == t,
            None => r is None,
        },
{
    if let Some(issue) = &event.subject {
        return Some(format_issue_ref(issue));
    }
    let (platform, owner, repo) = match &event.source {
        EventSource::Repo { platform, owner, repo } => (*platform, owner, repo),
        EventSource::TrackerProject { .. } => return None,
    };
    let number = match platform {
        Platform::Github => {
            if str_starts_with(event.id.as_str(), "github.issue.") {
                json_opt_u64(json_path(json_path(json_get(&event.payload, "payload"), "issue"), "number"))
            } else {
                None
            }
        },
        Platform::Gitlab => {
            if str_starts_with(event.id.as_str(), "gitlab.issue.") {
                match json_opt_u64(json_get(&event.payload, "target_iid")) {
                    Some(n) => Some(n),
                    None => match json_opt_u64(json_path(json_get(&event.payload, "object_attributes"), "iid")) {
                        Some(n) => Some(n),
                        None => json_opt_u64(json_path(json_get(&event.payload, "issue"), "iid")),
                    },
                }
            } else if str_eq(event.id.as_str(), "gitlab.comment") && match json_opt_str(
                json_get(&event.payload, "target_type"),
            ) {
                Some(t) => str_eq(t, "Issue"),
                None => false,
            } {
                json_opt_u64(json_get(&event.payload, "target_iid"))
            } else {
                None
            }
        },
    };
    match number {
        Some(n) => {
            let mut project = owner.clone();
            project.append("/");
            project.append(repo.as_str());
            let issue = IssueRef {
                tracker: match platform {
                    Platform::Github => IssueTracker::Github,
                    Platform::Gitlab => IssueTracker::Gitlab,
                },
                project,
                number: n,
            };
            Some(format_issue_ref(&issue))
        },
        None => None,
    }
}

/// What SHA-256 makes of `data`.
pub uninterp spec fn spec_sha256(data: Seq<u8>) -> Seq<u8>;

/// `sha2::Sha256::digest`: the 32-byte digest of `data`.
#[verifier::external_body]
fn sha256_digest(data: &[u8]) -> (r: Vec<u8>)
    ensures
        r@ == spec_sha256(data@),
        r@.len() == 32,
{
    <sha2::Sha256 as sha2::Digest>::digest(data).to_vec()
}

/// A lowercase hex digit.
pub open spec fn hex_digit(n: u8) -> char {
    if n < 10 {
        (('0' as u8) + n) as char
    } else {
        (('a' as u8) + (n - 10)) as char
    }
}

/// Two lowercase hex digits per byte, high half first.
pub open spec fn spec_hex(data: Seq<u8>) -> Seq<char>
    decreases data.len(),
{
    if data.len() == 0 {
        Seq::empty()
    } else {
        spec_hex(data.drop_last()) + seq![hex_digit(data.last() / 16), hex_digit(data.last() % 16)]
    }
}

/// `hex::encode`: two lowercase hex digits per byte, in order.
#[verifier::external_body]
fn hex_encode(data: &[u8]) -> (r: String)
    ensures
        r@ == spec_hex(data@),
{
    hex::encode(data)
}

/// The key that tells webhook wakes apart: by delivery id where there is
/// one, else by the SHA-256 of the payload's JSON bytes, in hex.
pub fn dedupe_key_from_webhook(repo_ref: &str, event_id: &str, delivery_id: Option<&str>, payload_bytes: &[u8]) -> (r:
    String)
    ensures
        r@ == "webhook:"@ + repo_ref@ + ":"@ + event_id@ + ":"@ + match delivery_id {
            Some(d) => d@,
            None => spec_hex(spec_sha256(payload_bytes@)),
        },
{
    let mut s = String::from_str("webhook:");
    s.append(repo_ref);
    s.append(":");
    s.append(event_id);
    s.append(":");
    match delivery_id {
        Some(d) => s.append(d),
        None => {
            let digest = sha256_digest(payload_bytes);
            let hex = hex_encode(digest.as_slice());
            s.append(hex.as_str());
        },
    }
    s
}

/// The key that tells polled wakes apart:
/// `cron_poll:<platform>:<owner>:<repo>:<delivery>:<event id>`.
pub fn dedupe_key_from_polled(platform: Platform, owner: &str, repo: &str, delivery: &str, matched_id: &str) -> (r:
    String)
    ensures
        r@ == "cron_poll:"@ + platform_name(platform) + ":"@ + owner@ + ":"@ + repo@ + ":"@ + delivery@ + ":"@
            + matched_id@,
{
    let mut s = String::from_str("cron_poll:");
    s.append(platform_as_str(platform));
    s.append(":");
    s.append(owner);
    s.append(":");
    s.append(repo);
    s.append(":");
    s.append(delivery);
    s.append(":");
    s.append(matched_id);
    s
}

/// What a wake is about.
#[derive(Debug, Clone, Copy, PartialEq, Eq, Structural)]
pub enum WakeEntityKind {
    Issue,
    Repo,
}

/// One wake to enqueue for one matched event id.
#[derive(Debug, Clone)]
pub struct WakePlan {
    pub repo_ref: String,
    pub entity_kind: WakeEntityKind,
    pub entity_ref: String,
    pub event_id: String,
    pub delivery_id: Option<String>,
    pub dedupe_key: String,
}

/// The wakes a webhook asks for, one per matched event id: about its issue
/// where it names one, else about its repo. A webhook that belongs to no
/// repo asks for none.
pub fn wake_plans_from_webhook(event: &WebhookEvent, matched_ids: &Vec<String>, payload_bytes: &[u8]) -> (r: Option<
    Vec<WakePlan>,
>)
    ensures
        match spec_webhook_repo_ref(event.source, jview(event.payload)) {
            None => r is None,
            Some(repo) => r matches Some(plans) && plans@.len() == matched_ids@.len() && forall|i: int|
                0 <= i < plans@.len() ==> {
                    &&& (#[trigger] plans@[i]).repo_ref@ == repo
                    &&& plans@[i].event_id@ == matched_ids@[i]@
                    &&& plans@[i].dedupe_key@ == "webhook:"@ + repo + ":"@ + matched_ids@[i]@ + ":"@ + match event.delivery_id {
                        Some(d) => d@,
                        None => spec_hex(spec_sha256(payload_bytes@)),
                    }
                    &&& match spec_webhook_issue_number(event.source, event.event_id@, jview(event.payload)) {
                        Some(n) => plans@[i].entity_kind == WakeEntityKind::Issue && plans@[i].entity_ref@ == repo
                            + "/issues/"@ + decimal(n),
                        None => plans@[i].entity_kind == WakeEntityKind::Repo && plans@[i].entity_ref@ == repo,
                    }
                    &&& match event.delivery_id {
                        Some(d) => plans@[i].delivery_id matches Some(x) && x@ == d@,
                        None => plans@[i].delivery_id is None,
                    }
                },
        },
{
    let repo_ref = match repo_ref_from_webhook_event(event) {
        Some(r) => r,
        None => return None,
    };
    let issue_ref = issue_ref_from_webhook_event(event, repo_ref.as_str());
    let mut plans: Vec<WakePlan> = Vec::new();
    let mut i: usize = 0;
    while i < matched_ids.len()
        invariant
            i <= matched_ids@.len(),
            plans@.len() == i,
            spec_webhook_repo_ref(event.source, jview(event.payload)) == Some(repo_ref@),
            match spec_webhook_issue_number(event.source, event.event_id@, jview(event.payload)) {
                Some(n) => issue_ref matches Some(s) && s@ == repo_ref@ + "/issues/"@ + decimal(n),
                None => issue_ref is None,
            },
            forall|k: int|
                0 <= k < i ==> {
                    &&& (#[trigger] plans@[k]).repo_ref@ == repo_ref@
                    &&& plans@[k].event_id@ == matched_ids@[k]@
                    &&& plans@[k].dedupe_key@ == "webhook:"@ + repo_ref@ + ":"@ + matched_ids@[k]@ + ":"@ + match event.delivery_id {
                        Some(d) => d@,
                        None => spec_hex(spec_sha256(payload_bytes@)),
                    }
                    &&& match spec_webhook_issue_number(event.source, event.event_id@, jview(event.payload)) {
                        Some(n) => plans@[k].entity_kind == WakeEntityKind::Issue && plans@[k].entity_ref@ == repo_ref@
                            + "/issues/"@ + decimal(n),
                        None => plans@[k].entity_kind == WakeEntityKind::Repo && plans@[k].entity_ref@ == repo_ref@,
                    }
                    &&& match event.delivery_id {
                        Some(d) => plans@[k].delivery_id matches Some(x) && x@ == d@,
                        None => plans@[k].delivery_id is None,
                    }
                },
        decreases matched_ids@.len() - i,
    {
        let id = matched_ids[i].as_str();
        let (kind, entity) = match &issue_ref {
            Some(s) => (WakeEntityKind::Issue, s.clone()),
            None => (WakeEntityKind::Repo, repo_ref.clone()),
        };
        let delivery: Option<&str> = match &event.delivery_id {
            Some(d) => Some(d.as_str()),
            None => None,
        };
        let key = dedupe_key_from_webhook(repo_ref.as_str(), id, delivery, payload_bytes);
        plans.push(
            WakePlan {
                repo_ref: repo_ref.clone(),
                entity_kind: kind,
                entity_ref: entity,
                event_id: String::from_str(id),
                delivery_id: event.delivery_id.clone(),
                dedupe_key: key,
            },
        );
        i = i + 1;
    }
    Some(plans)
}


/// What a polled wake for `matched_id` holds, given the repo it belongs to
/// and the issue the event is about.
pub open spec fn polled_plan_ok(
    plan: WakePlan,
    event: PolledEvent,
    platform: Platform,
    owner: Seq<char>,
    repo: Seq<char>,
    matched_id: Seq<char>,
) -> bool {
    let repo_ref = repo_text(platform_name(platform), owner, repo);
    &&& plan.repo_ref@ == repo_ref
    &&& plan.event_id@ == matched_id
    &&& plan.delivery_id matches Some(d) && d@ == event.delivery@
    &&& plan.dedupe_key@ == "cron_poll:"@ + platform_name(platform) + ":"@ + owner + ":"@ + repo + ":"@
        + event.delivery@ + ":"@ + matched_id
    &&& match spec_polled_issue_ref(event) {
        Some(t) => plan.entity_kind == WakeEntityKind::Issue && plan.entity_ref@ == t,
        None => plan.entity_kind == WakeEntityKind::Repo && plan.entity_ref@ == repo_ref,
    }
}

/// The wakes a polled event asks for, one per matched event id: about its
/// issue where it names one, else about its repo. An event polled from a
/// tracker project asks for none.
pub fn wake_plans_from_polled(event: &PolledEvent, matched_ids: &Vec<String>) -> (r: Vec<WakePlan>)
    ensures
        match event.source {
            EventSource::Repo { platform, owner, repo } => r@.len() == matched_ids@.len() && forall|i: int|
                0 <= i < r@.len() ==> polled_plan_ok(
                    #[trigger] r@[i],
                    *event,
                    platform,
                    owner@,
                    repo@,
                    matched_ids@[i]@,
                ),
            EventSource::TrackerProject { .. } => r@.len() == 0,
        },
{
    let mut plans: Vec<WakePlan> = Vec::new();
    let (platform, owner, repo) = match &event.source {
        EventSource::Repo { platform, owner, repo } => (*platform, owner, repo),
        EventSource::TrackerProject { .. } => return plans,
    };
    let repo_ref = repo_ref_text(platform_as_str(platform), owner.as_str(), repo.as_str());
    let issue_ref = extract_issue_ref_from_polled_event(event);
    let mut i: usize = 0;
    while i < matched_ids.len()
        invariant
            i <= matched_ids@.len(),
            plans@.len() == i,
            event.source == (EventSource::Repo { platform, owner: *owner, repo: *repo }),
            repo_ref@ == repo_text(platform_name(platform), owner@, repo@),
            match spec_polled_issue_ref(*event) {
                Some(t) => issue_ref matches Some(s) && s@ == t,
                None => issue_ref is None,
            },
            forall|k: int|
                0 <= k < i ==> polled_plan_ok(#[trigger] plans@[k], *event, platform, owner@, repo@, matched_ids@[k]@),
        decreases matched_ids@.len() - i,
    {
        let id = matched_ids[i].as_str();
        let (kind, entity) = match &issue_ref {
            Some(s) => (WakeEntityKind::Issue, s.clone()),
            None => (WakeEntityKind::Repo, repo_ref.clone()),
        };
        let key = dedupe_key_from_polled(platform, owner.as_str(), repo.as_str(), event.delivery.as_str(), id);
        plans.push(
            WakePlan {
                repo_ref: repo_ref.clone(),
                entity_kind: kind,
                entity_ref: entity,
                event_id: String::from_str(id),
                delivery_id: Some(event.delivery.clone()),
                dedupe_key: key,
            },
        );
        i = i + 1;
    }
    plans
}

} // verus!

//! The payload stored with a wake: the delivery's own JSON with the event
//! id, vendor, delivery and repo beside it, in one shape for webhooks and
//! polled events.

use vstd::prelude::*;
use vstd::string::*;
use crate::autoflow::issue_ref::{tracker_as_str, tracker_name};
use crate::autoflow::shape::{find_char, first_index_of};
use crate::autoflow::wake_events::{platform_as_str, platform_name, EventSource, PolledEvent, WebhookEvent, WebhookSource};
use crate::json::{
    entries_insert, entries_get, entries_set, entries_view, entry_get, json_copy, json_get, json_opt_str, json_path,
    jv_get, jv_opt_str, jv_path, jview, lemma_object_view, Json, JsonV,
};
use crate::text::{chars_of, slice_chars, string_from_chars};

verus! {

/// The text of an optional value, or empty where it is not a string.
pub open spec fn str_or_empty(v: Option<JsonV>) -> Seq<char> {
    match jv_opt_str(v) {
        Some(s) => s,
        None => Seq::empty(),
    }
}

pub open spec fn sv(s: Seq<char>) -> JsonV {
    JsonV::Str(s)
}

/// `{"full_name": <full>, "owner": <owner>, "name": <name>}`.
pub open spec fn repo_json(full: Seq<char>, owner: Seq<char>, name: Seq<char>) -> JsonV {
    JsonV::Object(seq![("full_name"@, sv(full)), ("owner"@, sv(owner)), ("name"@, sv(name))])
}

/// The owner a GitHub `repository` names: `owner.login` where there is one
/// (empty unless it is a string), else `owner.name`.
pub open spec fn github_owner(repository: JsonV) -> Seq<char> {
    let owner = jv_get(repository, "owner"@);
    str_or_empty(
        match jv_path(owner, "login"@) {
            Some(v) => Some(v),
            None => jv_path(owner, "name"@),
        },
    )
}

/// The repo part of a webhook's payload: GitHub's `repository`, GitLab's
/// `project.path_with_namespace` split at its first `/`; none for Linear or
/// where the member is missing.
pub open spec fn spec_webhook_repo_json(source: WebhookSource, payload: JsonV) -> Option<JsonV> {
    match source {
        WebhookSource::Github => match jv_get(payload, "repository"@) {
            Some(r) => {
                let o = github_owner(r);
                let n = str_or_empty(jv_get(r, "name"@));
                Some(repo_json(o + "/"@ + n, o, n))
            },
            None => None,
        },
        WebhookSource::Gitlab => match jv_get(payload, "project"@) {
            Some(p) => {
                let full = str_or_empty(jv_get(p, "path_with_namespace"@));
                match first_index_of(full, '/') {
                    Some(i) => Some(repo_json(full, full.subrange(0, i), full.subrange(i + 1, full.len() as int))),
                    None => Some(repo_json(full, Seq::empty(), full)),
                }
            },
            None => None,
        },
        WebhookSource::Linear => None,
    }
}

pub open spec fn webhook_vendor(source: WebhookSource) -> Seq<char> {
    match source {
        WebhookSource::Github => "github"@,
        WebhookSource::Gitlab => "gitlab"@,
        WebhookSource::Linear => "linear"@,
    }
}

/// `{"id", "vendor", "delivery", "repo", "payload"}` for a webhook: the
/// delivery id is `null` where there is none, the repo `{}`.
pub open spec fn spec_normalized_webhook(event: WebhookEvent) -> JsonV {
    JsonV::Object(
        seq![
            ("id"@, sv(event.event_id@)),
            ("vendor"@, sv(webhook_vendor(event.source))),
            ("delivery"@, match event.delivery_id {
                Some(d) => sv(d@),
                None => JsonV::Null,
            }),
            ("repo"@, match spec_webhook_repo_json(event.source, jview(event.payload)) {
                Some(r) => r,
                None => JsonV::Object(Seq::empty()),
            }),
            ("payload"@, jview(event.payload)),
        ],
    )
}

fn jstr(s: &str) -> (r: Json)
    ensures
        jview(r) == sv(s@),
{
    Json::Str(String::from_str(s))
}

fn object_of(entries: Vec<(String, Json)>) -> (r: Json)
    ensures
        jview(r) == JsonV::Object(entries_view(entries@)),
{
    proof {
        lemma_object_view(entries);
    }
    Json::Object(entries)
}

fn repo_object(full: &str, owner: &str, name: &str) -> (r: Json)
    ensures
        jview(r) == repo_json(full@, owner@, name@),
{
    let mut es: Vec<(String, Json)> = Vec::new();
    es.push((String::from_str("full_name"), jstr(full)));
    es.push((String::from_str("owner"), jstr(owner)));
    es.push((String::from_str("name"), jstr(name)));
    let r = object_of(es);
    proof {
        assert(entries_view(es@) =~= seq![("full_name"@, sv(full@)), ("owner"@, sv(owner@)), ("name"@, sv(name@))]);
    }
    r
}

fn str_or_empty_of(v: Option<&Json>) -> (r: &str)
    ensures
        r@ == str_or_empty(match v {
            Some(x) => Some(jview(*x)),
            None => None,
        }),
{
    match json_opt_str(v) {
        Some(s) => s,
        None => {
            proof {
                reveal_strlit("");
                assert(""@ =~= Seq::<char>::empty());
            }
            ""
        },
    }
}

fn webhook_repo_object(event: &WebhookEvent) -> (r: Option<Json>)
    ensures
        match spec_webhook_repo_json(event.source, jview(event.payload)) {
            Some(v) => r matches Some(j) && jview(j) == v,
            None => r is None,
        },
{
    match event.source {
        WebhookSource::Github => {
            let repo = match json_get(&event.payload, "repository") {
                Some(r) => r,
                None => return None,
            };
            let owner = json_get(repo, "owner");
            let owner_value = match json_path(owner, "login") {
                Some(v) => Some(v),
                None => json_path(owner, "name"),
            };
            let o = str_or_empty_of(owner_value);
            let n = str_or_empty_of(json_get(repo, "name"));
            let mut full = String::from_str(o);
            full.append("/");
            full.append(n);
            Some(repo_object(full.as_str(), o, n))
        },
        WebhookSource::Gitlab => {
            let project = match json_get(&event.payload, "project") {
                Some(p) => p,
                None => return None,
            };
            let full = str_or_empty_of(json_get(project, "path_with_namespace"));
            let cs = chars_of(full);
            let n = cs.len();
            match find_char(cs.as_slice(), '/') {
                Some(i) => {
                    let owner = string_from_chars(slice_chars(cs.as_slice(), 0, i).as_slice());
                    let name = string_from_chars(slice_chars(cs.as_slice(), i + 1, n).as_slice());
                    Some(repo_object(full, owner.as_str(), name.as_str()))
                },
                None => {
                    proof {
                        reveal_strlit("");
                        assert(""@ =~= Seq::<char>::empty());
                    }
                    Some(repo_object(full, "", full))
                },
            }
        },
        WebhookSource::Linear => None,
    }
}

/// The payload a webhook's wakes carry (see `spec_normalized_webhook`).
pub fn normalized_webhook_payload(event: &WebhookEvent) -> (r: Json)
    ensures
        jview(r) == spec_normalized_webhook(*event),
{
    let vendor: &str = match event.source {
        WebhookSource::Github => "github",
        WebhookSource::Gitlab => "gitlab",
        WebhookSource::Linear => "linear",
    };
    let delivery = match &event.delivery_id {
        Some(d) => jstr(d.as_str()),
        None => Json::Null,
    };
    let repo = match webhook_repo_object(event) {
        Some(r) => r,
        None => object_of(Vec::new()),
    };
    let mut es: Vec<(String, Json)> = Vec::new();
    es.push((String::from_str("id"), jstr(event.event_id.as_str())));
    es.push((String::from_str("vendor"), jstr(vendor)));
    es.push((String::from_str("delivery"), delivery));
    es.push((String::from_str("repo"), repo));
    es.push((String::from_str("payload"), json_copy(&event.payload)));
    let r = object_of(es);
    proof {
        assert(entries_view(Seq::<(String, Json)>::empty()) =~= Seq::<(Seq<char>, JsonV)>::empty());
        assert(entries_view(es@) =~= spec_normalized_webhook(*event)->Object_0);
    }
    r
}

/// `{"full_name", "owner", "name"}` for a repo source, `{}` for a tracker
/// project.
pub open spec fn polled_repo_json(source: EventSource) -> JsonV {
    match source {
        EventSource::Repo { platform: _, owner, repo } => repo_json(owner@ + "/"@ + repo@, owner@, repo@),
        EventSource::TrackerProject { .. } => JsonV::Object(Seq::empty()),
    }
}

/// Where a polled event came from: kind, vendor and reference (and, for a
/// tracker project, the project).
pub open spec fn polled_source_json(source: EventSource) -> JsonV {
    match source {
        EventSource::Repo { platform, owner, repo } => JsonV::Object(
            seq![
                ("kind"@, sv("repo"@)),
                ("vendor"@, sv(platform_name(platform))),
                ("ref"@, sv(platform_name(platform) + ":"@ + owner@ + "/"@ + repo@)),
            ],
        ),
        EventSource::TrackerProject { tracker, project } => JsonV::Object(
            seq![
                ("kind"@, sv("tracker_project"@)),
                ("vendor"@, sv(tracker_name(tracker))),
                ("project"@, sv(project@)),
                ("ref"@, sv(tracker_name(tracker) + ":"@ + project@)),
            ],
        ),
    }
}

pub open spec fn polled_vendor(source: EventSource) -> Seq<char> {
    match source {
        EventSource::Repo { platform, .. } => platform_name(platform),
        EventSource::TrackerProject { tracker, .. } => tracker_name(tracker),
    }
}

/// The payload a polled event's wakes carry: its own object (a non-object
/// payload wrapped as `{"payload": ...}`) with `id`, `vendor`, `delivery`,
/// `repo` and `source` set, and `payload` added where the object has none.
pub open spec fn spec_normalized_polled(event: PolledEvent) -> JsonV {
    let base = match jview(event.payload) {
        JsonV::Object(es) => es,
        other => seq![("payload"@, other)],
    };
    let es = entries_set(
        entries_set(
            entries_set(
                entries_set(entries_set(base, "id"@, sv(event.id@)), "vendor"@, sv(polled_vendor(event.source))),
                "delivery"@,
                sv(event.delivery@),
            ),
            "repo"@,
            polled_repo_json(event.source),
        ),
        "source"@,
        polled_source_json(event.source),
    );
    JsonV::Object(
        if entry_get(es, "payload"@) is Some {
            es
        } else {
            es.push(("payload"@, jview(event.payload)))
        },
    )
}

fn polled_objects(source: &EventSource) -> (r: (&'static str, Json, Json))
    ensures
        r.0@ == polled_vendor(*source),
        jview(r.1) == polled_repo_json(*source),
        jview(r.2) == polled_source_json(*source),
{
    match source {
        EventSource::Repo { platform, owner, repo } => {
            let vendor = platform_as_str(*platform);
            let mut full = String::from_str(owner.as_str());
            full.append("/");
            full.append(repo.as_str());
            let repo_obj = repo_object(full.as_str(), owner.as_str(), repo.as_str());
            let mut reference = String::from_str(vendor);
            reference.append(":");
            reference.append(full.as_str());
            let mut es: Vec<(String, Json)> = Vec::new();
            es.push((String::from_str("kind"), jstr("repo")));
            es.push((String::from_str("vendor"), jstr(vendor)));
            es.push((String::from_str("ref"), jstr(reference.as_str())));
            let src = object_of(es);
            proof {
                assert(reference@ =~= platform_name(*platform) + ":"@ + owner@ + "/"@ + repo@);
                assert(entries_view(es@) =~= polled_source_json(*source)->Object_0);
            }
            (vendor, repo_obj, src)
        },
        EventSource::TrackerProject { tracker, project } => {
            let vendor = tracker_as_str(*tracker);
            let mut reference = String::from_str(vendor);
            reference.append(":");
            reference.append(project.as_str());
            let mut es: Vec<(String, Json)> = Vec::new();
            es.push((String::from_str("kind"), jstr("tracker_project")));
            es.push((String::from_str("vendor"), jstr(vendor)));
            es.push((String::from_str("project"), jstr(project.as_str())));
            es.push((String::from_str("ref"), jstr(reference.as_str())));
            let src = object_of(es);
            let repo_obj = object_of(Vec::new());
            proof {
                assert(entries_view(es@) =~= polled_source_json(*source)->Object_0);
                assert(entries_view(Seq::<(String, Json)>::empty()) =~= Seq::<(Seq<char>, JsonV)>::empty());
            }
            (vendor, repo_obj, src)
        },
    }
}

/// The payload a polled event's wakes carry (see `spec_normalized_polled`).
pub fn normalized_polled_payload(event: &PolledEvent) -> (r: Json)
    ensures
        jview(r) == spec_normalized_polled(*event),
{
    let (vendor, repo_obj, src) = polled_objects(&event.source);
    let mut es: Vec<(String, Json)> = match json_copy(&event.payload) {
        Json::Object(entries) => {
            proof {
                lemma_object_view(entries);
            }
            entries
        },
        other => {
            let mut v: Vec<(String, Json)> = Vec::new();
            v.push((String::from_str("payload"), other));
            proof {
                assert(entries_view(v@) =~= seq![("payload"@, jview(event.payload))]);
            }
            v
        },
    };
    entries_insert(&mut es, "id", jstr(event.id.as_str()));
    entries_insert(&mut es, "vendor", jstr(vendor));
    entries_insert(&mut es, "delivery", jstr(event.delivery.as_str()));
    entries_insert(&mut es, "repo", repo_obj);
    entries_insert(&mut es, "source", src);
    if entries_get(&es, "payload").is_none() {
        let ghost before = es@;
        es.push((String::from_str("payload"), json_copy(&event.payload)));
        proof {
            assert(entries_view(es@) =~= entries_view(before).push(("payload"@, jview(event.payload))));
        }
    }
    object_of(es)
}

} // verus!

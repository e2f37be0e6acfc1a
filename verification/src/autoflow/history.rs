//! The history events one issue's turn in a pass leaves behind, read off the
//! claim before and after the turn.

use vstd::prelude::*;
use vstd::string::*;
use crate::autoflow::claims::{spec_status_name, status_name, ClaimRecord, ClaimStatus, PendingDispatch};
use crate::autoflow::command::{entry_views, opt_view};
use crate::autoflow::events::CycleEventKind;
use crate::text::str_eq;

verus! {

/// One recorded event of a pass.
#[derive(Debug, Clone)]
pub struct HistoryEvent {
    pub kind: CycleEventKind,
    pub issue_ref: Option<String>,
    pub issue_display_ref: Option<String>,
    pub repo_ref: Option<String>,
    pub source_ref: Option<String>,
    pub workflow: Option<String>,
    pub run_id: Option<String>,
    pub status: Option<String>,
    pub detail: Option<String>,
    /// The wake a wake event consumed or skipped, and the wake's event id.
    pub wake_id: Option<String>,
    pub wake_event_id: Option<String>,
}

/// An event as plain values.
pub struct EventView {
    pub kind: CycleEventKind,
    pub issue_ref: Option<Seq<char>>,
    pub issue_display_ref: Option<Seq<char>>,
    pub repo_ref: Option<Seq<char>>,
    pub source_ref: Option<Seq<char>>,
    pub workflow: Option<Seq<char>>,
    pub run_id: Option<Seq<char>>,
    pub status: Option<Seq<char>>,
    pub detail: Option<Seq<char>>,
    pub wake_id: Option<Seq<char>>,
    pub wake_event_id: Option<Seq<char>>,
}

pub open spec fn ov(o: Option<String>) -> Option<Seq<char>> {
    match o {
        Some(s) => Some(s@),
        None => None,
    }
}

pub open spec fn event_view(e: HistoryEvent) -> EventView {
    EventView {
        kind: e.kind,
        issue_ref: ov(e.issue_ref),
        issue_display_ref: ov(e.issue_display_ref),
        repo_ref: ov(e.repo_ref),
        source_ref: ov(e.source_ref),
        workflow: ov(e.workflow),
        run_id: ov(e.run_id),
        status: ov(e.status),
        detail: ov(e.detail),
        wake_id: ov(e.wake_id),
        wake_event_id: ov(e.wake_event_id),
    }
}

pub open spec fn events_view(es: Seq<HistoryEvent>) -> Seq<EventView> {
    es.map_values(|e: HistoryEvent| event_view(e))
}

/// A pending dispatch as plain values.
pub open spec fn dispatch_view(d: Option<PendingDispatch>) -> Option<(Seq<char>, Seq<char>, Seq<(Seq<char>, Seq<char>)>)> {
    match d {
        Some(p) => Some((p.workflow@, p.target@, entry_views(p.inputs@))),
        None => None,
    }
}

/// An event about the claim after the turn, with the claim's identity.
pub open spec fn claim_event(
    kind: CycleEventKind,
    issue_ref: Seq<char>,
    after: ClaimRecord,
    run_id: Option<Seq<char>>,
    status: Option<Seq<char>>,
    detail: Option<Seq<char>>,
) -> EventView {
    EventView {
        kind,
        issue_ref: Some(issue_ref),
        issue_display_ref: ov(after.issue_display_ref),
        repo_ref: Some(after.repo_ref@),
        source_ref: ov(after.source_ref),
        workflow: Some(after.workflow@),
        run_id,
        status,
        detail,
        wake_id: None,
        wake_event_id: None,
    }
}

/// A failed turn's event.
pub open spec fn spec_failed_part(
    failure: Option<Seq<char>>,
    issue_ref: Seq<char>,
    repo_hint: Option<Seq<char>>,
    workflow_hint: Option<Seq<char>>,
) -> Seq<EventView> {
    match failure {
        Some(msg) => seq![
            EventView {
                kind: CycleEventKind::CycleFailed,
                issue_ref: Some(issue_ref),
                issue_display_ref: None,
                repo_ref: repo_hint,
                source_ref: None,
                workflow: workflow_hint,
                run_id: None,
                status: None,
                detail: Some(msg),
                wake_id: None,
                wake_event_id: None,
            },
        ],
        None => Seq::empty(),
    }
}

/// A new claim, or a takeover by another workflow.
pub open spec fn spec_claim_part(issue_ref: Seq<char>, before: Option<ClaimRecord>, a: ClaimRecord) -> Seq<EventView> {
    let status = Some(spec_status_name(a.status));
    match before {
        None => seq![claim_event(CycleEventKind::ClaimAcquired, issue_ref, a, None, status, None)],
        Some(b) => if b.workflow@ != a.workflow@ {
            seq![claim_event(CycleEventKind::ClaimTakeover, issue_ref, a, None, status, None)]
        } else {
            Seq::empty()
        },
    }
}

/// Whether the turn launched a run.
pub open spec fn run_launched(before: Option<ClaimRecord>, a: ClaimRecord) -> bool {
    let before_run = match before {
        Some(b) => ov(b.last_run_id),
        None => None,
    };
    a.last_run_id is Some && ov(a.last_run_id) != before_run
}

/// A launched run.
pub open spec fn spec_run_part(issue_ref: Seq<char>, before: Option<ClaimRecord>, a: ClaimRecord) -> Seq<EventView> {
    if run_launched(before, a) {
        seq![
            claim_event(
                CycleEventKind::RunLaunched,
                issue_ref,
                a,
                ov(a.last_run_id),
                Some(spec_status_name(a.status)),
                None,
            ),
        ]
    } else {
        Seq::empty()
    }
}

/// A newly queued dispatch.
pub open spec fn spec_dispatch_part(issue_ref: Seq<char>, before: Option<ClaimRecord>, a: ClaimRecord) -> Seq<
    EventView,
> {
    let before_dispatch = match before {
        Some(b) => dispatch_view(b.pending_dispatch),
        None => None,
    };
    match a.pending_dispatch {
        Some(d) => if dispatch_view(a.pending_dispatch) != before_dispatch {
            seq![
                claim_event(
                    CycleEventKind::DispatchQueued,
                    issue_ref,
                    a,
                    None,
                    None,
                    Some(d.workflow@ + " target="@ + d.target@),
                ),
            ]
        } else {
            Seq::empty()
        },
        None => Seq::empty(),
    }
}

/// A newly scheduled retry.
pub open spec fn spec_retry_part(issue_ref: Seq<char>, before: Option<ClaimRecord>, a: ClaimRecord) -> Seq<EventView> {
    let before_retry = match before {
        Some(b) => ov(b.next_retry_at),
        None => None,
    };
    if a.next_retry_at is Some && ov(a.next_retry_at) != before_retry {
        seq![claim_event(CycleEventKind::RetryScheduled, issue_ref, a, None, None, ov(a.next_retry_at))]
    } else {
        Seq::empty()
    }
}

/// A new status that waits on someone or releases the claim.
pub open spec fn spec_status_part(issue_ref: Seq<char>, before: Option<ClaimRecord>, a: ClaimRecord) -> Seq<EventView> {
    let status = Some(spec_status_name(a.status));
    let status_changed = match before {
        Some(b) => b.status != a.status,
        None => true,
    };
    if status_changed && a.status == ClaimStatus::AwaitHuman {
        seq![claim_event(CycleEventKind::AwaitingHuman, issue_ref, a, None, status, None)]
    } else if status_changed && a.status == ClaimStatus::AwaitExternal {
        seq![claim_event(CycleEventKind::AwaitingExternal, issue_ref, a, None, status, None)]
    } else if status_changed && a.status == ClaimStatus::Released {
        seq![claim_event(CycleEventKind::ClaimReleased, issue_ref, a, None, status, None)]
    } else {
        Seq::empty()
    }
}

/// What a turn leaves in the history, in order: a failure; a new claim or a
/// takeover by another workflow; a launched run; a newly queued dispatch; a
/// newly scheduled retry; and a new status that waits or releases.
pub open spec fn spec_history_events(
    failure: Option<Seq<char>>,
    issue_ref: Seq<char>,
    before: Option<ClaimRecord>,
    after: Option<ClaimRecord>,
    repo_hint: Option<Seq<char>>,
    workflow_hint: Option<Seq<char>>,
) -> Seq<EventView> {
    let failed = spec_failed_part(failure, issue_ref, repo_hint, workflow_hint);
    match after {
        None => failed,
        Some(a) => failed + spec_claim_part(issue_ref, before, a) + spec_run_part(issue_ref, before, a)
            + spec_dispatch_part(issue_ref, before, a) + spec_retry_part(issue_ref, before, a) + spec_status_part(
            issue_ref,
            before,
            a,
        ),
    }
}

/// The position right after a run-launched event, where the run's own
/// actions go; none where no run was launched.
pub open spec fn spec_run_actions_at(
    failure: Option<Seq<char>>,
    issue_ref: Seq<char>,
    before: Option<ClaimRecord>,
    after: Option<ClaimRecord>,
) -> Option<int> {
    match after {
        None => None,
        Some(a) => {
            if run_launched(before, a) {
                let failed: int = if failure is Some { 1 } else { 0 };
                Some(failed + spec_claim_part(issue_ref, before, a).len() + 1)
            } else {
                None
            }
        },
    }
}

fn opt_str_eq(a: &Option<String>, b: &Option<String>) -> (r: bool)
    ensures
        r == (ov(*a) == ov(*b)),
{
    match (a, b) {
        (Some(x), Some(y)) => str_eq(x.as_str(), y.as_str()),
        (None, None) => true,
        _ => false,
    }
}

fn inputs_eq(a: &Vec<(String, String)>, b: &Vec<(String, String)>) -> (r: bool)
    ensures
        r == (entry_views(a@) == entry_views(b@)),
{
    if a.len() != b.len() {
        proof {
            assert(entry_views(a@).len() != entry_views(b@).len());
        }
        return false;
    }
    let mut i: usize = 0;
    while i < a.len()
        invariant
            i <= a@.len(),
            a@.len() == b@.len(),
            forall|k: int| 0 <= k < i ==> entry_views(a@)[k] == entry_views(b@)[k],
        decreases a@.len() - i,
    {
        if !str_eq(a[i].0.as_str(), b[i].0.as_str()) || !str_eq(a[i].1.as_str(), b[i].1.as_str()) {
            proof {
                assert(entry_views(a@)[i as int] != entry_views(b@)[i as int]);
            }
            return false;
        }
        i = i + 1;
    }
    proof {
        assert(entry_views(a@) =~= entry_views(b@));
    }
    true
}

fn dispatch_eq(a: &Option<PendingDispatch>, b: &Option<PendingDispatch>) -> (r: bool)
    ensures
        r == (dispatch_view(*a) == dispatch_view(*b)),
{
    match (a, b) {
        (Some(x), Some(y)) => str_eq(x.workflow.as_str(), y.workflow.as_str()) && str_eq(
            x.target.as_str(),
            y.target.as_str(),
        ) && inputs_eq(&x.inputs, &y.inputs),
        (None, None) => true,
        _ => false,
    }
}

fn event_for(
    kind: CycleEventKind,
    issue_ref: &str,
    after: &ClaimRecord,
    run_id: Option<String>,
    status: Option<String>,
    detail: Option<String>,
) -> (r: HistoryEvent)
    ensures
        event_view(r) == claim_event(kind, issue_ref@, *after, ov(run_id), ov(status), ov(detail)),
{
    HistoryEvent {
        kind,
        issue_ref: Some(String::from_str(issue_ref)),
        issue_display_ref: after.issue_display_ref.clone(),
        repo_ref: Some(after.repo_ref.clone()),
        source_ref: after.source_ref.clone(),
        workflow: Some(after.workflow.clone()),
        run_id,
        status,
        detail,
        wake_id: None,
        wake_event_id: None,
    }
}

fn push_event(events: &mut Vec<HistoryEvent>, e: HistoryEvent)
    ensures
        events_view(final(events)@) == events_view(old(events)@).push(event_view(e)),
{
    let ghost pre = events_view(events@);
    events.push(e);
    proof {
        assert(events_view(events@) =~= pre.push(event_view(e)));
    }
}

fn append_events(events: &mut Vec<HistoryEvent>, more: Vec<HistoryEvent>)
    ensures
        events_view(final(events)@) == events_view(old(events)@) + events_view(more@),
{
    let ghost pre = events_view(events@);
    let ghost m = events_view(more@);
    let mut more = more;
    let total = more.len();
    let mut i: usize = 0;
    proof {
        assert(pre + m.subrange(0, 0) =~= pre);
        assert(m.subrange(0, m.len() as int) =~= m);
    }
    while more.len() > 0
        invariant
            m.len() == total,
            i + more@.len() == m.len(),
            events_view(events@) == pre + m.subrange(0, i as int),
            events_view(more@) == m.subrange(i as int, m.len() as int),
        decreases more@.len(),
    {
        let ghost rest = more@;
        let e = more.remove(0);
        proof {
            assert(event_view(e) == m[i as int]) by {
                assert(events_view(rest)[0] == m.subrange(i as int, m.len() as int)[0]);
            }
            assert(events_view(more@) =~= m.subrange(i + 1, m.len() as int)) by {
                assert forall|k: int| 0 <= k < more@.len() implies event_view(more@[k]) == m[i + 1 + k] by {
                    assert(more@[k] == rest[k + 1]);
                    assert(events_view(rest)[k + 1] == m.subrange(i as int, m.len() as int)[k + 1]);
                }
            }
        }
        push_event(events, e);
        proof {
            assert(m.subrange(0, i + 1) =~= m.subrange(0, i as int).push(m[i as int]));
        }
        i = i + 1;
    }
}

fn one_event(e: HistoryEvent) -> (r: Vec<HistoryEvent>)
    ensures
        events_view(r@) == seq![event_view(e)],
{
    let mut v: Vec<HistoryEvent> = Vec::new();
    v.push(e);
    proof {
        assert(events_view(v@) =~= seq![event_view(e)]);
    }
    v
}

fn no_events() -> (r: Vec<HistoryEvent>)
    ensures
        events_view(r@) == Seq::<EventView>::empty(),
{
    let v: Vec<HistoryEvent> = Vec::new();
    proof {
        assert(events_view(v@) =~= Seq::<EventView>::empty());
    }
    v
}

fn failed_part(failure: Option<&str>, issue_ref: &str, repo_hint: Option<&str>, workflow_hint: Option<&str>) -> (r:
    Vec<HistoryEvent>)
    ensures
        events_view(r@) == spec_failed_part(opt_view(failure), issue_ref@, opt_view(repo_hint), opt_view(workflow_hint)),
{
    match failure {
        Some(msg) => one_event(
            HistoryEvent {
                kind: CycleEventKind::CycleFailed,
                issue_ref: Some(String::from_str(issue_ref)),
                issue_display_ref: None,
                repo_ref: match repo_hint {
                    Some(h) => Some(String::from_str(h)),
                    None => None,
                },
                source_ref: None,
                workflow: match workflow_hint {
                    Some(h) => Some(String::from_str(h)),
                    None => None,
                },
                run_id: None,
                status: None,
                detail: Some(String::from_str(msg)),
                wake_id: None,
                wake_event_id: None,
            },
        ),
        None => no_events(),
    }
}

fn claim_part(issue_ref: &str, before: Option<&ClaimRecord>, a: &ClaimRecord) -> (r: Vec<HistoryEvent>)
    ensures
        events_view(r@) == spec_claim_part(
            issue_ref@,
            match before {
                Some(b) => Some(*b),
                None => None,
            },
            *a,
        ),
{
    let status_text = status_name(a.status);
    match before {
        None => one_event(
            event_for(CycleEventKind::ClaimAcquired, issue_ref, a, None, Some(String::from_str(status_text)), None),
        ),
        Some(b) => {
            if !str_eq(b.workflow.as_str(), a.workflow.as_str()) {
                one_event(
                    event_for(
                        CycleEventKind::ClaimTakeover,
                        issue_ref,
                        a,
                        None,
                        Some(String::from_str(status_text)),
                        None,
                    ),
                )
            } else {
                no_events()
            }
        },
    }
}

fn launched(before: Option<&ClaimRecord>, a: &ClaimRecord) -> (r: bool)
    ensures
        r == run_launched(
            match before {
                Some(b) => Some(*b),
                None => None,
            },
            *a,
        ),
{
    let before_run: Option<String> = match before {
        Some(b) => b.last_run_id.clone(),
        None => None,
    };
    a.last_run_id.is_some() && !opt_str_eq(&a.last_run_id, &before_run)
}

fn run_part(issue_ref: &str, before: Option<&ClaimRecord>, a: &ClaimRecord) -> (r: Vec<HistoryEvent>)
    ensures
        events_view(r@) == spec_run_part(
            issue_ref@,
            match before {
                Some(b) => Some(*b),
                None => None,
            },
            *a,
        ),
{
    if launched(before, a) {
        one_event(
            event_for(
                CycleEventKind::RunLaunched,
                issue_ref,
                a,
                a.last_run_id.clone(),
                Some(String::from_str(status_name(a.status))),
                None,
            ),
        )
    } else {
        no_events()
    }
}

fn dispatch_part(issue_ref: &str, before: Option<&ClaimRecord>, a: &ClaimRecord) -> (r: Vec<HistoryEvent>)
    ensures
        events_view(r@) == spec_dispatch_part(
            issue_ref@,
            match before {
                Some(b) => Some(*b),
                None => None,
            },
            *a,
        ),
{
    let changed = match before {
        Some(b) => !dispatch_eq(&b.pending_dispatch, &a.pending_dispatch),
        None => a.pending_dispatch.is_some(),
    };
    match &a.pending_dispatch {
        Some(d) => {
            if changed {
                let mut detail = d.workflow.clone();
                detail.append(" target=");
                detail.append(d.target.as_str());
                one_event(event_for(CycleEventKind::DispatchQueued, issue_ref, a, None, None, Some(detail)))
            } else {
                no_events()
            }
        },
        None => no_events(),
    }
}

fn retry_part(issue_ref: &str, before: Option<&ClaimRecord>, a: &ClaimRecord) -> (r: Vec<HistoryEvent>)
    ensures
        events_view(r@) == spec_retry_part(
            issue_ref@,
            match before {
                Some(b) => Some(*b),
                None => None,
            },
            *a,
        ),
{
    let before_retry: Option<String> = match before {
        Some(b) => b.next_retry_at.clone(),
        None => None,
    };
    if a.next_retry_at.is_some() && !opt_str_eq(&a.next_retry_at, &before_retry) {
        one_event(event_for(CycleEventKind::RetryScheduled, issue_ref, a, None, None, a.next_retry_at.clone()))
    } else {
        no_events()
    }
}

fn status_part(issue_ref: &str, before: Option<&ClaimRecord>, a: &ClaimRecord) -> (r: Vec<HistoryEvent>)
    ensures
        events_view(r@) == spec_status_part(
            issue_ref@,
            match before {
                Some(b) => Some(*b),
                None => None,
            },
            *a,
        ),
{
    let changed = match before {
        Some(b) => b.status != a.status,
        None => true,
    };
    if !changed {
        return no_events();
    }
    let kind = match a.status {
        ClaimStatus::AwaitHuman => CycleEventKind::AwaitingHuman,
        ClaimStatus::AwaitExternal => CycleEventKind::AwaitingExternal,
        ClaimStatus::Released => CycleEventKind::ClaimReleased,
        _ => return no_events(),
    };
    one_event(event_for(kind, issue_ref, a, None, Some(String::from_str(status_name(a.status))), None))
}

/// The history events of one issue's turn, and where the launched run's own
/// actions belong among them.
pub fn issue_history_events(
    failure: Option<&str>,
    issue_ref: &str,
    before: Option<&ClaimRecord>,
    after: Option<&ClaimRecord>,
    repo_hint: Option<&str>,
    workflow_hint: Option<&str>,
) -> (r: (Vec<HistoryEvent>, Option<usize>))
    ensures
        events_view(r.0@) == spec_history_events(
            opt_view(failure),
            issue_ref@,
            match before {
                Some(b) => Some(*b),
                None => None,
            },
            match after {
                Some(a) => Some(*a),
                None => None,
            },
            opt_view(repo_hint),
            opt_view(workflow_hint),
        ),
        match r.1 {
            Some(k) => spec_run_actions_at(
                opt_view(failure),
                issue_ref@,
                match before {
                    Some(b) => Some(*b),
                    None => None,
                },
                match after {
                    Some(a) => Some(*a),
                    None => None,
                },
            ) == Some(k as int),
            None => spec_run_actions_at(
                opt_view(failure),
                issue_ref@,
                match before {
                    Some(b) => Some(*b),
                    None => None,
                },
                match after {
                    Some(a) => Some(*a),
                    None => None,
                },
            ) is None,
        },
{
    let mut events = failed_part(failure, issue_ref, repo_hint, workflow_hint);
    let a = match after {
        None => {
            return (events, None);
        },
        Some(a) => a,
    };
    append_events(&mut events, claim_part(issue_ref, before, a));
    let mut run_at: Option<usize> = None;
    let runs = run_part(issue_ref, before, a);
    if runs.len() > 0 {
        append_events(&mut events, runs);
        run_at = Some(events.len());
    } else {
        append_events(&mut events, runs);
    }
    append_events(&mut events, dispatch_part(issue_ref, before, a));
    append_events(&mut events, retry_part(issue_ref, before, a));
    append_events(&mut events, status_part(issue_ref, before, a));
    (events, run_at)
}

} // verus!

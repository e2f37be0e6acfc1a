//! Queued and processed wakes as the operator sees them: filtered by repo
//! or issue, newest first, described one per line.

use vstd::prelude::*;
use vstd::string::*;
use vstd::multiset::Multiset;
use crate::autoflow::monitor::keep_flagged;
use crate::autoflow::claims::ClaimRecord;


use crate::autoflow::wake_events::WakeEntityKind;
use crate::autoflow::wake_hints::WakeSource;
use crate::autoflow::select::{lemma_lex_lt_irreflexive, lemma_lex_lt_total, lemma_lex_lt_transitive, lex_less, lex_lt};
use crate::autoflow::issue_ref::{
    hosts_repos, issue_ref_to_repo_ref, last_segment, last_segment_of, spec_parse_issue_ref, tracker_name, IssueRef,
    IssueTracker,
};
use crate::autoflow::shape::find_char;
use crate::autoflow::wake_events::{EventSource, Platform};
use crate::text::{chars_of, str_eq};

verus! {

/// A wake as the wake store keeps it.
#[derive(Debug, Clone)]
pub struct WakeRecord {
    pub wake_id: String,
    pub source: WakeSource,
    pub repo_ref: String,
    pub entity_kind: WakeEntityKind,
    pub entity_ref: String,
    pub event_id: String,
    pub received_at: String,
    pub not_before: String,
}

pub open spec fn spec_wake_source_name(source: WakeSource) -> Seq<char> {
    match source {
        WakeSource::Manual => "manual"@,
        WakeSource::CronPoll => "cron_poll"@,
        WakeSource::Webhook => "webhook"@,
        WakeSource::AutoflowDispatch => "dispatch"@,
        WakeSource::Retry => "retry"@,
        WakeSource::ApprovalResume => "approval_resume"@,
        WakeSource::Repair => "repair"@,
    }
}

/// The name a wake's source is shown by.
pub fn wake_source_name(source: WakeSource) -> (r: &'static str)
    ensures
        r@ == spec_wake_source_name(source),
{
    match source {
        WakeSource::Manual => "manual",
        WakeSource::CronPoll => "cron_poll",
        WakeSource::Webhook => "webhook",
        WakeSource::AutoflowDispatch => "dispatch",
        WakeSource::Retry => "retry",
        WakeSource::ApprovalResume => "approval_resume",
        WakeSource::Repair => "repair",
    }
}

/// A repo filter admits a repo ref: no filter admits every repo.
pub open spec fn admits(repo_filter: Option<Seq<char>>, repo_ref: Seq<char>) -> bool {
    match repo_filter {
        Some(f) => repo_ref == f,
        None => true,
    }
}

pub open spec fn opt_view(s: Option<&str>) -> Option<Seq<char>> {
    match s {
        Some(t) => Some(t@),
        None => None,
    }
}

/// The wakes of the filtered repo, in order.
pub fn filter_wakes_by_repo(wakes: Vec<WakeRecord>, repo_filter: Option<&str>) -> (r: Vec<WakeRecord>)
    ensures
        r@ == wakes@.filter(|w: WakeRecord| admits(opt_view(repo_filter), w.repo_ref@)),
{
    let ghost pred = |w: WakeRecord| admits(opt_view(repo_filter), w.repo_ref@);
    let mut flags: Vec<bool> = Vec::new();
    let mut i: usize = 0;
    while i < wakes.len()
        invariant
            i <= wakes@.len(),
            flags@.len() == i,
            pred == (|w: WakeRecord| admits(opt_view(repo_filter), w.repo_ref@)),
            forall|k: int| 0 <= k < i ==> flags@[k] == pred(#[trigger] wakes@[k]),
        decreases wakes@.len() - i,
    {
        let keep = match repo_filter {
            Some(f) => str_eq(wakes[i].repo_ref.as_str(), f),
            None => true,
        };
        flags.push(keep);
        i = i + 1;
    }
    keep_flagged(wakes, &flags, Ghost(pred))
}

/// The claims of the filtered repo, in order.
pub fn filter_claims_by_repo(claims: Vec<ClaimRecord>, repo_filter: Option<&str>) -> (r: Vec<ClaimRecord>)
    ensures
        r@ == claims@.filter(|c: ClaimRecord| admits(opt_view(repo_filter), c.repo_ref@)),
{
    let ghost pred = |c: ClaimRecord| admits(opt_view(repo_filter), c.repo_ref@);
    let mut flags: Vec<bool> = Vec::new();
    let mut i: usize = 0;
    while i < claims.len()
        invariant
            i <= claims@.len(),
            flags@.len() == i,
            pred == (|c: ClaimRecord| admits(opt_view(repo_filter), c.repo_ref@)),
            forall|k: int| 0 <= k < i ==> flags@[k] == pred(#[trigger] claims@[k]),
        decreases claims@.len() - i,
    {
        let keep = match repo_filter {
            Some(f) => str_eq(claims[i].repo_ref.as_str(), f),
            None => true,
        };
        flags.push(keep);
        i = i + 1;
    }
    keep_flagged(claims, &flags, Ghost(pred))
}

/// The wakes about one issue, in order.
pub fn wakes_for_issue(wakes: Vec<WakeRecord>, issue_ref: &str) -> (r: Vec<WakeRecord>)
    ensures
        r@ == wakes@.filter(|w: WakeRecord| w.entity_kind == WakeEntityKind::Issue && w.entity_ref@ == issue_ref@),
{
    let ghost pred = |w: WakeRecord| w.entity_kind == WakeEntityKind::Issue && w.entity_ref@ == issue_ref@;
    let mut flags: Vec<bool> = Vec::new();
    let mut i: usize = 0;
    while i < wakes.len()
        invariant
            i <= wakes@.len(),
            flags@.len() == i,
            pred == (|w: WakeRecord| w.entity_kind == WakeEntityKind::Issue && w.entity_ref@ == issue_ref@),
            forall|k: int| 0 <= k < i ==> flags@[k] == pred(#[trigger] wakes@[k]),
        decreases wakes@.len() - i,
    {
        let keep = wakes[i].entity_kind == WakeEntityKind::Issue && str_eq(wakes[i].entity_ref.as_str(), issue_ref);
        flags.push(keep);
        i = i + 1;
    }
    keep_flagged(wakes, &flags, Ghost(pred))
}


/// Pairs of texts in lexicographic order, first by the first text.
pub open spec fn pair_lt(a: (Seq<char>, Seq<char>), b: (Seq<char>, Seq<char>)) -> bool {
    lex_lt(a.0, b.0) || (a.0 == b.0 && lex_lt(a.1, b.1))
}

proof fn lemma_pair_lt_transitive(a: (Seq<char>, Seq<char>), b: (Seq<char>, Seq<char>), c: (Seq<char>, Seq<char>))
    requires
        pair_lt(a, b),
        pair_lt(b, c),
    ensures
        pair_lt(a, c),
{
    if lex_lt(a.0, b.0) && lex_lt(b.0, c.0) {
        lemma_lex_lt_transitive(a.0, b.0, c.0);
    } else if a.0 == b.0 && b.0 == c.0 {
        lemma_lex_lt_transitive(a.1, b.1, c.1);
    }
}

proof fn lemma_pair_lt_asymmetric(a: (Seq<char>, Seq<char>), b: (Seq<char>, Seq<char>))
    requires
        pair_lt(a, b),
    ensures
        !pair_lt(b, a),
{
    if pair_lt(b, a) {
        lemma_pair_lt_transitive(a, b, a);
        lemma_lex_lt_irreflexive(a.0);
        lemma_lex_lt_irreflexive(a.1);
    }
}

proof fn lemma_pair_lt_total(a: (Seq<char>, Seq<char>), b: (Seq<char>, Seq<char>))
    ensures
        pair_lt(a, b) || pair_lt(b, a) || a == b,
{
    lemma_lex_lt_total(a.0, b.0);
    lemma_lex_lt_total(a.1, b.1);
}

/// The order wakes are listed in: by time received, then by id.
pub open spec fn wake_key(w: WakeRecord) -> (Seq<char>, Seq<char>) {
    (w.received_at@, w.wake_id@)
}

/// Newest first: no wake comes before a newer one.
pub open spec fn newest_first(ws: Seq<WakeRecord>) -> bool {
    forall|i: int, j: int| 0 <= i < j < ws.len() ==> !pair_lt(wake_key(#[trigger] ws[i]), wake_key(#[trigger] ws[j]))
}

/// Order wakes newest first (by time received, then by id, both descending),
/// keeping the order of wakes with equal keys.
pub fn sort_newest_first(wakes: Vec<WakeRecord>) -> (r: Vec<WakeRecord>)
    ensures
        newest_first(r@),
        r@.to_multiset() == wakes@.to_multiset(),
{
    broadcast use vstd::seq_lib::group_to_multiset_ensures;

    let ghost all = wakes@;
    let mut rest = wakes;
    let mut out: Vec<WakeRecord> = Vec::new();
    proof {
        assert(out@.to_multiset().add(rest@.to_multiset()) =~= all.to_multiset());
    }
    while rest.len() > 0
        invariant
            newest_first(out@),
            out@.to_multiset().add(rest@.to_multiset()) == all.to_multiset(),
        decreases rest@.len(),
    {
        let ghost before = rest@;
        let x = rest.remove(0);
        proof {
            assert(before.remove(0) == rest@);
        }
        let mut p: usize = 0;
        while p < out.len() && !wake_older(&out[p], &x)
            invariant
                p <= out@.len(),
                forall|k: int| 0 <= k < p ==> !pair_lt(wake_key(#[trigger] out@[k]), wake_key(x)),
            decreases out@.len() - p,
        {
            p = p + 1;
        }
        let ghost pre = out@;
        proof {
            assert forall|b: int| p <= b < pre.len() implies pair_lt(wake_key(#[trigger] pre[b]), wake_key(x)) by {
                if b > p {
                    lemma_pair_lt_total(wake_key(pre[p as int]), wake_key(pre[b]));
                    if pair_lt(wake_key(pre[b]), wake_key(pre[p as int])) {
                        lemma_pair_lt_transitive(wake_key(pre[b]), wake_key(pre[p as int]), wake_key(x));
                    }
                }
            }
        }
        out.insert(p, x);
        proof {
            assert forall|a: int, b: int| 0 <= a < b < out@.len() implies !pair_lt(
                wake_key(#[trigger] out@[a]),
                wake_key(#[trigger] out@[b]),
            ) by {
                if b < p {
                    assert(out@[a] == pre[a] && out@[b] == pre[b]);
                } else if b == p {
                    assert(out@[a] == pre[a]);
                } else if a < p {
                    assert(out@[a] == pre[a] && out@[b] == pre[b - 1]);
                } else if a == p {
                    assert(out@[b] == pre[b - 1]);
                    lemma_pair_lt_asymmetric(wake_key(pre[b - 1]), wake_key(x));
                } else {
                    assert(out@[a] == pre[a - 1] && out@[b] == pre[b - 1]);
                }
            }
            vstd::seq_lib::to_multiset_insert(pre, p as int, x);
            assert(before.to_multiset() == rest@.to_multiset().insert(x)) by {
                assert(before =~= rest@.insert(0, x));
                vstd::seq_lib::to_multiset_insert(rest@, 0, x);
            }
            assert(out@.to_multiset().add(rest@.to_multiset()) =~= all.to_multiset());
        }
    }
    proof {
        assert(rest@.to_multiset() =~= Multiset::empty());
        assert(out@.to_multiset() =~= all.to_multiset());
    }
    out
}

/// `a` was received before `b`, or at the same time with a smaller id.
fn wake_older(a: &WakeRecord, b: &WakeRecord) -> (r: bool)
    ensures
        r == pair_lt(wake_key(*a), wake_key(*b)),
{
    lex_less(a.received_at.as_str(), b.received_at.as_str()) || (str_eq(
        a.received_at.as_str(),
        b.received_at.as_str(),
    ) && lex_less(a.wake_id.as_str(), b.wake_id.as_str()))
}


/// At most `limit` of the processed wakes of the filtered repo, the newest
/// first: every wake left out is no newer than any kept.
pub fn recent_processed(processed: Vec<WakeRecord>, repo_filter: Option<&str>, limit: usize) -> (r: Vec<WakeRecord>)
    ensures
        ({
            let f = processed@.filter(|w: WakeRecord| admits(opt_view(repo_filter), w.repo_ref@));
            &&& newest_first(r@)
            &&& r@.len() == (if f.len() < limit {
                f.len()
            } else {
                limit as nat
            })
            &&& r@.to_multiset().subset_of(f.to_multiset())
            &&& forall|w: WakeRecord|
                f.to_multiset().count(w) > r@.to_multiset().count(w) ==> forall|i: int|
                    0 <= i < r@.len() ==> !pair_lt(wake_key(#[trigger] r@[i]), wake_key(w))
        }),
{
    broadcast use vstd::seq_lib::group_to_multiset_ensures;

    let filtered = filter_wakes_by_repo(processed, repo_filter);
    let ghost f = filtered@;
    let mut sorted = sort_newest_first(filtered);
    let ghost s = sorted@;
    sorted.truncate(limit);
    proof {
        let k = sorted@.len() as int;
        let t = s.subrange(k, s.len() as int);
        assert(s =~= sorted@ + t);
        vstd::seq_lib::lemma_multiset_commutative(sorted@, t);
        assert(s.len() == f.len()) by {
            assert(s.to_multiset().len() == s.len());
            assert(f.to_multiset().len() == f.len());
        }
        assert(sorted@.len() == (if f.len() < limit {
            f.len()
        } else {
            limit as nat
        }));
        assert(sorted@.to_multiset().subset_of(f.to_multiset()));
        assert forall|w: WakeRecord| f.to_multiset().count(w) > sorted@.to_multiset().count(w) implies forall|i: int|
            0 <= i < sorted@.len() ==> !pair_lt(wake_key(#[trigger] sorted@[i]), wake_key(w)) by {
            assert(t.to_multiset().count(w) > 0);
            assert(t.contains(w));
            let j = choose|j: int| 0 <= j < t.len() && t[j] == w;
            assert forall|i: int| 0 <= i < sorted@.len() implies !pair_lt(
                wake_key(#[trigger] sorted@[i]),
                wake_key(w),
            ) by {
                assert(s[i] == sorted@[i]);
                assert(s[k + j] == w);
            }
        }
    }
    sorted
}

/// A wake as the operator sees it.
#[derive(Debug, Clone)]
pub struct WakeRow {
    pub wake_id: String,
    pub state: String,
    pub source: String,
    pub event: String,
    pub entity: String,
    pub not_before: String,
    pub repo: String,
}

/// The row a wake shows as, in the given state.
pub open spec fn row_of(w: WakeRecord, state: Seq<char>, row: WakeRow) -> bool {
    &&& row.wake_id@ == w.wake_id@
    &&& row.state@ == state
    &&& row.source@ == spec_wake_source_name(w.source)
    &&& row.event@ == w.event_id@
    &&& row.entity@ == w.entity_ref@
    &&& row.not_before@ == w.not_before@
    &&& row.repo@ == w.repo_ref@
}

/// The row a wake shows as.
pub fn wake_row_from_record(wake: &WakeRecord, state: &str) -> (r: WakeRow)
    ensures
        row_of(*wake, state@, r),
{
    WakeRow {
        wake_id: wake.wake_id.clone(),
        state: String::from_str(state),
        source: String::from_str(wake_source_name(wake.source)),
        event: wake.event_id.clone(),
        entity: wake.entity_ref.clone(),
        not_before: wake.not_before.clone(),
        repo: wake.repo_ref.clone(),
    }
}

/// The wake listing: the queued wakes, then the recent processed ones.
pub fn wake_rows(queued: &Vec<WakeRecord>, recent: &Vec<WakeRecord>) -> (r: Vec<WakeRow>)
    ensures
        r@.len() == queued@.len() + recent@.len(),
        forall|i: int| 0 <= i < queued@.len() ==> row_of(queued@[i], "queued"@, #[trigger] r@[i]),
        forall|i: int|
            queued@.len() <= i < r@.len() ==> row_of(recent@[i - queued@.len()], "processed"@, #[trigger] r@[i]),
{
    let mut rows: Vec<WakeRow> = Vec::new();
    let mut i: usize = 0;
    while i < queued.len()
        invariant
            i <= queued@.len(),
            rows@.len() == i,
            forall|k: int| 0 <= k < i ==> row_of(queued@[k], "queued"@, #[trigger] rows@[k]),
        decreases queued@.len() - i,
    {
        rows.push(wake_row_from_record(&queued[i], "queued"));
        i = i + 1;
    }
    let mut j: usize = 0;
    while j < recent.len()
        invariant
            j <= recent@.len(),
            rows@.len() == queued@.len() + j,
            forall|k: int| 0 <= k < queued@.len() ==> row_of(queued@[k], "queued"@, #[trigger] rows@[k]),
            forall|k: int|
                queued@.len() <= k < rows@.len() ==> row_of(recent@[k - queued@.len()], "processed"@, #[trigger] rows@[k]),
        decreases recent@.len() - j,
    {
        rows.push(wake_row_from_record(&recent[j], "processed"));
        j = j + 1;
    }
    rows
}


/// Where a listed wake stands in the store.
#[derive(Debug, Clone, Copy, PartialEq, Eq, Structural)]
pub enum WakeFileState {
    Queued,
    Processed,
    Unknown,
}

pub open spec fn file_state_name(s: WakeFileState) -> Seq<char> {
    match s {
        WakeFileState::Queued => "queued"@,
        WakeFileState::Processed => "processed"@,
        WakeFileState::Unknown => "unknown"@,
    }
}

/// Where a wake stands: queued where its file is in the queue, else
/// processed where it is among the processed ones, else unknown.
pub fn wake_file_state(in_queue: bool, in_processed: bool) -> (r: WakeFileState)
    ensures
        r == (if in_queue {
            WakeFileState::Queued
        } else if in_processed {
            WakeFileState::Processed
        } else {
            WakeFileState::Unknown
        }),
{
    if in_queue {
        WakeFileState::Queued
    } else if in_processed {
        WakeFileState::Processed
    } else {
        WakeFileState::Unknown
    }
}

/// One line on the wake a claim was woken by:
/// `<id> [<state>] <source> <event>`, or `<id> (missing: <error>)` where the
/// wake could not be loaded.
pub fn describe_wake_source(wake_id: &str, loaded: Result<&WakeRecord, &str>, state: WakeFileState) -> (r: String)
    ensures
        r@ == match loaded {
            Ok(w) => wake_id@ + " ["@ + file_state_name(state) + "] "@ + spec_wake_source_name(w.source) + " "@
                + w.event_id@,
            Err(e) => wake_id@ + " (missing: "@ + e@ + ")"@,
        },
{
    let mut s = String::from_str(wake_id);
    match loaded {
        Ok(w) => {
            s.append(" [");
            s.append(
                match state {
                    WakeFileState::Queued => "queued",
                    WakeFileState::Processed => "processed",
                    WakeFileState::Unknown => "unknown",
                },
            );
            s.append("] ");
            s.append(wake_source_name(w.source));
            s.append(" ");
            s.append(w.event_id.as_str());
        },
        Err(e) => {
            s.append(" (missing: ");
            s.append(e);
            s.append(")");
        },
    }
    s
}

/// What is wrong with a wake's payload: none where it references none; a
/// payload file that is gone; one that could not be read (`read_error`, the
/// store's error, where the file is there).
pub fn invalid_wake_payload_detail(payload_ref: Option<&str>, payload_exists: bool, read_error: Option<&str>) -> (r:
    Option<String>)
    ensures
        match payload_ref {
            None => r is None,
            Some(p) => if !payload_exists {
                r matches Some(t) && t@ == "references missing payload `"@ + p@ + "`"@
            } else {
                match read_error {
                    Some(e) => r matches Some(t) && t@ == "has unreadable payload: "@ + e@,
                    None => r is None,
                }
            },
        },
{
    let p = match payload_ref {
        Some(p) => p,
        None => return None,
    };
    if !payload_exists {
        let mut s = String::from_str("references missing payload `");
        s.append(p);
        s.append("`");
        return Some(s);
    }
    match read_error {
        Some(e) => {
            let mut s = String::from_str("has unreadable payload: ");
            s.append(e);
            Some(s)
        },
        None => None,
    }
}

/// An autoflow source names the issue's home: a repo source the GitHub or
/// GitLab project the issue lives in; a tracker source the issue's tracker
/// and project, where a Jira source without `/` names the project by its
/// key alone.
pub open spec fn spec_source_matches(source: EventSource, issue: IssueRef) -> bool {
    match source {
        EventSource::Repo { platform, owner, repo } => match issue.tracker {
            IssueTracker::Github => platform == Platform::Github && issue.project@ == owner@ + "/"@ + repo@,
            IssueTracker::Gitlab => platform == Platform::Gitlab && issue.project@ == owner@ + "/"@ + repo@,
            _ => false,
        },
        EventSource::TrackerProject { tracker, project } => tracker == issue.tracker && if tracker is Jira {
            project@ == issue.project@ || (!project@.contains('/') && last_segment(issue.project@) == project@)
        } else {
            project@ == issue.project@
        },
    }
}

/// A source covers only issues of its own kind of home: a GitHub repo the
/// GitHub issues of `owner/repo`, a GitLab repo its GitLab issues, never a
/// Linear or Jira issue; a tracker project only issues of the same tracker,
/// always those of exactly that project.
pub proof fn law_sources_cover_their_own_issues(source: EventSource, issue: IssueRef)
    ensures
        source matches EventSource::Repo { platform, owner, repo } ==> (platform is Github ==> (spec_source_matches(
            source,
            issue,
        ) <==> (issue.tracker is Github && issue.project@ == owner@ + "/"@ + repo@))),
        source matches EventSource::Repo { platform, owner, repo } ==> (platform is Gitlab ==> (spec_source_matches(
            source,
            issue,
        ) <==> (issue.tracker is Gitlab && issue.project@ == owner@ + "/"@ + repo@))),
        source matches EventSource::TrackerProject { tracker, project } ==> (tracker != issue.tracker ==> !spec_source_matches(
            source,
            issue,
        )),
        source matches EventSource::TrackerProject { tracker, project } ==> (tracker == issue.tracker && project@ == issue.project@
            ==> spec_source_matches(source, issue)),
        source matches EventSource::TrackerProject { tracker, project } ==> (!(tracker is Jira) ==> (spec_source_matches(
            source,
            issue,
        ) <==> (tracker == issue.tracker && project@ == issue.project@))),
{
}

fn project_is(owner: &str, repo: &str, project: &str) -> (r: bool)
    ensures
        r == (project@ == owner@ + "/"@ + repo@),
{
    let mut s = String::from_str(owner);
    s.append("/");
    s.append(repo);
    str_eq(s.as_str(), project)
}

/// Whether an autoflow source covers an issue.
pub fn source_matches_issue_ref(source: &EventSource, issue: &IssueRef) -> (r: bool)
    ensures
        r == spec_source_matches(*source, *issue),
{
    match source {
        EventSource::Repo { platform, owner, repo } => match issue.tracker {
            IssueTracker::Github => *platform == Platform::Github && project_is(
                owner.as_str(),
                repo.as_str(),
                issue.project.as_str(),
            ),
            IssueTracker::Gitlab => *platform == Platform::Gitlab && project_is(
                owner.as_str(),
                repo.as_str(),
                issue.project.as_str(),
            ),
            _ => false,
        },
        EventSource::TrackerProject { tracker, project } => {
            if *tracker != issue.tracker {
                return false;
            }
            if str_eq(project.as_str(), issue.project.as_str()) {
                return true;
            }
            match tracker {
                IssueTracker::Jira => {
                    let cs = chars_of(project.as_str());
                    let has_slash = find_char(cs.as_slice(), '/').is_some();
                    if has_slash {
                        return false;
                    }
                    let seg = last_segment_of(issue.project.as_str());
                    let ghost pv = project@;
                    let same = seg.len() == cs.len() && seq_eq(&seg, &cs);
                    proof {
                        if !has_slash {
                            assert(!pv.contains('/'));
                        }
                    }
                    same
                },
                _ => false,
            }
        },
    }
}

fn seq_eq(a: &Vec<char>, b: &Vec<char>) -> (r: bool)
    requires
        a@.len() == b@.len(),
    ensures
        r == (a@ == b@),
{
    let mut i: usize = 0;
    while i < a.len()
        invariant
            a@.len() == b@.len(),
            i <= a@.len(),
            forall|k: int| 0 <= k < i ==> a@[k] == b@[k],
        decreases a@.len() - i,
    {
        if a[i] != b[i] {
            return false;
        }
        i = i + 1;
    }
    proof {
        assert(a@ =~= b@);
    }
    true
}


/// The repo a requeued issue's wake is filed under: its claim's repo, else
/// the repo its reference names.
pub open spec fn spec_requeue_repo(claim_repo: Option<Seq<char>>, issue_ref: Seq<char>) -> Seq<char> {
    match claim_repo {
        Some(r) => r,
        None => match spec_parse_issue_ref(issue_ref) {
            Ok((t, p, n)) => if hosts_repos(t) {
                tracker_name(t) + ":"@ + p
            } else {
                "-"@
            },
            Err(_) => "-"@,
        },
    }
}

/// The repo to requeue an issue under; an error where neither its claim nor
/// its reference names one.
pub fn requeue_repo_ref(claim_repo: Option<&str>, issue_ref: &str) -> (r: Result<String, String>)
    ensures
        spec_requeue_repo(opt_view(claim_repo), issue_ref@) != "-"@ ==> (r matches Ok(s) && s@ == spec_requeue_repo(
            opt_view(claim_repo),
            issue_ref@,
        )),
        spec_requeue_repo(opt_view(claim_repo), issue_ref@) == "-"@ ==> (r matches Err(e) && e@
            == "could not resolve repo for `"@ + issue_ref@ + "`"@),
{
    let repo = match claim_repo {
        Some(r) => String::from_str(r),
        None => match issue_ref_to_repo_ref(issue_ref) {
            Ok(r) => r,
            Err(_) => String::from_str("-"),
        },
    };
    if str_eq(repo.as_str(), "-") {
        let mut e = String::from_str("could not resolve repo for `");
        e.append(issue_ref);
        e.append("`");
        return Err(e);
    }
    Ok(repo)
}

} // verus!

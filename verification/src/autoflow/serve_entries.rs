//! The issues a serve frame shows: each claim that is live or was touched
//! this pass, then each issue touched without a claim, ordered by how
//! urgent it is.

use vstd::prelude::*;
use vstd::string::*;
use crate::autoflow::claims::{claim_should_render_in_cycle_frame, AutoflowClaimRow};
use crate::autoflow::select::{lemma_lex_lt_irreflexive, lemma_lex_lt_total, lemma_lex_lt_transitive, lex_less, lex_lt};
use crate::autoflow::wake_hints::{insert_sorted, sorted_set, text_set};
use crate::text::str_eq;

verus! {

pub open spec fn spec_primary_rank(status: Seq<char>, has_events: bool) -> int {
    if (status == "running"@ || status == "claimed"@) && has_events {
        0
    } else if status == "running"@ || status == "claimed"@ {
        1
    } else if (status == "await_human"@ || status == "await_external"@ || status == "retry_backoff"@ || status
        == "blocked"@) && has_events {
        2
    } else if has_events {
        3
    } else if status == "complete"@ {
        5
    } else {
        4
    }
}

pub open spec fn spec_status_rank(status: Seq<char>) -> int {
    if status == "running"@ {
        0
    } else if status == "claimed"@ {
        1
    } else if status == "await_human"@ {
        2
    } else if status == "await_external"@ {
        3
    } else if status == "retry_backoff"@ {
        4
    } else if status == "blocked"@ {
        5
    } else if status == "complete"@ {
        7
    } else {
        6
    }
}

/// How urgent an issue is in a serve frame: active claims with news first,
/// then active claims, then waiting or blocked claims with news, then other
/// issues with news, then quiet ones, complete ones last; within a rank by
/// claim status. An issue without a claim counts as `detached`.
pub fn serve_issue_rank(status: Option<&str>, has_events: bool) -> (r: (u8, u8))
    ensures
        r.0 as int == spec_primary_rank(
            match status {
                Some(s) => s@,
                None => "detached"@,
            },
            has_events,
        ),
        r.1 as int == spec_status_rank(
            match status {
                Some(s) => s@,
                None => "detached"@,
            },
        ),
{
    let s = match status {
        Some(s) => s,
        None => "detached",
    };
    let active = str_eq(s, "running") || str_eq(s, "claimed");
    let waiting = str_eq(s, "await_human") || str_eq(s, "await_external") || str_eq(s, "retry_backoff") || str_eq(
        s,
        "blocked",
    );
    let primary: u8 = if active && has_events {
        0
    } else if active {
        1
    } else if waiting && has_events {
        2
    } else if has_events {
        3
    } else if str_eq(s, "complete") {
        5
    } else {
        4
    };
    let rank: u8 = if str_eq(s, "running") {
        0
    } else if str_eq(s, "claimed") {
        1
    } else if str_eq(s, "await_human") {
        2
    } else if str_eq(s, "await_external") {
        3
    } else if str_eq(s, "retry_backoff") {
        4
    } else if str_eq(s, "blocked") {
        5
    } else if str_eq(s, "complete") {
        7
    } else {
        6
    };
    (primary, rank)
}

/// An issue shown in a serve frame: its claim (an index into the claims)
/// and the events (indices into the pass's events) about it.
#[derive(Debug, Clone)]
pub struct ServeIssueEntry {
    pub issue_ref: String,
    pub claim: Option<usize>,
    pub events: Vec<usize>,
}

/// Event `k` is about issue `r`.
pub open spec fn ev_about(evs: Seq<Option<String>>, k: int, r: Seq<char>) -> bool {
    evs[k] matches Some(x) && x@ == r
}

/// `idx` lists, in order, every event about issue `r`.
pub open spec fn events_ok(evs: Seq<Option<String>>, r: Seq<char>, idx: Seq<usize>) -> bool {
    &&& forall|a: int, b: int| 0 <= a < b < idx.len() ==> idx[a] < idx[b]
    &&& forall|a: int| 0 <= a < idx.len() ==> (#[trigger] idx[a]) < evs.len() && ev_about(evs, idx[a] as int, r)
    &&& forall|k: int| 0 <= k < evs.len() && ev_about(evs, k, r) ==> idx.contains(k as usize)
}

/// Claim `i` is the first claim on its issue: it takes the issue's events.
pub open spec fn first_on_issue(claims: Seq<AutoflowClaimRow>, i: int) -> bool {
    forall|j: int| 0 <= j < i ==> claims[j].issue@ != claims[i].issue@
}

/// Claim `i` shows: it takes events of its issue, or it is not complete.
pub open spec fn claim_shown(claims: Seq<AutoflowClaimRow>, evs: Seq<Option<String>>, i: int) -> bool {
    (first_on_issue(claims, i) && exists|k: int| 0 <= k < evs.len() && ev_about(evs, k, claims[i].issue@))
        || claims[i].status@ != "complete"@
}

/// Issue `r` was touched this pass without a claim.
pub open spec fn event_only(claims: Seq<AutoflowClaimRow>, evs: Seq<Option<String>>, r: Seq<char>) -> bool {
    &&& exists|k: int| 0 <= k < evs.len() && ev_about(evs, k, r)
    &&& forall|i: int| 0 <= i < claims.len() ==> claims[i].issue@ != r
}

/// An entry is right for the claims and events it is built from.
pub open spec fn entry_ok(claims: Seq<AutoflowClaimRow>, evs: Seq<Option<String>>, e: ServeIssueEntry) -> bool {
    match e.claim {
        Some(i) => {
            &&& i < claims.len()
            &&& claim_shown(claims, evs, i as int)
            &&& e.issue_ref@ == claims[i as int].issue@
            &&& if first_on_issue(claims, i as int) {
                events_ok(evs, e.issue_ref@, e.events@)
            } else {
                e.events@.len() == 0
            }
        },
        None => event_only(claims, evs, e.issue_ref@) && events_ok(evs, e.issue_ref@, e.events@),
    }
}

/// Every shown claim and every issue touched without a claim has exactly
/// one entry, and every entry is right.
pub open spec fn entries_complete(claims: Seq<AutoflowClaimRow>, evs: Seq<Option<String>>, es: Seq<ServeIssueEntry>) -> bool {
    &&& forall|k: int| 0 <= k < es.len() ==> entry_ok(claims, evs, #[trigger] es[k])
    &&& forall|i: int| 0 <= i < claims.len() && claim_shown(claims, evs, i) ==> exists|k: int|
        0 <= k < es.len() && (#[trigger] es[k]).claim == Some(i as usize)
    &&& forall|r: Seq<char>| event_only(claims, evs, r) ==> exists|k: int|
        0 <= k < es.len() && (#[trigger] es[k]).claim is None && es[k].issue_ref@ == r
    &&& forall|a: int, b: int|
        0 <= a < b < es.len() ==> !((#[trigger] es[a]).claim is Some && es[a].claim == (#[trigger] es[b]).claim)
    &&& forall|a: int, b: int|
        0 <= a < b < es.len() ==> !((#[trigger] es[a]).claim is None && es[b].claim is None && es[a].issue_ref@
            == (#[trigger] es[b]).issue_ref@)
}

/// The events about issue `r`, in order.
fn events_about(evs: &Vec<Option<String>>, r: &str) -> (idx: Vec<usize>)
    ensures
        events_ok(evs@, r@, idx@),
{
    let mut idx: Vec<usize> = Vec::new();
    let mut k: usize = 0;
    while k < evs.len()
        invariant
            k <= evs@.len(),
            forall|a: int, b: int| 0 <= a < b < idx@.len() ==> idx@[a] < idx@[b],
            forall|a: int| 0 <= a < idx@.len() ==> (#[trigger] idx@[a]) < k && ev_about(evs@, idx@[a] as int, r@),
            forall|m: int| 0 <= m < k && ev_about(evs@, m, r@) ==> idx@.contains(m as usize),
        decreases evs@.len() - k,
    {
        let about = match &evs[k] {
            Some(x) => str_eq(x.as_str(), r),
            None => false,
        };
        if about {
            let ghost before = idx@;
            idx.push(k);
            proof {
                assert forall|m: int| 0 <= m < k + 1 && ev_about(evs@, m, r@) implies idx@.contains(m as usize) by {
                    if m < k {
                        let a = choose|a: int| 0 <= a < before.len() && before[a] == m as usize;
                        assert(idx@[a] == m as usize);
                    } else {
                        assert(idx@[idx@.len() - 1] == k);
                    }
                }
            }
        }
        k = k + 1;
    }
    idx
}

/// The issue of event `e`, if any, is among `refs`.
pub open spec fn ref_known(refs: Seq<String>, e: Option<String>) -> bool {
    match e {
        Some(x) => text_set(refs).contains(x@),
        None => true,
    }
}

fn first_claim_on_issue(claims: &Vec<AutoflowClaimRow>, i: usize) -> (r: bool)
    requires
        i < claims@.len(),
    ensures
        r == first_on_issue(claims@, i as int),
{
    let mut j: usize = 0;
    while j < i
        invariant
            i < claims@.len(),
            j <= i,
            forall|m: int| 0 <= m < j ==> claims@[m].issue@ != claims@[i as int].issue@,
        decreases i - j,
    {
        if str_eq(claims[j].issue.as_str(), claims[i].issue.as_str()) {
            return false;
        }
        j = j + 1;
    }
    true
}

/// The entries of the shown claims, in claim order.
fn claim_entries(claims: &Vec<AutoflowClaimRow>, evs: &Vec<Option<String>>) -> (es: Vec<ServeIssueEntry>)
    ensures
        forall|k: int| 0 <= k < es@.len() ==> (#[trigger] es@[k]).claim is Some && entry_ok(claims@, evs@, es@[k]),
        forall|i: int| 0 <= i < claims@.len() && claim_shown(claims@, evs@, i) ==> exists|k: int|
            0 <= k < es@.len() && (#[trigger] es@[k]).claim == Some(i as usize),
        forall|a: int, b: int| 0 <= a < b < es@.len() ==> (#[trigger] es@[a]).claim->0 < (#[trigger] es@[b]).claim->0,
{
    let mut es: Vec<ServeIssueEntry> = Vec::new();
    let mut i: usize = 0;
    while i < claims.len()
        invariant
            i <= claims@.len(),
            forall|k: int| 0 <= k < es@.len() ==> (#[trigger] es@[k]).claim is Some && entry_ok(claims@, evs@, es@[k]),
            forall|k: int| 0 <= k < es@.len() ==> (#[trigger] es@[k]).claim->0 < i,
            forall|m: int| 0 <= m < i && claim_shown(claims@, evs@, m) ==> exists|k: int|
                0 <= k < es@.len() && (#[trigger] es@[k]).claim == Some(m as usize),
            forall|a: int, b: int| 0 <= a < b < es@.len() ==> (#[trigger] es@[a]).claim->0 < (#[trigger] es@[b]).claim->0,
        decreases claims@.len() - i,
    {
        let first = first_claim_on_issue(claims, i);
        let events = if first {
            events_about(evs, claims[i].issue.as_str())
        } else {
            Vec::new()
        };
        proof {
            let r = claims@[i as int].issue@;
            if first {
                if events@.len() > 0 {
                    assert(ev_about(evs@, events@[0] as int, r));
                }
                if exists|k: int| 0 <= k < evs@.len() && ev_about(evs@, k, r) {
                    let k = choose|k: int| 0 <= k < evs@.len() && ev_about(evs@, k, r);
                    assert(events@.contains(k as usize));
                }
            }
        }
        if claim_should_render_in_cycle_frame(&claims[i], events.len()) {
            let ghost before = es@;
            es.push(ServeIssueEntry { issue_ref: claims[i].issue.clone(), claim: Some(i), events });
            proof {
                assert forall|m: int| 0 <= m < i + 1 && claim_shown(claims@, evs@, m) implies exists|k: int|
                    0 <= k < es@.len() && (#[trigger] es@[k]).claim == Some(m as usize) by {
                    if m < i {
                        let k = choose|k: int| 0 <= k < before.len() && (#[trigger] before[k]).claim == Some(m as usize);
                        assert(es@[k] == before[k]);
                    } else {
                        assert(es@[es@.len() - 1].claim == Some(m as usize));
                    }
                }
                assert forall|k: int| 0 <= k < es@.len() implies (#[trigger] es@[k]).claim is Some && entry_ok(
                    claims@,
                    evs@,
                    es@[k],
                ) by {
                    if k < before.len() {
                        assert(es@[k] == before[k]);
                    }
                }
            }
        } else {
            proof {
                assert(!claim_shown(claims@, evs@, i as int));
            }
        }
        i = i + 1;
    }
    es
}

/// The entries of the issues touched without a claim, in ascending order.
fn event_only_entries(claims: &Vec<AutoflowClaimRow>, evs: &Vec<Option<String>>) -> (es: Vec<ServeIssueEntry>)
    ensures
        forall|k: int| 0 <= k < es@.len() ==> (#[trigger] es@[k]).claim is None && entry_ok(claims@, evs@, es@[k]),
        forall|r: Seq<char>| event_only(claims@, evs@, r) ==> exists|k: int|
            0 <= k < es@.len() && (#[trigger] es@[k]).issue_ref@ == r,
        forall|a: int, b: int| 0 <= a < b < es@.len() ==> lex_lt((#[trigger] es@[a]).issue_ref@, (#[trigger] es@[b]).issue_ref@),
{
    let mut refs: Vec<String> = Vec::new();
    let mut k: usize = 0;
    proof {
        assert(text_set(refs@) =~= Set::<Seq<char>>::empty());
    }
    while k < evs.len()
        invariant
            k <= evs@.len(),
            sorted_set(refs@),
            forall|m: int| 0 <= m < k ==> ref_known(refs@, #[trigger] evs@[m]),
            forall|t: Seq<char>| text_set(refs@).contains(t) ==> exists|m: int| 0 <= m < k && ev_about(evs@, m, t),
        decreases evs@.len() - k,
    {
        let ghost prev = text_set(refs@);
        match &evs[k] {
            Some(x) => {
                insert_sorted(&mut refs, x.as_str());
            },
            None => {},
        }
        proof {
            assert forall|m: int| 0 <= m < k + 1 implies ref_known(refs@, #[trigger] evs@[m]) by {
                if m < k {
                    if let Some(x) = evs@[m] {
                        assert(prev.contains(x@));
                    }
                }
            }
            assert forall|t: Seq<char>| text_set(refs@).contains(t) implies exists|m: int|
                0 <= m < k + 1 && ev_about(evs@, m, t) by {
                if prev.contains(t) {
                    let m = choose|m: int| 0 <= m < k && ev_about(evs@, m, t);
                } else {
                    assert(ev_about(evs@, k as int, t));
                }
            }
        }
        k = k + 1;
    }
    let mut es: Vec<ServeIssueEntry> = Vec::new();
    let mut g: usize = 0;
    while g < refs.len()
        invariant
            g <= refs@.len(),
            sorted_set(refs@),
            forall|m: int| 0 <= m < evs@.len() ==> ref_known(refs@, #[trigger] evs@[m]),
            forall|t: Seq<char>| text_set(refs@).contains(t) ==> exists|m: int| 0 <= m < evs@.len() && ev_about(evs@, m, t),
            forall|q: int| 0 <= q < es@.len() ==> (#[trigger] es@[q]).claim is None && entry_ok(claims@, evs@, es@[q]),
            forall|q: int| 0 <= q < es@.len() ==> exists|c: int| 0 <= c < g && (#[trigger] es@[q]).issue_ref@ == refs@[c]@,
            forall|c: int| 0 <= c < g && event_only(claims@, evs@, refs@[c]@) ==> exists|q: int|
                0 <= q < es@.len() && (#[trigger] es@[q]).issue_ref@ == refs@[c]@,
            forall|a: int, b: int|
                0 <= a < b < es@.len() ==> lex_lt((#[trigger] es@[a]).issue_ref@, (#[trigger] es@[b]).issue_ref@),
            forall|q: int, c: int|
                0 <= q < es@.len() && g <= c < refs@.len() ==> lex_lt((#[trigger] es@[q]).issue_ref@, (#[trigger] refs@[c])@),
        decreases refs@.len() - g,
    {
        let r = refs[g].as_str();
        let mut claimed = false;
        let mut i: usize = 0;
        while i < claims.len() && !claimed
            invariant
                i <= claims@.len(),
                !claimed ==> forall|m: int| 0 <= m < i ==> claims@[m].issue@ != r@,
                claimed ==> exists|m: int| 0 <= m < claims@.len() && claims@[m].issue@ == r@,
            decreases claims@.len() - i,
        {
            if str_eq(claims[i].issue.as_str(), r) {
                claimed = true;
            }
            i = i + 1;
        }
        if !claimed {
            let events = events_about(evs, r);
            let ghost before = es@;
            proof {
                assert(text_set(refs@).contains(refs@[g as int]@));
                assert(event_only(claims@, evs@, r@));
            }
            es.push(ServeIssueEntry { issue_ref: refs[g].clone(), claim: None, events });
            proof {
                assert forall|q: int| 0 <= q < es@.len() implies (#[trigger] es@[q]).claim is None && entry_ok(
                    claims@,
                    evs@,
                    es@[q],
                ) by {
                    if q < before.len() {
                        assert(es@[q] == before[q]);
                    }
                }
                assert forall|q: int| 0 <= q < es@.len() implies exists|c: int|
                    0 <= c < g + 1 && (#[trigger] es@[q]).issue_ref@ == refs@[c]@ by {
                    if q < before.len() {
                        assert(es@[q] == before[q]);
                        let c = choose|c: int| 0 <= c < g && (#[trigger] before[q]).issue_ref@ == refs@[c]@;
                    } else {
                        assert(es@[q].issue_ref@ == refs@[g as int]@);
                    }
                }
                assert forall|c: int| 0 <= c < g + 1 && event_only(claims@, evs@, refs@[c]@) implies exists|q: int|
                    0 <= q < es@.len() && (#[trigger] es@[q]).issue_ref@ == refs@[c]@ by {
                    if c < g {
                        let q = choose|q: int| 0 <= q < before.len() && (#[trigger] before[q]).issue_ref@ == refs@[c]@;
                        assert(es@[q] == before[q]);
                    } else {
                        assert(es@[es@.len() - 1].issue_ref@ == refs@[c]@);
                    }
                }
                assert forall|a: int, b: int| 0 <= a < b < es@.len() implies lex_lt(
                    (#[trigger] es@[a]).issue_ref@,
                    (#[trigger] es@[b]).issue_ref@,
                ) by {
                    assert(es@[a] == before[a]);
                    if b < before.len() {
                        assert(es@[b] == before[b]);
                    }
                }
                assert forall|q: int, c: int| 0 <= q < es@.len() && g + 1 <= c < refs@.len() implies lex_lt(
                    (#[trigger] es@[q]).issue_ref@,
                    (#[trigger] refs@[c])@,
                ) by {
                    if q < before.len() {
                        assert(es@[q] == before[q]);
                    } else {
                        assert(es@[q].issue_ref@ == refs@[g as int]@);
                    }
                }
            }
        } else {
            proof {
                assert forall|q: int, c: int| 0 <= q < es@.len() && g + 1 <= c < refs@.len() implies lex_lt(
                    (#[trigger] es@[q]).issue_ref@,
                    (#[trigger] refs@[c])@,
                ) by {
                }
            }
        }
        g = g + 1;
    }
    proof {
        assert forall|r: Seq<char>| event_only(claims@, evs@, r) implies exists|q: int|
            0 <= q < es@.len() && (#[trigger] es@[q]).issue_ref@ == r by {
            let m = choose|m: int| 0 <= m < evs@.len() && ev_about(evs@, m, r);
            assert(ref_known(refs@, evs@[m]));
            assert(text_set(refs@).contains(r));
            let c = choose|c: int| 0 <= c < refs@.len() && (#[trigger] refs@[c])@ == r;
        }
    }
    es
}

/// The status an entry is ranked by: its claim's, or `detached`.
pub open spec fn entry_status(claims: Seq<AutoflowClaimRow>, e: ServeIssueEntry) -> Seq<char> {
    match e.claim {
        Some(i) => claims[i as int].status@,
        None => "detached"@,
    }
}

/// The order of a serve frame's entries: rank, then status rank, then issue.
pub open spec fn entry_key(claims: Seq<AutoflowClaimRow>, e: ServeIssueEntry) -> (int, int, Seq<char>) {
    (
        spec_primary_rank(entry_status(claims, e), e.events@.len() > 0),
        spec_status_rank(entry_status(claims, e)),
        e.issue_ref@,
    )
}

pub open spec fn key_lt(a: (int, int, Seq<char>), b: (int, int, Seq<char>)) -> bool {
    a.0 < b.0 || (a.0 == b.0 && (a.1 < b.1 || (a.1 == b.1 && lex_lt(a.2, b.2))))
}

proof fn lemma_key_lt_transitive(a: (int, int, Seq<char>), b: (int, int, Seq<char>), c: (int, int, Seq<char>))
    requires
        key_lt(a, b),
        key_lt(b, c),
    ensures
        key_lt(a, c),
{
    if a.0 == b.0 && b.0 == c.0 && a.1 == b.1 && b.1 == c.1 {
        lemma_lex_lt_transitive(a.2, b.2, c.2);
    }
}

proof fn lemma_key_lt_asymmetric(a: (int, int, Seq<char>), b: (int, int, Seq<char>))
    requires
        key_lt(a, b),
    ensures
        !key_lt(b, a),
{
    if key_lt(b, a) {
        lemma_key_lt_transitive(a, b, a);
        lemma_lex_lt_irreflexive(a.2);
    }
}

proof fn lemma_key_lt_total(a: (int, int, Seq<char>), b: (int, int, Seq<char>))
    ensures
        key_lt(a, b) || key_lt(b, a) || a == b,
{
    lemma_lex_lt_total(a.2, b.2);
}

/// Entries in frame order: none comes before one that ranks ahead of it.
pub open spec fn frame_ordered(claims: Seq<AutoflowClaimRow>, es: Seq<ServeIssueEntry>) -> bool {
    forall|a: int, b: int| 0 <= a < b < es.len() ==> !key_lt(entry_key(claims, #[trigger] es[b]), entry_key(claims, #[trigger] es[a]))
}

/// The claims an entry refers to exist.
pub open spec fn claims_in_range(claims: Seq<AutoflowClaimRow>, es: Seq<ServeIssueEntry>) -> bool {
    forall|k: int| 0 <= k < es.len() ==> ((#[trigger] es[k]).claim matches Some(i) ==> i < claims.len())
}

fn entry_ranks_ahead(claims: &Vec<AutoflowClaimRow>, a: &ServeIssueEntry, b: &ServeIssueEntry) -> (r: bool)
    requires
        a.claim matches Some(i) ==> i < claims@.len(),
        b.claim matches Some(i) ==> i < claims@.len(),
    ensures
        r == key_lt(entry_key(claims@, *a), entry_key(claims@, *b)),
{
    let sa = match a.claim {
        Some(i) => Some(claims[i].status.as_str()),
        None => None,
    };
    let sb = match b.claim {
        Some(i) => Some(claims[i].status.as_str()),
        None => None,
    };
    let ka = serve_issue_rank(sa, a.events.len() > 0);
    let kb = serve_issue_rank(sb, b.events.len() > 0);
    ka.0 < kb.0 || (ka.0 == kb.0 && (ka.1 < kb.1 || (ka.1 == kb.1 && lex_less(a.issue_ref.as_str(), b.issue_ref.as_str()))))
}

/// `r` holds the entries of `es`, each once: `r[k]` is `es[perm[k]]`.
pub open spec fn rearranged(es: Seq<ServeIssueEntry>, r: Seq<ServeIssueEntry>, perm: Seq<int>) -> bool {
    &&& perm.len() == r.len()
    &&& r.len() == es.len()
    &&& forall|k: int| 0 <= k < perm.len() ==> 0 <= #[trigger] perm[k] < es.len() && r[k] == es[perm[k]]
    &&& forall|a: int, b: int| 0 <= a < b < perm.len() ==> #[trigger] perm[a] != #[trigger] perm[b]
    &&& forall|j: int| 0 <= j < es.len() ==> #[trigger] covered(perm, j)
}

/// Entries of `r` that rank the same keep the order they had: where
/// `r[k]` is `es[perm[k]]`, the earlier of two such entries came first.
pub open spec fn keeps_ties(claims: Seq<AutoflowClaimRow>, r: Seq<ServeIssueEntry>, perm: Seq<int>) -> bool {
    forall|a: int, b: int|
        0 <= a < b < r.len() && entry_key(claims, r[a]) == entry_key(claims, r[b]) ==> #[trigger] perm[a] < #[trigger] perm[b]
}

/// Some position of `perm` holds `j`.
pub open spec fn covered(perm: Seq<int>, j: int) -> bool {
    exists|k: int| 0 <= k < perm.len() && #[trigger] perm[k] == j
}

/// Put the entries in frame order, keeping the order of entries that rank
/// the same.
pub fn sort_serve_entries(es: Vec<ServeIssueEntry>, claims: &Vec<AutoflowClaimRow>) -> (r: Vec<ServeIssueEntry>)
    requires
        claims_in_range(claims@, es@),
    ensures
        frame_ordered(claims@, r@),
        exists|perm: Seq<int>| rearranged(es@, r@, perm) && keeps_ties(claims@, r@, perm),
{
    let ghost all = es@;
    let total = es.len();
    let mut rest = es;
    let mut out: Vec<ServeIssueEntry> = Vec::new();
    let ghost mut perm: Seq<int> = Seq::empty();
    let mut m: usize = 0;
    proof {
        assert(rest@ =~= all.subrange(0, total as int));
    }
    while rest.len() > 0
        invariant
            all.len() == total,
            claims_in_range(claims@, all),
            m + rest@.len() == total,
            rest@ == all.subrange(m as int, total as int),
            frame_ordered(claims@, out@),
            claims_in_range(claims@, out@),
            perm.len() == out@.len(),
            out@.len() == m,
            forall|k: int| 0 <= k < perm.len() ==> 0 <= #[trigger] perm[k] < m && out@[k] == all[perm[k]],
            forall|a: int, b: int| 0 <= a < b < perm.len() ==> #[trigger] perm[a] != #[trigger] perm[b],
            forall|j: int| 0 <= j < m ==> #[trigger] covered(perm, j),
            keeps_ties(claims@, out@, perm),
        decreases rest@.len(),
    {
        let x = rest.remove(0);
        proof {
            assert(x == all[m as int]);
            assert(rest@ =~= all.subrange(m + 1, total as int));
        }
        proof {
            assert(all[m as int].claim matches Some(i) ==> i < claims@.len());
        }
        let mut p: usize = 0;
        while p < out.len() && !entry_ranks_ahead(claims, &x, &out[p])
            invariant
                p <= out@.len(),
                claims_in_range(claims@, out@),
                x.claim matches Some(i) ==> i < claims@.len(),
                x == all[m as int],
                claims_in_range(claims@, all),
                forall|k: int| 0 <= k < perm.len() ==> 0 <= #[trigger] perm[k] < m && out@[k] == all[perm[k]],
                perm.len() == out@.len(),
                m < total,
                forall|k: int| 0 <= k < p ==> !key_lt(entry_key(claims@, x), entry_key(claims@, #[trigger] out@[k])),
            decreases out@.len() - p,
        {
            proof {
                assert(out@[p as int] == all[perm[p as int]]);
            }
            p = p + 1;
        }
        let ghost pre = out@;
        let ghost pperm = perm;
        proof {
            assert forall|b: int| p <= b < pre.len() implies key_lt(
                entry_key(claims@, x),
                entry_key(claims@, #[trigger] pre[b]),
            ) by {
                if b > p {
                    lemma_key_lt_total(entry_key(claims@, pre[p as int]), entry_key(claims@, pre[b]));
                    assert(!key_lt(entry_key(claims@, pre[b]), entry_key(claims@, pre[p as int])));
                    if key_lt(entry_key(claims@, pre[p as int]), entry_key(claims@, pre[b])) {
                        lemma_key_lt_transitive(
                            entry_key(claims@, x),
                            entry_key(claims@, pre[p as int]),
                            entry_key(claims@, pre[b]),
                        );
                    }
                }
            }
        }
        out.insert(p, x);
        proof {
            perm = pperm.insert(p as int, m as int);
            assert forall|k: int| 0 <= k < out@.len() implies ((#[trigger] out@[k]).claim matches Some(i) ==> i
                < claims@.len()) by {
                if k < p {
                    assert(out@[k] == pre[k]);
                } else if k > p {
                    assert(out@[k] == pre[k - 1]);
                }
            }
            assert forall|a: int, b: int| 0 <= a < b < out@.len() implies !key_lt(
                entry_key(claims@, #[trigger] out@[b]),
                entry_key(claims@, #[trigger] out@[a]),
            ) by {
                if b < p {
                    assert(out@[a] == pre[a] && out@[b] == pre[b]);
                } else if b == p {
                    assert(out@[a] == pre[a]);
                } else if a < p {
                    assert(out@[a] == pre[a] && out@[b] == pre[b - 1]);
                    if key_lt(entry_key(claims@, pre[b - 1]), entry_key(claims@, pre[a])) {
                        lemma_key_lt_transitive(entry_key(claims@, x), entry_key(claims@, pre[b - 1]), entry_key(claims@, pre[a]));
                    }
                } else if a == p {
                    assert(out@[b] == pre[b - 1]);
                    lemma_key_lt_asymmetric(entry_key(claims@, x), entry_key(claims@, pre[b - 1]));
                } else {
                    assert(out@[a] == pre[a - 1] && out@[b] == pre[b - 1]);
                }
            }
            assert forall|k: int| 0 <= k < perm.len() implies 0 <= #[trigger] perm[k] < m + 1 && out@[k] == all[perm[k]] by {
                if k < p {
                    assert(perm[k] == pperm[k] && out@[k] == pre[k]);
                } else if k > p {
                    assert(perm[k] == pperm[k - 1] && out@[k] == pre[k - 1]);
                }
            }
            assert forall|a: int, b: int| 0 <= a < b < perm.len() implies #[trigger] perm[a] != #[trigger] perm[b] by {
                let a0 = if a < p { a } else { a - 1 };
                let b0 = if b < p { b } else { b - 1 };
                if a != p && b != p {
                    assert(perm[a] == pperm[a0] && perm[b] == pperm[b0]);
                } else if a == p {
                    assert(perm[b] == pperm[b0]);
                } else {
                    assert(perm[a] == pperm[a0]);
                }
            }
            assert forall|a: int, b: int|
                0 <= a < b < out@.len() && entry_key(claims@, out@[a]) == entry_key(claims@, out@[b]) implies #[trigger] perm[a]
                < #[trigger] perm[b] by {
                let a0 = if a < p { a } else { a - 1 };
                let b0 = if b < p { b } else { b - 1 };
                if a != p && b != p {
                    assert(perm[a] == pperm[a0] && perm[b] == pperm[b0]);
                    assert(out@[a] == pre[a0] && out@[b] == pre[b0]);
                } else if a == p {
                    assert(out@[b] == pre[b0]);
                    lemma_key_lt_asymmetric(entry_key(claims@, x), entry_key(claims@, pre[b0]));
                } else {
                    assert(perm[a] == pperm[a0]);
                }
            }
            assert forall|j: int| 0 <= j < m + 1 implies #[trigger] covered(perm, j) by {
                if j < m {
                    assert(covered(pperm, j));
                    let k0 = choose|k: int| 0 <= k < pperm.len() && #[trigger] pperm[k] == j;
                    if k0 < p {
                        assert(perm[k0] == j);
                    } else {
                        assert(perm[k0 + 1] == j);
                    }
                } else {
                    assert(perm[p as int] == j);
                }
            }
        }
        m = m + 1;
    }
    proof {
        assert(rearranged(all, out@, perm));
        assert(keeps_ties(claims@, out@, perm));
    }
    out
}

proof fn lemma_rearranged_complete(
    claims: Seq<AutoflowClaimRow>,
    evs: Seq<Option<String>>,
    es: Seq<ServeIssueEntry>,
    r: Seq<ServeIssueEntry>,
    perm: Seq<int>,
)
    requires
        entries_complete(claims, evs, es),
        rearranged(es, r, perm),
    ensures
        entries_complete(claims, evs, r),
{
    assert forall|k: int| 0 <= k < r.len() implies entry_ok(claims, evs, #[trigger] r[k]) by {
        assert(r[k] == es[perm[k]]);
    }
    assert forall|i: int| 0 <= i < claims.len() && claim_shown(claims, evs, i) implies exists|k: int|
        0 <= k < r.len() && (#[trigger] r[k]).claim == Some(i as usize) by {
        let j = choose|j: int| 0 <= j < es.len() && (#[trigger] es[j]).claim == Some(i as usize);
        assert(covered(perm, j));
        let k = choose|k: int| 0 <= k < perm.len() && #[trigger] perm[k] == j;
        assert(r[k] == es[j]);
    }
    assert forall|t: Seq<char>| event_only(claims, evs, t) implies exists|k: int|
        0 <= k < r.len() && (#[trigger] r[k]).claim is None && r[k].issue_ref@ == t by {
        let j = choose|j: int| 0 <= j < es.len() && (#[trigger] es[j]).claim is None && es[j].issue_ref@ == t;
        assert(covered(perm, j));
        let k = choose|k: int| 0 <= k < perm.len() && #[trigger] perm[k] == j;
        assert(r[k] == es[j]);
    }
    assert forall|a: int, b: int| 0 <= a < b < r.len() implies !((#[trigger] r[a]).claim is Some && r[a].claim == (
    #[trigger] r[b]).claim) by {
        let pa = perm[a];
        let pb = perm[b];
        assert(r[a] == es[pa] && r[b] == es[pb]);
        assert(pa != pb);
        if pa < pb {
            assert(!(es[pa].claim is Some && es[pa].claim == es[pb].claim));
        } else {
            assert(!(es[pb].claim is Some && es[pb].claim == es[pa].claim));
        }
    }
    assert forall|a: int, b: int| 0 <= a < b < r.len() implies !((#[trigger] r[a]).claim is None && r[b].claim is None
        && r[a].issue_ref@ == (#[trigger] r[b]).issue_ref@) by {
        let pa = perm[a];
        let pb = perm[b];
        assert(r[a] == es[pa] && r[b] == es[pb]);
        assert(pa != pb);
        if pa < pb {
            assert(!(es[pa].claim is None && es[pb].claim is None && es[pa].issue_ref@ == es[pb].issue_ref@));
        } else {
            assert(!(es[pb].claim is None && es[pa].claim is None && es[pb].issue_ref@ == es[pa].issue_ref@));
        }
    }
}

/// The issues a serve frame shows for the claims and this pass's events
/// (each event's issue, if any): one entry for each claim that is not
/// complete or was touched (the first claim on an issue takes its events),
/// one for each issue touched without a claim, in frame order.
pub fn build_serve_issue_entries(claims: &Vec<AutoflowClaimRow>, event_issues: &Vec<Option<String>>) -> (r: Vec<
    ServeIssueEntry,
>)
    ensures
        entries_complete(claims@, event_issues@, r@),
        frame_ordered(claims@, r@),
{
    let mut es = claim_entries(claims, event_issues);
    let mut more = event_only_entries(claims, event_issues);
    let ghost a = es@;
    let ghost b = more@;
    es.append(&mut more);
    proof {
        let l = es@;
        assert(l =~= a + b);
        assert forall|k: int| 0 <= k < l.len() implies entry_ok(claims@, event_issues@, #[trigger] l[k]) by {
            if k < a.len() {
                assert(l[k] == a[k]);
            } else {
                assert(l[k] == b[k - a.len()]);
            }
        }
        assert forall|i: int| 0 <= i < claims@.len() && claim_shown(claims@, event_issues@, i) implies exists|k: int|
            0 <= k < l.len() && (#[trigger] l[k]).claim == Some(i as usize) by {
            let k = choose|k: int| 0 <= k < a.len() && (#[trigger] a[k]).claim == Some(i as usize);
            assert(l[k] == a[k]);
        }
        assert forall|t: Seq<char>| event_only(claims@, event_issues@, t) implies exists|k: int|
            0 <= k < l.len() && (#[trigger] l[k]).claim is None && l[k].issue_ref@ == t by {
            let k = choose|k: int| 0 <= k < b.len() && (#[trigger] b[k]).issue_ref@ == t;
            assert(l[a.len() + k] == b[k]);
        }
        assert forall|x: int, y: int| 0 <= x < y < l.len() implies !((#[trigger] l[x]).claim is Some && l[x].claim == (
        #[trigger] l[y]).claim) by {
            if y < a.len() {
                assert(l[x] == a[x] && l[y] == a[y]);
            } else if x >= a.len() {
                assert(l[x] == b[x - a.len()]);
            } else {
                assert(l[x] == a[x] && l[y] == b[y - a.len()]);
            }
        }
        assert forall|x: int, y: int| 0 <= x < y < l.len() implies !((#[trigger] l[x]).claim is None && l[y].claim is None
            && l[x].issue_ref@ == (#[trigger] l[y]).issue_ref@) by {
            if y < a.len() {
                assert(l[x] == a[x] && l[y] == a[y]);
            } else if x >= a.len() {
                assert(l[x] == b[x - a.len()] && l[y] == b[y - a.len()]);
                lemma_lex_lt_irreflexive(l[x].issue_ref@);
            } else {
                assert(l[x] == a[x]);
            }
        }
        assert forall|k: int| 0 <= k < l.len() implies ((#[trigger] l[k]).claim matches Some(i) ==> i < claims@.len()) by {
            if k < a.len() {
                assert(l[k] == a[k]);
            } else {
                assert(l[k] == b[k - a.len()]);
            }
        }
    }
    let ghost l = es@;
    let sorted = sort_serve_entries(es, claims);
    proof {
        let perm = choose|perm: Seq<int>| rearranged(l, sorted@, perm);
        lemma_rearranged_complete(claims@, event_issues@, l, sorted@, perm);
    }
    sorted
}

} // verus!

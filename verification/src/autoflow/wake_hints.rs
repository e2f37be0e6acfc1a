//! The wake events due in a pass, grouped by repo and by issue, kept as
//! sorted sets of event ids.

use vstd::prelude::*;
use vstd::string::*;
use crate::autoflow::select::{lemma_lex_lt_irreflexive, lemma_lex_lt_total, lemma_lex_lt_transitive, lex_less, lex_lt};
use crate::text::str_eq;

verus! {

/// The texts are in strictly ascending `str` order.
pub open spec fn sorted_set(v: Seq<String>) -> bool {
    forall|i: int, j: int| 0 <= i < j < v.len() ==> lex_lt((#[trigger] v[i])@, (#[trigger] v[j])@)
}

/// The texts of `v`.
pub open spec fn text_set(v: Seq<String>) -> Set<Seq<char>> {
    Set::new(|t: Seq<char>| exists|i: int| 0 <= i < v.len() && (#[trigger] v[i])@ == t)
}

/// Add `s` to a sorted set of texts.
pub fn insert_sorted(v: &mut Vec<String>, s: &str)
    requires
        sorted_set(old(v)@),
    ensures
        sorted_set(final(v)@),
        text_set(final(v)@) == text_set(old(v)@).insert(s@),
{
    let mut i: usize = 0;
    while i < v.len() && lex_less(v[i].as_str(), s)
        invariant
            i <= v@.len(),
            sorted_set(v@),
            forall|k: int| 0 <= k < i ==> lex_lt((#[trigger] v@[k])@, s@),
        decreases v@.len() - i,
    {
        i = i + 1;
    }
    if i < v.len() && str_eq(v[i].as_str(), s) {
        proof {
            assert(text_set(v@).insert(s@) =~= text_set(v@)) by {
                assert(text_set(v@).contains(v@[i as int]@));
            }
        }
        return;
    }
    let ghost pre = v@;
    proof {
        if i < pre.len() {
            lemma_lex_lt_total(pre[i as int]@, s@);
        }
    }
    v.insert(i, String::from_str(s));
    proof {
        assert forall|a: int, b: int| 0 <= a < b < v@.len() implies lex_lt((#[trigger] v@[a])@, (#[trigger] v@[b])@) by {
            if b < i {
                assert(v@[a] == pre[a] && v@[b] == pre[b]);
            } else if b == i {
                assert(v@[a] == pre[a]);
            } else if a < i {
                assert(v@[a] == pre[a] && v@[b] == pre[b - 1]);
                lemma_lex_lt_transitive(pre[a]@, s@, pre[i as int]@);
                if b - 1 > i {
                    lemma_lex_lt_transitive(pre[a]@, pre[i as int]@, pre[b - 1]@);
                }
            } else if a == i {
                assert(v@[b] == pre[b - 1]);
                if b - 1 > i {
                    lemma_lex_lt_transitive(s@, pre[i as int]@, pre[b - 1]@);
                }
            } else {
                assert(v@[a] == pre[a - 1] && v@[b] == pre[b - 1]);
            }
        }
        assert(text_set(v@) =~= text_set(pre).insert(s@)) by {
            assert forall|t: Seq<char>| text_set(v@).contains(t) implies text_set(pre).insert(s@).contains(t) by {
                let k = choose|k: int| 0 <= k < v@.len() && (#[trigger] v@[k])@ == t;
                if k < i {
                    assert(v@[k] == pre[k]);
                } else if k > i {
                    assert(v@[k] == pre[k - 1]);
                }
            }
            assert forall|t: Seq<char>| text_set(pre).insert(s@).contains(t) implies text_set(v@).contains(t) by {
                if t == s@ {
                    assert(v@[i as int]@ == s@);
                } else {
                    let k = choose|k: int| 0 <= k < pre.len() && (#[trigger] pre[k])@ == t;
                    if k < i {
                        assert(v@[k] == pre[k]);
                    } else {
                        assert(v@[k + 1] == pre[k]);
                    }
                }
            }
        }
    }
}

/// A keyed group of sorted sets: each key occurs once.
pub open spec fn keys_unique(groups: Seq<(String, Vec<String>)>) -> bool {
    forall|i: int, j: int| 0 <= i < j < groups.len() ==> (#[trigger] groups[i]).0@ != (#[trigger] groups[j]).0@
}

/// Every group's set is sorted.
pub open spec fn groups_sorted(groups: Seq<(String, Vec<String>)>) -> bool {
    forall|i: int| 0 <= i < groups.len() ==> sorted_set((#[trigger] groups[i]).1@)
}

/// The event ids filed under `key`; none where the key is absent.
pub open spec fn group_of(groups: Seq<(String, Vec<String>)>, key: Seq<char>) -> Set<Seq<char>> {
    if exists|i: int| 0 <= i < groups.len() && (#[trigger] groups[i]).0@ == key {
        let i = choose|i: int| 0 <= i < groups.len() && (#[trigger] groups[i]).0@ == key;
        text_set(groups[i].1@)
    } else {
        Set::empty()
    }
}

/// The due wakes of a pass, for deciding which claims a wake makes due.
#[derive(Debug, Clone)]
pub struct WakeHints {
    pub by_issue: Vec<(String, Vec<String>)>,
    pub by_repo: Vec<(String, Vec<String>)>,
    pub total_polled_events: usize,
    pub total_webhook_events: usize,
    pub due_wake_ids: Vec<String>,
}

/// Where a wake came from.
#[derive(Debug, Clone, Copy, PartialEq, Eq, Structural)]
pub enum WakeSource {
    Manual,
    CronPoll,
    Webhook,
    AutoflowDispatch,
    Retry,
    ApprovalResume,
    Repair,
}

/// A wake that is due.
#[derive(Debug, Clone)]
pub struct DueWake {
    pub wake_id: String,
    pub repo_ref: String,
    pub source: WakeSource,
    pub event_id: String,
    /// The issue the wake is about, where it is about one.
    pub issue_ref: Option<String>,
}

fn find_group(groups: &Vec<(String, Vec<String>)>, key: &str) -> (r: Option<usize>)
    ensures
        match r {
            Some(i) => i < groups@.len() && groups@[i as int].0@ == key@,
            None => forall|i: int| 0 <= i < groups@.len() ==> (#[trigger] groups@[i]).0@ != key@,
        },
{
    let mut i: usize = 0;
    while i < groups.len()
        invariant
            i <= groups@.len(),
            forall|k: int| 0 <= k < i ==> (#[trigger] groups@[k]).0@ != key@,
        decreases groups@.len() - i,
    {
        if str_eq(groups[i].0.as_str(), key) {
            return Some(i);
        }
        i = i + 1;
    }
    None
}

proof fn lemma_group_at(groups: Seq<(String, Vec<String>)>, i: int)
    requires
        keys_unique(groups),
        0 <= i < groups.len(),
    ensures
        group_of(groups, groups[i].0@) == text_set(groups[i].1@),
{
    let key = groups[i].0@;
    let k = choose|k: int| 0 <= k < groups.len() && (#[trigger] groups[k]).0@ == key;
    if k < i {
        assert(groups[k].0@ != groups[i].0@);
    } else if k > i {
        assert(groups[i].0@ != groups[k].0@);
    }
}

/// Add `event` to the group under `key`, opening the group where needed.
fn add_to_group(groups: &mut Vec<(String, Vec<String>)>, key: &str, event: &str)
    requires
        keys_unique(old(groups)@),
        groups_sorted(old(groups)@),
    ensures
        keys_unique(final(groups)@),
        groups_sorted(final(groups)@),
        group_of(final(groups)@, key@) == group_of(old(groups)@, key@).insert(event@),
        forall|other: Seq<char>| other != key@ ==> group_of(final(groups)@, other) == group_of(old(groups)@, other),
{
    let ghost pre = groups@;
    match find_group(groups, key) {
        Some(i) => {
            let (name, mut set) = groups.remove(i);
            insert_sorted(&mut set, event);
            groups.insert(i, (name, set));
            proof {
                lemma_group_at(pre, i as int);
                assert(keys_unique(groups@)) by {
                    assert forall|a: int, b: int| 0 <= a < b < groups@.len() implies (#[trigger] groups@[a]).0@
                        != (#[trigger] groups@[b]).0@ by {
                        assert(groups@[a].0@ == pre[a].0@);
                        assert(groups@[b].0@ == pre[b].0@);
                    }
                }
                lemma_group_at(groups@, i as int);
                assert forall|other: Seq<char>| other != key@ implies group_of(groups@, other) == group_of(pre, other) by {
                    if exists|k: int| 0 <= k < pre.len() && (#[trigger] pre[k]).0@ == other {
                        let k = choose|k: int| 0 <= k < pre.len() && (#[trigger] pre[k]).0@ == other;
                        lemma_group_at(pre, k);
                        assert(groups@[k] == pre[k]);
                        lemma_group_at(groups@, k);
                    } else {
                        assert forall|k: int| 0 <= k < groups@.len() implies (#[trigger] groups@[k]).0@ != other by {
                            assert(groups@[k].0@ == pre[k].0@);
                        }
                    }
                }
            }
        },
        None => {
            let mut set: Vec<String> = Vec::new();
            insert_sorted(&mut set, event);
            groups.push((String::from_str(key), set));
            proof {
                let last = groups@.len() - 1;
                assert(keys_unique(groups@)) by {
                    assert forall|a: int, b: int| 0 <= a < b < groups@.len() implies (#[trigger] groups@[a]).0@
                        != (#[trigger] groups@[b]).0@ by {
                        assert(groups@[a] == pre[a]);
                        if b < last {
                            assert(groups@[b] == pre[b]);
                        }
                    }
                }
                lemma_group_at(groups@, last);
                assert(group_of(pre, key@) == Set::<Seq<char>>::empty());
                assert(text_set(Seq::<String>::empty()) =~= Set::<Seq<char>>::empty());
                assert forall|other: Seq<char>| other != key@ implies group_of(groups@, other) == group_of(pre, other) by {
                    if exists|k: int| 0 <= k < pre.len() && (#[trigger] pre[k]).0@ == other {
                        let k = choose|k: int| 0 <= k < pre.len() && (#[trigger] pre[k]).0@ == other;
                        lemma_group_at(pre, k);
                        assert(groups@[k] == pre[k]);
                        lemma_group_at(groups@, k);
                    } else {
                        assert forall|k: int| 0 <= k < groups@.len() implies (#[trigger] groups@[k]).0@ != other by {
                            if k < last {
                                assert(groups@[k] == pre[k]);
                            }
                        }
                    }
                }
            }
        },
    }
}

impl WakeHints {
    pub open spec fn wf(self) -> bool {
        &&& keys_unique(self.by_issue@)
        &&& groups_sorted(self.by_issue@)
        &&& keys_unique(self.by_repo@)
        &&& groups_sorted(self.by_repo@)
    }

    /// No wakes.
    pub fn new() -> (r: WakeHints)
        ensures
            r.wf(),
            r.total_polled_events == 0,
            r.total_webhook_events == 0,
            r.due_wake_ids@.len() == 0,
            forall|k: Seq<char>| group_of(r.by_issue@, k) == Set::<Seq<char>>::empty(),
            forall|k: Seq<char>| group_of(r.by_repo@, k) == Set::<Seq<char>>::empty(),
    {
        WakeHints {
            by_issue: Vec::new(),
            by_repo: Vec::new(),
            total_polled_events: 0,
            total_webhook_events: 0,
            due_wake_ids: Vec::new(),
        }
    }

    /// The event ids due for an issue on a repo: those filed under the repo
    /// and those filed under the issue, as one sorted set.
    pub fn events_for(&self, issue_ref: &str, repo_ref: &str) -> (r: Vec<String>)
        requires
            self.wf(),
        ensures
            sorted_set(r@),
            text_set(r@) == group_of(self.by_repo@, repo_ref@).union(group_of(self.by_issue@, issue_ref@)),
    {
        let mut out: Vec<String> = Vec::new();
        proof {
            assert(text_set(out@) =~= Set::<Seq<char>>::empty());
        }
        let repo_part = match find_group(&self.by_repo, repo_ref) {
            Some(i) => {
                proof {
                    lemma_group_at(self.by_repo@, i as int);
                }
                Some(i)
            },
            None => None,
        };
        if let Some(i) = repo_part {
            let events = &self.by_repo[i].1;
            let mut k: usize = 0;
            while k < events.len()
                invariant
                    k <= events@.len(),
                    sorted_set(out@),
                    text_set(out@) == text_set(events@.subrange(0, k as int)),
                decreases events@.len() - k,
            {
                insert_sorted(&mut out, events[k].as_str());
                proof {
                    assert(text_set(events@.subrange(0, k + 1)) =~= text_set(events@.subrange(0, k as int)).insert(
                        events@[k as int]@,
                    )) by {
                        let a = events@.subrange(0, k as int);
                        let b = events@.subrange(0, k + 1);
                        assert forall|t: Seq<char>| text_set(b).contains(t) implies text_set(a).insert(
                            events@[k as int]@,
                        ).contains(t) by {
                            let j = choose|j: int| 0 <= j < b.len() && (#[trigger] b[j])@ == t;
                            if j < k {
                                assert(a[j] == b[j]);
                            }
                        }
                        assert forall|t: Seq<char>| text_set(a).insert(events@[k as int]@).contains(t) implies text_set(
                            b,
                        ).contains(t) by {
                            if t == events@[k as int]@ {
                                assert(b[k as int] == events@[k as int]);
                            } else {
                                let j = choose|j: int| 0 <= j < a.len() && (#[trigger] a[j])@ == t;
                                assert(b[j] == a[j]);
                            }
                        }
                    }
                }
                k = k + 1;
            }
            proof {
                assert(events@.subrange(0, events@.len() as int) =~= events@);
            }
        } else {
            proof {
                assert(group_of(self.by_repo@, repo_ref@) == Set::<Seq<char>>::empty());
            }
        }
        let ghost mid = text_set(out@);
        proof {
            assert(mid == group_of(self.by_repo@, repo_ref@));
        }
        match find_group(&self.by_issue, issue_ref) {
            Some(i) => {
                proof {
                    lemma_group_at(self.by_issue@, i as int);
                }
                let events = &self.by_issue[i].1;
                let mut k: usize = 0;
                while k < events.len()
                    invariant
                        k <= events@.len(),
                        sorted_set(out@),
                        text_set(out@) == mid.union(text_set(events@.subrange(0, k as int))),
                    decreases events@.len() - k,
                {
                    insert_sorted(&mut out, events[k].as_str());
                    proof {
                        let a = events@.subrange(0, k as int);
                        let b = events@.subrange(0, k + 1);
                        assert(text_set(b) =~= text_set(a).insert(events@[k as int]@)) by {
                            assert forall|t: Seq<char>| text_set(b).contains(t) implies text_set(a).insert(
                                events@[k as int]@,
                            ).contains(t) by {
                                let j = choose|j: int| 0 <= j < b.len() && (#[trigger] b[j])@ == t;
                                if j < k {
                                    assert(a[j] == b[j]);
                                }
                            }
                            assert forall|t: Seq<char>| text_set(a).insert(events@[k as int]@).contains(t) implies text_set(
                                b,
                            ).contains(t) by {
                                if t == events@[k as int]@ {
                                    assert(b[k as int] == events@[k as int]);
                                } else {
                                    let j = choose|j: int| 0 <= j < a.len() && (#[trigger] a[j])@ == t;
                                    assert(b[j] == a[j]);
                                }
                            }
                        }
                        assert(text_set(out@) =~= mid.union(text_set(b)));
                    }
                    k = k + 1;
                }
                proof {
                    assert(events@.subrange(0, events@.len() as int) =~= events@);
                }
            },
            None => {
                proof {
                    assert(group_of(self.by_issue@, issue_ref@) == Set::<Seq<char>>::empty());
                    assert(mid.union(Set::<Seq<char>>::empty()) =~= mid);
                }
            },
        }
        out
    }

    /// File one due wake: count its source, add its event under its repo and,
    /// for an issue wake, under its issue, and keep its id for marking it
    /// processed.
    pub fn add_due_wake(&mut self, wake: &DueWake)
        requires
            old(self).wf(),
            old(self).total_polled_events < usize::MAX,
            old(self).total_webhook_events < usize::MAX,
        ensures
            final(self).wf(),
            final(self).total_polled_events == old(self).total_polled_events + (if wake.source == WakeSource::CronPoll {
                1int
            } else {
                0
            }),
            final(self).total_webhook_events == old(self).total_webhook_events + (if wake.source
                == WakeSource::Webhook {
                1int
            } else {
                0
            }),
            group_of(final(self).by_repo@, wake.repo_ref@) == group_of(old(self).by_repo@, wake.repo_ref@).insert(
                wake.event_id@,
            ),
            forall|other: Seq<char>| other != wake.repo_ref@ ==> group_of(final(self).by_repo@, other) == group_of(
                old(self).by_repo@,
                other,
            ),
            match wake.issue_ref {
                Some(issue) => {
                    &&& group_of(final(self).by_issue@, issue@) == group_of(old(self).by_issue@, issue@).insert(
                        wake.event_id@,
                    )
                    &&& forall|other: Seq<char>| other != issue@ ==> group_of(final(self).by_issue@, other) == group_of(
                        old(self).by_issue@,
                        other,
                    )
                },
                None => final(self).by_issue@ == old(self).by_issue@,
            },
            final(self).due_wake_ids@.len() == old(self).due_wake_ids@.len() + 1,
            final(self).due_wake_ids@.last()@ == wake.wake_id@,
            final(self).due_wake_ids@.drop_last() == old(self).due_wake_ids@,
    {
        match wake.source {
            WakeSource::CronPoll => self.total_polled_events = self.total_polled_events + 1,
            WakeSource::Webhook => self.total_webhook_events = self.total_webhook_events + 1,
            _ => {},
        }
        add_to_group(&mut self.by_repo, wake.repo_ref.as_str(), wake.event_id.as_str());
        if let Some(issue) = &wake.issue_ref {
            add_to_group(&mut self.by_issue, issue.as_str(), wake.event_id.as_str());
        }
        let ghost pre = self.due_wake_ids@;
        self.due_wake_ids.push(wake.wake_id.clone());
        proof {
            assert(self.due_wake_ids@.drop_last() =~= pre);
        }
    }
}

/// A due wake counts toward a pass when its repo has an autoflow that wakes
/// on events.
pub open spec fn wake_admitted(repos: Set<Seq<char>>, w: DueWake) -> bool {
    repos.contains(w.repo_ref@)
}

/// The event ids of the admitted wakes filed under repo `r`.
pub open spec fn repo_events(ws: Seq<DueWake>, repos: Set<Seq<char>>, r: Seq<char>) -> Set<Seq<char>> {
    Set::new(
        |e: Seq<char>|
            exists|i: int|
                0 <= i < ws.len() && wake_admitted(repos, #[trigger] ws[i]) && ws[i].repo_ref@ == r && ws[i].event_id@
                    == e,
    )
}

/// The event ids of the admitted wakes about issue `k`.
pub open spec fn issue_events(ws: Seq<DueWake>, repos: Set<Seq<char>>, k: Seq<char>) -> Set<Seq<char>> {
    Set::new(
        |e: Seq<char>|
            exists|i: int|
                0 <= i < ws.len() && wake_admitted(repos, #[trigger] ws[i]) && (ws[i].issue_ref matches Some(x) && x@
                    == k) && ws[i].event_id@ == e,
    )
}

/// What the due wakes of a pass say: counted by source, their events filed
/// by repo and by issue, their ids kept in order.
pub open spec fn hints_from(h: WakeHints, ws: Seq<DueWake>, repos: Set<Seq<char>>) -> bool {
    &&& h.wf()
    &&& h.total_polled_events == ws.filter(|w: DueWake| wake_admitted(repos, w) && w.source == WakeSource::CronPoll).len()
    &&& h.total_webhook_events == ws.filter(|w: DueWake| wake_admitted(repos, w) && w.source == WakeSource::Webhook).len()
    &&& h.due_wake_ids@.map_values(|s: String| s@) == ws.filter(|w: DueWake| wake_admitted(repos, w)).map_values(
        |w: DueWake| w.wake_id@,
    )
    &&& forall|r: Seq<char>| #[trigger] group_of(h.by_repo@, r) == repo_events(ws, repos, r)
    &&& forall|k: Seq<char>| #[trigger] group_of(h.by_issue@, k) == issue_events(ws, repos, k)
}

/// The wake hints of a pass: the due wakes of repos whose autoflows wake on
/// events (`wake_repos`), counted, grouped and listed.
pub fn collect_wake_hints(due: &Vec<DueWake>, wake_repos: &Vec<String>) -> (r: WakeHints)
    ensures
        hints_from(r, due@, text_set(wake_repos@)),
{
    let ghost repos = text_set(wake_repos@);
    let ghost pa = |w: DueWake| wake_admitted(repos, w);
    let ghost pp = |w: DueWake| wake_admitted(repos, w) && w.source == WakeSource::CronPoll;
    let ghost pw = |w: DueWake| wake_admitted(repos, w) && w.source == WakeSource::Webhook;
    let ghost idv = |w: DueWake| w.wake_id@;
    let mut h = WakeHints::new();
    let mut i: usize = 0;
    proof {
        reveal(Seq::filter);
        let z = due@.subrange(0, 0);
        assert(z.filter(pa) =~= Seq::<DueWake>::empty());
        assert(z.filter(pp) =~= Seq::<DueWake>::empty());
        assert(z.filter(pw) =~= Seq::<DueWake>::empty());
        assert(h.due_wake_ids@.map_values(|s: String| s@) =~= z.filter(pa).map_values(idv));
        assert forall|r: Seq<char>| #[trigger] group_of(h.by_repo@, r) == repo_events(z, repos, r) by {
            assert(repo_events(z, repos, r) =~= Set::<Seq<char>>::empty());
        }
        assert forall|k: Seq<char>| #[trigger] group_of(h.by_issue@, k) == issue_events(z, repos, k) by {
            assert(issue_events(z, repos, k) =~= Set::<Seq<char>>::empty());
        }
    }
    while i < due.len()
        invariant
            i <= due@.len(),
            repos == text_set(wake_repos@),
            pa == (|w: DueWake| wake_admitted(repos, w)),
            pp == (|w: DueWake| wake_admitted(repos, w) && w.source == WakeSource::CronPoll),
            pw == (|w: DueWake| wake_admitted(repos, w) && w.source == WakeSource::Webhook),
            idv == (|w: DueWake| w.wake_id@),
            hints_from(h, due@.subrange(0, i as int), repos),
            h.total_polled_events <= i,
            h.total_webhook_events <= i,
        decreases due@.len() - i,
    {
        let w = &due[i];
        let ghost before = due@.subrange(0, i as int);
        let ghost after = due@.subrange(0, i + 1);
        let ghost h0 = h;
        proof {
            assert(after =~= before.push(due@[i as int]));
            before.lemma_filter_push(due@[i as int], pa);
            before.lemma_filter_push(due@[i as int], pp);
            before.lemma_filter_push(due@[i as int], pw);
            assert(before.filter(pp).len() <= before.len()) by {
                before.lemma_filter_len(pp);
            }
        }
        let mut admitted = false;
        let mut j: usize = 0;
        while j < wake_repos.len() && !admitted
            invariant
                j <= wake_repos@.len(),
                admitted ==> text_set(wake_repos@).contains(w.repo_ref@),
                !admitted ==> forall|m: int| 0 <= m < j ==> wake_repos@[m]@ != w.repo_ref@,
            decreases wake_repos@.len() - j,
        {
            if str_eq(wake_repos[j].as_str(), w.repo_ref.as_str()) {
                admitted = true;
                proof {
                    assert(wake_repos@[j as int]@ == w.repo_ref@);
                }
            }
            j = j + 1;
        }
        if admitted {
            h.add_due_wake(w);
            proof {
                assert(h.due_wake_ids@.map_values(|s: String| s@) =~= h0.due_wake_ids@.map_values(|s: String| s@).push(
                    w.wake_id@,
                ));
                assert(after.filter(pa).map_values(idv) =~= before.filter(pa).map_values(idv).push(w.wake_id@));
                assert forall|r: Seq<char>| #[trigger] group_of(h.by_repo@, r) == repo_events(after, repos, r) by {
                    assert(repo_events(after, repos, r) =~= if r == w.repo_ref@ {
                        repo_events(before, repos, r).insert(w.event_id@)
                    } else {
                        repo_events(before, repos, r)
                    }) by {
                        assert forall|e: Seq<char>| repo_events(after, repos, r).contains(e) implies (if r == w.repo_ref@ {
                            repo_events(before, repos, r).insert(w.event_id@)
                        } else {
                            repo_events(before, repos, r)
                        }).contains(e) by {
                            let m = choose|m: int|
                                0 <= m < after.len() && wake_admitted(repos, #[trigger] after[m]) && after[m].repo_ref@ == r
                                    && after[m].event_id@ == e;
                            if m < i {
                                assert(before[m] == after[m]);
                            }
                        }
                        assert forall|e: Seq<char>| (if r == w.repo_ref@ {
                            repo_events(before, repos, r).insert(w.event_id@)
                        } else {
                            repo_events(before, repos, r)
                        }).contains(e) implies repo_events(after, repos, r).contains(e) by {
                            if repo_events(before, repos, r).contains(e) {
                                let m = choose|m: int|
                                    0 <= m < before.len() && wake_admitted(repos, #[trigger] before[m]) && before[m].repo_ref@
                                        == r && before[m].event_id@ == e;
                                assert(after[m] == before[m]);
                            } else {
                                assert(after[i as int] == *w);
                            }
                        }
                    }
                }
                assert forall|k: Seq<char>| #[trigger] group_of(h.by_issue@, k) == issue_events(after, repos, k) by {
                    let target = match w.issue_ref {
                        Some(x) => if x@ == k {
                            issue_events(before, repos, k).insert(w.event_id@)
                        } else {
                            issue_events(before, repos, k)
                        },
                        None => issue_events(before, repos, k),
                    };
                    assert(issue_events(after, repos, k) =~= target) by {
                        assert forall|e: Seq<char>| issue_events(after, repos, k).contains(e) implies target.contains(e) by {
                            let m = choose|m: int|
                                0 <= m < after.len() && wake_admitted(repos, #[trigger] after[m]) && (after[m].issue_ref matches Some(
                                    x,
                                ) && x@ == k) && after[m].event_id@ == e;
                            if m < i {
                                assert(before[m] == after[m]);
                            }
                        }
                        assert forall|e: Seq<char>| target.contains(e) implies issue_events(after, repos, k).contains(e) by {
                            if issue_events(before, repos, k).contains(e) {
                                let m = choose|m: int|
                                    0 <= m < before.len() && wake_admitted(repos, #[trigger] before[m]) && (
                                    before[m].issue_ref matches Some(x) && x@ == k) && before[m].event_id@ == e;
                                assert(after[m] == before[m]);
                            } else {
                                assert(after[i as int] == *w);
                            }
                        }
                    }
                    match w.issue_ref {
                        Some(x) => {
                            if x@ != k {
                                assert(group_of(h.by_issue@, k) == group_of(h0.by_issue@, k));
                            }
                        },
                        None => {},
                    }
                }
            }
        } else {
            proof {
                assert(!wake_admitted(repos, *w));
                assert forall|r: Seq<char>| #[trigger] group_of(h.by_repo@, r) == repo_events(after, repos, r) by {
                    assert(repo_events(after, repos, r) =~= repo_events(before, repos, r)) by {
                        assert forall|e: Seq<char>| repo_events(after, repos, r).contains(e) implies repo_events(
                            before,
                            repos,
                            r,
                        ).contains(e) by {
                            let m = choose|m: int|
                                0 <= m < after.len() && wake_admitted(repos, #[trigger] after[m]) && after[m].repo_ref@ == r
                                    && after[m].event_id@ == e;
                            assert(before[m] == after[m]);
                        }
                        assert forall|e: Seq<char>| repo_events(before, repos, r).contains(e) implies repo_events(
                            after,
                            repos,
                            r,
                        ).contains(e) by {
                            let m = choose|m: int|
                                0 <= m < before.len() && wake_admitted(repos, #[trigger] before[m]) && before[m].repo_ref@ == r
                                    && before[m].event_id@ == e;
                            assert(after[m] == before[m]);
                        }
                    }
                }
                assert forall|k: Seq<char>| #[trigger] group_of(h.by_issue@, k) == issue_events(after, repos, k) by {
                    assert(issue_events(after, repos, k) =~= issue_events(before, repos, k)) by {
                        assert forall|e: Seq<char>| issue_events(after, repos, k).contains(e) implies issue_events(
                            before,
                            repos,
                            k,
                        ).contains(e) by {
                            let m = choose|m: int|
                                0 <= m < after.len() && wake_admitted(repos, #[trigger] after[m]) && (after[m].issue_ref matches Some(
                                    x,
                                ) && x@ == k) && after[m].event_id@ == e;
                            assert(before[m] == after[m]);
                        }
                        assert forall|e: Seq<char>| issue_events(before, repos, k).contains(e) implies issue_events(
                            after,
                            repos,
                            k,
                        ).contains(e) by {
                            let m = choose|m: int|
                                0 <= m < before.len() && wake_admitted(repos, #[trigger] before[m]) && (
                                before[m].issue_ref matches Some(x) && x@ == k) && before[m].event_id@ == e;
                            assert(after[m] == before[m]);
                        }
                    }
                }
            }
        }
        i = i + 1;
    }
    proof {
        assert(due@.subrange(0, due@.len() as int) =~= due@);
    }
    h
}

/// The repos with an autoflow that wakes on events: each autoflow's repo
/// and whether it declares any `wake_on` event.
pub fn wake_enabled_repo_refs(autoflows: &Vec<(String, bool)>) -> (r: Vec<String>)
    ensures
        sorted_set(r@),
        text_set(r@) == Set::new(
            |t: Seq<char>| exists|i: int| 0 <= i < autoflows@.len() && (#[trigger] autoflows@[i]).1 && autoflows@[i].0@ == t,
        ),
{
    let mut out: Vec<String> = Vec::new();
    let mut i: usize = 0;
    proof {
        assert(text_set(out@) =~= Set::<Seq<char>>::empty());
    }
    while i < autoflows.len()
        invariant
            i <= autoflows@.len(),
            sorted_set(out@),
            text_set(out@) == Set::new(
                |t: Seq<char>| exists|k: int| 0 <= k < i && (#[trigger] autoflows@[k]).1 && autoflows@[k].0@ == t,
            ),
        decreases autoflows@.len() - i,
    {
        let ghost prev = text_set(out@);
        if autoflows[i].1 {
            insert_sorted(&mut out, autoflows[i].0.as_str());
        }
        proof {
            let next = Set::new(
                |t: Seq<char>| exists|k: int| 0 <= k < i + 1 && (#[trigger] autoflows@[k]).1 && autoflows@[k].0@ == t,
            );
            assert(text_set(out@) =~= next) by {
                assert forall|t: Seq<char>| next.contains(t) implies text_set(out@).contains(t) by {
                    let k = choose|k: int| 0 <= k < i + 1 && (#[trigger] autoflows@[k]).1 && autoflows@[k].0@ == t;
                    if k < i {
                        assert(prev.contains(t));
                    }
                }
                assert forall|t: Seq<char>| text_set(out@).contains(t) implies next.contains(t) by {
                    if prev.contains(t) {
                        let k = choose|k: int| 0 <= k < i && (#[trigger] autoflows@[k]).1 && autoflows@[k].0@ == t;
                    } else {
                        assert(autoflows@[i as int].1 && autoflows@[i as int].0@ == t);
                    }
                }
            }
        }
        i = i + 1;
    }
    out
}

} // verus!

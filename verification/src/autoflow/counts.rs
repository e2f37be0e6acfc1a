//! How many claims each repo has that count toward its `max_active` limit,
//! kept up to date as claims change status.

use vstd::prelude::*;
use vstd::string::*;
use crate::autoflow::claims::{claim_counts_toward_max_active, spec_counts_toward_max_active, ClaimStatus};
use crate::text::str_eq;

verus! {

/// Whether a status, where there is a claim at all, counts toward the limit.
pub open spec fn counted(status: Option<ClaimStatus>) -> bool {
    status matches Some(s) && spec_counts_toward_max_active(s)
}

/// A repo's count after one claim went from `before` to `after`: up by one
/// when it starts to count, down by one (not below zero) when it stops.
pub open spec fn spec_adjust(count: nat, before: Option<ClaimStatus>, after: Option<ClaimStatus>) -> nat {
    if !counted(before) && counted(after) {
        count + 1
    } else if counted(before) && !counted(after) {
        if count == 0 { 0 } else { (count - 1) as nat }
    } else {
        count
    }
}

/// The number of claims on `repo` that count toward its limit.
pub open spec fn spec_count(claims: Seq<(Seq<char>, ClaimStatus)>, repo: Seq<char>) -> nat
    decreases claims.len(),
{
    if claims.len() == 0 {
        0
    } else {
        spec_count(claims.drop_last(), repo) + if claims.last().0 == repo && spec_counts_toward_max_active(
            claims.last().1,
        ) {
            1nat
        } else {
            0nat
        }
    }
}

/// Active-claim counts per repo; repos at zero are left out.
#[derive(Debug, Clone)]
pub struct ActiveCounts {
    pub entries: Vec<(String, usize)>,
}

impl ActiveCounts {
    /// Each repo occurs once and with a count above zero.
    pub open spec fn wf(self) -> bool {
        &&& forall|i: int, j: int|
            0 <= i < j < self.entries@.len() ==> (#[trigger] self.entries@[i]).0@ != (#[trigger] self.entries@[j]).0@
        &&& forall|i: int| 0 <= i < self.entries@.len() ==> (#[trigger] self.entries@[i]).1 > 0
    }

    /// The count for `repo`.
    pub open spec fn count_of(self, repo: Seq<char>) -> nat {
        if exists|i: int| 0 <= i < self.entries@.len() && (#[trigger] self.entries@[i]).0@ == repo {
            let i = choose|i: int| 0 <= i < self.entries@.len() && (#[trigger] self.entries@[i]).0@ == repo;
            self.entries@[i].1 as nat
        } else {
            0
        }
    }

    proof fn lemma_count_at(self, i: int)
        requires
            self.wf(),
            0 <= i < self.entries@.len(),
        ensures
            self.count_of(self.entries@[i].0@) == self.entries@[i].1,
    {
        let repo = self.entries@[i].0@;
        let k = choose|k: int| 0 <= k < self.entries@.len() && (#[trigger] self.entries@[k]).0@ == repo;
        if k != i {
            if k < i {
                assert(self.entries@[k].0@ != self.entries@[i].0@);
            } else {
                assert(self.entries@[i].0@ != self.entries@[k].0@);
            }
        }
    }

    /// No repo counted yet.
    pub fn new() -> (r: ActiveCounts)
        ensures
            r.wf(),
            forall|repo: Seq<char>| r.count_of(repo) == 0,
    {
        ActiveCounts { entries: Vec::new() }
    }

    fn find(&self, repo: &str) -> (r: Option<usize>)
        requires
            self.wf(),
        ensures
            match r {
                Some(i) => i < self.entries@.len() && self.entries@[i as int].0@ == repo@,
                None => forall|i: int| 0 <= i < self.entries@.len() ==> (#[trigger] self.entries@[i]).0@ != repo@,
            },
    {
        let mut i: usize = 0;
        while i < self.entries.len()
            invariant
                i <= self.entries@.len(),
                forall|k: int| 0 <= k < i ==> (#[trigger] self.entries@[k]).0@ != repo@,
            decreases self.entries@.len() - i,
        {
            if str_eq(self.entries[i].0.as_str(), repo) {
                return Some(i);
            }
            i = i + 1;
        }
        None
    }

    /// The count for `repo`.
    pub fn get(&self, repo: &str) -> (r: usize)
        requires
            self.wf(),
        ensures
            r as nat == self.count_of(repo@),
    {
        match self.find(repo) {
            Some(i) => {
                proof {
                    self.lemma_count_at(i as int);
                }
                self.entries[i].1
            },
            None => 0,
        }
    }

    /// Record that a claim on `repo` went from `before` to `after` (`None`:
    /// no claim).
    pub fn adjust(&mut self, repo: &str, before: Option<ClaimStatus>, after: Option<ClaimStatus>)
        requires
            old(self).wf(),
            old(self).count_of(repo@) < usize::MAX,
        ensures
            final(self).wf(),
            final(self).count_of(repo@) == spec_adjust(old(self).count_of(repo@), before, after),
            forall|other: Seq<char>| other != repo@ ==> final(self).count_of(other) == old(self).count_of(other),
    {
        let counted_before = match before {
            Some(s) => claim_counts_toward_max_active(s),
            None => false,
        };
        let counted_after = match after {
            Some(s) => claim_counts_toward_max_active(s),
            None => false,
        };
        let ghost pre = *self;
        if !counted_before && counted_after {
            match self.find(repo) {
                Some(i) => {
                    proof {
                        pre.lemma_count_at(i as int);
                    }
                    let n = self.entries[i].1;
                    let name = self.entries[i].0.clone();
                    self.entries.set(i, (name, n + 1));
                    proof {
                        self.lemma_count_at(i as int);
                        assert forall|other: Seq<char>| other != repo@ implies self.count_of(other) == pre.count_of(
                            other,
                        ) by {
                            self.lemma_other_unchanged(pre, other, i as int);
                        }
                    }
                },
                None => {
                    self.entries.push((String::from_str(repo), 1));
                    proof {
                        let last = self.entries@.len() - 1;
                        self.lemma_count_at(last);
                        assert forall|other: Seq<char>| other != repo@ implies self.count_of(other) == pre.count_of(
                            other,
                        ) by {
                            self.lemma_other_after_push(pre, other);
                        }
                    }
                },
            }
        } else if counted_before && !counted_after {
            match self.find(repo) {
                Some(i) => {
                    proof {
                        pre.lemma_count_at(i as int);
                    }
                    let n = self.entries[i].1;
                    if n <= 1 {
                        self.entries.remove(i);
                        proof {
                            self.lemma_after_remove(pre, repo@, i as int);
                        }
                    } else {
                        let name = self.entries[i].0.clone();
                        self.entries.set(i, (name, n - 1));
                        proof {
                            self.lemma_count_at(i as int);
                            assert forall|other: Seq<char>| other != repo@ implies self.count_of(other)
                                == pre.count_of(other) by {
                                self.lemma_other_unchanged(pre, other, i as int);
                            }
                        }
                    }
                },
                None => {},
            }
        }
    }

    proof fn lemma_other_unchanged(self, pre: ActiveCounts, other: Seq<char>, i: int)
        requires
            self.wf(),
            pre.wf(),
            0 <= i < pre.entries@.len(),
            self.entries@.len() == pre.entries@.len(),
            self.entries@[i].0@ == pre.entries@[i].0@,
            forall|k: int| 0 <= k < pre.entries@.len() && k != i ==> self.entries@[k] == pre.entries@[k],
            other != pre.entries@[i].0@,
        ensures
            self.count_of(other) == pre.count_of(other),
    {
        if exists|k: int| 0 <= k < pre.entries@.len() && (#[trigger] pre.entries@[k]).0@ == other {
            let k = choose|k: int| 0 <= k < pre.entries@.len() && (#[trigger] pre.entries@[k]).0@ == other;
            pre.lemma_count_at(k);
            self.lemma_count_at(k);
        } else {
            assert forall|k: int| 0 <= k < self.entries@.len() implies (#[trigger] self.entries@[k]).0@ != other by {
                if k != i {
                    assert(self.entries@[k] == pre.entries@[k]);
                }
            }
        }
    }

    proof fn lemma_other_after_push(self, pre: ActiveCounts, other: Seq<char>)
        requires
            self.wf(),
            pre.wf(),
            self.entries@.len() == pre.entries@.len() + 1,
            forall|k: int| 0 <= k < pre.entries@.len() ==> self.entries@[k] == pre.entries@[k],
            other != self.entries@[pre.entries@.len() as int].0@,
        ensures
            self.count_of(other) == pre.count_of(other),
    {
        if exists|k: int| 0 <= k < pre.entries@.len() && (#[trigger] pre.entries@[k]).0@ == other {
            let k = choose|k: int| 0 <= k < pre.entries@.len() && (#[trigger] pre.entries@[k]).0@ == other;
            pre.lemma_count_at(k);
            self.lemma_count_at(k);
        } else {
            assert forall|k: int| 0 <= k < self.entries@.len() implies (#[trigger] self.entries@[k]).0@ != other by {
                if k < pre.entries@.len() {
                    assert(self.entries@[k] == pre.entries@[k]);
                }
            }
        }
    }

    proof fn lemma_after_remove(self, pre: ActiveCounts, repo: Seq<char>, i: int)
        requires
            pre.wf(),
            0 <= i < pre.entries@.len(),
            pre.entries@[i].0@ == repo,
            pre.entries@[i].1 <= 1,
            self.entries@ == pre.entries@.remove(i),
        ensures
            self.wf(),
            self.count_of(repo) == spec_adjust(pre.count_of(repo), Some(ClaimStatus::Running), None),
            forall|other: Seq<char>| other != repo ==> self.count_of(other) == pre.count_of(other),
    {
        pre.lemma_count_at(i);
        assert forall|a: int, b: int| 0 <= a < b < self.entries@.len() implies (#[trigger] self.entries@[a]).0@
            != (#[trigger] self.entries@[b]).0@ by {
            let pa = if a < i { a } else { a + 1 };
            let pb = if b < i { b } else { b + 1 };
            assert(self.entries@[a] == pre.entries@[pa]);
            assert(self.entries@[b] == pre.entries@[pb]);
        }
        assert forall|a: int| 0 <= a < self.entries@.len() implies (#[trigger] self.entries@[a]).1 > 0 by {
            let pa = if a < i { a } else { a + 1 };
            assert(self.entries@[a] == pre.entries@[pa]);
        }
        assert forall|k: int| 0 <= k < self.entries@.len() implies (#[trigger] self.entries@[k]).0@ != repo by {
            let pk = if k < i { k } else { k + 1 };
            assert(self.entries@[k] == pre.entries@[pk]);
        }
        assert forall|other: Seq<char>| other != repo implies self.count_of(other) == pre.count_of(other) by {
            if exists|k: int| 0 <= k < pre.entries@.len() && (#[trigger] pre.entries@[k]).0@ == other {
                let k = choose|k: int| 0 <= k < pre.entries@.len() && (#[trigger] pre.entries@[k]).0@ == other;
                pre.lemma_count_at(k);
                assert(k != i);
                let sk = if k < i { k } else { k - 1 };
                assert(self.entries@[sk] == pre.entries@[k]);
                self.lemma_count_at(sk);
            } else {
                assert forall|k: int| 0 <= k < self.entries@.len() implies (#[trigger] self.entries@[k]).0@ != other by {
                    let pk = if k < i { k } else { k + 1 };
                    assert(self.entries@[k] == pre.entries@[pk]);
                }
            }
        }
    }
}

/// Undoing a status change restores the count, except where a change that
/// stops counting met a count already at zero.
pub proof fn law_adjust_undo(count: nat, before: Option<ClaimStatus>, after: Option<ClaimStatus>)
    requires
        !(counted(before) && !counted(after) && count == 0),
    ensures
        spec_adjust(spec_adjust(count, before, after), after, before) == count,
{
}

/// Adjusting a repo's count for one claim's status change keeps it equal to
/// the number of that repo's claims that count toward the limit.
pub proof fn law_adjust_tracks_claims(
    claims: Seq<(Seq<char>, ClaimStatus)>,
    k: int,
    after: ClaimStatus,
    repo: Seq<char>,
)
    requires
        0 <= k < claims.len(),
    ensures
        spec_count(claims.update(k, (claims[k].0, after)), repo) == if claims[k].0 == repo {
            spec_adjust(spec_count(claims, repo), Some(claims[k].1), Some(after))
        } else {
            spec_count(claims, repo)
        },
    decreases claims.len(),
{
    let updated = claims.update(k, (claims[k].0, after));
    if k == claims.len() - 1 {
        assert(updated.drop_last() =~= claims.drop_last());
    } else {
        law_adjust_tracks_claims(claims.drop_last(), k, after, repo);
        assert(updated.drop_last() =~= claims.drop_last().update(k, (claims[k].0, after)));
        assert(claims.drop_last()[k] == claims[k]);
        if claims[k].0 == repo && spec_counts_toward_max_active(claims[k].1) {
            lemma_count_positive(claims.drop_last(), k, repo);
        }
    }
}

proof fn lemma_count_positive(claims: Seq<(Seq<char>, ClaimStatus)>, k: int, repo: Seq<char>)
    requires
        0 <= k < claims.len(),
        claims[k].0 == repo,
        spec_counts_toward_max_active(claims[k].1),
    ensures
        spec_count(claims, repo) > 0,
    decreases claims.len(),
{
    if k < claims.len() - 1 {
        lemma_count_positive(claims.drop_last(), k, repo);
    }
}

/// The views of claim entries.
pub open spec fn claim_views(claims: Seq<(String, ClaimStatus)>) -> Seq<(Seq<char>, ClaimStatus)> {
    claims.map_values(|c: (String, ClaimStatus)| (c.0@, c.1))
}

/// Count, per repo, the claims that count toward the limit.
pub fn count_active_claims(claims: &Vec<(String, ClaimStatus)>) -> (r: ActiveCounts)
    ensures
        r.wf(),
        forall|repo: Seq<char>| #[trigger] r.count_of(repo) == spec_count(claim_views(claims@), repo),
{
    let mut counts = ActiveCounts::new();
    let mut i: usize = 0;
    while i < claims.len()
        invariant
            i <= claims@.len(),
            counts.wf(),
            forall|repo: Seq<char>| #[trigger] counts.count_of(repo) == spec_count(
                claim_views(claims@.subrange(0, i as int)),
                repo,
            ),
        decreases claims@.len() - i,
    {
        let ghost pre = counts;
        proof {
            lemma_count_bound(claim_views(claims@.subrange(0, i as int)), claims@[i as int].0@);
        }
        counts.adjust(claims[i].0.as_str(), None, Some(claims[i].1));
        proof {
            let prev = claim_views(claims@.subrange(0, i as int));
            let next = claim_views(claims@.subrange(0, i + 1));
            assert(next.drop_last() =~= prev);
            assert(next.last() == (claims@[i as int].0@, claims@[i as int].1));
            assert forall|repo: Seq<char>| #[trigger] counts.count_of(repo) == spec_count(next, repo) by {
                if repo != claims@[i as int].0@ {
                    assert(counts.count_of(repo) == pre.count_of(repo));
                }
            }
        }
        i = i + 1;
    }
    proof {
        assert(claims@.subrange(0, claims@.len() as int) =~= claims@);
    }
    counts
}

proof fn lemma_count_bound(claims: Seq<(Seq<char>, ClaimStatus)>, repo: Seq<char>)
    ensures
        spec_count(claims, repo) <= claims.len(),
    decreases claims.len(),
{
    if claims.len() > 0 {
        lemma_count_bound(claims.drop_last(), repo);
    }
}

} // verus!

//! The workflows contending for an issue, as recorded on its claim: one
//! entry per workflow at its best priority, highest priority first, the
//! first one selected.

use vstd::prelude::*;
use vstd::string::*;
use crate::autoflow::claims::AutoflowContender;
use crate::autoflow::select::{lemma_lex_lt_irreflexive, lemma_lex_lt_total, lemma_lex_lt_transitive, lex_less, lex_lt, IssueCandidate};
use crate::text::str_eq;

verus! {

/// `a` ranks before `b`: a higher priority, or the same priority and a
/// workflow name that sorts first.
pub open spec fn ranks_before(a: AutoflowContender, b: AutoflowContender) -> bool {
    a.priority > b.priority || (a.priority == b.priority && lex_lt(a.workflow@, b.workflow@))
}

/// Contender `c` records candidate `m`.
pub open spec fn records(c: AutoflowContender, m: IssueCandidate) -> bool {
    &&& c.workflow@ == m.workflow@
    &&& c.priority == m.priority
    &&& c.scope matches Some(s) && s@ == m.scope@
}

/// Among the first `n` candidates on `issue`, candidate `k` has the best
/// priority of its workflow, and comes first among those that tie.
pub open spec fn best_of_workflow(ms: Seq<IssueCandidate>, issue: Seq<char>, k: int, n: int) -> bool {
    &&& 0 <= k < n
    &&& ms[k].issue_ref@ == issue
    &&& forall|j: int|
        0 <= j < n && (#[trigger] ms[j]).issue_ref@ == issue && ms[j].workflow@ == ms[k].workflow@ ==> ms[j].priority
            <= ms[k].priority && (ms[j].priority == ms[k].priority ==> k <= j)
}

/// Contender `c` records the best of the first `n` candidates on `issue`
/// for its workflow.
pub open spec fn recorded_best(ms: Seq<IssueCandidate>, issue: Seq<char>, n: int, c: AutoflowContender) -> bool {
    exists|k: int| best_of_workflow(ms, issue, k, n) && records(c, #[trigger] ms[k])
}

/// Every entry records the best candidate of its workflow.
pub open spec fn entries_recorded(ms: Seq<IssueCandidate>, issue: Seq<char>, n: int, out: Seq<AutoflowContender>) -> bool {
    forall|i: int| 0 <= i < out.len() ==> recorded_best(ms, issue, n, #[trigger] out[i])
}

/// Some entry is for workflow `w`.
pub open spec fn has_entry(out: Seq<AutoflowContender>, w: Seq<char>) -> bool {
    exists|i: int| 0 <= i < out.len() && (#[trigger] out[i]).workflow@ == w
}

/// Every workflow that matched the issue has an entry.
pub open spec fn workflows_covered(ms: Seq<IssueCandidate>, issue: Seq<char>, n: int, out: Seq<AutoflowContender>) -> bool {
    forall|k: int| 0 <= k < n && (#[trigger] ms[k]).issue_ref@ == issue ==> has_entry(out, ms[k].workflow@)
}

/// Entries in strict rank order.
pub open spec fn ranked(out: Seq<AutoflowContender>) -> bool {
    forall|i: int, j: int| 0 <= i < j < out.len() ==> ranks_before(#[trigger] out[i], #[trigger] out[j])
}

/// No workflow has two entries.
pub open spec fn workflows_distinct(out: Seq<AutoflowContender>) -> bool {
    forall|i: int, j: int| 0 <= i < j < out.len() ==> (#[trigger] out[i]).workflow@ != (#[trigger] out[j]).workflow@
}

proof fn lemma_ranks_before_transitive(a: AutoflowContender, b: AutoflowContender, c: AutoflowContender)
    requires
        ranks_before(a, b),
        ranks_before(b, c),
    ensures
        ranks_before(a, c),
{
    if a.priority == b.priority && b.priority == c.priority {
        lemma_lex_lt_transitive(a.workflow@, b.workflow@, c.workflow@);
    }
}

proof fn lemma_ranks_before_asymmetric(a: AutoflowContender, b: AutoflowContender)
    requires
        ranks_before(a, b),
    ensures
        !ranks_before(b, a),
{
    if ranks_before(b, a) {
        lemma_ranks_before_transitive(a, b, a);
        lemma_lex_lt_irreflexive(a.workflow@);
    }
}

proof fn lemma_ranks_before_total(a: AutoflowContender, b: AutoflowContender)
    requires
        a.workflow@ != b.workflow@,
    ensures
        ranks_before(a, b) || ranks_before(b, a),
{
    lemma_lex_lt_total(a.workflow@, b.workflow@);
}

fn contender_ranks_before(a: &AutoflowContender, b: &AutoflowContender) -> (r: bool)
    ensures
        r == ranks_before(*a, *b),
{
    a.priority > b.priority || (a.priority == b.priority && lex_less(a.workflow.as_str(), b.workflow.as_str()))
}

/// The entry for workflow `w`, if any.
fn find_workflow(out: &Vec<AutoflowContender>, w: &str) -> (r: Option<usize>)
    ensures
        match r {
            Some(p) => p < out@.len() && out@[p as int].workflow@ == w@,
            None => forall|i: int| 0 <= i < out@.len() ==> (#[trigger] out@[i]).workflow@ != w@,
        },
{
    let mut i: usize = 0;
    while i < out.len()
        invariant
            i <= out@.len(),
            forall|k: int| 0 <= k < i ==> (#[trigger] out@[k]).workflow@ != w@,
        decreases out@.len() - i,
    {
        if str_eq(out[i].workflow.as_str(), w) {
            return Some(i);
        }
        i = i + 1;
    }
    None
}

/// Insert `c` where its rank puts it.
fn insert_ranked(out: &mut Vec<AutoflowContender>, c: AutoflowContender) -> (p: usize)
    requires
        ranked(old(out)@),
        forall|i: int| 0 <= i < old(out)@.len() ==> (#[trigger] old(out)@[i]).workflow@ != c.workflow@,
    ensures
        p <= old(out)@.len(),
        final(out)@ == old(out)@.insert(p as int, c),
        ranked(final(out)@),
{
    let mut p: usize = 0;
    while p < out.len() && contender_ranks_before(&out[p], &c)
        invariant
            p <= out@.len(),
            forall|k: int| 0 <= k < p ==> ranks_before(#[trigger] out@[k], c),
        decreases out@.len() - p,
    {
        p = p + 1;
    }
    let ghost pre = out@;
    proof {
        assert forall|b: int| p <= b < pre.len() implies ranks_before(c, #[trigger] pre[b]) by {
            lemma_ranks_before_total(c, pre[p as int]);
            if b > p {
                lemma_ranks_before_transitive(c, pre[p as int], pre[b]);
            }
        }
    }
    out.insert(p, c);
    proof {
        assert forall|a: int, b: int| 0 <= a < b < out@.len() implies ranks_before(
            #[trigger] out@[a],
            #[trigger] out@[b],
        ) by {
            if b < p {
                assert(out@[a] == pre[a] && out@[b] == pre[b]);
            } else if b == p {
                assert(out@[a] == pre[a]);
            } else if a < p {
                assert(out@[a] == pre[a] && out@[b] == pre[b - 1]);
                lemma_ranks_before_transitive(pre[a], c, pre[b - 1]);
            } else if a == p {
                assert(out@[b] == pre[b - 1]);
            } else {
                assert(out@[a] == pre[a - 1] && out@[b] == pre[b - 1]);
            }
        }
    }
    p
}


proof fn lemma_recorded_extends(ms: Seq<IssueCandidate>, issue: Seq<char>, n: int, c: AutoflowContender)
    requires
        0 <= n < ms.len(),
        recorded_best(ms, issue, n, c),
        ms[n].issue_ref@ != issue || ms[n].workflow@ != c.workflow@ || ms[n].priority < c.priority || (
        ms[n].priority == c.priority),
    ensures
        recorded_best(ms, issue, n + 1, c),
{
    let k = choose|k: int| best_of_workflow(ms, issue, k, n) && records(c, #[trigger] ms[k]);
    assert(best_of_workflow(ms, issue, k, n + 1));
}

/// What holds of the entries after the first `n` candidates.
pub open spec fn summary_inv(ms: Seq<IssueCandidate>, issue: Seq<char>, n: int, out: Seq<AutoflowContender>) -> bool {
    &&& entries_recorded(ms, issue, n, out)
    &&& workflows_covered(ms, issue, n, out)
    &&& ranked(out)
    &&& workflows_distinct(out)
    &&& forall|i: int| 0 <= i < out.len() ==> !(#[trigger] out[i]).selected
}

/// A candidate on another issue changes nothing.
proof fn lemma_absorb_other(ms: Seq<IssueCandidate>, issue: Seq<char>, n: int, out: Seq<AutoflowContender>)
    requires
        0 <= n < ms.len(),
        ms[n].issue_ref@ != issue,
        summary_inv(ms, issue, n, out),
    ensures
        summary_inv(ms, issue, n + 1, out),
{
    assert forall|i: int| 0 <= i < out.len() implies recorded_best(ms, issue, n + 1, #[trigger] out[i]) by {
        lemma_recorded_extends(ms, issue, n, out[i]);
    }
    assert forall|k: int| 0 <= k < n + 1 && (#[trigger] ms[k]).issue_ref@ == issue implies has_entry(
        out,
        ms[k].workflow@,
    ) by {
    }
}

/// A candidate no better than its workflow's entry changes nothing.
proof fn lemma_absorb_keep(ms: Seq<IssueCandidate>, issue: Seq<char>, n: int, out: Seq<AutoflowContender>, p: int)
    requires
        0 <= n < ms.len(),
        ms[n].issue_ref@ == issue,
        0 <= p < out.len(),
        out[p].workflow@ == ms[n].workflow@,
        ms[n].priority <= out[p].priority,
        summary_inv(ms, issue, n, out),
    ensures
        summary_inv(ms, issue, n + 1, out),
{
    assert forall|i: int| 0 <= i < out.len() implies recorded_best(ms, issue, n + 1, #[trigger] out[i]) by {
        if i != p {
            assert(out[i].workflow@ != out[p].workflow@);
        }
        lemma_recorded_extends(ms, issue, n, out[i]);
    }
    assert forall|k: int| 0 <= k < n + 1 && (#[trigger] ms[k]).issue_ref@ == issue implies has_entry(
        out,
        ms[k].workflow@,
    ) by {
        if k == n {
            assert(out[p].workflow@ == ms[k].workflow@);
        }
    }
}

/// A candidate of a workflow without an entry gets one.
fn absorb_new(out: &mut Vec<AutoflowContender>, ms: &Vec<IssueCandidate>, issue_ref: &str, n: usize)
    requires
        n < ms@.len(),
        ms@[n as int].issue_ref@ == issue_ref@,
        !has_entry(old(out)@, ms@[n as int].workflow@),
        summary_inv(ms@, issue_ref@, n as int, old(out)@),
    ensures
        summary_inv(ms@, issue_ref@, n + 1, final(out)@),
{
    let ghost issue = issue_ref@;
    let ghost pre = out@;
    let c = AutoflowContender {
        workflow: ms[n].workflow.clone(),
        priority: ms[n].priority,
        scope: Some(ms[n].scope.clone()),
        selected: false,
    };
    proof {
        assert(best_of_workflow(ms@, issue, n as int, n + 1)) by {
            assert forall|j: int|
                0 <= j < n + 1 && (#[trigger] ms@[j]).issue_ref@ == issue && ms@[j].workflow@ == ms@[n as int].workflow@ implies ms@[j].priority
                <= ms@[n as int].priority && (ms@[j].priority == ms@[n as int].priority ==> n <= j) by {
                if j < n {
                    assert(has_entry(pre, ms@[j].workflow@));
                }
            }
        }
        assert(records(c, ms@[n as int]));
        assert forall|i: int| 0 <= i < pre.len() implies (#[trigger] pre[i]).workflow@ != c.workflow@ by {
            if pre[i].workflow@ == c.workflow@ {
                assert(has_entry(pre, ms@[n as int].workflow@));
            }
        }
    }
    let q = insert_ranked(out, c);
    proof {
        let post = out@;
        assert forall|i: int| 0 <= i < post.len() implies recorded_best(ms@, issue, n + 1, #[trigger] post[i]) by {
            if i != q {
                let i0 = if i < q { i } else { i - 1 };
                assert(post[i] == pre[i0]);
                lemma_recorded_extends(ms@, issue, n as int, pre[i0]);
            }
        }
        assert forall|k: int| 0 <= k < n + 1 && (#[trigger] ms@[k]).issue_ref@ == issue implies has_entry(
            post,
            ms@[k].workflow@,
        ) by {
            if k == n {
                assert(post[q as int].workflow@ == ms@[k].workflow@);
            } else {
                let i0 = choose|i0: int| 0 <= i0 < pre.len() && (#[trigger] pre[i0]).workflow@ == ms@[k].workflow@;
                let j = if i0 < q { i0 } else { i0 + 1 };
                assert(post[j] == pre[i0]);
            }
        }
        assert forall|a: int, b: int| 0 <= a < b < post.len() implies (#[trigger] post[a]).workflow@
            != (#[trigger] post[b]).workflow@ by {
            let a0 = if a < q { a } else { a - 1 };
            let b0 = if b < q { b } else { b - 1 };
            if a != q {
                assert(post[a] == pre[a0]);
            }
            if b != q {
                assert(post[b] == pre[b0]);
            }
        }
        assert forall|i: int| 0 <= i < post.len() implies !(#[trigger] post[i]).selected by {
            if i != q {
                let i0 = if i < q { i } else { i - 1 };
                assert(post[i] == pre[i0]);
            }
        }
    }
}

/// Where an entry of `pre` other than `p` went once `p` was removed and an
/// entry inserted at `q`.
proof fn lemma_moved(
    pre: Seq<AutoflowContender>,
    mid: Seq<AutoflowContender>,
    post: Seq<AutoflowContender>,
    p: int,
    q: int,
    c: AutoflowContender,
)
    requires
        0 <= p < pre.len(),
        mid == pre.remove(p),
        0 <= q <= mid.len(),
        post == mid.insert(q, c),
    ensures
        post.len() == pre.len(),
        post[q] == c,
        forall|j: int| 0 <= j < post.len() && j != q ==> #[trigger] post[j] == pre[if (if j < q { j } else { j - 1 }) < p {
            if j < q { j } else { j - 1 }
        } else {
            (if j < q { j } else { j - 1 }) + 1
        }],
        forall|i: int| 0 <= i < pre.len() && i != p ==> #[trigger] pre[i] == post[if (if i < p { i } else { i - 1 }) < q {
            if i < p { i } else { i - 1 }
        } else {
            (if i < p { i } else { i - 1 }) + 1
        }],
{
}

/// A candidate better than its workflow's entry replaces it.
#[verifier::rlimit(30)]
fn absorb_better(out: &mut Vec<AutoflowContender>, ms: &Vec<IssueCandidate>, issue_ref: &str, n: usize, p: usize)
    requires
        n < ms@.len(),
        ms@[n as int].issue_ref@ == issue_ref@,
        p < old(out)@.len(),
        old(out)@[p as int].workflow@ == ms@[n as int].workflow@,
        ms@[n as int].priority > old(out)@[p as int].priority,
        summary_inv(ms@, issue_ref@, n as int, old(out)@),
    ensures
        summary_inv(ms@, issue_ref@, n + 1, final(out)@),
{
    let ghost issue = issue_ref@;
    let ghost pre = out@;
    let c = AutoflowContender {
        workflow: ms[n].workflow.clone(),
        priority: ms[n].priority,
        scope: Some(ms[n].scope.clone()),
        selected: false,
    };
    proof {
        assert(recorded_best(ms@, issue, n as int, pre[p as int]));
        let k0 = choose|k: int| best_of_workflow(ms@, issue, k, n as int) && records(pre[p as int], #[trigger] ms@[k]);
        assert(best_of_workflow(ms@, issue, n as int, n + 1)) by {
            assert forall|j: int|
                0 <= j < n + 1 && (#[trigger] ms@[j]).issue_ref@ == issue && ms@[j].workflow@ == ms@[n as int].workflow@ implies ms@[j].priority
                <= ms@[n as int].priority && (ms@[j].priority == ms@[n as int].priority ==> n <= j) by {
                if j < n {
                    assert(ms@[j].workflow@ == ms@[k0].workflow@);
                }
            }
        }
        assert(records(c, ms@[n as int]));
    }
    let _ = out.remove(p);
    let ghost mid = out@;
    proof {
        assert forall|a: int, b: int| 0 <= a < b < mid.len() implies ranks_before(#[trigger] mid[a], #[trigger] mid[b]) by {
            let a0 = if a < p { a } else { a + 1 };
            let b0 = if b < p { b } else { b + 1 };
            assert(mid[a] == pre[a0] && mid[b] == pre[b0]);
        }
        assert forall|i: int| 0 <= i < mid.len() implies (#[trigger] mid[i]).workflow@ != c.workflow@ by {
            let i0 = if i < p { i } else { i + 1 };
            assert(mid[i] == pre[i0]);
        }
    }
    let q = insert_ranked(out, c);
    proof {
        let post = out@;
        lemma_moved(pre, mid, post, p as int, q as int, c);
        assert forall|i: int| 0 <= i < post.len() implies recorded_best(ms@, issue, n + 1, #[trigger] post[i]) by {
            if i != q {
                let i1 = if i < q { i } else { i - 1 };
                let i0 = if i1 < p { i1 } else { i1 + 1 };
                assert(post[i] == pre[i0]);
                assert(pre[i0].workflow@ != pre[p as int].workflow@);
                lemma_recorded_extends(ms@, issue, n as int, pre[i0]);
            }
        }
        assert forall|k: int| 0 <= k < n + 1 && (#[trigger] ms@[k]).issue_ref@ == issue implies has_entry(
            post,
            ms@[k].workflow@,
        ) by {
            if ms@[k].workflow@ == c.workflow@ {
                assert(post[q as int].workflow@ == c.workflow@);
            } else {
                let i0 = choose|i0: int| 0 <= i0 < pre.len() && (#[trigger] pre[i0]).workflow@ == ms@[k].workflow@;
                assert(i0 != p);
                let i1 = if i0 < p { i0 } else { i0 - 1 };
                let j = if i1 < q { i1 } else { i1 + 1 };
                assert(pre[i0] == post[j]);
            }
        }
        assert forall|a: int, b: int| 0 <= a < b < post.len() implies (#[trigger] post[a]).workflow@
            != (#[trigger] post[b]).workflow@ by {
            let a1 = if a < q { a } else { a - 1 };
            let b1 = if b < q { b } else { b - 1 };
            let a0 = if a1 < p { a1 } else { a1 + 1 };
            let b0 = if b1 < p { b1 } else { b1 + 1 };
            if a != q {
                assert(post[a] == pre[a0]);
            }
            if b != q {
                assert(post[b] == pre[b0]);
            }
            if a != q && b != q {
                assert(a0 != b0);
            }
        }
        assert forall|i: int| 0 <= i < post.len() implies !(#[trigger] post[i]).selected by {
            if i != q {
                let i1 = if i < q { i } else { i - 1 };
                let i0 = if i1 < p { i1 } else { i1 + 1 };
                assert(post[i] == pre[i0]);
            }
        }
    }
}

/// Mark the first entry selected.
fn select_first(out: &mut Vec<AutoflowContender>)
    requires
        old(out)@.len() > 0,
    ensures
        final(out)@.len() == old(out)@.len(),
        final(out)@[0].workflow == old(out)@[0].workflow,
        final(out)@[0].priority == old(out)@[0].priority,
        final(out)@[0].scope == old(out)@[0].scope,
        final(out)@[0].selected,
        forall|i: int| 0 < i < final(out)@.len() ==> final(out)@[i] == old(out)@[i],
{
    let mut first = out.remove(0);
    first.selected = true;
    out.insert(0, first);
}

/// The contenders for one issue among the matches of a pass: one entry per
/// workflow that matched it, recording that workflow's best-priority match
/// (the first, where several tie), ordered by priority, highest first, then
/// by workflow name; the first entry is the selected one.
pub fn summarize_issue_contenders(ms: &Vec<IssueCandidate>, issue_ref: &str) -> (r: Vec<AutoflowContender>)
    ensures
        entries_recorded(ms@, issue_ref@, ms@.len() as int, r@),
        workflows_covered(ms@, issue_ref@, ms@.len() as int, r@),
        ranked(r@),
        workflows_distinct(r@),
        forall|i: int| 0 <= i < r@.len() ==> (#[trigger] r@[i]).selected == (i == 0),
{
    let ghost issue = issue_ref@;
    let mut out: Vec<AutoflowContender> = Vec::new();
    let mut n: usize = 0;
    while n < ms.len()
        invariant
            n <= ms@.len(),
            issue == issue_ref@,
            summary_inv(ms@, issue, n as int, out@),
        decreases ms@.len() - n,
    {
        if !str_eq(ms[n].issue_ref.as_str(), issue_ref) {
            proof {
                lemma_absorb_other(ms@, issue, n as int, out@);
            }
        } else {
            match find_workflow(&out, ms[n].workflow.as_str()) {
                Some(p) => {
                    if ms[n].priority > out[p].priority {
                        absorb_better(&mut out, ms, issue_ref, n, p);
                    } else {
                        proof {
                            lemma_absorb_keep(ms@, issue, n as int, out@, p as int);
                        }
                    }
                },
                None => {
                    absorb_new(&mut out, ms, issue_ref, n);
                },
            }
        }
        n = n + 1;
    }
    if out.len() > 0 {
        let ghost pre = out@;
        select_first(&mut out);
        proof {
            let post = out@;
            let total = ms@.len() as int;
            assert forall|i: int| 0 <= i < post.len() implies recorded_best(ms@, issue, total, #[trigger] post[i]) by {
                if i == 0 {
                    assert(recorded_best(ms@, issue, total, pre[0]));
                    let k = choose|k: int| best_of_workflow(ms@, issue, k, total) && records(pre[0], #[trigger] ms@[k]);
                    assert(records(post[0], ms@[k]));
                } else {
                    assert(post[i] == pre[i]);
                }
            }
            assert forall|k: int| 0 <= k < total && (#[trigger] ms@[k]).issue_ref@ == issue implies has_entry(
                post,
                ms@[k].workflow@,
            ) by {
                assert(has_entry(pre, ms@[k].workflow@));
                let i0 = choose|i0: int| 0 <= i0 < pre.len() && (#[trigger] pre[i0]).workflow@ == ms@[k].workflow@;
                if i0 > 0 {
                    assert(post[i0] == pre[i0]);
                }
                assert(post[i0].workflow@ == ms@[k].workflow@);
            }
            assert forall|a: int, b: int| 0 <= a < b < post.len() implies ranks_before(#[trigger] post[a], #[trigger] post[b]) by {
                assert(ranks_before(pre[a], pre[b]));
                assert(post[b] == pre[b]);
                if a > 0 {
                    assert(post[a] == pre[a]);
                }
            }
            assert forall|a: int, b: int| 0 <= a < b < post.len() implies (#[trigger] post[a]).workflow@
                != (#[trigger] post[b]).workflow@ by {
                assert(pre[a].workflow@ != pre[b].workflow@);
                assert(post[b] == pre[b]);
                if a > 0 {
                    assert(post[a] == pre[a]);
                }
            }
            assert forall|i: int| 0 <= i < post.len() implies (#[trigger] post[i]).selected == (i == 0) by {
                if i > 0 {
                    assert(post[i] == pre[i]);
                }
            }
        }
    }
    out
}

} // verus!

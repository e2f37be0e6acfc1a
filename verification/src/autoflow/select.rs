//! Which issues an autoflow selects, which workflow wins an issue when several
//! match, and how many active claims each repo holds.

use vstd::prelude::*;
use vstd::string::*;
use crate::autoflow::claims::{claim_counts_toward_max_active, spec_counts_toward_max_active, AutoflowContender, ClaimStatus};
use crate::text::{chars_of, str_eq};

verus! {

/// Whether an issue is open or closed.
#[derive(Debug, Clone, Copy, PartialEq, Eq, Structural)]
pub enum IssueState {
    Open,
    Closed,
}

/// Which issues an autoflow takes: by state and by labels.
#[derive(Debug, Clone)]
pub struct IssueSelector {
    /// Accepted states; empty accepts any.
    pub states: Vec<IssueState>,
    /// Labels the issue must all carry.
    pub labels_all: Vec<String>,
    /// Labels of which the issue must carry one; empty imposes nothing.
    pub labels_any: Vec<String>,
    /// Labels the issue must not carry.
    pub labels_none: Vec<String>,
}

/// The issue carries label `l`.
pub open spec fn has_label(labels: Seq<String>, l: Seq<char>) -> bool {
    exists|k: int| 0 <= k < labels.len() && (#[trigger] labels[k])@ == l
}

/// Whether the selector takes an issue in `state` with `labels`.
pub open spec fn spec_selector_matches(sel: IssueSelector, state: IssueState, labels: Seq<String>) -> bool {
    &&& (sel.states@.len() == 0 || sel.states@.contains(state))
    &&& forall|i: int| 0 <= i < sel.labels_all@.len() ==> has_label(labels, (#[trigger] sel.labels_all@[i])@)
    &&& (sel.labels_any@.len() == 0 || exists|i: int|
        0 <= i < sel.labels_any@.len() && has_label(labels, (#[trigger] sel.labels_any@[i])@))
    &&& forall|i: int| 0 <= i < sel.labels_none@.len() ==> !has_label(labels, (#[trigger] sel.labels_none@[i])@)
}

/// A selector takes an issue only in one of its states (any state when it
/// lists none), carrying every `labels_all` label, one of the `labels_any`
/// labels where it lists some, and none of the `labels_none` labels; and it
/// takes every issue that meets all of these.
pub proof fn law_selector_conditions(sel: IssueSelector, state: IssueState, labels: Seq<String>)
    ensures
        spec_selector_matches(sel, state, labels) ==> (sel.states@.len() == 0 || exists|j: int|
            0 <= j < sel.states@.len() && sel.states@[j] == state),
        sel.states@.len() > 0 && (forall|j: int| 0 <= j < sel.states@.len() ==> sel.states@[j] != state)
            ==> !spec_selector_matches(sel, state, labels),
        spec_selector_matches(sel, state, labels) ==> forall|i: int|
            #![trigger sel.labels_all@[i]]
            0 <= i < sel.labels_all@.len() ==> exists|k: int|
                #![trigger labels[k]]
                0 <= k < labels.len() && labels[k]@ == sel.labels_all@[i]@,
        spec_selector_matches(sel, state, labels) ==> forall|i: int, k: int|
            0 <= i < sel.labels_none@.len() && 0 <= k < labels.len() ==> (#[trigger] labels[k])@ != (
            #[trigger] sel.labels_none@[i])@,
        spec_selector_matches(sel, state, labels) && sel.labels_any@.len() > 0 ==> exists|i: int, k: int|
            0 <= i < sel.labels_any@.len() && 0 <= k < labels.len() && (#[trigger] labels[k])@ == (
            #[trigger] sel.labels_any@[i])@,
        (sel.states@.len() == 0 || sel.states@.contains(state)) && (forall|i: int|
            #![trigger sel.labels_all@[i]]
            0 <= i < sel.labels_all@.len() ==> exists|k: int|
                #![trigger labels[k]]
                0 <= k < labels.len() && labels[k]@ == sel.labels_all@[i]@) && (sel.labels_any@.len() == 0 || exists|
            i: int,
            k: int,
        | 0 <= i < sel.labels_any@.len() && 0 <= k < labels.len() && (#[trigger] labels[k])@ == (
            #[trigger] sel.labels_any@[i])@) && (forall|i: int, k: int|
            0 <= i < sel.labels_none@.len() && 0 <= k < labels.len() ==> (#[trigger] labels[k])@ != (
            #[trigger] sel.labels_none@[i])@) ==> spec_selector_matches(sel, state, labels),
{
    if spec_selector_matches(sel, state, labels) {
        assert forall|i: int| #![trigger sel.labels_all@[i]] 0 <= i < sel.labels_all@.len() implies exists|k: int|
            #![trigger labels[k]]
            0 <= k < labels.len() && labels[k]@ == sel.labels_all@[i]@ by {
            assert(has_label(labels, sel.labels_all@[i]@));
        }
        assert forall|i: int, k: int| 0 <= i < sel.labels_none@.len() && 0 <= k < labels.len() implies (
        #[trigger] labels[k])@ != (#[trigger] sel.labels_none@[i])@ by {
            assert(!has_label(labels, sel.labels_none@[i]@));
        }
        if sel.labels_any@.len() > 0 {
            let i = choose|i: int| 0 <= i < sel.labels_any@.len() && has_label(labels, (#[trigger] sel.labels_any@[i])@);
            let k = choose|k: int| 0 <= k < labels.len() && (#[trigger] labels[k])@ == sel.labels_any@[i]@;
            assert(labels[k]@ == sel.labels_any@[i]@);
        }
    }
}

/// Whether `labels` holds `l`.
pub fn label_present(labels: &Vec<String>, l: &str) -> (r: bool)
    ensures
        r == has_label(labels@, l@),
{
    let mut k: usize = 0;
    while k < labels.len()
        invariant
            k <= labels@.len(),
            forall|j: int| 0 <= j < k ==> (#[trigger] labels@[j])@ != l@,
        decreases labels@.len() - k,
    {
        if str_eq(labels[k].as_str(), l) {
            return true;
        }
        k = k + 1;
    }
    false
}

/// Whether the selector takes an issue in `state` with `labels`.
pub fn selector_matches(sel: &IssueSelector, state: IssueState, labels: &Vec<String>) -> (r: bool)
    ensures
        r == spec_selector_matches(*sel, state, labels@),
{
    if sel.states.len() > 0 {
        let mut found = false;
        let mut i: usize = 0;
        while i < sel.states.len()
            invariant
                i <= sel.states@.len(),
                found <==> exists|j: int| 0 <= j < i && sel.states@[j] == state,
            decreases sel.states@.len() - i,
        {
            if sel.states[i] == state {
                found = true;
            }
            i = i + 1;
        }
        if !found {
            return false;
        }
    }
    let mut i: usize = 0;
    while i < sel.labels_all.len()
        invariant
            i <= sel.labels_all@.len(),
            forall|j: int| 0 <= j < i ==> has_label(labels@, (#[trigger] sel.labels_all@[j])@),
        decreases sel.labels_all@.len() - i,
    {
        if !label_present(labels, sel.labels_all[i].as_str()) {
            return false;
        }
        i = i + 1;
    }
    if sel.labels_any.len() > 0 {
        let mut any = false;
        let mut i: usize = 0;
        while i < sel.labels_any.len()
            invariant
                i <= sel.labels_any@.len(),
                any <==> exists|j: int| 0 <= j < i && has_label(labels@, (#[trigger] sel.labels_any@[j])@),
            decreases sel.labels_any@.len() - i,
        {
            if label_present(labels, sel.labels_any[i].as_str()) {
                any = true;
            }
            i = i + 1;
        }
        if !any {
            return false;
        }
    }
    let mut i: usize = 0;
    while i < sel.labels_none.len()
        invariant
            i <= sel.labels_none@.len(),
            forall|j: int| 0 <= j < i ==> !has_label(labels@, (#[trigger] sel.labels_none@[j])@),
        decreases sel.labels_none@.len() - i,
    {
        if label_present(labels, sel.labels_none[i].as_str()) {
            return false;
        }
        i = i + 1;
    }
    true
}

/// `a` sorts strictly before `b`, character by character (`str` order).
pub open spec fn lex_lt(a: Seq<char>, b: Seq<char>) -> bool
    decreases a.len(),
{
    if a.len() == 0 {
        b.len() > 0
    } else if b.len() == 0 {
        false
    } else if (a[0] as int) < (b[0] as int) {
        true
    } else if a[0] == b[0] {
        lex_lt(a.drop_first(), b.drop_first())
    } else {
        false
    }
}

/// `str` order is transitive.
pub proof fn lemma_lex_lt_transitive(a: Seq<char>, b: Seq<char>, c: Seq<char>)
    requires
        lex_lt(a, b),
        lex_lt(b, c),
    ensures
        lex_lt(a, c),
    decreases a.len(),
{
    if a.len() > 0 && b.len() > 0 && c.len() > 0 && a[0] == b[0] && b[0] == c[0] {
        lemma_lex_lt_transitive(a.drop_first(), b.drop_first(), c.drop_first());
    }
}

/// Nothing sorts before itself.
pub proof fn lemma_lex_lt_irreflexive(a: Seq<char>)
    ensures
        !lex_lt(a, a),
    decreases a.len(),
{
    if a.len() > 0 {
        lemma_lex_lt_irreflexive(a.drop_first());
    }
}

/// Two distinct texts are ordered one way or the other.
pub proof fn lemma_lex_lt_total(a: Seq<char>, b: Seq<char>)
    ensures
        a == b || lex_lt(a, b) || lex_lt(b, a),
    decreases a.len(),
{
    if a.len() > 0 && b.len() > 0 && a[0] == b[0] {
        lemma_lex_lt_total(a.drop_first(), b.drop_first());
        if a.drop_first() == b.drop_first() {
            assert(a =~= seq![a[0]] + a.drop_first());
            assert(b =~= seq![b[0]] + b.drop_first());
        }
    } else if a.len() > 0 && b.len() > 0 {
        assert((a[0] as int) != (b[0] as int));
    } else if a.len() == 0 && b.len() == 0 {
        assert(a =~= b);
    }
}

/// Whether `a` sorts strictly before `b`.
pub fn lex_less(a: &str, b: &str) -> (r: bool)
    ensures
        r == lex_lt(a@, b@),
{
    let x = chars_of(a);
    let y = chars_of(b);
    let mut i: usize = 0;
    proof {
        assert(a@.subrange(0, a@.len() as int) =~= a@);
        assert(b@.subrange(0, b@.len() as int) =~= b@);
    }
    while i < x.len() && i < y.len() && x[i] == y[i]
        invariant
            i <= x@.len(),
            i <= y@.len(),
            x@ == a@,
            y@ == b@,
            lex_lt(a@, b@) == lex_lt(a@.subrange(i as int, a@.len() as int), b@.subrange(i as int, b@.len() as int)),
        decreases x@.len() - i,
    {
        proof {
            let s = a@.subrange(i as int, a@.len() as int);
            let t = b@.subrange(i as int, b@.len() as int);
            assert(s.drop_first() =~= a@.subrange(i + 1, a@.len() as int));
            assert(t.drop_first() =~= b@.subrange(i + 1, b@.len() as int));
        }
        i = i + 1;
    }
    proof {
        let s = a@.subrange(i as int, a@.len() as int);
        let t = b@.subrange(i as int, b@.len() as int);
        if i < x@.len() && i < y@.len() {
            assert(s[0] == a@[i as int]);
            assert(t[0] == b@[i as int]);
        }
    }
    if i == x.len() {
        i < y.len()
    } else if i == y.len() {
        false
    } else {
        x[i] < y[i]
    }
}

/// A workflow that matched an issue: the issue, the workflow, its priority
/// and where the workflow was found.
#[derive(Debug, Clone)]
pub struct IssueCandidate {
    pub issue_ref: String,
    pub workflow: String,
    pub priority: i32,
    pub scope: String,
}

/// `a` outranks `b`: a higher priority, or the same priority and a workflow
/// name that sorts first.
pub open spec fn outranks(a: IssueCandidate, b: IssueCandidate) -> bool {
    a.priority > b.priority || (a.priority == b.priority && lex_lt(a.workflow@, b.workflow@))
}

/// The two rank the same.
pub open spec fn ranks_even(a: IssueCandidate, b: IssueCandidate) -> bool {
    a.priority == b.priority && a.workflow@ == b.workflow@
}

/// Candidate `w` wins its issue among `ms`: nothing on the same issue
/// outranks it, and it comes first among those that rank the same.
pub open spec fn wins(ms: Seq<IssueCandidate>, w: int) -> bool {
    &&& 0 <= w < ms.len()
    &&& forall|j: int|
        0 <= j < ms.len() && (#[trigger] ms[j]).issue_ref@ == ms[w].issue_ref@ ==> !outranks(ms[j], ms[w]) && (
        ranks_even(ms[j], ms[w]) ==> w <= j)
}

proof fn lemma_outranks_transitive(a: IssueCandidate, b: IssueCandidate, c: IssueCandidate)
    requires
        outranks(a, b),
        outranks(b, c),
    ensures
        outranks(a, c),
{
    if a.priority == b.priority && b.priority == c.priority {
        lemma_lex_lt_transitive(a.workflow@, b.workflow@, c.workflow@);
    }
}

proof fn lemma_outranks_irreflexive(a: IssueCandidate)
    ensures
        !outranks(a, a),
{
    lemma_lex_lt_irreflexive(a.workflow@);
}

/// Whether candidate `a` outranks candidate `b`.
pub fn candidate_outranks(a: &IssueCandidate, b: &IssueCandidate) -> (r: bool)
    ensures
        r == outranks(*a, *b),
{
    a.priority > b.priority || (a.priority == b.priority && lex_less(a.workflow.as_str(), b.workflow.as_str()))
}

/// The candidate that wins the issue of candidate `first`, the first
/// candidate on that issue.
pub fn winner_for(ms: &Vec<IssueCandidate>, first: usize) -> (w: usize)
    requires
        first < ms@.len(),
        forall|k: int| 0 <= k < first ==> (#[trigger] ms@[k]).issue_ref@ != ms@[first as int].issue_ref@,
    ensures
        wins(ms@, w as int),
        ms@[w as int].issue_ref@ == ms@[first as int].issue_ref@,
{
    let n = ms.len();
    let mut best: usize = first;
    let mut j: usize = first + 1;
    proof {
        lemma_outranks_irreflexive(ms@[first as int]);
    }
    while j < ms.len()
        invariant
            first <= best < j <= ms@.len(),
            ms@[best as int].issue_ref@ == ms@[first as int].issue_ref@,
            forall|k: int| 0 <= k < first ==> (#[trigger] ms@[k]).issue_ref@ != ms@[first as int].issue_ref@,
            forall|k: int|
                first <= k < j && (#[trigger] ms@[k]).issue_ref@ == ms@[first as int].issue_ref@ ==> !outranks(
                    ms@[k],
                    ms@[best as int],
                ) && (ranks_even(ms@[k], ms@[best as int]) ==> best <= k),
        decreases ms@.len() - j,
    {
        if str_eq(ms[j].issue_ref.as_str(), ms[first].issue_ref.as_str()) && candidate_outranks(&ms[j], &ms[best]) {
            proof {
                assert forall|k: int|
                    first <= k < j + 1 && (#[trigger] ms@[k]).issue_ref@ == ms@[first as int].issue_ref@ implies !outranks(
                    ms@[k],
                    ms@[j as int],
                ) && (ranks_even(ms@[k], ms@[j as int]) ==> j <= k) by {
                    if k < j {
                        if outranks(ms@[k], ms@[j as int]) {
                            lemma_outranks_transitive(ms@[k], ms@[j as int], ms@[best as int]);
                        }
                        if ranks_even(ms@[k], ms@[j as int]) {
                            assert(outranks(ms@[k], ms@[best as int]));
                        }
                    } else {
                        lemma_outranks_irreflexive(ms@[j as int]);
                    }
                }
            }
            best = j;
        }
        j = j + 1;
    }
    best
}

/// Some entry of `r` names a candidate on the issue of candidate `j`.
pub open spec fn has_winner(ms: Seq<IssueCandidate>, r: Seq<usize>, j: int) -> bool {
    exists|i: int| 0 <= i < r.len() && ms[#[trigger] r[i] as int].issue_ref@ == ms[j].issue_ref@
}

/// The winners of a pass, one per issue: for every issue some candidate
/// matched, the candidate that wins it.
pub fn choose_winning_matches(ms: &Vec<IssueCandidate>) -> (r: Vec<usize>)
    ensures
        forall|i: int| 0 <= i < r@.len() ==> wins(ms@, #[trigger] r@[i] as int),
        forall|j: int| 0 <= j < ms@.len() ==> #[trigger] has_winner(ms@, r@, j),
        forall|i: int, k: int|
            0 <= i < k < r@.len() ==> ms@[#[trigger] r@[i] as int].issue_ref@ != ms@[#[trigger] r@[k] as int].issue_ref@,
{
    let mut out: Vec<usize> = Vec::new();
    let ghost mut wit: Seq<int> = Seq::empty();
    let mut j: usize = 0;
    while j < ms.len()
        invariant
            j <= ms@.len(),
            wit.len() == j,
            forall|i: int| 0 <= i < out@.len() ==> wins(ms@, #[trigger] out@[i] as int),
            forall|m: int|
                0 <= m < j ==> 0 <= #[trigger] wit[m] < out@.len() && ms@[out@[wit[m]] as int].issue_ref@
                    == ms@[m].issue_ref@,
            forall|i: int, k: int|
                0 <= i < k < out@.len() ==> ms@[#[trigger] out@[i] as int].issue_ref@ != ms@[#[trigger] out@[k] as int].issue_ref@,
        decreases ms@.len() - j,
    {
        let mut seen = false;
        let ghost mut at: int = 0;
        proof {
            assert forall|x: int| 0 <= x < out@.len() implies (#[trigger] out@[x]) < ms@.len() by {
                assert(wins(ms@, out@[x] as int));
            }
        }
        let mut i: usize = 0;
        while i < out.len()
            invariant
                i <= out@.len(),
                j < ms@.len(),
                forall|x: int| 0 <= x < out@.len() ==> (#[trigger] out@[x]) < ms@.len(),
                seen ==> 0 <= at < out@.len() && ms@[out@[at] as int].issue_ref@ == ms@[j as int].issue_ref@,
                !seen ==> forall|x: int| 0 <= x < i ==> ms@[#[trigger] out@[x] as int].issue_ref@ != ms@[j as int].issue_ref@,
            decreases out@.len() - i,
        {
            let w = out[i];
            if str_eq(ms[w].issue_ref.as_str(), ms[j].issue_ref.as_str()) {
                seen = true;
                proof {
                    at = i as int;
                }
            }
            i = i + 1;
        }
        if !seen {
            proof {
                assert forall|k: int| 0 <= k < j implies (#[trigger] ms@[k]).issue_ref@ != ms@[j as int].issue_ref@ by {
                    assert(ms@[out@[wit[k]] as int].issue_ref@ == ms@[k].issue_ref@);
                }
            }
            let w = winner_for(ms, j);
            let ghost before = out@;
            out.push(w);
            proof {
                assert forall|m: int| 0 <= m < j implies out@[#[trigger] wit[m]] == before[wit[m]] by {}
                wit = wit.push(before.len() as int);
            }
        } else {
            proof {
                wit = wit.push(at);
            }
        }
        j = j + 1;
    }
    proof {
        assert forall|m: int| 0 <= m < ms@.len() implies #[trigger] has_winner(ms@, out@, m) by {
            let x = wit[m];
            assert(0 <= x < out@.len());
            assert(ms@[out@[x] as int].issue_ref@ == ms@[m].issue_ref@);
        }
    }
    out
}

/// The contenders a claim shows: the given ones with the selected workflow
/// (or, where none is selected, the first) marked; or, where none were
/// given, the selected workflow alone.
pub open spec fn selected_flags(contenders: Seq<AutoflowContender>, selected_workflow: Seq<char>) -> Seq<bool> {
    let any = exists|i: int| 0 <= i < contenders.len() && (#[trigger] contenders[i]).workflow@ == selected_workflow;
    Seq::new(
        contenders.len(),
        |i: int| if any { contenders[i].workflow@ == selected_workflow } else { i == 0 },
    )
}

/// The contenders recorded on a claim, with the running workflow selected.
pub fn active_or_fallback_contenders(
    contenders: &Vec<AutoflowContender>,
    resolved_priority: Option<i32>,
    resolved_scope: Option<&str>,
    selected_workflow: &str,
) -> (r: Vec<AutoflowContender>)
    ensures
        contenders@.len() > 0 ==> {
            &&& r@.len() == contenders@.len()
            &&& forall|i: int|
                0 <= i < r@.len() ==> {
                    &&& (#[trigger] r@[i]).workflow@ == contenders@[i].workflow@
                    &&& r@[i].priority == contenders@[i].priority
                    &&& r@[i].scope == contenders@[i].scope
                    &&& r@[i].selected == selected_flags(contenders@, selected_workflow@)[i]
                }
        },
        contenders@.len() == 0 ==> {
            &&& r@.len() == 1
            &&& r@[0].workflow@ == selected_workflow@
            &&& r@[0].priority == match resolved_priority {
                Some(p) => p,
                None => 0i32,
            }
            &&& match resolved_scope {
                Some(s) => r@[0].scope matches Some(t) && t@ == s@,
                None => r@[0].scope is None,
            }
            &&& r@[0].selected
        },
{
    if contenders.len() > 0 {
        let mut out: Vec<AutoflowContender> = Vec::new();
        let mut matched = false;
        let mut i: usize = 0;
        while i < contenders.len()
            invariant
                i <= contenders@.len(),
                out@.len() == i,
                matched <==> exists|k: int| 0 <= k < i && (#[trigger] contenders@[k]).workflow@ == selected_workflow@,
                forall|k: int|
                    0 <= k < i ==> {
                        &&& (#[trigger] out@[k]).workflow@ == contenders@[k].workflow@
                        &&& out@[k].priority == contenders@[k].priority
                        &&& out@[k].scope == contenders@[k].scope
                        &&& out@[k].selected == (contenders@[k].workflow@ == selected_workflow@)
                    },
            decreases contenders@.len() - i,
        {
            let c = &contenders[i];
            let sel = str_eq(c.workflow.as_str(), selected_workflow);
            out.push(
                AutoflowContender {
                    workflow: c.workflow.clone(),
                    priority: c.priority,
                    scope: c.scope.clone(),
                    selected: sel,
                },
            );
            if sel {
                matched = true;
            }
            i = i + 1;
        }
        if !matched {
            let first = out.remove(0);
            out.insert(
                0,
                AutoflowContender {
                    workflow: first.workflow,
                    priority: first.priority,
                    scope: first.scope,
                    selected: true,
                },
            );
        }
        out
    } else {
        let mut out: Vec<AutoflowContender> = Vec::new();
        out.push(
            AutoflowContender {
                workflow: String::from_str(selected_workflow),
                priority: match resolved_priority {
                    Some(p) => p,
                    None => 0,
                },
                scope: match resolved_scope {
                    Some(s) => Some(String::from_str(s)),
                    None => None,
                },
                selected: true,
            },
        );
        out
    }
}

} // verus!

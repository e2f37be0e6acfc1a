//! The autoflows visible to the operator: which cover an issue, which one a
//! name picks, and which repo an issue is bound to.

use vstd::prelude::*;
use vstd::string::*;
use vstd::multiset::Multiset;
use crate::autoflow::issue_ref::{
    format_issue_ref, hosts_repos, issue_ref_to_repo_ref, spec_format_issue_ref, spec_parse_issue_ref, tracker_name,
    IssueRef, IssueTracker,
};
use crate::autoflow::select::{lemma_lex_lt_irreflexive, lemma_lex_lt_total, lemma_lex_lt_transitive, lex_less, lex_lt};
use crate::autoflow::wake_events::EventSource;
use crate::autoflow::wake_hints::{insert_sorted, sorted_set, text_set};
use crate::autoflow::wakes::{source_matches_issue_ref, spec_source_matches};
use crate::text::{join_seqs, join_strings, str_eq};

verus! {

/// The source an autoflow names, as read from its definition.
#[derive(Debug, Clone)]
pub enum AutoflowSource {
    /// It names none: it reads its repo.
    Absent,
    /// It names this source.
    Named(EventSource),
    /// It names a source that does not read as one.
    Invalid,
}

/// A workflow visible to the operator.
#[derive(Debug, Clone)]
pub struct VisibleAutoflow {
    pub name: String,
    pub scope: String,
    pub workflow_path: String,
    pub project_root: Option<String>,
    pub repo_ref: Option<String>,
    pub preferred_checkout: Option<String>,
    /// Whether the workflow declares an autoflow at all.
    pub has_autoflow: bool,
    pub source: AutoflowSource,
}

/// The repo an issue reference names, read back from its text.
pub open spec fn issue_repo(issue: IssueRef) -> Option<Seq<char>> {
    match spec_parse_issue_ref(spec_format_issue_ref(issue.tracker, issue.project@, issue.number as nat)) {
        Ok((t, p, n)) => if hosts_repos(t) {
            Some(tracker_name(t) + ":"@ + p)
        } else {
            None
        },
        Err(_) => None,
    }
}

/// Whether a repo is the one an issue lives in.
pub fn repo_ref_matches_issue_ref(repo_ref: &str, issue: &IssueRef) -> (r: bool)
    ensures
        r == (issue_repo(*issue) == Some(repo_ref@)),
{
    let text = format_issue_ref(issue);
    match issue_ref_to_repo_ref(text.as_str()) {
        Ok(expected) => str_eq(expected.as_str(), repo_ref),
        Err(_) => false,
    }
}

/// An autoflow covers an issue: through the source it names, else through
/// the repo it is bound to.
pub open spec fn spec_covers(issue: IssueRef, entry: VisibleAutoflow) -> bool {
    entry.has_autoflow && match entry.source {
        AutoflowSource::Named(s) => spec_source_matches(s, issue),
        AutoflowSource::Invalid => false,
        AutoflowSource::Absent => entry.repo_ref matches Some(r) && issue_repo(issue) == Some(r@),
    }
}

/// Whether a visible autoflow covers the issue.
pub fn issue_matches_visible_source(issue: &IssueRef, entry: &VisibleAutoflow) -> (r: bool)
    ensures
        r == spec_covers(*issue, *entry),
{
    if !entry.has_autoflow {
        return false;
    }
    match &entry.source {
        AutoflowSource::Named(s) => source_matches_issue_ref(s, issue),
        AutoflowSource::Invalid => false,
        AutoflowSource::Absent => match &entry.repo_ref {
            Some(r) => repo_ref_matches_issue_ref(r.as_str(), issue),
            None => false,
        },
    }
}

/// The issue an autoflow works on: a Jira issue reached through the Jira
/// project an autoflow's source names is filed under that project.
pub open spec fn spec_issue_for_autoflow(issue: IssueRef, source: AutoflowSource) -> (IssueTracker, Seq<char>, u64) {
    match source {
        AutoflowSource::Named(s) => if issue.tracker == IssueTracker::Jira && spec_source_matches(s, issue) {
            match s {
                EventSource::TrackerProject { tracker, project } => if tracker == IssueTracker::Jira {
                    (issue.tracker, project@, issue.number)
                } else {
                    (issue.tracker, issue.project@, issue.number)
                },
                _ => (issue.tracker, issue.project@, issue.number),
            }
        } else {
            (issue.tracker, issue.project@, issue.number)
        },
        _ => (issue.tracker, issue.project@, issue.number),
    }
}

/// The issue as the autoflow names it.
pub fn issue_ref_for_autoflow(issue: &IssueRef, source: &AutoflowSource) -> (r: IssueRef)
    ensures
        (r.tracker, r.project@, r.number) == spec_issue_for_autoflow(*issue, *source),
{
    let same = IssueRef { tracker: issue.tracker, project: issue.project.clone(), number: issue.number };
    match source {
        AutoflowSource::Named(s) => {
            if issue.tracker != IssueTracker::Jira || !source_matches_issue_ref(s, issue) {
                return same;
            }
            match s {
                EventSource::TrackerProject { tracker, project } => {
                    if *tracker != IssueTracker::Jira {
                        return same;
                    }
                    IssueRef { tracker: issue.tracker, project: project.clone(), number: issue.number }
                },
                _ => same,
            }
        },
        _ => same,
    }
}

/// Texts in ascending order, duplicates kept.
pub open spec fn ascending(v: Seq<String>) -> bool {
    forall|i: int, j: int| 0 <= i < j < v.len() ==> !lex_lt((#[trigger] v[j])@, (#[trigger] v[i])@)
}

/// Sort texts in ascending order.
pub fn sort_texts(texts: Vec<String>) -> (r: Vec<String>)
    ensures
        ascending(r@),
        views(r@).to_multiset() == views(texts@).to_multiset(),
{
    broadcast use vstd::seq_lib::group_to_multiset_ensures;

    let ghost all = views(texts@);
    let mut rest = texts;
    let mut out: Vec<String> = Vec::new();
    proof {
        assert(views(out@) =~= Seq::<Seq<char>>::empty());
        assert(views(out@).to_multiset().add(views(rest@).to_multiset()) =~= all.to_multiset());
    }
    while rest.len() > 0
        invariant
            ascending(out@),
            views(out@).to_multiset().add(views(rest@).to_multiset()) == all.to_multiset(),
        decreases rest@.len(),
    {
        let ghost before = rest@;
        let x = rest.remove(0);
        let mut p: usize = 0;
        while p < out.len() && !lex_less(x.as_str(), out[p].as_str())
            invariant
                p <= out@.len(),
                forall|k: int| 0 <= k < p ==> !lex_lt(x@, (#[trigger] out@[k])@),
            decreases out@.len() - p,
        {
            p = p + 1;
        }
        let ghost pre = out@;
        proof {
            assert forall|b: int| p <= b < pre.len() implies lex_lt(x@, (#[trigger] pre[b])@) by {
                if b > p {
                    lemma_lex_lt_total(pre[p as int]@, pre[b]@);
                    if lex_lt(pre[p as int]@, pre[b]@) {
                        lemma_lex_lt_transitive(x@, pre[p as int]@, pre[b]@);
                    }
                }
            }
        }
        out.insert(p, x);
        proof {
            assert forall|a: int, b: int| 0 <= a < b < out@.len() implies !lex_lt(
                (#[trigger] out@[b])@,
                (#[trigger] out@[a])@,
            ) by {
                if b < p {
                    assert(out@[a] == pre[a] && out@[b] == pre[b]);
                } else if b == p {
                    assert(out@[a] == pre[a]);
                } else if a < p {
                    assert(out@[a] == pre[a] && out@[b] == pre[b - 1]);
                    if lex_lt(pre[b - 1]@, pre[a]@) {
                        lemma_lex_lt_transitive(x@, pre[b - 1]@, pre[a]@);
                    }
                } else if a == p {
                    assert(out@[b] == pre[b - 1]);
                    if lex_lt(pre[b - 1]@, x@) {
                        lemma_lex_lt_transitive(x@, pre[b - 1]@, x@);
                        lemma_lex_lt_irreflexive(x@);
                    }
                } else {
                    assert(out@[a] == pre[a - 1] && out@[b] == pre[b - 1]);
                }
            }
            assert(views(out@) =~= views(pre).insert(p as int, x@));
            vstd::seq_lib::to_multiset_insert(views(pre), p as int, x@);
            assert(views(before) =~= views(rest@).insert(0, x@));
            vstd::seq_lib::to_multiset_insert(views(rest@), 0, x@);
            assert(views(out@).to_multiset().add(views(rest@).to_multiset()) =~= all.to_multiset());
        }
    }
    proof {
        assert(views(rest@) =~= Seq::<Seq<char>>::empty());
        assert(views(rest@).to_multiset() =~= Multiset::empty());
        assert(views(out@).to_multiset() =~= all.to_multiset());
    }
    out
}

/// The texts of a sequence of strings.
pub open spec fn views(v: Seq<String>) -> Seq<Seq<char>> {
    v.map_values(|t: String| t@)
}

/// How an ambiguous autoflow is listed: `- <repo> (<scope>, <path>)`.
pub open spec fn option_line(e: VisibleAutoflow) -> Seq<char> {
    "- "@ + (match e.repo_ref {
        Some(r) => r@,
        None => "-"@,
    }) + " ("@ + e.scope@ + ", "@ + e.workflow_path@ + ")"@
}

fn option_text(e: &VisibleAutoflow) -> (r: String)
    ensures
        r@ == option_line(*e),
{
    let mut s = String::from_str("- ");
    match &e.repo_ref {
        Some(r) => s.append(r.as_str()),
        None => s.append("-"),
    }
    s.append(" (");
    s.append(e.scope.as_str());
    s.append(", ");
    s.append(e.workflow_path.as_str());
    s.append(")");
    s
}

/// The indices of the entries named `name`.
pub open spec fn named(entries: Seq<VisibleAutoflow>, name: Seq<char>, k: int) -> bool {
    0 <= k < entries.len() && entries[k].name@ == name
}

/// The option lines of the first `i` entries named `name`, in order.
pub open spec fn options_ok(entries: Seq<VisibleAutoflow>, name: Seq<char>, i: int, options: Seq<String>) -> bool {
    views(options) == entries.subrange(0, i).filter(|e: VisibleAutoflow| e.name@ == name).map_values(
        |e: VisibleAutoflow| option_line(e),
    )
}

/// The entries named `name`: the first, whether there are several, and
/// their option lines.
fn scan_named(entries: &Vec<VisibleAutoflow>, name: &str) -> (r: (Option<usize>, bool, Vec<String>))
    ensures
        match r.0 {
            Some(k) => named(entries@, name@, k as int),
            None => forall|j: int| !named(entries@, name@, j),
        },
        r.1 ==> exists|a: int, b: int| a != b && named(entries@, name@, a) && named(entries@, name@, b),
        !r.1 ==> match r.0 {
            Some(k) => forall|j: int| named(entries@, name@, j) ==> j == k,
            None => true,
        },
        options_ok(entries@, name@, entries@.len() as int, r.2@),
{
    let ghost pred = |e: VisibleAutoflow| e.name@ == name@;
    let mut found: Option<usize> = None;
    let mut options: Vec<String> = Vec::new();
    let mut many = false;
    let mut i: usize = 0;
    proof {
        reveal(Seq::filter);
        assert(entries@.subrange(0, 0).filter(pred) =~= Seq::<VisibleAutoflow>::empty());
        assert(views(options@) =~= Seq::<Seq<char>>::empty());
        assert(entries@.subrange(0, 0).filter(pred).map_values(|e: VisibleAutoflow| option_line(e)) =~= Seq::<
            Seq<char>,
        >::empty());
    }
    while i < entries.len()
        invariant
            i <= entries@.len(),
            pred == (|e: VisibleAutoflow| e.name@ == name@),
            options_ok(entries@, name@, i as int, options@),
            match found {
                Some(k) => named(entries@, name@, k as int) && k < i,
                None => forall|j: int| 0 <= j < i ==> !named(entries@, name@, j),
            },
            many ==> exists|a: int, b: int| a != b && named(entries@, name@, a) && named(entries@, name@, b),
            !many ==> match found {
                Some(k) => forall|j: int| 0 <= j < i && named(entries@, name@, j) ==> j == k,
                None => true,
            },
        decreases entries@.len() - i,
    {
        proof {
            assert(entries@.subrange(0, i + 1) =~= entries@.subrange(0, i as int).push(entries@[i as int]));
            entries@.subrange(0, i as int).lemma_filter_push(entries@[i as int], pred);
        }
        let ghost prev = options@;
        if str_eq(entries[i].name.as_str(), name) {
            match found {
                Some(k) => {
                    many = true;
                    proof {
                        assert(named(entries@, name@, k as int) && named(entries@, name@, i as int));
                    }
                },
                None => {
                    found = Some(i);
                },
            }
            options.push(option_text(&entries[i]));
            proof {
                let f = |e: VisibleAutoflow| option_line(e);
                let before = entries@.subrange(0, i as int).filter(pred);
                assert(entries@.subrange(0, i + 1).filter(pred) == before.push(entries@[i as int]));
                assert(before.push(entries@[i as int]).map_values(f) =~= before.map_values(f).push(
                    option_line(entries@[i as int]),
                ));
                assert(views(options@) =~= views(prev).push(options@[prev.len() as int]@));
            }
        } else {
            proof {
                assert(entries@.subrange(0, i + 1).filter(pred) == entries@.subrange(0, i as int).filter(pred));
            }
        }
        i = i + 1;
    }
    (found, many, options)
}

/// The error listing the autoflows that share a name, sorted.
fn ambiguity_error(
    entries: &Vec<VisibleAutoflow>,
    name: &str,
    issue_ref_text: &str,
    options: Vec<String>,
) -> (e: String)
    requires
        options_ok(entries@, name@, entries@.len() as int, options@),
    ensures
        exists|l: Seq<Seq<char>>| ambiguity_listing(entries@, name@, l) && e@ == "multiple autoflows named `"@ + name@
            + "` are visible for issue `"@ + issue_ref_text@ + "`:\n"@ + join_seqs(l, "\n"@)
            + "\npass `--repo <platform>:<owner>/<repo>` to disambiguate"@,
{
    broadcast use vstd::seq_lib::group_to_multiset_ensures;

    let sorted = sort_texts(options);
    let mut e = String::from_str("multiple autoflows named `");
    e.append(name);
    e.append("` are visible for issue `");
    e.append(issue_ref_text);
    e.append("`:\n");
    let listed = join_strings(&sorted, "\n");
    e.append(listed.as_str());
    e.append("\npass `--repo <platform>:<owner>/<repo>` to disambiguate");
    proof {
        assert(entries@.subrange(0, entries@.len() as int) =~= entries@);
        let l = views(sorted@);
        assert forall|a: int, b: int| 0 <= a < b < l.len() implies !lex_lt(#[trigger] l[b], #[trigger] l[a]) by {
            assert(l[a] == sorted@[a]@ && l[b] == sorted@[b]@);
        }
        assert(ambiguity_listing(entries@, name@, l));
        assert(listed@ == join_seqs(l, "\n"@));
    }
    e
}

/// Pick the autoflow named `name` among those covering an issue: the one
/// entry of that name; an error naming the issue (and the repo filter) where
/// there is none, and one listing the candidates, sorted, where there are
/// several.
pub fn choose_named_autoflow(
    entries: &Vec<VisibleAutoflow>,
    name: &str,
    issue_ref_text: &str,
    repo: Option<&str>,
) -> (r: Result<usize, String>)
    ensures
        match r {
            Ok(k) => named(entries@, name@, k as int) && forall|j: int| named(entries@, name@, j) ==> j == k,
            Err(e) => {
                ||| (forall|j: int| !named(entries@, name@, j)) && e@ == match repo {
                    Some(rp) => "no autoflow named `"@ + name@ + "` is visible for issue `"@ + issue_ref_text@
                        + "` and repo `"@ + rp@ + "`"@,
                    None => "no autoflow named `"@ + name@ + "` is visible for issue `"@ + issue_ref_text@ + "`"@,
                }
                ||| (exists|a: int, b: int| a != b && named(entries@, name@, a) && named(entries@, name@, b))
                    && exists|l: Seq<Seq<char>>| ambiguity_listing(entries@, name@, l) && e@ == "multiple autoflows named `"@
                    + name@ + "` are visible for issue `"@ + issue_ref_text@ + "`:\n"@ + join_seqs(l, "\n"@)
                    + "\npass `--repo <platform>:<owner>/<repo>` to disambiguate"@
            },
        },
{
    let (found, many, options) = scan_named(entries, name);
    match found {
        None => {
            let mut e = String::from_str("no autoflow named `");
            e.append(name);
            e.append("` is visible for issue `");
            e.append(issue_ref_text);
            match repo {
                Some(rp) => {
                    e.append("` and repo `");
                    e.append(rp);
                    e.append("`");
                },
                None => {
                    e.append("`");
                },
            }
            Err(e)
        },
        Some(k) => {
            if !many {
                return Ok(k);
            }
            Err(ambiguity_error(entries, name, issue_ref_text, options))
        },
    }
}

/// The listing of ambiguous autoflows: the option lines of the entries of
/// the name, in ascending order.
pub open spec fn ambiguity_listing(entries: Seq<VisibleAutoflow>, name: Seq<char>, l: Seq<Seq<char>>) -> bool {
    &&& forall|i: int, j: int| 0 <= i < j < l.len() ==> !lex_lt(#[trigger] l[j], #[trigger] l[i])
    &&& l.to_multiset() == entries.filter(|e: VisibleAutoflow| e.name@ == name).map_values(
        |e: VisibleAutoflow| option_line(e),
    ).to_multiset()
}

/// The autoflow covers the issue and is bound to repo `t`.
pub open spec fn binds(e: VisibleAutoflow, issue: IssueRef, t: Seq<char>) -> bool {
    spec_covers(issue, e) && (e.repo_ref matches Some(r) && r@ == t)
}

/// The repos bound to the visible autoflows that cover an issue.
pub open spec fn bound_repos(entries: Seq<VisibleAutoflow>, issue: IssueRef) -> Set<Seq<char>> {
    Set::new(
        |t: Seq<char>|
            exists|k: int|
                0 <= k < entries.len() && binds(#[trigger] entries[k], issue, t),
    )
}

/// What the bound repos decide: the one repo, or the error for none or
/// several (listed in order).
pub open spec fn binding_outcome(repos: Seq<String>, issue_text: Seq<char>) -> Result<Seq<char>, Seq<char>> {
    if repos.len() == 0 {
        Err("no visible autoflow is bound to tracker issue `"@ + issue_text + "`"@)
    } else if repos.len() == 1 {
        Ok(repos[0]@)
    } else {
        Err(
            "multiple repo bindings are visible for tracker issue `"@ + issue_text + "`: "@ + join_seqs(views(repos), ", "@)
                + "\npass `--repo <platform>:<owner>/<repo>` to disambiguate"@,
        )
    }
}

pub open spec fn result_view(r: Result<String, String>) -> Result<Seq<char>, Seq<char>> {
    match r {
        Ok(s) => Ok(s@),
        Err(e) => Err(e@),
    }
}

/// The repo an issue runs against: the `--repo` filter; else the repo its
/// reference names; else the one repo bound to the visible autoflows that
/// cover it, an error where there is none or there are several.
pub fn resolve_repo_binding_for_issue(repo_filter: Option<&str>, issue: &IssueRef, entries: &Vec<VisibleAutoflow>) -> (r:
    Result<String, String>)
    ensures
        match repo_filter {
            Some(f) => r matches Ok(s) && s@ == f@,
            None => match issue_repo(*issue) {
                Some(t) => r matches Ok(s) && s@ == t,
                None => exists|v: Seq<String>|
                    sorted_set(v) && text_set(v) == bound_repos(entries@, *issue) && result_view(r) == binding_outcome(
                        v,
                        spec_format_issue_ref(issue.tracker, issue.project@, issue.number as nat),
                    ),
            },
        },
{
    if let Some(f) = repo_filter {
        return Ok(String::from_str(f));
    }
    let text = format_issue_ref(issue);
    if let Ok(r) = issue_ref_to_repo_ref(text.as_str()) {
        return Ok(r);
    }
    let mut repos: Vec<String> = Vec::new();
    let mut i: usize = 0;
    proof {
        assert(text_set(repos@) =~= Set::<Seq<char>>::empty());
    }
    while i < entries.len()
        invariant
            i <= entries@.len(),
            sorted_set(repos@),
            text_set(repos@) == Set::new(
                |t: Seq<char>|
                    exists|k: int|
                        0 <= k < i && binds(#[trigger] entries@[k], *issue, t),
            ),
        decreases entries@.len() - i,
    {
        let ghost prev = text_set(repos@);
        let covers = issue_matches_visible_source(issue, &entries[i]);
        if covers {
            if let Some(r) = &entries[i].repo_ref {
                insert_sorted(&mut repos, r.as_str());
            }
        }
        proof {
            let next = Set::new(
                |t: Seq<char>|
                    exists|k: int|
                        0 <= k < i + 1 && binds(#[trigger] entries@[k], *issue, t),
            );
            assert(text_set(repos@) =~= next) by {
                assert forall|t: Seq<char>| next.contains(t) implies text_set(repos@).contains(t) by {
                    let k = choose|k: int|
                        0 <= k < i + 1 && binds(#[trigger] entries@[k], *issue, t);
                    if k < i {
                        assert(prev.contains(t));
                    }
                }
                assert forall|t: Seq<char>| text_set(repos@).contains(t) implies next.contains(t) by {
                    if prev.contains(t) {
                        let k = choose|k: int|
                            0 <= k < i && binds(#[trigger] entries@[k], *issue, t);
                    } else {
                        assert(spec_covers(*issue, entries@[i as int]));
                    }
                }
            }
        }
        i = i + 1;
    }
    proof {
        assert(text_set(repos@) =~= bound_repos(entries@, *issue));
    }
    if repos.len() == 0 {
        let mut e = String::from_str("no visible autoflow is bound to tracker issue `");
        e.append(text.as_str());
        e.append("`");
        Err(e)
    } else if repos.len() == 1 {
        Ok(repos[0].clone())
    } else {
        let mut e = String::from_str("multiple repo bindings are visible for tracker issue `");
        e.append(text.as_str());
        e.append("`: ");
        let listed = join_strings(&repos, ", ");
        e.append(listed.as_str());
        e.append("\npass `--repo <platform>:<owner>/<repo>` to disambiguate");
        Err(e)
    }
}

/// The repo and checkout a visible autoflow runs in: its repo binding and
/// its preferred checkout (else its project root); an error naming what is
/// missing.
pub fn visible_binding(entry: &VisibleAutoflow) -> (r: Result<(String, String), String>)
    ensures
        match entry.repo_ref {
            None => r matches Err(e) && e@ == "autoflow `"@ + entry.name@ + "` is missing a repo binding"@,
            Some(repo) => match (match entry.preferred_checkout {
                Some(c) => Some(c),
                None => entry.project_root,
            }) {
                Some(c) => r matches Ok((a, b)) && a@ == repo@ && b@ == c@,
                None => r matches Err(e) && e@ == "autoflow `"@ + entry.name@ + "` is missing a preferred checkout"@,
            },
        },
{
    let repo = match &entry.repo_ref {
        Some(r) => r.clone(),
        None => {
            let mut e = String::from_str("autoflow `");
            e.append(entry.name.as_str());
            e.append("` is missing a repo binding");
            return Err(e);
        },
    };
    let checkout = match &entry.preferred_checkout {
        Some(c) => c.clone(),
        None => match &entry.project_root {
            Some(c) => c.clone(),
            None => {
                let mut e = String::from_str("autoflow `");
                e.append(entry.name.as_str());
                e.append("` is missing a preferred checkout");
                return Err(e);
            },
        },
    };
    Ok((repo, checkout))
}

} // verus!

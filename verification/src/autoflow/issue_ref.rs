//! Issue references: `<tracker>:<project>/issues/<number>`, their canonical
//! text, and what they imply about repos, display keys and URLs.

use vstd::prelude::*;
use vstd::string::*;
use crate::autoflow::shape::{find_char, first_index_of, lemma_first_index_of};
use crate::number::{
    decimal, digits_value, int_error_message, int_error_text, is_digit, lemma_decimal_digits,
    lemma_parse_u64_bound, lemma_parse_u64_decimal, parse_u64, spec_parse_u64, u64_to_string,
    IntErrorKind,
};
use crate::text::{
    chars_of, occurs_at, rfind_chars, slice_chars, str_eq, string_from_chars, take_chars,
};

verus! {

/// The issue trackers autoflow understands.
#[derive(Debug, Clone, Copy, PartialEq, Eq, Structural)]
pub enum IssueTracker {
    Github,
    Gitlab,
    Linear,
    Jira,
}

pub open spec fn tracker_name(t: IssueTracker) -> Seq<char> {
    match t {
        IssueTracker::Github => "github"@,
        IssueTracker::Gitlab => "gitlab"@,
        IssueTracker::Linear => "linear"@,
        IssueTracker::Jira => "jira"@,
    }
}

pub open spec fn spec_tracker_from(s: Seq<char>) -> Option<IssueTracker> {
    if s == "github"@ {
        Some(IssueTracker::Github)
    } else if s == "gitlab"@ {
        Some(IssueTracker::Gitlab)
    } else if s == "linear"@ {
        Some(IssueTracker::Linear)
    } else if s == "jira"@ {
        Some(IssueTracker::Jira)
    } else {
        None
    }
}

/// The tracker's key.
pub fn tracker_as_str(t: IssueTracker) -> (r: &'static str)
    ensures
        r@ == tracker_name(t),
{
    match t {
        IssueTracker::Github => "github",
        IssueTracker::Gitlab => "gitlab",
        IssueTracker::Linear => "linear",
        IssueTracker::Jira => "jira",
    }
}

/// The tracker a key names.
pub fn tracker_from_str(s: &str) -> (r: Option<IssueTracker>)
    ensures
        r == spec_tracker_from(s@),
{
    if str_eq(s, "github") {
        Some(IssueTracker::Github)
    } else if str_eq(s, "gitlab") {
        Some(IssueTracker::Gitlab)
    } else if str_eq(s, "linear") {
        Some(IssueTracker::Linear)
    } else if str_eq(s, "jira") {
        Some(IssueTracker::Jira)
    } else {
        None
    }
}

/// An issue on a tracker.
#[derive(Debug, Clone)]
pub struct IssueRef {
    pub tracker: IssueTracker,
    pub project: String,
    pub number: u64,
}

/// Why an issue reference could not be read.
#[derive(Debug, Clone)]
pub enum IssueRefError {
    /// Not of the form `<tracker>:<project>/issues/<number>`.
    Invalid { value: String },
    /// The tracker key is not one autoflow knows.
    UnknownTracker { tracker: String },
    /// The number does not parse as a `u64`.
    Number { kind: IntErrorKind },
}

impl IssueRefError {
    pub fn message(&self) -> (r: String)
        ensures
            r@ == match *self {
                IssueRefError::Invalid { value } => "invalid issue ref `"@ + value@ + "`"@,
                IssueRefError::UnknownTracker { tracker } => "unknown issue tracker `"@ + tracker@ + "`"@,
                IssueRefError::Number { kind } => int_error_text(kind),
            },
    {
        match self {
            IssueRefError::Invalid { value } => {
                let mut s = String::from_str("invalid issue ref `");
                s.append(value.as_str());
                s.append("`");
                s
            },
            IssueRefError::UnknownTracker { tracker } => {
                let mut s = String::from_str("unknown issue tracker `");
                s.append(tracker.as_str());
                s.append("`");
                s
            },
            IssueRefError::Number { kind } => String::from_str(int_error_message(*kind)),
        }
    }
}

/// The index of the last occurrence of `t` in `s`.
#[verifier::opaque]
pub open spec fn last_occurrence(s: Seq<char>, t: Seq<char>) -> Option<int> {
    if exists|j: int| occurs_at(s, t, j) {
        Some(choose|j: int| occurs_at(s, t, j) && forall|k: int| j < k ==> !#[trigger] occurs_at(s, t, k))
    } else {
        None
    }
}

/// `last_occurrence` is an occurrence with none after it.
pub proof fn lemma_last_occurrence(s: Seq<char>, t: Seq<char>, i: int)
    requires
        occurs_at(s, t, i),
        forall|k: int| i < k ==> !#[trigger] occurs_at(s, t, k),
    ensures
        last_occurrence(s, t) == Some(i),
{
    reveal(last_occurrence);
    let j = choose|j: int| occurs_at(s, t, j) && forall|k: int| j < k ==> !#[trigger] occurs_at(s, t, k);
    if j < i {
    } else if j > i {
    }
}

/// `last_occurrence` is `None` where `t` does not occur.
pub proof fn lemma_last_occurrence_none(s: Seq<char>, t: Seq<char>)
    requires
        forall|k: int| !#[trigger] occurs_at(s, t, k),
    ensures
        last_occurrence(s, t) is None,
{
    reveal(last_occurrence);
}

/// The number of an issue reference, read as `str::parse::<u64>` reads it.
#[verifier::opaque]
pub open spec fn issue_number(s: Seq<char>) -> Result<nat, IntErrorKind> {
    spec_parse_u64(s)
}

/// The three parts of an issue reference that does parse.
pub type IssueParts = (IssueTracker, Seq<char>, nat);

/// What the issue-reference parser reads: the tracker up to the first `:`, the
/// project up to the last `/issues/`, and the number after it.
pub open spec fn spec_parse_issue_ref(v: Seq<char>) -> Result<IssueParts, IssueRefError> {
    match first_index_of(v, ':') {
        None => Err(IssueRefError::Invalid { value: arbitrary() }),
        Some(i) => {
            let rest = v.subrange(i + 1, v.len() as int);
            match last_occurrence(rest, "/issues/"@) {
                None => Err(IssueRefError::Invalid { value: arbitrary() }),
                Some(j) => match spec_tracker_from(v.subrange(0, i)) {
                    None => Err(IssueRefError::UnknownTracker { tracker: arbitrary() }),
                    Some(t) => match issue_number(rest.subrange(j + 8, rest.len() as int)) {
                        Err(k) => Err(IssueRefError::Number { kind: k }),
                        Ok(n) => Ok((t, rest.subrange(0, j), n)),
                    },
                },
            }
        },
    }
}

/// The error a reference fails with, up to the texts it carries.
pub open spec fn same_error_kind(a: IssueRefError, b: IssueRefError) -> bool {
    match (a, b) {
        (IssueRefError::Invalid { .. }, IssueRefError::Invalid { .. }) => true,
        (IssueRefError::UnknownTracker { .. }, IssueRefError::UnknownTracker { .. }) => true,
        (IssueRefError::Number { kind: k1 }, IssueRefError::Number { kind: k2 }) => k1 == k2,
        _ => false,
    }
}

/// Read `<tracker>:<project>/issues/<number>`.
pub fn parse_issue_ref_text(value: &str) -> (r: Result<IssueRef, IssueRefError>)
    ensures
        match spec_parse_issue_ref(value@) {
            Ok((t, p, n)) => r matches Ok(ir) && ir.tracker == t && ir.project@ == p && ir.number as nat == n,
            Err(e) => r matches Err(e2) && same_error_kind(e, e2),
        },
        r matches Err(IssueRefError::Invalid { value: v }) ==> v@ == value@,
        r matches Err(IssueRefError::UnknownTracker { tracker: t }) ==> first_index_of(value@, ':') matches Some(
            i,
        ) && t@ == value@.subrange(0, i),
{
    let cs = chars_of(value);
    let colon = match find_char(cs.as_slice(), ':') {
        Some(i) => i,
        None => return Err(IssueRefError::Invalid { value: String::from_str(value) }),
    };
    let n = cs.len();
    proof {
        assert(colon < n);
    }
    let rest = slice_chars(cs.as_slice(), colon + 1, n);
    let sep = chars_of("/issues/");
    proof {
        reveal_strlit("/issues/");
    }
    let at = match rfind_chars(rest.as_slice(), sep.as_slice()) {
        Some(j) => j,
        None => {
            proof {
                lemma_last_occurrence_none(rest@, "/issues/"@);
            }
            return Err(IssueRefError::Invalid { value: String::from_str(value) });
        },
    };
    proof {
        lemma_last_occurrence(rest@, "/issues/"@, at as int);
    }
    let tracker_text = string_from_chars(slice_chars(cs.as_slice(), 0, colon).as_slice());
    let tracker = match tracker_from_str(tracker_text.as_str()) {
        Some(t) => t,
        None => return Err(IssueRefError::UnknownTracker { tracker: tracker_text }),
    };
    let number_text = slice_chars(rest.as_slice(), at + 8, rest.len());
    proof {
        reveal(issue_number);
    }
    let number = match parse_u64(number_text.as_slice()) {
        Ok(n) => n,
        Err(k) => return Err(IssueRefError::Number { kind: k }),
    };
    let project = string_from_chars(slice_chars(rest.as_slice(), 0, at).as_slice());
    Ok(IssueRef { tracker, project, number })
}

pub open spec fn spec_format_issue_ref(t: IssueTracker, project: Seq<char>, number: nat) -> Seq<char> {
    tracker_name(t) + ":"@ + project + "/issues/"@ + decimal(number)
}

/// `<tracker>:<project>/issues/<number>`.
pub fn format_issue_ref(r: &IssueRef) -> (s: String)
    ensures
        s@ == spec_format_issue_ref(r.tracker, r.project@, r.number as nat),
{
    let mut s = String::from_str(tracker_as_str(r.tracker));
    s.append(":");
    s.append(r.project.as_str());
    s.append("/issues/");
    let n = u64_to_string(r.number);
    s.append(n.as_str());
    s
}

/// The canonical text of an autoflow issue reference.
pub open spec fn spec_canonical_issue_ref(v: Seq<char>) -> Option<Seq<char>> {
    match spec_parse_issue_ref(v) {
        Ok((t, p, n)) => Some(spec_format_issue_ref(t, p, n)),
        Err(_) => None,
    }
}

/// Canonicalise a tracker-native issue reference such as
/// `linear:team-123/issues/42` or `jira:acme.atlassian.net/ENG/issues/42`.
pub fn canonical_autoflow_issue_ref(value: &str) -> (r: Result<String, IssueRefError>)
    ensures
        match spec_canonical_issue_ref(value@) {
            Some(c) => r matches Ok(s) && s@ == c,
            None => r is Err,
        },
{
    match parse_issue_ref_text(value) {
        Ok(issue) => Ok(format_issue_ref(&issue)),
        Err(e) => Err(e),
    }
}

proof fn lemma_tracker_name(t: IssueTracker)
    ensures
        spec_tracker_from(tracker_name(t)) == Some(t),
        forall|k: int| 0 <= k < tracker_name(t).len() ==> #[trigger] tracker_name(t)[k] != ':',
{
    reveal_strlit("github");
    reveal_strlit("gitlab");
    reveal_strlit("linear");
    reveal_strlit("jira");
    assert("gitlab"@[3] != "github"@[3]);
    assert("linear"@[0] != "github"@[0]);
    assert("linear"@[0] != "gitlab"@[0]);
    assert("jira"@.len() != "github"@.len());
    assert("jira"@.len() != "gitlab"@.len());
    assert("jira"@.len() != "linear"@.len());
}

/// In `<tracker>:<tail>` the first `:` ends the tracker name.
proof fn lemma_first_colon(t: IssueTracker, tail: Seq<char>)
    ensures
        first_index_of(tracker_name(t) + seq![':'] + tail, ':') == Some(tracker_name(t).len() as int),
{
    lemma_tracker_name(t);
    let tn = tracker_name(t);
    let c = tn + seq![':'] + tail;
    let tl = tn.len() as int;
    assert(c[tl] == ':');
    assert forall|j: int| 0 <= j < tl implies c[j] != ':' by {
        assert(c[j] == tn[j]);
    }
    lemma_first_index_of(c, ':', tl);
}

proof fn lemma_separator_len()
    ensures
        "/issues/"@.len() == 8,
{
    reveal_strlit("/issues/");
}

/// In `<project>/issues/<digits>` the last `/issues/` ends the project.
proof fn lemma_last_separator(project: Seq<char>, d: Seq<char>)
    requires
        forall|i: int| 0 <= i < d.len() ==> is_digit(#[trigger] d[i]),
    ensures
        last_occurrence(project + "/issues/"@ + d, "/issues/"@) == Some(project.len() as int),
{
    reveal_strlit("/issues/");
    let sep = "/issues/"@;
    let rest = project + sep + d;
    let pl = project.len() as int;
    assert(rest.subrange(pl, pl + 8) =~= sep);
    assert(occurs_at(rest, sep, pl));
    assert forall|j: int| pl < j implies !#[trigger] occurs_at(rest, sep, j) by {
        if occurs_at(rest, sep, j) {
            assert(rest.subrange(j, j + 8)[7] == sep[7]);
            assert(rest[j + 7] == d[j + 7 - pl - 8]);
            assert(is_digit(d[j + 7 - pl - 8]));
        }
    }
    lemma_last_occurrence(rest, sep, pl);
}

/// The parser's result, from where its two separators fall and what lies
/// between them.
proof fn lemma_parse_from_parts(c: Seq<char>, t: IssueTracker, project: Seq<char>, n: nat, tl: int, pl: int)
    requires
        0 <= tl < c.len(),
        first_index_of(c, ':') == Some(tl),
        last_occurrence(c.subrange(tl + 1, c.len() as int), "/issues/"@) == Some(pl),
        spec_tracker_from(c.subrange(0, tl)) == Some(t),
        issue_number(c.subrange(tl + 1, c.len() as int).subrange(pl + 8, c.len() - tl - 1)) == Ok::<
            nat,
            IntErrorKind,
        >(n),
        c.subrange(tl + 1, c.len() as int).subrange(0, pl) == project,
    ensures
        spec_parse_issue_ref(c) == Ok::<IssueParts, IssueRefError>((t, project, n)),
{
}

/// A reference spelt from its parts parses back into them, whatever digits
/// spell the number.
proof fn lemma_parse_spelt(t: IssueTracker, project: Seq<char>, d: Seq<char>, n: nat)
    requires
        forall|i: int| 0 <= i < d.len() ==> is_digit(#[trigger] d[i]),
        issue_number(d) == Ok::<nat, IntErrorKind>(n),
    ensures
        spec_parse_issue_ref(tracker_name(t) + ":"@ + project + "/issues/"@ + d) == Ok::<IssueParts, IssueRefError>(
            (t, project, n),
        ),
{
    let tn = tracker_name(t);
    let sep = "/issues/"@;
    let tail = project + sep + d;
    let c = tn + ":"@ + project + sep + d;
    let tl = tn.len() as int;
    let pl = project.len() as int;
    lemma_spelt_layout(tn, project, d);
    lemma_first_colon(t, tail);
    lemma_last_separator(project, d);
    lemma_tracker_name(t);
    let rest = c.subrange(tl + 1, c.len() as int);
    lemma_parse_from_parts(c, t, project, n, tl, pl);
}

/// Where the parts of `<tracker>:<project>/issues/<digits>` lie.
proof fn lemma_spelt_layout(tn: Seq<char>, project: Seq<char>, d: Seq<char>)
    ensures
        ({
            let c = tn + ":"@ + project + "/issues/"@ + d;
            let tl = tn.len() as int;
            let pl = project.len() as int;
            let rest = c.subrange(tl + 1, c.len() as int);
            &&& c == tn + seq![':'] + (project + "/issues/"@ + d)
            &&& rest == project + "/issues/"@ + d
            &&& c.subrange(0, tl) == tn
            &&& rest.subrange(pl + 8, c.len() - tl - 1) == d
            &&& rest.subrange(0, pl) == project
        }),
{
    reveal_strlit(":");
    lemma_separator_len();
    let c = tn + ":"@ + project + "/issues/"@ + d;
    let tl = tn.len() as int;
    let pl = project.len() as int;
    let rest = c.subrange(tl + 1, c.len() as int);
    assert(c =~= tn + seq![':'] + (project + "/issues/"@ + d));
    assert(rest =~= project + "/issues/"@ + d);
    assert(c.subrange(0, tl) =~= tn);
    assert(rest.subrange(pl + 8, c.len() - tl - 1) =~= d);
    assert(rest.subrange(0, pl) =~= project);
}

/// Reading back what `format_issue_ref` wrote gives the tracker, the project
/// and the number that went in, whatever the project holds.
pub proof fn law_issue_ref_round_trip(t: IssueTracker, project: Seq<char>, number: u64)
    ensures
        spec_parse_issue_ref(spec_format_issue_ref(t, project, number as nat)) == Ok::<IssueParts, IssueRefError>(
            (t, project, number as nat),
        ),
{
    lemma_decimal_digits(number as nat);
    lemma_parse_u64_decimal(number);
    reveal(issue_number);
    lemma_parse_spelt(t, project, decimal(number as nat), number as nat);
}

/// The canonical text of an issue reference is its own canonical text.
pub proof fn law_canonical_issue_ref_idempotent(v: Seq<char>)
    requires
        spec_canonical_issue_ref(v) is Some,
    ensures
        spec_canonical_issue_ref(spec_canonical_issue_ref(v).unwrap()) == spec_canonical_issue_ref(v),
{
    let first = first_index_of(v, ':').unwrap();
    let rest = v.subrange(first + 1, v.len() as int);
    let j = last_occurrence(rest, "/issues/"@).unwrap();
    lemma_parse_u64_bound(rest.subrange(j + 8, rest.len() as int));
    reveal(issue_number);
    match spec_parse_issue_ref(v) {
        Ok((t, p, n)) => {
            law_issue_ref_round_trip(t, p, n as u64);
        },
        Err(_) => {},
    }
}

/// Why an issue reference names no repository.
#[derive(Debug, Clone)]
pub enum RepoRefError {
    /// The reference does not parse.
    Parse(IssueRefError),
    /// The reference is on a tracker that is not a repository host.
    NoRepoBinding { issue_ref: String },
}

impl RepoRefError {
    pub fn message(&self) -> (r: String)
        ensures
            r@ == match *self {
                RepoRefError::Parse(e) => match e {
                    IssueRefError::Invalid { value } => "invalid issue ref `"@ + value@ + "`"@,
                    IssueRefError::UnknownTracker { tracker } => "unknown issue tracker `"@ + tracker@
                        + "`"@,
                    IssueRefError::Number { kind } => int_error_text(kind),
                },
                RepoRefError::NoRepoBinding { issue_ref } => "tracker issue `"@ + issue_ref@
                    + "` does not imply a repo binding"@,
            },
    {
        match self {
            RepoRefError::Parse(e) => e.message(),
            RepoRefError::NoRepoBinding { issue_ref } => {
                let mut s = String::from_str("tracker issue `");
                s.append(issue_ref.as_str());
                s.append("` does not imply a repo binding");
                s
            },
        }
    }
}

/// Whether the tracker is also a repository host.
pub open spec fn hosts_repos(t: IssueTracker) -> bool {
    t is Github || t is Gitlab
}

/// The repo an issue reference lives in: `<tracker>:<project>` for GitHub and
/// GitLab issues; tracker-native issues name no repo.
pub fn issue_ref_to_repo_ref(issue_ref: &str) -> (r: Result<String, RepoRefError>)
    ensures
        match spec_parse_issue_ref(issue_ref@) {
            Ok((t, p, n)) => if hosts_repos(t) {
                r matches Ok(s) && s@ == tracker_name(t) + ":"@ + p
            } else {
                r matches Err(RepoRefError::NoRepoBinding { issue_ref: v }) && v@ == issue_ref@
            },
            Err(e) => r matches Err(RepoRefError::Parse(e2)) && same_error_kind(e, e2),
        },
{
    let issue = match parse_issue_ref_text(issue_ref) {
        Ok(issue) => issue,
        Err(e) => return Err(RepoRefError::Parse(e)),
    };
    match issue.tracker {
        IssueTracker::Github | IssueTracker::Gitlab => {
            let mut s = String::from_str(tracker_as_str(issue.tracker));
            s.append(":");
            s.append(issue.project.as_str());
            Ok(s)
        },
        IssueTracker::Linear | IssueTracker::Jira => Err(
            RepoRefError::NoRepoBinding { issue_ref: String::from_str(issue_ref) },
        ),
    }
}

/// The index of the last `c` in `s`.
pub open spec fn last_index_of(s: Seq<char>, c: char) -> Option<int> {
    if exists|i: int| 0 <= i < s.len() && s[i] == c {
        Some(choose|i: int| 0 <= i < s.len() && s[i] == c && forall|j: int| i < j < s.len() ==> s[j] != c)
    } else {
        None
    }
}

/// What follows the last `/` (`rsplit('/').next()`): the whole text where it
/// holds none.
pub open spec fn last_segment(s: Seq<char>) -> Seq<char> {
    match last_index_of(s, '/') {
        Some(i) => s.subrange(i + 1, s.len() as int),
        None => s,
    }
}

/// Find the last `c` in `s`.
pub fn rfind_char(s: &[char], c: char) -> (r: Option<usize>)
    ensures
        r matches Some(i) ==> last_index_of(s@, c) == Some(i as int) && i < s@.len(),
        r is None ==> last_index_of(s@, c) is None,
{
    let mut i: usize = s.len();
    while i > 0
        invariant
            i <= s@.len(),
            forall|j: int| i <= j < s@.len() ==> s@[j] != c,
        decreases i,
    {
        if s[i - 1] == c {
            proof {
                let w = (i - 1) as int;
                let k = choose|k: int| 0 <= k < s@.len() && s@[k] == c && forall|j: int| k < j < s@.len() ==> s@[j] != c;
                if k < w {
                } else if k > w {
                }
            }
            return Some(i - 1);
        }
        i = i - 1;
    }
    None
}

/// The text after the last `/` of `s`.
pub fn last_segment_of(s: &str) -> (r: Vec<char>)
    ensures
        r@ == last_segment(s@),
{
    let cs = chars_of(s);
    let n = cs.len();
    match rfind_char(cs.as_slice(), '/') {
        Some(i) => slice_chars(cs.as_slice(), i + 1, n),
        None => cs,
    }
}

/// How an issue is shown: Jira issues as `<KEY>-<number>` with the project key
/// taken from the last path segment, other issues as their number.
pub open spec fn spec_issue_display_ref(t: IssueTracker, project: Seq<char>, number: nat) -> Seq<char> {
    if t is Jira {
        let seg = last_segment(project);
        let key = if seg.len() > 0 { seg } else { project };
        key + "-"@ + decimal(number)
    } else {
        decimal(number)
    }
}

/// The short reference an issue is shown by.
pub fn issue_display_ref(issue: &IssueRef) -> (r: String)
    ensures
        r@ == spec_issue_display_ref(issue.tracker, issue.project@, issue.number as nat),
{
    let number = u64_to_string(issue.number);
    match issue.tracker {
        IssueTracker::Jira => {
            let seg = last_segment_of(issue.project.as_str());
            let mut s = if seg.len() > 0 {
                string_from_chars(seg.as_slice())
            } else {
                issue.project.clone()
            };
            s.append("-");
            s.append(number.as_str());
            s
        },
        _ => number,
    }
}

/// `s` without its trailing `c`s (`trim_end_matches`).
pub open spec fn trim_end_char(s: Seq<char>, c: char) -> Seq<char>
    decreases s.len(),
{
    if s.len() > 0 && s.last() == c {
        trim_end_char(s.drop_last(), c)
    } else {
        s
    }
}

/// `s` without its trailing `c`s.
pub fn trim_end_char_of(s: &str, c: char) -> (r: Vec<char>)
    ensures
        r@ == trim_end_char(s@, c),
{
    let cs = chars_of(s);
    let mut n = cs.len();
    proof {
        assert(cs@.subrange(0, n as int) =~= cs@);
    }
    while n > 0 && cs[n - 1] == c
        invariant
            n <= cs@.len(),
            trim_end_char(cs@.subrange(0, n as int), c) == trim_end_char(s@, c),
            cs@ == s@,
        decreases n,
    {
        proof {
            assert(cs@.subrange(0, n as int).drop_last() =~= cs@.subrange(0, n - 1));
        }
        n = n - 1;
    }
    proof {
        assert(cs@ =~= cs@.subrange(0, cs@.len() as int));
    }
    take_chars(cs.as_slice(), n)
}

/// Where an issue can be opened in a browser: GitHub issues on github.com, Jira
/// issues under the configured Jira base URL; other trackers have none.
pub open spec fn spec_issue_url(
    t: IssueTracker,
    project: Seq<char>,
    number: nat,
    jira_base_url: Option<Seq<char>>,
) -> Option<Seq<char>> {
    match t {
        IssueTracker::Github => Some("https://github.com/"@ + project + "/issues/"@ + decimal(number)),
        IssueTracker::Jira => match jira_base_url {
            Some(base) => Some(
                trim_end_char(base, '/') + "/browse/"@ + last_segment(project) + "-"@ + decimal(number),
            ),
            None => None,
        },
        _ => None,
    }
}

/// The browser URL of an issue, given the Jira base URL from the configuration.
pub fn issue_url(issue: &IssueRef, jira_base_url: Option<&str>) -> (r: Option<String>)
    ensures
        match r {
            Some(u) => spec_issue_url(issue.tracker, issue.project@, issue.number as nat, opt_str_view(jira_base_url)) == Some(u@),
            None => spec_issue_url(issue.tracker, issue.project@, issue.number as nat, opt_str_view(jira_base_url)) is None,
        },
{
    match issue.tracker {
        IssueTracker::Github => {
            let mut s = String::from_str("https://github.com/");
            s.append(issue.project.as_str());
            s.append("/issues/");
            let n = u64_to_string(issue.number);
            s.append(n.as_str());
            Some(s)
        },
        IssueTracker::Jira => match jira_base_url {
            Some(base) => {
                let b = trim_end_char_of(base, '/');
                let mut s = string_from_chars(b.as_slice());
                s.append("/browse/");
                let seg = last_segment_of(issue.project.as_str());
                let key = string_from_chars(seg.as_slice());
                s.append(key.as_str());
                s.append("-");
                let n = u64_to_string(issue.number);
                s.append(n.as_str());
                Some(s)
            },
            None => None,
        },
        _ => None,
    }
}

/// The view of an optional text.
pub open spec fn opt_str_view(o: Option<&str>) -> Option<Seq<char>> {
    match o {
        Some(s) => Some(s@),
        None => None,
    }
}

} // verus!

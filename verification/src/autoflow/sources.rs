//! Where an autoflow finds its issues and when it polls them again.

use vstd::prelude::*;
use vstd::string::*;
use crate::autoflow::duration::{duration_text_ok, parse_duration, spec_parse_duration, DurationError};
use crate::autoflow::issue_ref::IssueTracker;
use crate::autoflow::schedule::instant_plus_le;
use crate::autoflow::select::IssueState;
use crate::autoflow::wake_events::{EventSource, Platform};
use crate::text::{chars_of, has_prefix, str_eq, str_starts_with, string_from_chars};
use crate::time::{plus_le, ts_plus_le, Timestamp};
use crate::autoflow::wake_hints::{insert_sorted, sorted_set, text_set};
use crate::autoflow::select::lex_lt;

verus! {

/// Where an autoflow lists issues: the tracker and project of its source.
pub fn issue_discovery_target(source: &EventSource) -> (r: (IssueTracker, String))
    ensures
        match *source {
            EventSource::Repo { platform, owner, repo } => r.0 == (match platform {
                Platform::Github => IssueTracker::Github,
                Platform::Gitlab => IssueTracker::Gitlab,
            }) && r.1@ == owner@ + "/"@ + repo@,
            EventSource::TrackerProject { tracker, project } => r.0 == tracker && r.1@ == project@,
        },
{
    match source {
        EventSource::Repo { platform, owner, repo } => {
            let mut project = owner.clone();
            project.append("/");
            project.append(repo.as_str());
            (
                match platform {
                    Platform::Github => IssueTracker::Github,
                    Platform::Gitlab => IssueTracker::Gitlab,
                },
                project,
            )
        },
        EventSource::TrackerProject { tracker, project } => (*tracker, project.clone()),
    }
}

/// Characters kept in a file-name slug; the rest become `-`.
pub open spec fn slug_char(c: char) -> char {
    if ('a' <= c && c <= 'z') || ('A' <= c && c <= 'Z') || ('0' <= c && c <= '9') || c == '-' || c == '_' || c
        == '.' {
        c
    } else {
        '-'
    }
}

/// The text a source's poll files are named by, before slugging.
pub open spec fn slug_text(source: EventSource) -> Seq<char> {
    match source {
        EventSource::Repo { owner, repo, .. } => "repo-"@ + owner@ + "-"@ + repo@,
        EventSource::TrackerProject { project, .. } => "project-"@ + project@,
    }
}

/// The slug a source's cursor and poll-time files are named by:
/// `repo-<owner>-<repo>` or `project-<project>`, with every character but
/// ASCII letters, digits, `-`, `_` and `.` turned into `-`.
pub fn source_slug(source: &EventSource) -> (r: String)
    ensures
        r@ == slug_text(*source).map_values(|c: char| slug_char(c)),
{
    let text = match source {
        EventSource::Repo { owner, repo, .. } => {
            let mut s = String::from_str("repo-");
            s.append(owner.as_str());
            s.append("-");
            s.append(repo.as_str());
            s
        },
        EventSource::TrackerProject { project, .. } => {
            let mut s = String::from_str("project-");
            s.append(project.as_str());
            s
        },
    };
    let cs = chars_of(text.as_str());
    let mut out: Vec<char> = Vec::new();
    let mut i: usize = 0;
    while i < cs.len()
        invariant
            i <= cs@.len(),
            out@ == cs@.subrange(0, i as int).map_values(|c: char| slug_char(c)),
        decreases cs@.len() - i,
    {
        let c = cs[i];
        let k = if ('a' <= c && c <= 'z') || ('A' <= c && c <= 'Z') || ('0' <= c && c <= '9') || c == '-' || c == '_'
            || c == '.' {
            c
        } else {
            '-'
        };
        out.push(k);
        proof {
            assert(cs@.subrange(0, i + 1) =~= cs@.subrange(0, i as int).push(c));
            assert(out@ =~= cs@.subrange(0, i + 1).map_values(|c: char| slug_char(c)));
        }
        i = i + 1;
    }
    proof {
        assert(cs@.subrange(0, cs@.len() as int) =~= cs@);
    }
    string_from_chars(out.as_slice())
}

/// The source an autoflow reads: its own `source`, else its repo.
pub fn resolved_source_ref_text(source: Option<&str>, repo_ref: &str) -> (r: String)
    ensures
        r@ == match source {
            Some(s) => s@,
            None => repo_ref@,
        },
{
    match source {
        Some(s) => String::from_str(s),
        None => String::from_str(repo_ref),
    }
}

/// Whether a poll source is due at `now`: always without an interval or a
/// readable last poll time; otherwise once the last poll plus the interval
/// has come.
pub open spec fn spec_poll_source_due(interval: Option<Seq<char>>, last_polled: Option<Timestamp>, now: Timestamp) -> Result<
    bool,
    (),
> {
    match interval {
        None => Ok(true),
        Some(every) => match last_polled {
            None => Ok(true),
            Some(last) => match spec_parse_duration(every) {
                Ok(secs) => Ok(ts_plus_le(last, secs, now)),
                Err(_) => Err(()),
            },
        },
    }
}

/// Whether a poll source is due at `now`, given its interval and the last
/// poll time read back (none where it could not be read).
pub fn autoflow_poll_source_due(interval: Option<&str>, last_polled: Option<Timestamp>, now: Timestamp) -> (r: Result<
    bool,
    DurationError,
>)
    requires
        interval matches Some(e) ==> duration_text_ok(e@),
    ensures
        match spec_poll_source_due(
            match interval {
                Some(e) => Some(e@),
                None => None,
            },
            last_polled,
            now,
        ) {
            Ok(b) => r matches Ok(x) && x == b,
            Err(_) => r matches Err(e) && interval matches Some(t) && e.value@ == t@,
        },
{
    let every = match interval {
        None => return Ok(true),
        Some(e) => e,
    };
    let last = match last_polled {
        None => return Ok(true),
        Some(t) => t,
    };
    match parse_duration(every) {
        Ok(secs) => Ok(plus_le(last, secs, now)),
        Err(e) => Err(e),
    }
}

/// What a path that may start with `~` stands for.
#[derive(Debug, Clone, PartialEq, Eq)]
pub enum UserPath {
    /// The home directory itself.
    Home,
    /// A path under the home directory.
    UnderHome(String),
    /// The path as written.
    AsIs(String),
}

/// Read `~`, `~/<rest>` and `~\<rest>` as paths in the home directory; any
/// other path stands as written.
pub fn expand_user_path(input: &str) -> (r: UserPath)
    ensures
        input@ == "~"@ ==> r == UserPath::Home,
        input@ != "~"@ && (has_prefix(input@, "~/"@) || has_prefix(input@, "~\\"@)) ==> (r matches UserPath::UnderHome(
            rest,
        ) && rest@ == input@.subrange(2, input@.len() as int)),
        input@ != "~"@ && !has_prefix(input@, "~/"@) && !has_prefix(input@, "~\\"@) ==> (r matches UserPath::AsIs(p)
            && p@ == input@),
{
    if str_eq(input, "~") {
        return UserPath::Home;
    }
    if str_starts_with(input, "~/") || str_starts_with(input, "~\\") {
        let cs = chars_of(input);
        proof {
            reveal_strlit("~/");
            reveal_strlit("~\\");
        }
        let mut rest: Vec<char> = Vec::new();
        let mut i: usize = 2;
        while i < cs.len()
            invariant
                2 <= i <= cs@.len(),
                rest@ == cs@.subrange(2, i as int),
            decreases cs@.len() - i,
        {
            rest.push(cs[i]);
            proof {
                assert(cs@.subrange(2, i + 1) =~= cs@.subrange(2, i as int).push(cs@[i as int]));
            }
            i = i + 1;
        }
        return UserPath::UnderHome(string_from_chars(rest.as_slice()));
    }
    UserPath::AsIs(String::from_str(input))
}

/// The name of an issue state.
pub fn issue_state_name(state: IssueState) -> (r: &'static str)
    ensures
        r@ == (match state {
            IssueState::Open => "open"@,
            IssueState::Closed => "closed"@,
        }),
{
    match state {
        IssueState::Open => "open",
        IssueState::Closed => "closed",
    }
}

/// An autoflow as wake polling sees it: the source it reads, the repo it is
/// bound to, and whether it wakes on any event.
#[derive(Debug, Clone)]
pub struct PollingAutoflow {
    pub source_ref: String,
    pub repo_ref: String,
    pub wakes: bool,
}

/// The sources polled for wakes: those of autoflows that wake on events.
pub open spec fn polled_sources(afs: Seq<PollingAutoflow>) -> Set<Seq<char>> {
    Set::new(|s: Seq<char>| exists|i: int| 0 <= i < afs.len() && (#[trigger] afs[i]).wakes && afs[i].source_ref@ == s)
}

/// The repos bound to the waking autoflows that read `source`.
pub open spec fn source_repos(afs: Seq<PollingAutoflow>, source: Seq<char>) -> Set<Seq<char>> {
    Set::new(
        |r: Seq<char>|
            exists|i: int|
                0 <= i < afs.len() && (#[trigger] afs[i]).wakes && afs[i].source_ref@ == source && afs[i].repo_ref@ == r,
    )
}

/// The poll groups of a pass: each source that a waking autoflow reads, in
/// ascending order, with the repos of the waking autoflows that read it.
pub fn poll_groups(afs: &Vec<PollingAutoflow>) -> (r: Vec<(String, Vec<String>)>)
    ensures
        sorted_set(r@.map_values(|g: (String, Vec<String>)| g.0)),
        text_set(r@.map_values(|g: (String, Vec<String>)| g.0)) == polled_sources(afs@),
        forall|i: int|
            0 <= i < r@.len() ==> sorted_set((#[trigger] r@[i]).1@) && text_set(r@[i].1@) == source_repos(afs@, r@[i].0@),
{
    let mut keys: Vec<String> = Vec::new();
    let mut i: usize = 0;
    proof {
        assert(text_set(keys@) =~= Set::<Seq<char>>::empty());
    }
    while i < afs.len()
        invariant
            i <= afs@.len(),
            sorted_set(keys@),
            text_set(keys@) == Set::new(
                |s: Seq<char>| exists|k: int| 0 <= k < i && (#[trigger] afs@[k]).wakes && afs@[k].source_ref@ == s,
            ),
        decreases afs@.len() - i,
    {
        let ghost prev = text_set(keys@);
        if afs[i].wakes {
            insert_sorted(&mut keys, afs[i].source_ref.as_str());
        }
        proof {
            let next = Set::new(
                |s: Seq<char>| exists|k: int| 0 <= k < i + 1 && (#[trigger] afs@[k]).wakes && afs@[k].source_ref@ == s,
            );
            assert(text_set(keys@) =~= next) by {
                assert forall|t: Seq<char>| next.contains(t) implies text_set(keys@).contains(t) by {
                    let k = choose|k: int| 0 <= k < i + 1 && (#[trigger] afs@[k]).wakes && afs@[k].source_ref@ == t;
                    if k < i {
                        assert(prev.contains(t));
                    }
                }
                assert forall|t: Seq<char>| text_set(keys@).contains(t) implies next.contains(t) by {
                    if prev.contains(t) {
                        let k = choose|k: int| 0 <= k < i && (#[trigger] afs@[k]).wakes && afs@[k].source_ref@ == t;
                    } else {
                        assert(afs@[i as int].wakes && afs@[i as int].source_ref@ == t);
                    }
                }
            }
        }
        i = i + 1;
    }
    proof {
        assert(text_set(keys@) =~= polled_sources(afs@));
    }
    let mut groups: Vec<(String, Vec<String>)> = Vec::new();
    let mut g: usize = 0;
    while g < keys.len()
        invariant
            g <= keys@.len(),
            sorted_set(keys@),
            text_set(keys@) == polled_sources(afs@),
            groups@.len() == g,
            forall|k: int| 0 <= k < g ==> (#[trigger] groups@[k]).0@ == keys@[k]@,
            forall|k: int|
                0 <= k < g ==> sorted_set((#[trigger] groups@[k]).1@) && text_set(groups@[k].1@) == source_repos(
                    afs@,
                    groups@[k].0@,
                ),
        decreases keys@.len() - g,
    {
        let key = keys[g].as_str();
        let mut repos: Vec<String> = Vec::new();
        let mut j: usize = 0;
        proof {
            assert(text_set(repos@) =~= Set::<Seq<char>>::empty());
        }
        while j < afs.len()
            invariant
                j <= afs@.len(),
                sorted_set(repos@),
                text_set(repos@) == Set::new(
                    |r: Seq<char>|
                        exists|k: int|
                            0 <= k < j && (#[trigger] afs@[k]).wakes && afs@[k].source_ref@ == key@ && afs@[k].repo_ref@
                                == r,
                ),
            decreases afs@.len() - j,
        {
            let ghost prev = text_set(repos@);
            if afs[j].wakes && str_eq(afs[j].source_ref.as_str(), key) {
                insert_sorted(&mut repos, afs[j].repo_ref.as_str());
            }
            proof {
                let next = Set::new(
                    |r: Seq<char>|
                        exists|k: int|
                            0 <= k < j + 1 && (#[trigger] afs@[k]).wakes && afs@[k].source_ref@ == key@ && afs@[k].repo_ref@
                                == r,
                );
                assert(text_set(repos@) =~= next) by {
                    assert forall|t: Seq<char>| next.contains(t) implies text_set(repos@).contains(t) by {
                        let k = choose|k: int|
                            0 <= k < j + 1 && (#[trigger] afs@[k]).wakes && afs@[k].source_ref@ == key@ && afs@[k].repo_ref@
                                == t;
                        if k < j {
                            assert(prev.contains(t));
                        }
                    }
                    assert forall|t: Seq<char>| text_set(repos@).contains(t) implies next.contains(t) by {
                        if prev.contains(t) {
                            let k = choose|k: int|
                                0 <= k < j && (#[trigger] afs@[k]).wakes && afs@[k].source_ref@ == key@ && afs@[k].repo_ref@
                                    == t;
                        } else {
                            assert(afs@[j as int].repo_ref@ == t);
                        }
                    }
                }
            }
            j = j + 1;
        }
        proof {
            assert(text_set(repos@) =~= source_repos(afs@, key@));
        }
        groups.push((keys[g].clone(), repos));
        g = g + 1;
    }
    proof {
        let names = groups@.map_values(|x: (String, Vec<String>)| x.0);
        assert forall|k: int| 0 <= k < names.len() implies names[k]@ == keys@[k]@ by {
            assert(names[k] == groups@[k].0);
        }
        assert forall|a: int, b: int| 0 <= a < b < names.len() implies lex_lt(
            (#[trigger] names[a])@,
            (#[trigger] names[b])@,
        ) by {
            assert(names[a]@ == keys@[a]@ && names[b]@ == keys@[b]@);
        }
        assert(text_set(names) =~= text_set(keys@)) by {
            assert forall|t: Seq<char>| text_set(names).contains(t) implies text_set(keys@).contains(t) by {
                let k = choose|k: int| 0 <= k < names.len() && (#[trigger] names[k])@ == t;
                assert(keys@[k]@ == t);
            }
            assert forall|t: Seq<char>| text_set(keys@).contains(t) implies text_set(names).contains(t) by {
                let k = choose|k: int| 0 <= k < keys@.len() && (#[trigger] keys@[k])@ == t;
                assert(names[k]@ == t);
            }
        }
    }
    groups
}

} // verus!

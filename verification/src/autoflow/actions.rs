//! What an autoflow run did to its issue, read from the tool calls in its
//! transcripts: comments, state changes and pull requests become events of
//! the pass.

use vstd::prelude::*;
use vstd::string::*;
use crate::autoflow::claims::ClaimRecord;
use crate::autoflow::events::{is_promoted_autoflow_tool, issue_state_detail, spec_is_promoted_tool, CycleEventKind};
use crate::autoflow::history::{event_view, events_view, ov, EventView, HistoryEvent};
use crate::autoflow::shape::{first_index_of, find_char, spec_truncate, truncate_detail};
use crate::json::{JsonV, json_get, json_opt_as_bool, json_opt_as_u64, json_opt_str, jv_as_bool, jv_as_u64, jv_get, jv_opt_str, jview, ojv, Json};
use crate::number::{decimal, u64_to_string};
use crate::text::{chars_of, join_seqs, join_strings, slice_chars, str_eq, string_from_chars, trim_chars, trim_seq};

verus! {

/// The length of the first line of `s` (up to its first `\n`).
pub open spec fn line_len(s: Seq<char>) -> nat
    decreases s.len(),
{
    if s.len() == 0 || s[0] == '\n' {
        0
    } else {
        1 + line_len(s.drop_first())
    }
}

pub proof fn lemma_line_len(s: Seq<char>)
    ensures
        line_len(s) <= s.len(),
        line_len(s) < s.len() ==> s[line_len(s) as int] == '\n',
        forall|k: int| 0 <= k < line_len(s) ==> s[k] != '\n',
    decreases s.len(),
{
    if s.len() > 0 && s[0] != '\n' {
        lemma_line_len(s.drop_first());
        assert forall|k: int| 0 <= k < line_len(s) implies s[k] != '\n' by {
            if k > 0 {
                assert(s[k] == s.drop_first()[k - 1]);
            }
        }
    }
}

/// The first line of `s` that is not blank, trimmed; empty where there is
/// none.
pub open spec fn first_nonblank_line(s: Seq<char>) -> Seq<char>
    decreases s.len(),
{
    let n = line_len(s);
    let line = trim_seq(s.subrange(0, n as int));
    if line.len() > 0 {
        line
    } else if n < s.len() {
        proof {
            lemma_line_len(s);
        }
        first_nonblank_line(s.subrange(n as int + 1, s.len() as int))
    } else {
        Seq::empty()
    }
}

fn line_end(cs: &Vec<char>, start: usize) -> (r: usize)
    requires
        start <= cs@.len(),
    ensures
        r == start + line_len(cs@.subrange(start as int, cs@.len() as int)),
        r <= cs@.len(),
{
    let mut i = start;
    proof {
        lemma_line_len(cs@.subrange(start as int, cs@.len() as int));
    }
    while i < cs.len() && cs[i] != '\n'
        invariant
            start <= i <= cs@.len(),
            line_len(cs@.subrange(start as int, cs@.len() as int)) == (i - start) + line_len(
                cs@.subrange(i as int, cs@.len() as int),
            ),
        decreases cs@.len() - i,
    {
        proof {
            assert(cs@.subrange(i as int, cs@.len() as int).drop_first() =~= cs@.subrange(i + 1, cs@.len() as int));
        }
        i = i + 1;
    }
    i
}

/// The first non-blank line of `body`, trimmed.
pub fn first_nonblank_line_of(body: &str) -> (r: Vec<char>)
    ensures
        r@ == first_nonblank_line(body@),
{
    let cs = chars_of(body);
    let mut start: usize = 0;
    proof {
        assert(cs@.subrange(0, cs@.len() as int) =~= cs@);
    }
    while start < cs.len()
        invariant
            start <= cs@.len(),
            first_nonblank_line(body@) == first_nonblank_line(cs@.subrange(start as int, cs@.len() as int)),
            cs@ == body@,
        decreases cs@.len() - start,
    {
        let end = line_end(&cs, start);
        let ghost rest = cs@.subrange(start as int, cs@.len() as int);
        let line = trim_chars(slice_chars(cs.as_slice(), start, end).as_slice());
        proof {
            assert(cs@.subrange(start as int, end as int) =~= rest.subrange(0, line_len(rest) as int));
        }
        if line.len() > 0 {
            return line;
        }
        if end == cs.len() {
            proof {
                assert(first_nonblank_line(rest) == Seq::<char>::empty());
            }
            return Vec::new();
        }
        proof {
            assert(rest.subrange(line_len(rest) as int + 1, rest.len() as int) =~= cs@.subrange(end + 1, cs@.len() as int));
        }
        start = end + 1;
    }
    proof {
        assert(cs@.subrange(start as int, cs@.len() as int) =~= Seq::<char>::empty());
        reveal_with_fuel(first_nonblank_line, 2);
        assert(trim_seq(Seq::<char>::empty()) =~= Seq::<char>::empty()) by {
            reveal_with_fuel(crate::text::trim_start_seq, 2);
            reveal_with_fuel(crate::text::trim_end_seq, 2);
        }
    }
    Vec::new()
}

/// A comment's preview: `comment: ` and its first non-blank line, cut to 96
/// characters; none without a body or with a blank one.
pub open spec fn spec_comment_preview(input: JsonV) -> Option<Seq<char>> {
    match jv_opt_str(jv_get(input, "body"@)) {
        Some(body) => {
            let line = first_nonblank_line(body);
            if line.len() == 0 {
                None
            } else {
                Some("comment: "@ + spec_truncate(trim_seq(line), 96))
            }
        },
        None => None,
    }
}

/// The preview of a comment a run posted.
pub fn comment_preview(input: &Json) -> (r: Option<String>)
    ensures
        match spec_comment_preview(jview(*input)) {
            Some(t) => r matches Some(s) && s@ == t,
            None => r is None,
        },
{
    let body = match json_opt_str(json_get(input, "body")) {
        Some(b) => b,
        None => return None,
    };
    let line = first_nonblank_line_of(body);
    if line.len() == 0 {
        return None;
    }
    let text = string_from_chars(line.as_slice());
    let mut s = String::from_str("comment: ");
    let cut = truncate_detail(text.as_str(), 96);
    s.append(cut.as_str());
    Some(s)
}

/// The parts of a pull request's detail: its title cut to 72, `→ <base>`
/// cut to 24, and `draft`, each where present.
pub open spec fn pr_parts(input: JsonV) -> Seq<Seq<char>> {
    let title = match jv_opt_str(jv_get(input, "title"@)) {
        Some(t) => t,
        None => Seq::empty(),
    };
    let base = match jv_opt_str(jv_get(input, "base"@)) {
        Some(b) => b,
        None => Seq::empty(),
    };
    let draft = match jv_get(input, "draft"@) {
        Some(v) => jv_as_bool(v) == Some(true),
        None => false,
    };
    let a = if trim_seq(title).len() > 0 {
        seq![spec_truncate(trim_seq(title), 72)]
    } else {
        Seq::empty()
    };
    let b = if trim_seq(base).len() > 0 {
        seq!["→ "@ + spec_truncate(trim_seq(base), 24)]
    } else {
        Seq::empty()
    };
    let c = if draft {
        seq!["draft"@]
    } else {
        Seq::empty()
    };
    a + b + c
}

/// The detail of a pull request a run opened: its parts joined by `  ·  `;
/// none where there are none.
pub fn pull_request_detail(input: &Json) -> (r: Option<String>)
    ensures
        pr_parts(jview(*input)).len() == 0 ==> r is None,
        pr_parts(jview(*input)).len() > 0 ==> (r matches Some(s) && s@ == join_seqs(pr_parts(jview(*input)), "  ·  "@)),
{
    let title = match json_opt_str(json_get(input, "title")) {
        Some(t) => t,
        None => "",
    };
    let base = match json_opt_str(json_get(input, "base")) {
        Some(b) => b,
        None => "",
    };
    let draft = match json_opt_as_bool(json_get(input, "draft")) {
        Some(b) => b,
        None => false,
    };
    proof {
        reveal_strlit("");
    }
    let mut parts: Vec<String> = Vec::new();
    let ghost v = jview(*input);
    let ghost t_spec = match jv_opt_str(jv_get(v, "title"@)) {
        Some(t) => t,
        None => Seq::empty(),
    };
    let ghost b_spec = match jv_opt_str(jv_get(v, "base"@)) {
        Some(b) => b,
        None => Seq::empty(),
    };
    proof {
        assert(title@ == t_spec);
        assert(base@ == b_spec);
    }
    if trim_chars(chars_of(title).as_slice()).len() > 0 {
        parts.push(truncate_detail(title, 72));
    }
    if trim_chars(chars_of(base).as_slice()).len() > 0 {
        let mut s = String::from_str("→ ");
        let cut = truncate_detail(base, 24);
        s.append(cut.as_str());
        parts.push(s);
    }
    if draft {
        parts.push(String::from_str("draft"));
    }
    proof {
        assert(parts@.map_values(|p: String| p@) =~= pr_parts(v));
    }
    if parts.len() == 0 {
        return None;
    }
    Some(join_strings(&parts, "  ·  "))
}

/// The issue a tool call targets: `<tracker>:<project>/issues/<number>`,
/// with the tracker of the call, else that of the claimed issue.
pub open spec fn spec_issue_target(input: JsonV, claim_issue_ref: Seq<char>) -> Option<Seq<char>> {
    match (jv_opt_str(jv_get(input, "project"@)), match jv_get(input, "number"@) {
        Some(n) => jv_as_u64(n),
        None => None,
    }) {
        (Some(project), Some(number)) => {
            let tracker = match jv_opt_str(jv_get(input, "tracker"@)) {
                Some(t) => Some(t),
                None => match first_index_of(claim_issue_ref, ':') {
                    Some(i) => Some(claim_issue_ref.subrange(0, i)),
                    None => None,
                },
            };
            match tracker {
                Some(t) => Some(t + ":"@ + project + "/issues/"@ + decimal(number as nat)),
                None => None,
            }
        },
        _ => None,
    }
}

/// The issue a tool call targets.
pub fn issue_target_ref(input: &Json, claim_issue_ref: &str) -> (r: Option<String>)
    ensures
        match spec_issue_target(jview(*input), claim_issue_ref@) {
            Some(t) => r matches Some(s) && s@ == t,
            None => r is None,
        },
{
    let project = match json_opt_str(json_get(input, "project")) {
        Some(p) => p,
        None => return None,
    };
    let number = match json_opt_as_u64(json_get(input, "number")) {
        Some(n) => n,
        None => return None,
    };
    let mut s = match json_opt_str(json_get(input, "tracker")) {
        Some(t) => String::from_str(t),
        None => {
            let cs = chars_of(claim_issue_ref);
            match find_char(cs.as_slice(), ':') {
                Some(i) => string_from_chars(slice_chars(cs.as_slice(), 0, i).as_slice()),
                None => return None,
            }
        },
    };
    s.append(":");
    s.append(project);
    s.append("/issues/");
    let d = u64_to_string(number);
    s.append(d.as_str());
    Some(s)
}

/// How a tool call's target issue is shown: `<project>#<number>`.
pub open spec fn spec_issue_target_display(input: JsonV) -> Option<Seq<char>> {
    match (jv_opt_str(jv_get(input, "project"@)), match jv_get(input, "number"@) {
        Some(n) => jv_as_u64(n),
        None => None,
    }) {
        (Some(project), Some(number)) => Some(project + "#"@ + decimal(number as nat)),
        _ => None,
    }
}

/// How a tool call's target issue is shown.
pub fn issue_target_display(input: &Json) -> (r: Option<String>)
    ensures
        match spec_issue_target_display(jview(*input)) {
            Some(t) => r matches Some(s) && s@ == t,
            None => r is None,
        },
{
    let project = match json_opt_str(json_get(input, "project")) {
        Some(p) => p,
        None => return None,
    };
    let number = match json_opt_as_u64(json_get(input, "number")) {
        Some(n) => n,
        None => return None,
    };
    let mut s = String::from_str(project);
    s.append("#");
    let d = u64_to_string(number);
    s.append(d.as_str());
    Some(s)
}

/// The detail of an issue-state change.
pub open spec fn spec_state_detail(state: Seq<char>) -> Option<Seq<char>> {
    if state != "closed"@ && state != "open"@ && trim_seq(state).len() > 0 {
        Some("state "@ + spec_truncate(trim_seq(state), 48))
    } else {
        None
    }
}

/// A detail kept only where it is not empty.
pub open spec fn nonempty(d: Seq<char>) -> Option<Seq<char>> {
    if d.len() > 0 {
        Some(d)
    } else {
        None
    }
}

/// The event a promoted tool call becomes, as plain values: its kind,
/// issue, shown issue, status and detail (the rest come from the claim and
/// the run).
pub open spec fn spec_tool_event(
    tool: Seq<char>,
    input: JsonV,
    summary: Seq<char>,
    claim: ClaimRecord,
    issue_ref_text: Seq<char>,
) -> Option<(CycleEventKind, Seq<char>, Option<Seq<char>>, Option<Seq<char>>, Option<Seq<char>>)> {
    let issue = match spec_issue_target(input, claim.issue_ref@) {
        Some(t) => t,
        None => issue_ref_text,
    };
    let shown = if issue == issue_ref_text {
        ov(claim.issue_display_ref)
    } else {
        spec_issue_target_display(input)
    };
    if tool == "issues.comment"@ {
        Some(
            (
                CycleEventKind::IssueCommented,
                issue,
                shown,
                None,
                match spec_comment_preview(input) {
                    Some(c) => nonempty(c),
                    None => nonempty(summary),
                },
            ),
        )
    } else if tool == "issues.update_state"@ {
        match jv_opt_str(jv_get(input, "state"@)) {
            Some(state) => Some((CycleEventKind::IssueStateChanged, issue, shown, Some(state), spec_state_detail(state))),
            None => None,
        }
    } else if tool == "scm.prs.create"@ {
        let draft = match jv_get(input, "draft"@) {
            Some(v) => jv_as_bool(v) == Some(true),
            None => false,
        };
        Some(
            (
                CycleEventKind::PullRequestOpened,
                issue,
                shown,
                Some(
                    if draft {
                        "draft"@
                    } else {
                        "open"@
                    },
                ),
                if pr_parts(input).len() > 0 {
                    nonempty(join_seqs(pr_parts(input), "  ·  "@))
                } else {
                    nonempty(summary)
                },
            ),
        )
    } else {
        None
    }
}

/// A tool call's event as plain values.
pub type ToolEventV = (CycleEventKind, Seq<char>, Option<Seq<char>>, Option<Seq<char>>, Option<Seq<char>>);

/// Event `e` is the tool call event `t` of the claim's run `run_id`.
pub open spec fn event_is(e: HistoryEvent, t: ToolEventV, claim: ClaimRecord, run_id: Seq<char>) -> bool {
    &&& e.kind == t.0
    &&& ov(e.issue_ref) == Some(t.1)
    &&& ov(e.issue_display_ref) == t.2
    &&& ov(e.status) == t.3
    &&& ov(e.detail) == t.4
    &&& ov(e.repo_ref) == Some(claim.repo_ref@)
    &&& ov(e.source_ref) == ov(claim.source_ref)
    &&& ov(e.workflow) == Some(claim.workflow@)
    &&& ov(e.run_id) == Some(run_id)
    &&& e.wake_id is None
    &&& e.wake_event_id is None
}

fn keep_nonempty(d: String) -> (r: Option<String>)
    ensures
        match nonempty(d@) {
            Some(t) => r matches Some(s) && s@ == t,
            None => r is None,
        },
{
    if chars_of(d.as_str()).len() > 0 {
        Some(d)
    } else {
        None
    }
}

/// The event a promoted tool call of a run becomes: a comment, a state
/// change or an opened pull request on the issue the call targets (else the
/// claimed issue), with the claim's repo, source and workflow and the run's
/// id. `summary` is the call's one-line summary, the detail where the call's
/// input yields none. Other tools, and a state change without a state,
/// become none.
pub fn promoted_autoflow_tool_event(
    tool: &str,
    input: &Json,
    summary: &str,
    claim: &ClaimRecord,
    run_id: &str,
    issue_ref_text: &str,
) -> (r: Option<HistoryEvent>)
    ensures
        match spec_tool_event(tool@, jview(*input), summary@, *claim, issue_ref_text@) {
            Some(t) => r matches Some(e) && event_is(e, t, *claim, run_id@),
            None => r is None,
        },
{
    let issue = match issue_target_ref(input, claim.issue_ref.as_str()) {
        Some(t) => t,
        None => String::from_str(issue_ref_text),
    };
    let shown = if str_eq(issue.as_str(), issue_ref_text) {
        claim.issue_display_ref.clone()
    } else {
        issue_target_display(input)
    };
    let (kind, status, detail) = if str_eq(tool, "issues.comment") {
        let detail = match comment_preview(input) {
            Some(c) => keep_nonempty(c),
            None => keep_nonempty(String::from_str(summary)),
        };
        (CycleEventKind::IssueCommented, None, detail)
    } else if str_eq(tool, "issues.update_state") {
        let state = match json_opt_str(json_get(input, "state")) {
            Some(st) => st,
            None => return None,
        };
        (CycleEventKind::IssueStateChanged, Some(String::from_str(state)), issue_state_detail(state))
    } else if str_eq(tool, "scm.prs.create") {
        let draft = match json_opt_as_bool(json_get(input, "draft")) {
            Some(b) => b,
            None => false,
        };
        let detail = match pull_request_detail(input) {
            Some(d) => keep_nonempty(d),
            None => keep_nonempty(String::from_str(summary)),
        };
        (
            CycleEventKind::PullRequestOpened,
            Some(
                String::from_str(
                    if draft {
                        "draft"
                    } else {
                        "open"
                    },
                ),
            ),
            detail,
        )
    } else {
        return None;
    };
    Some(
        HistoryEvent {
            kind,
            issue_ref: Some(issue),
            issue_display_ref: shown,
            repo_ref: Some(claim.repo_ref.clone()),
            source_ref: claim.source_ref.clone(),
            workflow: Some(claim.workflow.clone()),
            run_id: Some(String::from_str(run_id)),
            status,
            detail,
            wake_id: None,
            wake_event_id: None,
        },
    )
}

/// One line of a run transcript, as far as promoting tool calls goes.
#[derive(Debug)]
pub enum TranscriptItem {
    /// A tool call, with its input and its one-line summary.
    ToolCall { call_id: String, tool: String, input: Json, summary: String },
    /// The result of a tool call: whether it failed.
    ToolResult { call_id: String, failed: bool },
    /// Anything else.
    Other,
}

/// Calls waiting for their results: call id and the index of the call.
pub open spec fn assoc_get(s: Seq<(Seq<char>, int)>, key: Seq<char>) -> Option<int>
    decreases s.len(),
{
    if s.len() == 0 {
        None
    } else if s.last().0 == key {
        Some(s.last().1)
    } else {
        assoc_get(s.drop_last(), key)
    }
}

pub open spec fn assoc_remove(s: Seq<(Seq<char>, int)>, key: Seq<char>) -> Seq<(Seq<char>, int)> {
    s.filter(|e: (Seq<char>, int)| e.0 != key)
}

/// The event a transcript line's call becomes, where it is a call.
pub open spec fn call_event(item: TranscriptItem, claim: ClaimRecord, issue_ref_text: Seq<char>) -> Option<ToolEventV> {
    match item {
        TranscriptItem::ToolCall { tool, input, summary, .. } => spec_tool_event(
            tool@,
            jview(input),
            summary@,
            claim,
            issue_ref_text,
        ),
        _ => None,
    }
}

/// Reading the first `n` lines of a transcript: the calls still waiting and
/// the events so far. A promoted call waits for its result; a successful
/// result turns the call into its event, a failed one drops it.
pub open spec fn read_transcript(
    items: Seq<TranscriptItem>,
    n: int,
    claim: ClaimRecord,
    issue_ref_text: Seq<char>,
) -> (Seq<(Seq<char>, int)>, Seq<ToolEventV>)
    decreases n,
{
    if n <= 0 {
        (Seq::empty(), Seq::empty())
    } else {
        let (pending, out) = read_transcript(items, n - 1, claim, issue_ref_text);
        match items[n - 1] {
            TranscriptItem::ToolCall { call_id, tool, .. } => if spec_is_promoted_tool(tool@) {
                (assoc_remove(pending, call_id@).push((call_id@, n - 1)), out)
            } else {
                (pending, out)
            },
            TranscriptItem::ToolResult { call_id, failed } => match assoc_get(pending, call_id@) {
                Some(k) => {
                    let rest = assoc_remove(pending, call_id@);
                    if failed {
                        (rest, out)
                    } else {
                        match call_event(items[k], claim, issue_ref_text) {
                            Some(t) => (rest, out.push(t)),
                            None => (rest, out),
                        }
                    }
                },
                None => (pending, out),
            },
            TranscriptItem::Other => (pending, out),
        }
    }
}

pub open spec fn pending_view(v: Seq<(String, usize)>) -> Seq<(Seq<char>, int)> {
    v.map_values(|e: (String, usize)| (e.0@, e.1 as int))
}

fn pending_get(pending: &Vec<(String, usize)>, key: &str) -> (r: Option<usize>)
    ensures
        match assoc_get(pending_view(pending@), key@) {
            Some(k) => r matches Some(x) && x as int == k,
            None => r is None,
        },
{
    let mut i = pending.len();
    proof {
        assert(pending@.subrange(0, i as int) =~= pending@);
    }
    while i > 0
        invariant
            i <= pending@.len(),
            assoc_get(pending_view(pending@), key@) == assoc_get(pending_view(pending@.subrange(0, i as int)), key@),
        decreases i,
    {
        let ghost s = pending_view(pending@.subrange(0, i as int));
        proof {
            assert(s.drop_last() =~= pending_view(pending@.subrange(0, i - 1)));
            assert(s.last() == (pending@[i - 1].0@, pending@[i - 1].1 as int));
        }
        if str_eq(pending[i - 1].0.as_str(), key) {
            return Some(pending[i - 1].1);
        }
        i = i - 1;
    }
    proof {
        assert(pending_view(pending@.subrange(0, 0)) =~= Seq::<(Seq<char>, int)>::empty());
    }
    None
}

fn pending_remove(pending: Vec<(String, usize)>, key: &str) -> (r: Vec<(String, usize)>)
    ensures
        pending_view(r@) == assoc_remove(pending_view(pending@), key@),
{
    let ghost pred = |e: (Seq<char>, int)| e.0 != key@;
    let mut out: Vec<(String, usize)> = Vec::new();
    let mut i: usize = 0;
    proof {
        reveal(Seq::filter);
        assert(pending_view(pending@).subrange(0, 0).filter(pred) =~= Seq::<(Seq<char>, int)>::empty());
        assert(pending_view(out@) =~= Seq::<(Seq<char>, int)>::empty());
    }
    while i < pending.len()
        invariant
            i <= pending@.len(),
            pred == (|e: (Seq<char>, int)| e.0 != key@),
            pending_view(out@) == pending_view(pending@).subrange(0, i as int).filter(pred),
        decreases pending@.len() - i,
    {
        let ghost pv = pending_view(pending@);
        proof {
            assert(pv.subrange(0, i + 1) =~= pv.subrange(0, i as int).push(pv[i as int]));
            pv.subrange(0, i as int).lemma_filter_push(pv[i as int], pred);
        }
        if !str_eq(pending[i].0.as_str(), key) {
            let ghost before = out@;
            out.push((pending[i].0.clone(), pending[i].1));
            proof {
                assert(pending_view(out@) =~= pending_view(before).push(pv[i as int]));
            }
        }
        i = i + 1;
    }
    proof {
        assert(pending_view(pending@).subrange(0, pending@.len() as int) =~= pending_view(pending@));
    }
    out
}

/// The events the promoted tool calls of one transcript become, in the
/// order their results came.
pub fn transcript_action_events(
    items: &Vec<TranscriptItem>,
    claim: &ClaimRecord,
    run_id: &str,
    issue_ref_text: &str,
) -> (r: Vec<HistoryEvent>)
    ensures
        ({
            let out = read_transcript(items@, items@.len() as int, *claim, issue_ref_text@).1;
            &&& r@.len() == out.len()
            &&& forall|i: int| 0 <= i < r@.len() ==> event_is(#[trigger] r@[i], out[i], *claim, run_id@)
        }),
{
    let mut pending: Vec<(String, usize)> = Vec::new();
    let mut events: Vec<HistoryEvent> = Vec::new();
    let mut n: usize = 0;
    proof {
        assert(pending_view(pending@) =~= Seq::<(Seq<char>, int)>::empty());
    }
    while n < items.len()
        invariant
            n <= items@.len(),
            pending_view(pending@) == read_transcript(items@, n as int, *claim, issue_ref_text@).0,
            forall|j: int| 0 <= j < pending@.len() ==> (#[trigger] pending@[j]).1 < n,
            events@.len() == read_transcript(items@, n as int, *claim, issue_ref_text@).1.len(),
            forall|i: int|
                0 <= i < events@.len() ==> event_is(
                    #[trigger] events@[i],
                    read_transcript(items@, n as int, *claim, issue_ref_text@).1[i],
                    *claim,
                    run_id@,
                ),
        decreases items@.len() - n,
    {
        let ghost before = read_transcript(items@, n as int, *claim, issue_ref_text@);
        match &items[n] {
            TranscriptItem::ToolCall { call_id, tool, .. } => {
                if is_promoted_autoflow_tool(tool.as_str()) {
                    let ghost pv = pending_view(pending@);
                    let mut rest = pending_remove(pending, call_id.as_str());
                    proof {
                        assert forall|j: int| 0 <= j < rest@.len() implies (#[trigger] rest@[j]).1 < n by {
                            assert(pending_view(rest@)[j] == (rest@[j].0@, rest@[j].1 as int));
                            assert(pending_view(rest@).contains(pending_view(rest@)[j]));
                            pv.lemma_filter_contains_rev(|e: (Seq<char>, int)| e.0 != call_id@, pending_view(rest@)[j]);
                        }
                    }
                    let ghost rv = rest@;
                    rest.push((call_id.clone(), n));
                    proof {
                        assert(pending_view(rest@) =~= pending_view(rv).push((call_id@, n as int)));
                    }
                    pending = rest;
                }
            },
            TranscriptItem::ToolResult { call_id, failed } => {
                match pending_get(&pending, call_id.as_str()) {
                    Some(k) => {
                        proof {
                            lemma_assoc_get_in(pending_view(pending@), call_id@);
                            let j = choose|j: int| 0 <= j < pending_view(pending@).len() && pending_view(pending@)[j] == (
                            call_id@, k as int);
                            assert(pending_view(pending@)[j] == (pending@[j].0@, pending@[j].1 as int));
                        }
                        let ghost pv = pending_view(pending@);
                        let rest = pending_remove(pending, call_id.as_str());
                        proof {
                            assert forall|j: int| 0 <= j < rest@.len() implies (#[trigger] rest@[j]).1 < n + 1 by {
                                assert(pending_view(rest@)[j] == (rest@[j].0@, rest@[j].1 as int));
                                assert(pending_view(rest@).contains(pending_view(rest@)[j]));
                                pv.lemma_filter_contains_rev(|e: (Seq<char>, int)| e.0 != call_id@, pending_view(rest@)[j]);
                            }
                        }
                        pending = rest;
                        if !*failed {
                            match &items[k] {
                                TranscriptItem::ToolCall { tool, input, summary, .. } => {
                                    match promoted_autoflow_tool_event(
                                        tool.as_str(),
                                        input,
                                        summary.as_str(),
                                        claim,
                                        run_id,
                                        issue_ref_text,
                                    ) {
                                        Some(e) => {
                                            events.push(e);
                                        },
                                        None => {},
                                    }
                                },
                                _ => {},
                            }
                        }
                    },
                    None => {},
                }
            },
            TranscriptItem::Other => {},
        }
        proof {
            let after = read_transcript(items@, n + 1, *claim, issue_ref_text@);
            assert(events@.len() == after.1.len());
            assert forall|i: int| 0 <= i < events@.len() implies event_is(
                #[trigger] events@[i],
                after.1[i],
                *claim,
                run_id@,
            ) by {
                if i < before.1.len() {
                    assert(after.1[i] == before.1[i]);
                }
            }
        }
        n = n + 1;
    }
    events
}

proof fn lemma_assoc_get_in(s: Seq<(Seq<char>, int)>, key: Seq<char>)
    ensures
        assoc_get(s, key) matches Some(k) ==> exists|j: int| 0 <= j < s.len() && s[j] == (key, k),
    decreases s.len(),
{
    if s.len() > 0 && s.last().0 != key {
        lemma_assoc_get_in(s.drop_last(), key);
        if assoc_get(s, key) is Some {
            let j = choose|j: int| 0 <= j < s.drop_last().len() && s.drop_last()[j] == (key, assoc_get(s, key)->0);
            assert(s[j] == s.drop_last()[j]);
        }
    } else if s.len() > 0 {
        assert(s[s.len() - 1] == s.last());
    }
}

/// Whether two texts name the same path, as `std::path::Path` compares
/// them (component by component).
pub uninterp spec fn spec_same_path(a: Seq<char>, b: Seq<char>) -> bool;

/// `Path::eq` on two paths given as text.
#[verifier::external_body]
fn same_path(a: &str, b: &str) -> (r: bool)
    ensures
        r == spec_same_path(a@, b@),
{
    std::path::Path::new(a) == std::path::Path::new(b)
}

/// Transcript `i` is read: its path is set, the file exists, and no earlier
/// transcript read had the same path.
pub open spec fn first_read(paths: Seq<String>, exists: Seq<bool>, i: int) -> bool
    decreases i,
{
    &&& 0 <= i < paths.len()
    &&& paths[i]@.len() > 0
    &&& exists[i]
    &&& forall|j: int|
        #![trigger paths[j]]
        0 <= j < i ==> !(first_read(paths, exists, j) && spec_same_path(paths[j]@, paths[i]@))
}

/// The transcripts of a run's steps to read, in order: each existing one
/// once, by path (`exists` says which files are there).
pub fn transcripts_to_read(paths: &Vec<String>, exists: &Vec<bool>) -> (r: Vec<usize>)
    requires
        exists@.len() == paths@.len(),
    ensures
        forall|k: int| 0 <= k < r@.len() ==> (#[trigger] r@[k]) < paths@.len(),
        forall|a: int, b: int| 0 <= a < b < r@.len() ==> r@[a] < r@[b],
        forall|i: int|
            0 <= i < paths@.len() ==> (first_read(paths@, exists@, i) <==> exists|k: int|
                0 <= k < r@.len() && #[trigger] r@[k] == i),
{
    let mut chosen: Vec<usize> = Vec::new();
    let mut i: usize = 0;
    while i < paths.len()
        invariant
            i <= paths@.len(),
            exists@.len() == paths@.len(),
            forall|k: int| 0 <= k < chosen@.len() ==> (#[trigger] chosen@[k]) < i,
            forall|a: int, b: int| 0 <= a < b < chosen@.len() ==> chosen@[a] < chosen@[b],
            forall|j: int|
                0 <= j < i ==> (first_read(paths@, exists@, j) <==> exists|k: int|
                    0 <= k < chosen@.len() && #[trigger] chosen@[k] == j),
        decreases paths@.len() - i,
    {
        let mut fresh = chars_of(paths[i].as_str()).len() > 0 && exists[i];
        let mut k: usize = 0;
        while fresh && k < chosen.len()
            invariant
                i < paths@.len(),
                exists@.len() == paths@.len(),
                k <= chosen@.len(),
                forall|m: int| 0 <= m < chosen@.len() ==> (#[trigger] chosen@[m]) < i,
                fresh ==> paths@[i as int]@.len() > 0 && exists@[i as int],
                fresh ==> forall|m: int| 0 <= m < k ==> !spec_same_path(paths@[chosen@[m] as int]@, paths@[i as int]@),
                !fresh ==> !(paths@[i as int]@.len() > 0 && exists@[i as int]) || exists|m: int|
                    0 <= m < chosen@.len() && spec_same_path(paths@[#[trigger] chosen@[m] as int]@, paths@[i as int]@),
            decreases chosen@.len() - k,
        {
            if same_path(paths[chosen[k]].as_str(), paths[i].as_str()) {
                fresh = false;
            }
            k = k + 1;
        }
        proof {
            if fresh {
                assert forall|j: int| 0 <= j < i implies !(first_read(paths@, exists@, j) && spec_same_path(
                    paths@[j]@,
                    paths@[i as int]@,
                )) by {
                    if first_read(paths@, exists@, j) {
                        let m = choose|m: int| 0 <= m < chosen@.len() && #[trigger] chosen@[m] == j;
                        assert(!spec_same_path(paths@[chosen@[m] as int]@, paths@[i as int]@));
                    }
                }
                assert(paths@[i as int]@.len() > 0 && exists@[i as int]);
                assert(forall|j: int|
                    #![trigger paths@[j]]
                    0 <= j < i ==> !(first_read(paths@, exists@, j) && spec_same_path(paths@[j]@, paths@[i as int]@)));
                assert(first_read(paths@, exists@, i as int));
            } else if paths@[i as int]@.len() > 0 && exists@[i as int] {
                let m = choose|m: int|
                    0 <= m < chosen@.len() && spec_same_path(paths@[#[trigger] chosen@[m] as int]@, paths@[i as int]@);
                assert(first_read(paths@, exists@, chosen@[m] as int));
            }
        }
        let ghost old_chosen = chosen@;
        proof {
            if fresh {
                assert(first_read(paths@, exists@, i as int));
            } else {
                assert(!first_read(paths@, exists@, i as int));
            }
        }
        if fresh {
            chosen.push(i);
        }
        proof {
            assert forall|j: int| 0 <= j < i + 1 implies (first_read(paths@, exists@, j) <==> exists|k: int|
                0 <= k < chosen@.len() && #[trigger] chosen@[k] == j) by {
                if j < i {
                    if first_read(paths@, exists@, j) {
                        let k = choose|k: int| 0 <= k < old_chosen.len() && #[trigger] old_chosen[k] == j;
                        assert(chosen@[k] == j);
                    }
                    if exists|k: int| 0 <= k < chosen@.len() && #[trigger] chosen@[k] == j {
                        let k = choose|k: int| 0 <= k < chosen@.len() && #[trigger] chosen@[k] == j;
                        if k < old_chosen.len() {
                            assert(old_chosen[k] == j);
                        } else {
                            assert(chosen@[k] == i);
                        }
                    }
                } else {
                    if fresh {
                        assert(chosen@[chosen@.len() - 1] == i);
                    } else if exists|k: int| 0 <= k < chosen@.len() && #[trigger] chosen@[k] == j {
                        let k = choose|k: int| 0 <= k < chosen@.len() && #[trigger] chosen@[k] == j;
                        assert(chosen@[k] < i);
                    }
                }
            }
        }
        i = i + 1;
    }
    chosen
}

/// Some event already records the run opening a pull request.
pub open spec fn pr_recorded(events: Seq<HistoryEvent>, run_id: Seq<char>) -> bool {
    exists|i: int|
        0 <= i < events.len() && (#[trigger] events[i]).kind == CycleEventKind::PullRequestOpened && ov(events[i].run_id)
            == Some(run_id)
}

/// A run that left a pull request on its claim records it as opened, once.
pub fn append_pr_opened_event(events: &mut Vec<HistoryEvent>, claim: &ClaimRecord, run_id: &str, issue_ref_text: &str)
    ensures
        match claim.pr_url {
            Some(url) => if pr_recorded(old(events)@, run_id@) {
                final(events)@ == old(events)@
            } else {
                &&& final(events)@.len() == old(events)@.len() + 1
                &&& final(events)@.drop_last() == old(events)@
                &&& event_is(
                    final(events)@.last(),
                    (
                        CycleEventKind::PullRequestOpened,
                        issue_ref_text@,
                        ov(claim.issue_display_ref),
                        Some("open"@),
                        Some(url@),
                    ),
                    *claim,
                    run_id@,
                )
            },
            None => final(events)@ == old(events)@,
        },
{
    let url = match &claim.pr_url {
        Some(u) => u,
        None => return,
    };
    let mut i: usize = 0;
    while i < events.len()
        invariant
            i <= events@.len(),
            forall|k: int|
                0 <= k < i ==> !((#[trigger] events@[k]).kind == CycleEventKind::PullRequestOpened && ov(events@[k].run_id)
                    == Some(run_id@)),
        decreases events@.len() - i,
    {
        let same_run = match &events[i].run_id {
            Some(r) => str_eq(r.as_str(), run_id),
            None => false,
        };
        if events[i].kind == CycleEventKind::PullRequestOpened && same_run {
            return;
        }
        i = i + 1;
    }
    events.push(
        HistoryEvent {
            kind: CycleEventKind::PullRequestOpened,
            issue_ref: Some(String::from_str(issue_ref_text)),
            issue_display_ref: claim.issue_display_ref.clone(),
            repo_ref: Some(claim.repo_ref.clone()),
            source_ref: claim.source_ref.clone(),
            workflow: Some(claim.workflow.clone()),
            run_id: Some(String::from_str(run_id)),
            status: Some(String::from_str("open")),
            detail: Some(url.clone()),
            wake_id: None,
            wake_event_id: None,
        },
    );
    proof {
        assert(events@.drop_last() =~= old(events)@);
    }
}

/// The events with every repeat of an earlier one dropped.
pub open spec fn dedup_seq(s: Seq<EventView>) -> Seq<EventView>
    decreases s.len(),
{
    if s.len() == 0 {
        s
    } else if s.drop_last().contains(s.last()) {
        dedup_seq(s.drop_last())
    } else {
        dedup_seq(s.drop_last()).push(s.last())
    }
}

fn opt_text_eq(a: &Option<String>, b: &Option<String>) -> (r: bool)
    ensures
        r == (ov(*a) == ov(*b)),
{
    match (a, b) {
        (Some(x), Some(y)) => str_eq(x.as_str(), y.as_str()),
        (None, None) => true,
        _ => false,
    }
}

/// Whether two events record the same thing.
pub(crate) fn same_event(a: &HistoryEvent, b: &HistoryEvent) -> (r: bool)
    ensures
        r == (event_view(*a) == event_view(*b)),
{
    a.kind == b.kind && opt_text_eq(&a.issue_ref, &b.issue_ref) && opt_text_eq(&a.issue_display_ref, &b.issue_display_ref)
        && opt_text_eq(&a.repo_ref, &b.repo_ref) && opt_text_eq(&a.source_ref, &b.source_ref) && opt_text_eq(
        &a.workflow,
        &b.workflow,
    ) && opt_text_eq(&a.run_id, &b.run_id) && opt_text_eq(&a.status, &b.status) && opt_text_eq(&a.detail, &b.detail)
        && opt_text_eq(&a.wake_id, &b.wake_id) && opt_text_eq(&a.wake_event_id, &b.wake_event_id)
}

/// Drop every event that repeats an earlier one, keeping the order.
pub fn dedupe_cycle_events(events: Vec<HistoryEvent>) -> (r: Vec<HistoryEvent>)
    ensures
        events_view(r@) == dedup_seq(events_view(events@)),
{
    let ghost all = events_view(events@);
    let total = events.len();
    let mut repeats: Vec<bool> = Vec::new();
    let mut i: usize = 0;
    while i < events.len()
        invariant
            i <= events@.len(),
            all == events_view(events@),
            repeats@.len() == i,
            forall|k: int| 0 <= k < i ==> repeats@[k] == all.subrange(0, k).contains(#[trigger] all[k]),
        decreases events@.len() - i,
    {
        let mut seen = false;
        let mut j: usize = 0;
        while j < i && !seen
            invariant
                j <= i < events@.len(),
                all == events_view(events@),
                !seen ==> forall|m: int| 0 <= m < j ==> all[m] != all[i as int],
                seen ==> all.subrange(0, i as int).contains(all[i as int]),
            decreases i - j,
        {
            if same_event(&events[j], &events[i]) {
                seen = true;
                proof {
                    assert(all.subrange(0, i as int)[j as int] == all[i as int]);
                }
            }
            j = j + 1;
        }
        proof {
            if !seen {
                assert forall|m: int| 0 <= m < i implies all.subrange(0, i as int)[m] != all[i as int] by {
                    assert(all.subrange(0, i as int)[m] == all[m]);
                }
            }
        }
        repeats.push(seen);
        i = i + 1;
    }
    let mut rest = events;
    let mut out: Vec<HistoryEvent> = Vec::new();
    let mut n: usize = 0;
    proof {
        assert(events_view(out@) =~= dedup_seq(all.subrange(0, 0)));
        assert(events_view(rest@) =~= all.subrange(0, total as int));
    }
    while rest.len() > 0
        invariant
            all.len() == total,
            repeats@.len() == total,
            forall|k: int| 0 <= k < total ==> repeats@[k] == all.subrange(0, k).contains(#[trigger] all[k]),
            n + rest@.len() == total,
            events_view(rest@) == all.subrange(n as int, total as int),
            events_view(out@) == dedup_seq(all.subrange(0, n as int)),
        decreases rest@.len(),
    {
        let ghost before = rest@;
        let x = rest.remove(0);
        proof {
            assert(events_view(before)[0] == event_view(x));
            assert(event_view(x) == all[n as int]);
            assert forall|k: int| 0 <= k < rest@.len() implies events_view(rest@)[k] == all.subrange(
                n + 1,
                total as int,
            )[k] by {
                assert(rest@[k] == before[k + 1]);
                assert(events_view(before)[k + 1] == all[n + 1 + k]);
            }
            assert(events_view(rest@) =~= all.subrange(n + 1, total as int));
            assert(all.subrange(0, n + 1).drop_last() =~= all.subrange(0, n as int));
            assert(all.subrange(0, n + 1).last() == all[n as int]);
        }
        if !repeats[n] {
            let ghost ov_ = out@;
            out.push(x);
            proof {
                assert(events_view(out@) =~= events_view(ov_).push(event_view(x)));
            }
        }
        n = n + 1;
    }
    proof {
        assert(all.subrange(0, total as int) =~= all);
    }
    out
}

/// Deduplicating keeps exactly the events that occurred, each once: no two
/// kept events are the same, and every event is kept or repeats a kept one.
pub proof fn law_deduped_events_distinct(s: Seq<EventView>)
    ensures
        forall|i: int, j: int| 0 <= i < j < dedup_seq(s).len() ==> dedup_seq(s)[i] != dedup_seq(s)[j],
        forall|x: EventView| s.contains(x) <==> dedup_seq(s).contains(x),
    decreases s.len(),
{
    if s.len() > 0 {
        let p = s.drop_last();
        law_deduped_events_distinct(p);
        let d = dedup_seq(p);
        if !p.contains(s.last()) {
            let e = d.push(s.last());
            assert forall|i: int, j: int| 0 <= i < j < e.len() implies e[i] != e[j] by {
                if j == e.len() - 1 {
                    assert(d.contains(e[i]));
                }
            }
            assert forall|x: EventView| s.contains(x) <==> e.contains(x) by {
                if s.contains(x) {
                    let k = choose|k: int| 0 <= k < s.len() && s[k] == x;
                    if k < s.len() - 1 {
                        assert(p[k] == x);
                        assert(p.contains(x));
                        assert(d.contains(x));
                        let m = choose|m: int| 0 <= m < d.len() && d[m] == x;
                        assert(e[m] == x);
                    } else {
                        assert(e[e.len() - 1] == x);
                    }
                }
                if e.contains(x) {
                    let m = choose|m: int| 0 <= m < e.len() && e[m] == x;
                    if m < d.len() {
                        assert(d[m] == x);
                        assert(d.contains(x));
                        assert(p.contains(x));
                        let k = choose|k: int| 0 <= k < p.len() && p[k] == x;
                        assert(s[k] == x);
                    } else {
                        assert(s[s.len() - 1] == x);
                    }
                }
            }
        } else {
            assert forall|x: EventView| s.contains(x) <==> d.contains(x) by {
                if s.contains(x) {
                    let k = choose|k: int| 0 <= k < s.len() && s[k] == x;
                    if k < s.len() - 1 {
                        assert(p[k] == x);
                        assert(p.contains(x));
                    } else {
                        assert(p.contains(s.last()));
                    }
                }
                if d.contains(x) {
                    assert(p.contains(x));
                    let k = choose|k: int| 0 <= k < p.len() && p[k] == x;
                    assert(s[k] == x);
                }
            }
        }
    }
}

} // verus!

//! Finding the JSON outcome in what a workflow step printed: the whole text,
//! a fenced Markdown block, or the first balanced `{...}` / `[...]` span.

use vstd::prelude::*;
use vstd::string::*;
use crate::autoflow::shape::{find_char, first_index_of};
use crate::text::{chars_of, contains_seq, find_from, occurs_at, slice_chars, str_eq, string_from_chars, trim_seq, trim_str};

verus! {

/// The index of the first occurrence of `t` in `s`.
#[verifier::opaque]
pub open spec fn first_occurrence(s: Seq<char>, t: Seq<char>) -> Option<int> {
    if exists|j: int| occurs_at(s, t, j) {
        Some(choose|j: int| occurs_at(s, t, j) && forall|k: int| 0 <= k < j ==> !#[trigger] occurs_at(s, t, k))
    } else {
        None
    }
}

/// `first_occurrence` is an occurrence with none before it.
pub proof fn lemma_first_occurrence(s: Seq<char>, t: Seq<char>, i: int)
    requires
        occurs_at(s, t, i),
        forall|k: int| 0 <= k < i ==> !#[trigger] occurs_at(s, t, k),
    ensures
        first_occurrence(s, t) == Some(i),
{
    reveal(first_occurrence);
    let j = choose|j: int| occurs_at(s, t, j) && forall|k: int| 0 <= k < j ==> !#[trigger] occurs_at(s, t, k);
    if j < i {
    } else if j > i {
    }
}

/// `first_occurrence` is `None` where `t` does not occur.
pub proof fn lemma_first_occurrence_none(s: Seq<char>, t: Seq<char>)
    requires
        forall|k: int| !#[trigger] occurs_at(s, t, k),
    ensures
        first_occurrence(s, t) is None,
{
    reveal(first_occurrence);
}

/// Where `t` first occurs in `s`.
pub fn find_chars(s: &[char], t: &[char]) -> (r: Option<usize>)
    ensures
        match r {
            Some(i) => first_occurrence(s@, t@) == Some(i as int) && i + t@.len() <= s@.len(),
            None => first_occurrence(s@, t@) is None,
        },
{
    match find_from(s, t, 0) {
        Some(i) => {
            proof {
                lemma_first_occurrence(s@, t@, i as int);
            }
            Some(i)
        },
        None => {
            proof {
                assert forall|k: int| !#[trigger] occurs_at(s@, t@, k) by {
                    if k < 0 {
                    }
                }
                lemma_first_occurrence_none(s@, t@);
            }
            None
        },
    }
}

/// The bodies of the fenced blocks of `rest`: after each opening fence, the
/// rest of its line is skipped and the body runs to the next fence.
pub open spec fn fenced_blocks(rest: Seq<char>) -> Seq<Seq<char>>
    decreases rest.len(),
{
    match first_occurrence(rest, "```"@) {
        None => Seq::empty(),
        Some(start) => {
            let after = rest.subrange(start + 3, rest.len() as int);
            match first_index_of(after, '\n') {
                None => Seq::empty(),
                Some(nl) => {
                    let body = after.subrange(nl + 1, after.len() as int);
                    match first_occurrence(body, "```"@) {
                        None => Seq::empty(),
                        Some(end) => if 0 <= start && start + 3 <= rest.len() && 0 <= nl < after.len() && 0 <= end
                            && end + 3 <= body.len() {
                            seq![body.subrange(0, end)] + fenced_blocks(body.subrange(end + 3, body.len() as int))
                        } else {
                            Seq::empty()
                        },
                    }
                },
            }
        },
    }
}

proof fn lemma_fence_len()
    ensures
        "```"@.len() == 3,
{
    reveal_strlit("```");
}

/// The bodies of the fenced Markdown blocks in `raw`.
pub fn markdown_fenced_blocks(raw: &str) -> (r: Vec<String>)
    ensures
        r@.map_values(|s: String| s@) == fenced_blocks(raw@),
{
    let fence = chars_of("```");
    proof {
        lemma_fence_len();
    }
    let mut rest = chars_of(raw);
    let mut blocks: Vec<String> = Vec::new();
    loop
        invariant
            fence@ == "```"@,
            fence@.len() == 3,
            blocks@.map_values(|s: String| s@) + fenced_blocks(rest@) == fenced_blocks(raw@),
        ensures
            blocks@.map_values(|s: String| s@) == fenced_blocks(raw@),
        decreases rest@.len(),
    {
        let start = match find_chars(rest.as_slice(), fence.as_slice()) {
            None => {
                proof {
                    assert(fenced_blocks(rest@) =~= Seq::<Seq<char>>::empty());
                    assert(blocks@.map_values(|s: String| s@) + Seq::<Seq<char>>::empty() =~= blocks@.map_values(
                        |s: String| s@,
                    ));
                }
                break;
            },
            Some(s) => s,
        };
        let n = rest.len();
        let after = slice_chars(rest.as_slice(), start + 3, n);
        let nl = match find_char(after.as_slice(), '\n') {
            None => {
                proof {
                    assert(fenced_blocks(rest@) =~= Seq::<Seq<char>>::empty());
                    assert(blocks@.map_values(|s: String| s@) + Seq::<Seq<char>>::empty() =~= blocks@.map_values(
                        |s: String| s@,
                    ));
                }
                break;
            },
            Some(i) => i,
        };
        let an = after.len();
        let body = slice_chars(after.as_slice(), nl + 1, an);
        let end = match find_chars(body.as_slice(), fence.as_slice()) {
            None => {
                proof {
                    assert(fenced_blocks(rest@) =~= Seq::<Seq<char>>::empty());
                    assert(blocks@.map_values(|s: String| s@) + Seq::<Seq<char>>::empty() =~= blocks@.map_values(
                        |s: String| s@,
                    ));
                }
                break;
            },
            Some(e) => e,
        };
        let bn = body.len();
        let block = string_from_chars(slice_chars(body.as_slice(), 0, end).as_slice());
        let ghost before = blocks@.map_values(|s: String| s@);
        let ghost old_rest = rest@;
        blocks.push(block);
        rest = slice_chars(body.as_slice(), end + 3, bn);
        proof {
            assert(blocks@.map_values(|s: String| s@) =~= before.push(body@.subrange(0, end as int)));
            assert(fenced_blocks(old_rest) == seq![body@.subrange(0, end as int)] + fenced_blocks(rest@));
            assert(before.push(body@.subrange(0, end as int)) + fenced_blocks(rest@) =~= before + (seq![
                body@.subrange(0, end as int),
            ] + fenced_blocks(rest@)));
        }
    }
    blocks
}

/// The JSON-ish scanner: from position `i` of `s`, with `depth` open
/// brackets, inside a string or not, after a backslash in a string or not,
/// the position of the closer that brings the depth back to zero. Strings
/// hide brackets; a closer at depth zero stays at zero.
pub open spec fn scan_close(
    s: Seq<char>,
    i: int,
    opener: char,
    closer: char,
    depth: nat,
    in_string: bool,
    escape: bool,
) -> Option<int>
    decreases s.len() - i,
{
    if i < 0 || i >= s.len() {
        None
    } else {
        let ch = s[i];
        if in_string {
            if escape {
                scan_close(s, i + 1, opener, closer, depth, true, false)
            } else if ch == '\\' {
                scan_close(s, i + 1, opener, closer, depth, true, true)
            } else if ch == '"' {
                scan_close(s, i + 1, opener, closer, depth, false, false)
            } else {
                scan_close(s, i + 1, opener, closer, depth, true, false)
            }
        } else if ch == '"' {
            scan_close(s, i + 1, opener, closer, depth, true, false)
        } else if ch == opener {
            scan_close(s, i + 1, opener, closer, depth + 1, false, false)
        } else if ch == closer {
            let d: nat = if depth == 0 { 0 } else { (depth - 1) as nat };
            if d == 0 {
                Some(i)
            } else {
                scan_close(s, i + 1, opener, closer, d, false, false)
            }
        } else {
            scan_close(s, i + 1, opener, closer, depth, false, false)
        }
    }
}

proof fn lemma_scan_close_found(
    s: Seq<char>,
    i: int,
    opener: char,
    closer: char,
    depth: nat,
    in_string: bool,
    escape: bool,
)
    ensures
        scan_close(s, i, opener, closer, depth, in_string, escape) matches Some(e) ==> i <= e < s.len() && s[e]
            == closer,
    decreases s.len() - i,
{
    if 0 <= i < s.len() {
        let ch = s[i];
        lemma_scan_close_found(s, i + 1, opener, closer, depth, true, false);
        lemma_scan_close_found(s, i + 1, opener, closer, depth, true, true);
        lemma_scan_close_found(s, i + 1, opener, closer, depth, false, false);
        lemma_scan_close_found(s, i + 1, opener, closer, depth + 1, false, false);
        if depth > 1 {
            lemma_scan_close_found(s, i + 1, opener, closer, (depth - 1) as nat, false, false);
        }
    }
}

/// The balanced span that starts at the first `opener` of `raw`, if any.
pub open spec fn balanced_span(raw: Seq<char>, opener: char, closer: char) -> Option<Seq<char>> {
    match first_index_of(raw, opener) {
        None => None,
        Some(start) => match scan_close(raw, start, opener, closer, 0, false, false) {
            None => None,
            Some(e) => Some(raw.subrange(start, e + 1)),
        },
    }
}

/// The first balanced `{...}` span of `raw`, else its first balanced
/// `[...]` span.
pub open spec fn spec_json_candidate(raw: Seq<char>) -> Option<Seq<char>> {
    match balanced_span(raw, '{', '}') {
        Some(c) => Some(c),
        None => balanced_span(raw, '[', ']'),
    }
}

fn balanced_span_of(raw: &[char], opener: char, closer: char) -> (r: Option<Vec<char>>)
    requires
        opener != closer,
        opener != '"',
        closer != '"',
    ensures
        match balanced_span(raw@, opener, closer) {
            Some(c) => r matches Some(v) && v@ == c,
            None => r is None,
        },
{
    let start = match find_char(raw, opener) {
        None => return None,
        Some(s) => s,
    };
    let n = raw.len();
    proof {
        crate::autoflow::shape::lemma_first_index_of_spec(raw@, opener);
    }
    let mut i: usize = start;
    let mut depth: usize = 0;
    let mut in_string = false;
    let mut escape = false;
    while i < n
        invariant
            start <= i <= n,
            n == raw@.len(),
            depth <= i - start,
            !in_string ==> !escape,
            first_index_of(raw@, opener) == Some(start as int),
            scan_close(raw@, start as int, opener, closer, 0, false, false) == scan_close(
                raw@,
                i as int,
                opener,
                closer,
                depth as nat,
                in_string,
                escape,
            ),
        decreases n - i,
    {
        let ch = raw[i];
        if in_string {
            if escape {
                escape = false;
            } else if ch == '\\' {
                escape = true;
            } else if ch == '"' {
                in_string = false;
            }
        } else if ch == '"' {
            in_string = true;
        } else if ch == opener {
            depth = depth + 1;
        } else if ch == closer {
            let d: usize = if depth == 0 { 0 } else { depth - 1 };
            if d == 0 {
                return Some(slice_chars(raw, start, i + 1));
            }
            depth = d;
        }
        i = i + 1;
    }
    None
}

/// The first balanced JSON-looking span in `raw`: an object if there is
/// one, else an array.
pub fn extract_balanced_json_candidate(raw: &str) -> (r: Option<String>)
    ensures
        match spec_json_candidate(raw@) {
            Some(c) => r matches Some(s) && s@ == c,
            None => r is None,
        },
{
    let cs = chars_of(raw);
    match balanced_span_of(cs.as_slice(), '{', '}') {
        Some(v) => Some(string_from_chars(v.as_slice())),
        None => match balanced_span_of(cs.as_slice(), '[', ']') {
            Some(v) => Some(string_from_chars(v.as_slice())),
            None => None,
        },
    }
}

/// A candidate span starts with its opener, ends with the matching closer,
/// and is a piece of the text it came from.
pub proof fn law_json_candidate_is_bracketed(raw: Seq<char>)
    requires
        spec_json_candidate(raw) is Some,
    ensures
        ({
            let c = spec_json_candidate(raw).unwrap();
            &&& c.len() >= 1
            &&& (c[0] == '{' && c.last() == '}') || (c[0] == '[' && c.last() == ']')
            &&& contains_seq(raw, c)
        }),
{
    crate::autoflow::shape::lemma_first_index_of_spec(raw, '{');
    crate::autoflow::shape::lemma_first_index_of_spec(raw, '[');
    match first_index_of(raw, '{') {
        Some(start) => lemma_scan_close_found(raw, start, '{', '}', 0, false, false),
        None => {},
    }
    match first_index_of(raw, '[') {
        Some(start) => lemma_scan_close_found(raw, start, '[', ']', 0, false, false),
        None => {},
    }
    let c = spec_json_candidate(raw).unwrap();
    if balanced_span(raw, '{', '}') is Some {
        let start = first_index_of(raw, '{').unwrap();
        assert(raw.subrange(start, start + c.len()) == c);
        assert(occurs_at(raw, c, start));
    } else {
        let start = first_index_of(raw, '[').unwrap();
        assert(raw.subrange(start, start + c.len()) == c);
        assert(occurs_at(raw, c, start));
    }
}

/// Whether `serde_json` reads `text` as one JSON value.
pub uninterp spec fn spec_json_parses(text: Seq<char>) -> bool;

/// `serde_json::from_str::<serde_json::Value>(text)` succeeded.
///
/// Claims only that the answer is a function of the text; which texts are
/// JSON is serde_json's.
#[verifier::external_body]
fn json_parses(text: &str) -> (r: bool)
    ensures
        r == spec_json_parses(text@),
{
    serde_json::from_str::<serde_json::Value>(text).is_ok()
}

/// The texts a step's JSON outcome is looked for in, in order: the whole
/// output, each fenced block (trimmed), then the first balanced span.
pub open spec fn outcome_candidates(raw: Seq<char>) -> Seq<Seq<char>> {
    let base = seq![raw] + fenced_blocks(raw).map_values(|b: Seq<char>| trim_seq(b));
    match spec_json_candidate(raw) {
        Some(c) => base.push(c),
        None => base,
    }
}

/// The first candidate that parses, by the flag each one got.
pub fn choose_outcome(parses: &Vec<bool>) -> (r: Option<usize>)
    ensures
        match r {
            Some(i) => i < parses@.len() && parses@[i as int] && forall|k: int| 0 <= k < i ==> !parses@[k],
            None => forall|k: int| 0 <= k < parses@.len() ==> !parses@[k],
        },
{
    let mut i: usize = 0;
    while i < parses.len()
        invariant
            i <= parses@.len(),
            forall|k: int| 0 <= k < i ==> !parses@[k],
        decreases parses@.len() - i,
    {
        if parses[i] {
            return Some(i);
        }
        i = i + 1;
    }
    None
}

fn outcome_candidate_texts(raw: &str) -> (r: Vec<String>)
    ensures
        r@.map_values(|s: String| s@) == outcome_candidates(raw@),
{
    let mut cands: Vec<String> = Vec::new();
    cands.push(String::from_str(raw));
    let blocks = markdown_fenced_blocks(raw);
    let ghost bs = fenced_blocks(raw@);
    let mut i: usize = 0;
    while i < blocks.len()
        invariant
            i <= blocks@.len(),
            blocks@.map_values(|s: String| s@) == bs,
            bs == fenced_blocks(raw@),
            cands@.map_values(|s: String| s@) == seq![raw@] + bs.subrange(0, i as int).map_values(
                |b: Seq<char>| trim_seq(b),
            ),
        decreases blocks@.len() - i,
    {
        let t = trim_str(blocks[i].as_str());
        let ghost before = cands@;
        cands.push(string_from_chars(t.as_slice()));
        proof {
            assert(bs[i as int] == blocks@[i as int]@);
            assert(bs.subrange(0, i + 1).map_values(|b: Seq<char>| trim_seq(b)) =~= bs.subrange(0, i as int).map_values(
                |b: Seq<char>| trim_seq(b),
            ).push(trim_seq(bs[i as int])));
            assert(cands@.map_values(|s: String| s@) =~= before.map_values(|s: String| s@).push(trim_seq(bs[i as int])));
        }
        i = i + 1;
    }
    proof {
        assert(bs.subrange(0, bs.len() as int) =~= bs);
    }
    match extract_balanced_json_candidate(raw) {
        Some(c) => {
            let ghost before = cands@;
            cands.push(c);
            proof {
                assert(cands@.map_values(|s: String| s@) =~= before.map_values(|s: String| s@).push(
                    spec_json_candidate(raw@)->Some_0,
                ));
            }
        },
        None => {},
    }
    cands
}

/// The text a step's JSON outcome is read from: the first of its candidates
/// (`outcome_candidates`) that serde_json reads; `None` where none is JSON.
pub fn json_outcome_text(raw: &str) -> (r: Option<String>)
    ensures
        ({
            let cands = outcome_candidates(raw@);
            match r {
                Some(s) => exists|i: int|
                    0 <= i < cands.len() && #[trigger] cands[i] == s@ && spec_json_parses(cands[i]) && forall|k: int|
                        0 <= k < i ==> !spec_json_parses(#[trigger] cands[k]),
                None => forall|k: int| 0 <= k < cands.len() ==> !spec_json_parses(#[trigger] cands[k]),
            }
        }),
{
    let cands = outcome_candidate_texts(raw);
    let ghost views = cands@.map_values(|s: String| s@);
    let mut parses: Vec<bool> = Vec::new();
    let mut i: usize = 0;
    while i < cands.len()
        invariant
            i <= cands@.len(),
            parses@.len() == i,
            forall|k: int| 0 <= k < i ==> parses@[k] == spec_json_parses(cands@[k]@),
        decreases cands@.len() - i,
    {
        let p = json_parses(cands[i].as_str());
        parses.push(p);
        i = i + 1;
    }
    match choose_outcome(&parses) {
        Some(j) => {
            proof {
                assert(views[j as int] == cands@[j as int]@);
                assert forall|k: int| 0 <= k < j implies !spec_json_parses(#[trigger] views[k]) by {
                    assert(views[k] == cands@[k]@);
                    assert(!parses@[k]);
                }
            }
            Some(cands[j].clone())
        },
        None => {
            proof {
                assert forall|k: int| 0 <= k < views.len() implies !spec_json_parses(#[trigger] views[k]) by {
                    assert(views[k] == cands@[k]@);
                    assert(!parses@[k]);
                }
            }
            None
        },
    }
}

/// Why a finished autoflow run's outcome could not be located.
#[derive(Debug, Clone)]
pub enum OutcomeRecordError {
    /// The autoflow declares no `autoflow.outcome.output`.
    NoOutcome { autoflow: String },
    /// The workflow has no output contract of that name.
    MissingContract { workflow: String, output: String },
    /// The run kept no result for the contract's step.
    MissingStep { run_id: String, step: String },
}

impl OutcomeRecordError {
    pub fn message(&self) -> (r: String)
        ensures
            r@ == match *self {
                OutcomeRecordError::NoOutcome { autoflow } =>
                    "autoflow `"@ + autoflow@ + "` does not declare `autoflow.outcome.output`"@,
                OutcomeRecordError::MissingContract { workflow, output } =>
                    "workflow `"@ + workflow@ + "` missing output contract `"@ + output@ + "`"@,
                OutcomeRecordError::MissingStep { run_id, step } =>
                    "run `"@ + run_id@ + "` did not persist output for step `"@ + step@ + "`"@,
            },
    {
        match self {
            OutcomeRecordError::NoOutcome { autoflow } => {
                let mut s = String::from_str("autoflow `");
                s.append(autoflow.as_str());
                s.append("` does not declare `autoflow.outcome.output`");
                s
            },
            OutcomeRecordError::MissingContract { workflow, output } => {
                let mut s = String::from_str("workflow `");
                s.append(workflow.as_str());
                s.append("` missing output contract `");
                s.append(output.as_str());
                s.append("`");
                s
            },
            OutcomeRecordError::MissingStep { run_id, step } => {
                let mut s = String::from_str("run `");
                s.append(run_id.as_str());
                s.append("` did not persist output for step `");
                s.append(step.as_str());
                s.append("`");
                s
            },
        }
    }
}

/// An output contract of a workflow: its name and the step it is read from.
#[derive(Debug, Clone)]
pub struct OutputContract {
    pub name: String,
    pub from_step: String,
}

/// Where an autoflow's outcome is read from: the output contract its
/// `autoflow.outcome.output` names, and the last result the run kept for
/// that contract's step (`step_ids` are the run's step results in order).
/// The answer is the contract's index and the result's index.
pub fn locate_outcome_record(
    autoflow: &str,
    outcome_output: Option<&str>,
    contracts: &Vec<OutputContract>,
    run_id: &str,
    step_ids: &Vec<String>,
) -> (r: Result<(usize, usize), OutcomeRecordError>)
    ensures
        outcome_output is None ==> (r matches Err(OutcomeRecordError::NoOutcome { autoflow: a }) && a@ == autoflow@),
        outcome_output matches Some(o) ==> {
            ||| (r matches Err(OutcomeRecordError::MissingContract { workflow: w, output: out }) && w@ == autoflow@
                && out@ == o@ && forall|k: int| 0 <= k < contracts@.len() ==> (#[trigger] contracts@[k]).name@ != o@)
            ||| (r matches Err(OutcomeRecordError::MissingStep { run_id: id, step }) && id@ == run_id@ && exists|c: int|
                0 <= c < contracts@.len() && (#[trigger] contracts@[c]).name@ == o@ && (forall|k: int|
                    0 <= k < c ==> (#[trigger] contracts@[k]).name@ != o@) && step@ == contracts@[c].from_step@
                && forall|k: int| 0 <= k < step_ids@.len() ==> (#[trigger] step_ids@[k])@ != step@)
            ||| (r matches Ok((c, s)) && c < contracts@.len() && contracts@[c as int].name@ == o@ && (forall|k: int|
                0 <= k < c ==> (#[trigger] contracts@[k]).name@ != o@) && s < step_ids@.len() && step_ids@[s as int]@
                == contracts@[c as int].from_step@ && forall|k: int|
                s < k < step_ids@.len() ==> (#[trigger] step_ids@[k])@ != contracts@[c as int].from_step@)
        },
{
    let output = match outcome_output {
        Some(o) => o,
        None => return Err(OutcomeRecordError::NoOutcome { autoflow: String::from_str(autoflow) }),
    };
    let c = match find_contract(contracts, output) {
        Some(c) => c,
        None => {
            return Err(
                OutcomeRecordError::MissingContract {
                    workflow: String::from_str(autoflow),
                    output: String::from_str(output),
                },
            )
        },
    };
    let step = contracts[c].from_step.as_str();
    match last_step(step_ids, step) {
        Some(s) => Ok((c, s)),
        None => Err(OutcomeRecordError::MissingStep { run_id: String::from_str(run_id), step: String::from_str(step) }),
    }
}

fn find_contract(contracts: &Vec<OutputContract>, output: &str) -> (r: Option<usize>)
    ensures
        match r {
            Some(c) => c < contracts@.len() && contracts@[c as int].name@ == output@ && forall|k: int|
                0 <= k < c ==> (#[trigger] contracts@[k]).name@ != output@,
            None => forall|k: int| 0 <= k < contracts@.len() ==> (#[trigger] contracts@[k]).name@ != output@,
        },
{
    let mut c: usize = 0;
    while c < contracts.len()
        invariant
            c <= contracts@.len(),
            forall|k: int| 0 <= k < c ==> (#[trigger] contracts@[k]).name@ != output@,
        decreases contracts@.len() - c,
    {
        if str_eq(contracts[c].name.as_str(), output) {
            return Some(c);
        }
        c = c + 1;
    }
    None
}

fn last_step(step_ids: &Vec<String>, step: &str) -> (r: Option<usize>)
    ensures
        match r {
            Some(s) => s < step_ids@.len() && step_ids@[s as int]@ == step@ && forall|k: int|
                s < k < step_ids@.len() ==> (#[trigger] step_ids@[k])@ != step@,
            None => forall|k: int| 0 <= k < step_ids@.len() ==> (#[trigger] step_ids@[k])@ != step@,
        },
{
    let mut s: usize = step_ids.len();
    while s > 0
        invariant
            s <= step_ids@.len(),
            forall|k: int| s <= k < step_ids@.len() ==> (#[trigger] step_ids@[k])@ != step@,
        decreases s,
    {
        if str_eq(step_ids[s - 1].as_str(), step) {
            return Some(s - 1);
        }
        s = s - 1;
    }
    None
}

} // verus!

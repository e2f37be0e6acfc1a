//! How a finished workflow step is shown in a run summary: its status class
//! and a one-line detail.

use vstd::prelude::*;
use vstd::string::*;
use crate::autoflow::history::ov;
use crate::autoflow::actions::{first_nonblank_line, first_nonblank_line_of, TranscriptItem};
use crate::json::{json_get, json_opt_str, jv_get, jv_opt_str, jview};
use crate::number::{decimal, usize_to_string};
use crate::text::{str_eq, string_from_chars};
use crate::ui::UiStatus;

verus! {

/// What a run record keeps of one step: whether it was skipped or
/// succeeded, how many findings it reported, the outcome of each item of a
/// fan-out step, and its output text.
#[derive(Debug, Clone)]
pub struct StepRecord {
    pub skipped: bool,
    pub success: bool,
    pub findings: usize,
    pub items: Vec<bool>,
    pub output: String,
}

/// A skipped step is `Skipped`, else it is `Complete` or `Failed` by its
/// success.
pub fn step_status_ui(step: &StepRecord) -> (r: UiStatus)
    ensures
        r == (if step.skipped {
            UiStatus::Skipped
        } else if step.success {
            UiStatus::Complete
        } else {
            UiStatus::Failed
        }),
{
    if step.skipped {
        UiStatus::Skipped
    } else if step.success {
        UiStatus::Complete
    } else {
        UiStatus::Failed
    }
}

/// How many of `items` succeeded.
pub open spec fn ok_count(items: Seq<bool>) -> nat
    decreases items.len(),
{
    if items.len() == 0 {
        0
    } else {
        ok_count(items.drop_last()) + if items.last() { 1nat } else { 0nat }
    }
}

/// The detail shown beside a step: `skipped`; else `<n> finding(s)`; else
/// `<ok>/<n> item(s) ok`; else the first non-blank line of its output; and
/// nothing where that is empty too.
pub open spec fn spec_step_summary_detail(step: StepRecord) -> Option<Seq<char>> {
    if step.skipped {
        Some("skipped"@)
    } else if step.findings > 0 {
        Some(decimal(step.findings as nat) + " finding(s)"@)
    } else if step.items@.len() > 0 {
        Some(decimal(ok_count(step.items@)) + "/"@ + decimal(step.items@.len()) + " item(s) ok"@)
    } else if first_nonblank_line(step.output@).len() > 0 {
        Some(first_nonblank_line(step.output@))
    } else {
        None
    }
}

fn count_ok(items: &Vec<bool>) -> (r: usize)
    ensures
        r == ok_count(items@),
{
    let mut n: usize = 0;
    let mut i: usize = 0;
    while i < items.len()
        invariant
            i <= items@.len(),
            n == ok_count(items@.subrange(0, i as int)),
            n <= i,
        decreases items@.len() - i,
    {
        proof {
            assert(items@.subrange(0, i + 1).drop_last() =~= items@.subrange(0, i as int));
        }
        if items[i] {
            n = n + 1;
        }
        i = i + 1;
    }
    proof {
        assert(items@.subrange(0, items@.len() as int) =~= items@);
    }
    n
}

/// The one-line detail of a step (see `spec_step_summary_detail`).
pub fn step_summary_detail(step: &StepRecord) -> (r: Option<String>)
    ensures
        match r {
            Some(s) => spec_step_summary_detail(*step) == Some(s@),
            None => spec_step_summary_detail(*step).is_none(),
        },
{
    if step.skipped {
        return Some(String::from_str("skipped"));
    }
    if step.findings > 0 {
        let mut s = usize_to_string(step.findings);
        s.append(" finding(s)");
        return Some(s);
    }
    if step.items.len() > 0 {
        let mut s = usize_to_string(count_ok(&step.items));
        s.append("/");
        let total = usize_to_string(step.items.len());
        s.append(total.as_str());
        s.append(" item(s) ok");
        return Some(s);
    }
    let line = first_nonblank_line_of(step.output.as_str());
    if line.len() == 0 {
        return None;
    }
    Some(string_from_chars(line.as_slice()))
}

/// The issue state that an item of a transcript sets: the `state` string of
/// an `issues.update_state` call.
pub open spec fn state_set_by(item: TranscriptItem) -> Option<Seq<char>> {
    match item {
        TranscriptItem::ToolCall { tool, input, .. } => if tool@ == "issues.update_state"@ {
            jv_opt_str(jv_get(jview(input), "state"@))
        } else {
            None
        },
        _ => None,
    }
}

/// The state last set in `items`, where `acc` was the state before them.
pub open spec fn state_after(items: Seq<TranscriptItem>, acc: Option<Seq<char>>) -> Option<Seq<char>>
    decreases items.len(),
{
    if items.len() == 0 {
        acc
    } else {
        match state_set_by(items.last()) {
            Some(s) => Some(s),
            None => state_after(items.drop_last(), acc),
        }
    }
}

/// The state last set over several transcripts read in turn.
pub open spec fn state_after_all(ts: Seq<Vec<TranscriptItem>>, acc: Option<Seq<char>>) -> Option<Seq<char>>
    decreases ts.len(),
{
    if ts.len() == 0 {
        acc
    } else {
        state_after(ts.last()@, state_after_all(ts.drop_last(), acc))
    }
}

fn state_of_item(item: &TranscriptItem) -> (r: Option<String>)
    ensures
        ov(r) == state_set_by(*item),
{
    match item {
        TranscriptItem::ToolCall { tool, input, .. } => {
            if str_eq(tool.as_str(), "issues.update_state") {
                match json_opt_str(json_get(input, "state")) {
                    Some(s) => Some(String::from_str(s)),
                    None => None,
                }
            } else {
                None
            }
        },
        _ => None,
    }
}

/// The issue state that a run left behind: the last `issues.update_state`
/// call over the transcripts of its steps and items, read in order; `None`
/// where no call set one.
pub fn latest_issue_state(transcripts: &Vec<Vec<TranscriptItem>>) -> (r: Option<String>)
    ensures
        ov(r) == state_after_all(transcripts@, None),
{
    let mut latest: Option<String> = None;
    let mut i: usize = 0;
    while i < transcripts.len()
        invariant
            i <= transcripts@.len(),
            ov(latest) == state_after_all(transcripts@.subrange(0, i as int), None),
        decreases transcripts@.len() - i,
    {
        let items = &transcripts[i];
        let ghost before: Option<Seq<char>> = ov(latest);
        let mut j: usize = 0;
        while j < items.len()
            invariant
                j <= items@.len(),
                ov(latest) == state_after(items@.subrange(0, j as int), before),
            decreases items@.len() - j,
        {
            proof {
                assert(items@.subrange(0, j + 1).drop_last() =~= items@.subrange(0, j as int));
            }
            match state_of_item(&items[j]) {
                Some(s) => {
                    latest = Some(s);
                },
                None => {},
            }
            j = j + 1;
        }
        proof {
            assert(items@.subrange(0, items@.len() as int) =~= items@);
            assert(transcripts@.subrange(0, i + 1).drop_last() =~= transcripts@.subrange(0, i as int));
        }
        i = i + 1;
    }
    proof {
        assert(transcripts@.subrange(0, transcripts@.len() as int) =~= transcripts@);
    }
    latest
}

} // verus!

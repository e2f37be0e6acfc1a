//! The one-line status a serve worker shows between passes.

use vstd::prelude::*;
use vstd::string::*;
use crate::autoflow::claims::{claim_is_live_for_heartbeat, heartbeat_action_label, spec_heartbeat_action_label, AutoflowClaimRow};
use crate::autoflow::shape::{spec_truncate, truncate_text};
use crate::number::{decimal, usize_to_string};
use crate::text::{join_seqs, join_strings, str_eq};

verus! {

/// The claim the ticker reports: the first running one, else the first
/// that is not complete.
pub open spec fn ticker_claim(claims: Seq<AutoflowClaimRow>) -> Option<int> {
    if exists|i: int| 0 <= i < claims.len() && (#[trigger] claims[i]).status@ == "running"@ {
        Some(
            choose|i: int|
                0 <= i < claims.len() && (#[trigger] claims[i]).status@ == "running"@ && forall|j: int|
                    0 <= j < i ==> claims[j].status@ != "running"@,
        )
    } else if exists|i: int| 0 <= i < claims.len() && (#[trigger] claims[i]).status@ != "complete"@ {
        Some(
            choose|i: int|
                0 <= i < claims.len() && (#[trigger] claims[i]).status@ != "complete"@ && forall|j: int|
                    0 <= j < i ==> claims[j].status@ == "complete"@,
        )
    } else {
        None
    }
}

/// The details after a claim's headline: its status, its branch and run
/// where set, and the wake counts.
pub open spec fn ticker_details(c: AutoflowClaimRow, queued: nat, due: nat) -> Seq<Seq<char>> {
    seq![c.status@] + (if c.branch@ != "-"@ {
        seq!["branch "@ + spec_truncate(c.branch@, 28)]
    } else {
        Seq::empty()
    }) + (if c.last_run@ != "-"@ {
        seq!["run "@ + c.last_run@]
    } else {
        Seq::empty()
    }) + seq![wake_counts(queued, due)]
}

/// `wakes queued=<n> due=<n>`.
pub open spec fn wake_counts(queued: nat, due: nat) -> Seq<char> {
    "wakes queued="@ + decimal(queued) + " due="@ + decimal(due)
}

/// The ticker line: what the reported claim is doing, or that the worker
/// polls for work.
pub open spec fn spec_ticker_message(claims: Seq<AutoflowClaimRow>, cycles: nat, queued: nat, due: nat) -> Seq<char> {
    match ticker_claim(claims) {
        Some(i) => {
            let c = claims[i];
            let issue = match c.issue_display {
                Some(d) => d@,
                None => c.issue@,
            };
            spec_heartbeat_action_label(c.status@) + " issue "@ + issue + "  ·  "@ + spec_truncate(c.workflow@, 28)
                + "  ·  "@ + join_seqs(ticker_details(c, queued, due), "  ·  "@)
        },
        None => "polling for work  ·  cycles="@ + decimal(cycles) + "  ·  "@ + wake_counts(queued, due)
            + "  ·  no active claims"@,
    }
}

fn find_ticker_claim(claims: &Vec<AutoflowClaimRow>) -> (r: Option<usize>)
    ensures
        match ticker_claim(claims@) {
            Some(i) => r matches Some(k) && k as int == i,
            None => r is None,
        },
        r matches Some(k) ==> k < claims@.len(),
{
    let mut i: usize = 0;
    while i < claims.len()
        invariant
            i <= claims@.len(),
            forall|j: int| 0 <= j < i ==> (#[trigger] claims@[j]).status@ != "running"@,
        decreases claims@.len() - i,
    {
        if str_eq(claims[i].status.as_str(), "running") {
            proof {
                let w = choose|w: int|
                    0 <= w < claims@.len() && (#[trigger] claims@[w]).status@ == "running"@ && forall|j: int|
                        0 <= j < w ==> claims@[j].status@ != "running"@;
                if w < i {
                } else if w > i {
                }
            }
            return Some(i);
        }
        i = i + 1;
    }
    let mut k: usize = 0;
    while k < claims.len()
        invariant
            k <= claims@.len(),
            forall|j: int| 0 <= j < claims@.len() ==> (#[trigger] claims@[j]).status@ != "running"@,
            forall|j: int| 0 <= j < k ==> (#[trigger] claims@[j]).status@ == "complete"@,
        decreases claims@.len() - k,
    {
        if claim_is_live_for_heartbeat(&claims[k]) {
            proof {
                let w = choose|w: int|
                    0 <= w < claims@.len() && (#[trigger] claims@[w]).status@ != "complete"@ && forall|j: int|
                        0 <= j < w ==> claims@[j].status@ == "complete"@;
                if w < k {
                } else if w > k {
                }
            }
            return Some(k);
        }
        k = k + 1;
    }
    None
}

/// The ticker line a serve worker shows between passes, given the monitor's
/// claims, the passes run so far and the queued and due wakes.
pub fn serve_ticker_message(claims: &Vec<AutoflowClaimRow>, cycles: usize, queued: usize, due: usize) -> (r: String)
    ensures
        r@ == spec_ticker_message(claims@, cycles as nat, queued as nat, due as nat),
{
    let mut wakes = String::from_str("wakes queued=");
    wakes.append(usize_to_string(queued).as_str());
    wakes.append(" due=");
    wakes.append(usize_to_string(due).as_str());
    match find_ticker_claim(claims) {
        Some(i) => {
            let c = &claims[i];
            let mut s = String::from_str(heartbeat_action_label(c));
            s.append(" issue ");
            match &c.issue_display {
                Some(d) => s.append(d.as_str()),
                None => s.append(c.issue.as_str()),
            }
            s.append("  ·  ");
            s.append(truncate_text(c.workflow.as_str(), 28).as_str());
            s.append("  ·  ");
            let mut details: Vec<String> = Vec::new();
            details.push(c.status.clone());
            if !str_eq(c.branch.as_str(), "-") {
                let mut b = String::from_str("branch ");
                b.append(truncate_text(c.branch.as_str(), 28).as_str());
                details.push(b);
            }
            if !str_eq(c.last_run.as_str(), "-") {
                let mut run = String::from_str("run ");
                run.append(c.last_run.as_str());
                details.push(run);
            }
            details.push(wakes);
            proof {
                assert(details@.map_values(|p: String| p@) =~= ticker_details(*c, queued as nat, due as nat));
            }
            let ghost head = s@;
            s.append(join_strings(&details, "  ·  ").as_str());
            proof {
                let issue = match claims@[i as int].issue_display {
                    Some(d) => d@,
                    None => claims@[i as int].issue@,
                };
                assert(head =~= spec_heartbeat_action_label(c.status@) + " issue "@ + issue + "  ·  "@ + spec_truncate(
                    c.workflow@,
                    28,
                ) + "  ·  "@);
            }
            s
        },
        None => {
            let mut s = String::from_str("polling for work  ·  cycles=");
            s.append(usize_to_string(cycles).as_str());
            s.append("  ·  ");
            s.append(wakes.as_str());
            s.append("  ·  no active claims");
            proof {
                assert(s@ =~= spec_ticker_message(claims@, cycles as nat, queued as nat, due as nat));
            }
            s
        },
    }
}

} // verus!

//! The events of a live serve cycle that still have to be written to the
//! history store: each event is written once, however often it is shown.

use vstd::prelude::*;
use crate::autoflow::actions::same_event;
use crate::autoflow::history::{event_view, events_view, EventView, HistoryEvent};

verus! {

/// Whether `event` is among `written`.
pub fn already_written(written: &Vec<HistoryEvent>, event: &HistoryEvent) -> (r: bool)
    ensures
        r == events_view(written@).contains(event_view(*event)),
{
    let ghost ws = events_view(written@);
    let mut i: usize = 0;
    while i < written.len()
        invariant
            i <= written@.len(),
            ws == events_view(written@),
            forall|k: int| 0 <= k < i ==> ws[k] != event_view(*event),
        decreases written@.len() - i,
    {
        if same_event(&written[i], event) {
            proof {
                assert(ws[i as int] == event_view(*event));
            }
            return true;
        }
        i = i + 1;
    }
    false
}

/// An event of a finished cycle still to be written: neither written
/// before nor an earlier event of the same cycle.
pub open spec fn still_to_write(written: Seq<EventView>, events: Seq<EventView>, k: int) -> bool {
    !written.contains(events[k]) && !events.subrange(0, k).contains(events[k])
}

/// The positions, in order, of the events of `events` still to be written
/// after `written` (see `still_to_write`).
pub fn events_to_write(written: &Vec<HistoryEvent>, events: &Vec<HistoryEvent>) -> (r: Vec<usize>)
    ensures
        forall|a: int, b: int| 0 <= a < b < r@.len() ==> r@[a] < r@[b],
        forall|a: int| 0 <= a < r@.len() ==> (#[trigger] r@[a]) < events@.len() && still_to_write(
            events_view(written@),
            events_view(events@),
            r@[a] as int,
        ),
        forall|k: int|
            0 <= k < events@.len() && still_to_write(events_view(written@), events_view(events@), k) ==> exists|a: int|
                0 <= a < r@.len() && #[trigger] r@[a] == k,
{
    let ghost ws = events_view(written@);
    let ghost es = events_view(events@);
    let mut out: Vec<usize> = Vec::new();
    let mut i: usize = 0;
    while i < events.len()
        invariant
            i <= events@.len(),
            ws == events_view(written@),
            es == events_view(events@),
            forall|a: int, b: int| 0 <= a < b < out@.len() ==> out@[a] < out@[b],
            forall|a: int| 0 <= a < out@.len() ==> (#[trigger] out@[a]) < i && still_to_write(ws, es, out@[a] as int),
            forall|k: int| 0 <= k < i && still_to_write(ws, es, k) ==> exists|a: int| 0 <= a < out@.len() && #[trigger] out@[a] == k,
        decreases events@.len() - i,
    {
        let mut repeat = already_written(written, &events[i]);
        let mut j: usize = 0;
        while j < i && !repeat
            invariant
                j <= i < events@.len(),
                es == events_view(events@),
                ws == events_view(written@),
                repeat ==> ws.contains(es[i as int]) || es.subrange(0, i as int).contains(es[i as int]),
                !repeat ==> !ws.contains(es[i as int]) && forall|m: int| 0 <= m < j ==> es[m] != es[i as int],
            decreases i - j,
        {
            if same_event(&events[j], &events[i]) {
                repeat = true;
            }
            j = j + 1;
            if repeat {
                proof {
                    assert(es.subrange(0, i as int)[j - 1] == es[i as int]);
                }
            }
        }
        proof {
            if !repeat {
                assert forall|m: int| 0 <= m < i implies es.subrange(0, i as int)[m] != es[i as int] by {
                    assert(es.subrange(0, i as int)[m] == es[m]);
                }
            }
        }
        let ghost before = out@;
        if !repeat {
            out.push(i);
            proof {
                assert(out@[before.len() as int] == i);
            }
        }
        proof {
            assert(repeat <==> !still_to_write(ws, es, i as int));
            assert forall|k: int| 0 <= k < i + 1 && still_to_write(ws, es, k) implies exists|a: int|
                0 <= a < out@.len() && #[trigger] out@[a] == k by {
                if k < i {
                    let a = choose|a: int| 0 <= a < before.len() && #[trigger] before[a] == k;
                    assert(out@[a] == before[a]);
                } else {
                    assert(out@[before.len() as int] == k);
                }
            }
        }
        i = i + 1;
    }
    out
}

} // verus!

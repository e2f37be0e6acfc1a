//! The rows of the live serve view: what the worker is doing, the issue it
//! is on and its run, the claims (in the full view), recent activity and
//! the wake queue, cut to the screen.

use vstd::prelude::*;
use vstd::string::*;
use crate::autoflow::claims::{claim_status_ui, display_issue_headline, spec_claim_status_ui, spec_issue_headline, AutoflowClaimRow};
use crate::autoflow::events::{activity_status_and_label, spec_activity_status_and_label};
use crate::autoflow::monitor::MonitorActivityRow;
use crate::autoflow::select::{lemma_lex_lt_irreflexive, lemma_lex_lt_total, lemma_lex_lt_transitive, lex_less, lex_lt};
use crate::autoflow::serve_entries::{serve_issue_rank, spec_primary_rank, spec_status_rank};
use crate::autoflow::shape::{
    format_count, group_thousands, short_locator, short_run_id, short_url_like, spec_short_run_id, spec_truncate,
    strip_first_prefix, truncate_text,
};
use crate::autoflow::wrap::{spec_wrap, wrap_retained_serve_plain};
use crate::number::{decimal, usize_to_string};
use crate::text::{join_seqs, join_strings, str_eq};
use crate::ui::{LiveViewMode, UiStatus};

verus! {

/// How far the serve worker has come.
#[derive(Debug, Clone, Copy)]
pub struct ServeProgress {
    pub cycles: usize,
    pub ran: usize,
    pub skipped: usize,
    pub failed: usize,
    pub cleaned: usize,
    /// Whether a pass is under way.
    pub cycle_running: bool,
}

/// One line of a live run's output, with its status.
#[derive(Debug, Clone)]
pub struct ServeLine {
    pub status: UiStatus,
    pub text: String,
}

/// Token usage of the live run; the cost comes formatted (`1.23`).
#[derive(Debug, Clone)]
pub struct UsageView {
    pub input_tokens: u64,
    pub output_tokens: u64,
    pub total_tokens: u64,
    pub cost_text: Option<String>,
}

/// The run the active claim is on, as far as it could be read; its
/// duration comes formatted.
#[derive(Debug, Clone)]
pub struct LiveRunView {
    pub run_id: String,
    pub status: String,
    pub duration_text: String,
    /// The step under way or awaiting approval, `-` for none.
    pub current_step: String,
    pub completed_steps: usize,
    pub total_steps: usize,
    pub usage: Option<UsageView>,
    pub lines: Vec<ServeLine>,
}

/// Wake queue counts.
#[derive(Debug, Clone, Copy)]
pub struct WakeCounts {
    pub queued: usize,
    pub due: usize,
    pub processed_recent: usize,
}

/// What the monitor knows that the view shows.
#[derive(Debug, Clone)]
pub struct MonitorView {
    pub claims: Vec<AutoflowClaimRow>,
    pub activity: Vec<MonitorActivityRow>,
    pub wakes: WakeCounts,
}

/// The mark drawn for each status, as the terminal theme has it.
#[derive(Debug, Clone)]
pub struct StatusGlyphs {
    pub active: String,
    pub working: String,
    pub waiting: String,
    pub awaiting: String,
    pub retrying: String,
    pub complete: String,
    pub failed: String,
    pub skipped: String,
}

pub open spec fn glyph(g: StatusGlyphs, s: UiStatus) -> Seq<char> {
    match s {
        UiStatus::Active => g.active@,
        UiStatus::Working => g.working@,
        UiStatus::Waiting => g.waiting@,
        UiStatus::Awaiting => g.awaiting@,
        UiStatus::Retrying => g.retrying@,
        UiStatus::Complete => g.complete@,
        UiStatus::Failed => g.failed@,
        UiStatus::Skipped => g.skipped@,
    }
}

fn glyph_of(g: &StatusGlyphs, s: UiStatus) -> (r: &str)
    ensures
        r@ == glyph(*g, s),
{
    match s {
        UiStatus::Active => g.active.as_str(),
        UiStatus::Working => g.working.as_str(),
        UiStatus::Waiting => g.waiting.as_str(),
        UiStatus::Awaiting => g.awaiting.as_str(),
        UiStatus::Retrying => g.retrying.as_str(),
        UiStatus::Complete => g.complete.as_str(),
        UiStatus::Failed => g.failed.as_str(),
        UiStatus::Skipped => g.skipped.as_str(),
    }
}

pub open spec fn rows_view(v: Seq<String>) -> Seq<Seq<char>> {
    v.map_values(|s: String| s@)
}

/// A row cut to `w` characters, the cut marked with an ellipsis.
pub open spec fn fit(s: Seq<char>, w: int) -> Seq<char> {
    spec_truncate(s, if w < 0 { 0 } else { w as nat })
}

/// `w - k`, or 0 below that.
pub open spec fn less(w: int, k: int) -> int {
    if w >= k { w - k } else { 0 }
}

fn less_of(w: usize, k: usize) -> (r: usize)
    ensures
        r == less(w as int, k as int),
{
    if w >= k { w - k } else { 0 }
}

fn push_row(rows: &mut Vec<String>, s: String)
    ensures
        rows_view(final(rows)@) == rows_view(old(rows)@).push(s@),
{
    let ghost pre = rows_view(rows@);
    rows.push(s);
    proof {
        assert(rows_view(rows@) =~= pre.push(s@));
    }
}

// ---- the issue the view is about -------------------------------------------

/// How a claim ranks in the view when no events are counted: by urgency,
/// then status, then issue.
pub open spec fn claim_key(c: AutoflowClaimRow) -> (int, int, Seq<char>) {
    (spec_primary_rank(c.status@, false), spec_status_rank(c.status@), c.issue@)
}

pub open spec fn key_before(a: (int, int, Seq<char>), b: (int, int, Seq<char>)) -> bool {
    a.0 < b.0 || (a.0 == b.0 && (a.1 < b.1 || (a.1 == b.1 && lex_lt(a.2, b.2))))
}

pub open spec fn live_claim(c: AutoflowClaimRow) -> bool {
    c.status@ != "complete"@
}

/// The claim the view is about: the first, among claims that are not
/// complete, of those ranking first.
pub open spec fn is_primary(claims: Seq<AutoflowClaimRow>, i: int) -> bool {
    &&& 0 <= i < claims.len()
    &&& live_claim(claims[i])
    &&& forall|j: int| 0 <= j < claims.len() && live_claim(#[trigger] claims[j]) ==> !key_before(claim_key(claims[j]), claim_key(claims[i]))
    &&& forall|j: int| 0 <= j < i && live_claim(#[trigger] claims[j]) ==> key_before(claim_key(claims[i]), claim_key(claims[j]))
}

proof fn lemma_key_total(a: (int, int, Seq<char>), b: (int, int, Seq<char>))
    ensures
        a == b || key_before(a, b) || key_before(b, a),
{
    lemma_lex_lt_total(a.2, b.2);
}

proof fn lemma_key_trans(a: (int, int, Seq<char>), b: (int, int, Seq<char>), c: (int, int, Seq<char>))
    requires
        key_before(a, b),
        key_before(b, c),
    ensures
        key_before(a, c),
{
    if a.0 == b.0 && b.0 == c.0 && a.1 == b.1 && b.1 == c.1 {
        lemma_lex_lt_transitive(a.2, b.2, c.2);
    }
}

proof fn lemma_key_irrefl(a: (int, int, Seq<char>))
    ensures
        !key_before(a, a),
{
    lemma_lex_lt_irreflexive(a.2);
}

/// At most one claim is the primary one.
proof fn lemma_primary_unique(claims: Seq<AutoflowClaimRow>, i: int, j: int)
    requires
        is_primary(claims, i),
        is_primary(claims, j),
    ensures
        i == j,
{
    if i < j {
        assert(live_claim(claims[i]));
    } else if j < i {
        assert(live_claim(claims[j]));
    }
}

/// The index of the primary claim, none when every claim is complete.
pub open spec fn spec_primary(claims: Seq<AutoflowClaimRow>) -> Option<int> {
    if exists|i: int| is_primary(claims, i) {
        Some(choose|i: int| is_primary(claims, i))
    } else {
        None
    }
}

fn claim_before(a: &AutoflowClaimRow, b: &AutoflowClaimRow) -> (r: bool)
    ensures
        r == key_before(claim_key(*a), claim_key(*b)),
{
    let ka = serve_issue_rank(Some(a.status.as_str()), false);
    let kb = serve_issue_rank(Some(b.status.as_str()), false);
    ka.0 < kb.0 || (ka.0 == kb.0 && (ka.1 < kb.1 || (ka.1 == kb.1 && lex_less(a.issue.as_str(), b.issue.as_str()))))
}

/// The claim the live view follows (see `is_primary`); none when every claim
/// is complete.
pub fn primary_claim(claims: &Vec<AutoflowClaimRow>) -> (r: Option<usize>)
    ensures
        match r {
            Some(i) => is_primary(claims@, i as int),
            None => forall|j: int| 0 <= j < claims@.len() ==> !live_claim(#[trigger] claims@[j]),
        },
{
    let mut best: Option<usize> = None;
    let mut j: usize = 0;
    while j < claims.len()
        invariant
            j <= claims@.len(),
            match best {
                Some(b) => b < j && live_claim(claims@[b as int]) && (forall|k: int|
                    0 <= k < j && live_claim(#[trigger] claims@[k]) ==> !key_before(claim_key(claims@[k]), claim_key(claims@[b as int])))
                    && (forall|k: int| 0 <= k < b && live_claim(#[trigger] claims@[k]) ==> key_before(
                    claim_key(claims@[b as int]),
                    claim_key(claims@[k]),
                )),
                None => forall|k: int| 0 <= k < j ==> !live_claim(#[trigger] claims@[k]),
            },
        decreases claims@.len() - j,
    {
        let live = !str_eq(claims[j].status.as_str(), "complete");
        assert(live == live_claim(claims@[j as int]));
        if live {
            match best {
                None => {
                    proof {
                        lemma_key_irrefl(claim_key(claims@[j as int]));
                    }
                    best = Some(j);
                },
                Some(b) => {
                    if claim_before(&claims[j], &claims[b]) {
                        proof {
                            let kj = claim_key(claims@[j as int]);
                            let kb = claim_key(claims@[b as int]);
                            assert forall|k: int| 0 <= k < j && live_claim(#[trigger] claims@[k]) implies key_before(
                                kj,
                                claim_key(claims@[k]),
                            ) by {
                                let kk = claim_key(claims@[k]);
                                if k < b {
                                    lemma_key_trans(kj, kb, kk);
                                } else {
                                    lemma_key_total(kk, kb);
                                    if kk != kb {
                                        lemma_key_trans(kj, kb, kk);
                                    }
                                }
                            }
                            assert forall|k: int| 0 <= k < j + 1 && live_claim(#[trigger] claims@[k]) implies !key_before(
                                claim_key(claims@[k]),
                                kj,
                            ) by {
                                if k == j {
                                    lemma_key_irrefl(kj);
                                } else {
                                    let kk = claim_key(claims@[k]);
                                    if key_before(kk, kj) {
                                        lemma_key_trans(kj, kk, kj);
                                        lemma_key_irrefl(kj);
                                    }
                                }
                            }
                        }
                        best = Some(j);
                    }
                },
            }
        }
        j = j + 1;
    }
    best
}

// ---- the rows ---------------------------------------------------------------

pub open spec fn ostr(o: Option<&str>) -> Option<Seq<char>> {
    match o {
        Some(s) => Some(s@),
        None => None,
    }
}

pub open spec fn or_text(o: Option<Seq<char>>, d: Seq<char>) -> Seq<char> {
    match o {
        Some(s) => s,
        None => d,
    }
}

/// The title, a blank line, and the worker's totals.
pub open spec fn header_rows(repo: Option<Seq<char>>, worker: Option<Seq<char>>, idle: Seq<char>, p: ServeProgress, w: int) -> Seq<Seq<char>> {
    seq![
        fit("▶ autoflow serve  ·  repo "@ + or_text(repo, "(all)"@) + "  ·  worker "@ + or_text(worker, "(auto)"@)
            + "  ·  idle "@ + idle + "s"@, w),
        Seq::empty(),
        "serve      "@ + fit("cycles "@ + decimal(p.cycles as nat) + "  ·  ran "@ + decimal(p.ran as nat) + "  ·  skipped "@
            + decimal(p.skipped as nat) + "  ·  failed "@ + decimal(p.failed as nat) + "  ·  cleaned "@ + decimal(p.cleaned as nat)
            + "  ·  "@ + (if p.cycle_running { "reconciling"@ } else { "watching"@ }), less(w, 11)),
    ]
}

/// Where the active claim works: its repo, and its branch and PR where it
/// has them.
pub open spec fn route_parts(c: AutoflowClaimRow) -> Seq<Seq<char>> {
    seq!["repo "@ + spec_truncate(strip_first_prefix(c.repo@, "github:"@, "jira:"@, "linear:"@), 28)] + (if c.branch@ != "-"@ {
        seq!["branch "@ + spec_truncate(c.branch@, 22)]
    } else {
        Seq::empty()
    }) + (if c.pr@ != "-"@ {
        seq!["pr "@ + spec_truncate(strip_first_prefix(c.pr@, "https://"@, "http://"@, "http://"@), 22)]
    } else {
        Seq::empty()
    })
}

/// The rows of one output line: its mark and first wrapped piece, then the
/// other pieces indented.
pub open spec fn line_rows(l: ServeLine, cw: nat, g: StatusGlyphs) -> Seq<Seq<char>> {
    let segs = spec_wrap(l.text@, cw);
    Seq::new(segs.len(), |k: int| if k == 0 { glyph(g, l.status) + " "@ + segs[0] } else { "  "@ + segs[k] })
}

pub open spec fn all_line_rows(ls: Seq<ServeLine>, cw: nat, g: StatusGlyphs) -> Seq<Seq<char>>
    decreases ls.len(),
{
    if ls.len() == 0 {
        Seq::empty()
    } else {
        all_line_rows(ls.drop_last(), cw, g) + line_rows(ls.last(), cw, g)
    }
}

pub open spec fn content_width(w: int) -> nat {
    if less(w, 2) < 1 { 1 } else { less(w, 2) as nat }
}

/// The run's output rows, wrapped to the width, the last `max` of them.
pub open spec fn event_rows(ls: Seq<ServeLine>, w: int, max: nat, g: StatusGlyphs) -> Seq<Seq<char>> {
    let all = all_line_rows(ls, content_width(w), g);
    if all.len() > max {
        all.subrange(all.len() - max, all.len() as int)
    } else {
        all
    }
}

pub open spec fn counted(n: u64) -> Seq<char> {
    group_thousands(decimal(n as nat))
}

/// The usage row, where the run reports its usage.
pub open spec fn usage_rows(u: Option<UsageView>, w: int) -> Seq<Seq<char>> {
    match u {
        Some(u) => seq![
            "usage      "@ + fit("in "@ + counted(u.input_tokens) + "  ·  out "@ + counted(u.output_tokens) + "  ·  total "@
                + counted(u.total_tokens) + match u.cost_text {
                Some(c) => "  ·  $"@ + c@,
                None => Seq::empty(),
            }, less(w, 11)),
        ],
        None => Seq::empty(),
    }
}

/// How many output rows the view keeps: 6 when focused, 10 otherwise.
pub open spec fn event_limit(view: LiveViewMode) -> nat {
    if view == LiveViewMode::Focused { 6 } else { 10 }
}

/// The run, its step and usage, a blank line, then its output (see
/// `event_limit`).
pub open spec fn run_rows(l: LiveRunView, view: LiveViewMode, w: int, g: StatusGlyphs) -> Seq<Seq<char>> {
    seq![
        "run        "@ + fit(spec_short_run_id(l.run_id@) + "  ·  "@ + l.status@ + "  ·  "@ + l.duration_text@, less(w, 11)),
        "step       "@ + fit(l.current_step@ + "  ·  "@ + decimal(l.completed_steps as nat) + "/"@ + decimal(l.total_steps as nat)
            + " complete"@, less(w, 11)),
    ] + usage_rows(l.usage, w) + seq![Seq::<char>::empty()] + event_rows(l.lines@, w, event_limit(view), g)
}

/// The active claim's rows; the run's where one is live, else its summary
/// where it has one; or a note that no issue is active.
pub open spec fn active_rows(claims: Seq<AutoflowClaimRow>, primary: Option<int>, live: Option<LiveRunView>, view: LiveViewMode, w: int, g: StatusGlyphs) -> Seq<Seq<char>> {
    match primary {
        None => seq!["active     no active issues"@],
        Some(i) => {
            let c = claims[i];
            seq![
                "active     "@ + fit(spec_issue_headline(c) + "  ·  "@ + spec_truncate(c.workflow@, 30) + "  ·  "@ + c.status@, less(w, 11)),
                "route      "@ + fit(join_seqs(route_parts(c), "  ·  "@), less(w, 11)),
            ] + match live {
                Some(l) => run_rows(l, view, w, g),
                None => if c.summary@ != "-"@ {
                    seq!["summary    "@ + fit(c.summary@, less(w, 11))]
                } else {
                    Seq::empty()
                },
            }
        },
    }
}

pub open spec fn claim_row(c: AutoflowClaimRow, w: int, g: StatusGlyphs) -> Seq<char> {
    fit(glyph(g, spec_claim_status_ui(c.status@)) + " "@ + spec_issue_headline(c) + "  ·  "@ + spec_truncate(c.workflow@, 24) + "  ·  "@ + c.status@, w)
}

/// The first six claims, in the full view only.
pub open spec fn claims_rows(claims: Seq<AutoflowClaimRow>, view: LiveViewMode, w: int, g: StatusGlyphs) -> Seq<Seq<char>> {
    if view == LiveViewMode::Full && claims.len() > 0 {
        let n = if claims.len() < 6 { claims.len() as int } else { 6 };
        seq![Seq::<char>::empty(), "claims"@] + Seq::new(n as nat, |k: int| claim_row(claims[k], w, g))
    } else {
        Seq::empty()
    }
}

pub open spec fn activity_rows(a: MonitorActivityRow, w: int, g: StatusGlyphs) -> Seq<Seq<char>> {
    let (status, label) = spec_activity_status_and_label(a.event@);
    seq![fit(glyph(g, status) + " "@ + a.issue@ + "  ·  "@ + label + "  ·  "@ + spec_truncate(a.workflow@, 24), w)] + if a.detail@
        != "-"@ {
        seq![fit("  "@ + spec_truncate(a.detail@, less(w, 2) as nat), w)]
    } else {
        Seq::empty()
    }
}

pub open spec fn all_activity_rows(acts: Seq<MonitorActivityRow>, w: int, g: StatusGlyphs) -> Seq<Seq<char>>
    decreases acts.len(),
{
    if acts.len() == 0 {
        Seq::empty()
    } else {
        all_activity_rows(acts.drop_last(), w, g) + activity_rows(acts.last(), w, g)
    }
}

/// Recent activity: the first 4 entries in the focused view, 8 otherwise.
pub open spec fn recent_rows(acts: Seq<MonitorActivityRow>, view: LiveViewMode, w: int, g: StatusGlyphs) -> Seq<Seq<char>> {
    let limit: int = if view == LiveViewMode::Focused { 4 } else { 8 };
    let n = if acts.len() < limit { acts.len() as int } else { limit };
    seq![Seq::<char>::empty(), "recent"@] + all_activity_rows(acts.subrange(0, n), w, g)
}

pub open spec fn queue_rows(k: WakeCounts) -> Seq<Seq<char>> {
    seq![
        Seq::<char>::empty(),
        "queue      queued "@ + decimal(k.queued as nat) + "  ·  due "@ + decimal(k.due as nat) + "  ·  processed "@
            + decimal(k.processed_recent as nat),
    ]
}

/// The whole view: header, active issue, claims, recent activity and
/// queue, in that order, cut to `height` rows.
pub open spec fn spec_retained_rows(
    m: MonitorView,
    live: Option<LiveRunView>,
    repo: Option<Seq<char>>,
    worker: Option<Seq<char>>,
    idle: Seq<char>,
    view: LiveViewMode,
    p: ServeProgress,
    w: int,
    height: int,
    g: StatusGlyphs,
) -> Seq<Seq<char>> {
    let all = header_rows(repo, worker, idle, p, w) + active_rows(m.claims@, spec_primary(m.claims@), live, view, w, g) + claims_rows(
        m.claims@,
        view,
        w,
        g,
    ) + recent_rows(m.activity@, view, w, g) + queue_rows(m.wakes);
    if all.len() > height {
        all.subrange(0, height)
    } else {
        all
    }
}

fn fit_of(s: &str, w: usize) -> (r: String)
    ensures
        r@ == fit(s@, w as int),
{
    truncate_text(s, w)
}

fn append_count(s: &mut String, n: usize)
    ensures
        final(s)@ == old(s)@ + decimal(n as nat),
{
    let t = usize_to_string(n);
    s.append(t.as_str());
}

fn push_header(rows: &mut Vec<String>, repo: Option<&str>, worker: Option<&str>, idle: &str, p: &ServeProgress, w: usize)
    ensures
        rows_view(final(rows)@) == rows_view(old(rows)@) + header_rows(ostr(repo), ostr(worker), idle@, *p, w as int),
{
    let ghost pre = rows_view(rows@);
    let mut t = String::from_str("▶ autoflow serve  ·  repo ");
    match repo {
        Some(r) => t.append(r),
        None => t.append("(all)"),
    }
    t.append("  ·  worker ");
    match worker {
        Some(r) => t.append(r),
        None => t.append("(auto)"),
    }
    t.append("  ·  idle ");
    t.append(idle);
    t.append("s");
    push_row(rows, fit_of(t.as_str(), w));
    push_row(rows, String::new());
    let mut c = String::from_str("cycles ");
    append_count(&mut c, p.cycles);
    c.append("  ·  ran ");
    append_count(&mut c, p.ran);
    c.append("  ·  skipped ");
    append_count(&mut c, p.skipped);
    c.append("  ·  failed ");
    append_count(&mut c, p.failed);
    c.append("  ·  cleaned ");
    append_count(&mut c, p.cleaned);
    c.append("  ·  ");
    if p.cycle_running {
        c.append("reconciling");
    } else {
        c.append("watching");
    }
    let mut row = String::from_str("serve      ");
    let f = fit_of(c.as_str(), less_of(w, 11));
    row.append(f.as_str());
    push_row(rows, row);
    proof {
        assert(rows_view(rows@) =~= pre + header_rows(ostr(repo), ostr(worker), idle@, *p, w as int));
    }
}

fn route_text(c: &AutoflowClaimRow) -> (r: String)
    ensures
        r@ == join_seqs(route_parts(*c), "  ·  "@),
{
    let mut parts: Vec<String> = Vec::new();
    let mut a = String::from_str("repo ");
    let l = short_locator(c.repo.as_str(), 28);
    a.append(l.as_str());
    parts.push(a);
    if !str_eq(c.branch.as_str(), "-") {
        let mut b = String::from_str("branch ");
        let t = truncate_text(c.branch.as_str(), 22);
        b.append(t.as_str());
        parts.push(b);
    }
    if !str_eq(c.pr.as_str(), "-") {
        let mut b = String::from_str("pr ");
        let t = short_url_like(c.pr.as_str(), 22);
        b.append(t.as_str());
        parts.push(b);
    }
    proof {
        assert(parts@.map_values(|s: String| s@) =~= route_parts(*c));
    }
    join_strings(&parts, "  ·  ")
}

fn push_line_rows(rows: &mut Vec<String>, l: &ServeLine, cw: usize, g: &StatusGlyphs)
    requires
        cw >= 1,
    ensures
        rows_view(final(rows)@) == rows_view(old(rows)@) + line_rows(*l, cw as nat, *g),
{
    let ghost pre = rows_view(rows@);
    let segs = wrap_retained_serve_plain(l.text.as_str(), cw);
    let ghost sv = segs@.map_values(|x: String| x@);
    let mut k: usize = 0;
    while k < segs.len()
        invariant
            k <= segs@.len(),
            sv == segs@.map_values(|x: String| x@),
            sv == spec_wrap(l.text@, cw as nat),
            rows_view(rows@) == pre + line_rows(*l, cw as nat, *g).subrange(0, k as int),
        decreases segs@.len() - k,
    {
        let mut row = if k == 0 {
            let mut r = String::from_str(glyph_of(g, l.status));
            r.append(" ");
            r
        } else {
            String::from_str("  ")
        };
        row.append(segs[k].as_str());
        push_row(rows, row);
        proof {
            assert(sv[k as int] == segs@[k as int]@);
            assert(line_rows(*l, cw as nat, *g).subrange(0, k + 1) =~= line_rows(*l, cw as nat, *g).subrange(0, k as int).push(
                line_rows(*l, cw as nat, *g)[k as int],
            ));
            assert(rows_view(rows@) =~= pre + line_rows(*l, cw as nat, *g).subrange(0, k + 1));
        }
        k = k + 1;
    }
    proof {
        assert(line_rows(*l, cw as nat, *g).subrange(0, segs@.len() as int) =~= line_rows(*l, cw as nat, *g));
    }
}

fn push_event_rows(rows: &mut Vec<String>, ls: &Vec<ServeLine>, w: usize, max: usize, g: &StatusGlyphs)
    ensures
        rows_view(final(rows)@) == rows_view(old(rows)@) + event_rows(ls@, w as int, max as nat, *g),
{
    let cw0 = less_of(w, 2);
    let cw: usize = if cw0 < 1 { 1 } else { cw0 };
    let mut all: Vec<String> = Vec::new();
    let mut i: usize = 0;
    proof {
        assert(rows_view(all@) =~= Seq::<Seq<char>>::empty());
        assert(ls@.subrange(0, 0) =~= Seq::<ServeLine>::empty());
    }
    while i < ls.len()
        invariant
            i <= ls@.len(),
            cw >= 1,
            cw as nat == content_width(w as int),
            rows_view(all@) == all_line_rows(ls@.subrange(0, i as int), cw as nat, *g),
        decreases ls@.len() - i,
    {
        push_line_rows(&mut all, &ls[i], cw, g);
        proof {
            assert(ls@.subrange(0, i + 1).drop_last() =~= ls@.subrange(0, i as int));
        }
        i = i + 1;
    }
    proof {
        assert(ls@.subrange(0, ls@.len() as int) =~= ls@);
    }
    let n = all.len();
    let start: usize = if n > max { n - max } else { 0 };
    let ghost pre = rows_view(rows@);
    let ghost av = rows_view(all@);
    let mut k: usize = start;
    while k < n
        invariant
            start <= k <= n,
            n == all@.len(),
            av == rows_view(all@),
            rows_view(rows@) == pre + av.subrange(start as int, k as int),
        decreases n - k,
    {
        push_row(rows, all[k].clone());
        proof {
            assert(av[k as int] == all@[k as int]@);
            assert(av.subrange(start as int, k + 1) =~= av.subrange(start as int, k as int).push(av[k as int]));
        }
        k = k + 1;
    }
    proof {
        if n <= max {
            assert(av.subrange(0, n as int) =~= av);
        }
    }
}

fn push_usage_rows(rows: &mut Vec<String>, usage: &Option<UsageView>, w: usize)
    ensures
        rows_view(final(rows)@) == rows_view(old(rows)@) + usage_rows(*usage, w as int),
{
    let ghost pre = rows_view(rows@);
    match usage {
        Some(u) => {
            let mut c = String::from_str("in ");
            let x = format_count(u.input_tokens);
            c.append(x.as_str());
            c.append("  ·  out ");
            let y = format_count(u.output_tokens);
            c.append(y.as_str());
            c.append("  ·  total ");
            let z = format_count(u.total_tokens);
            c.append(z.as_str());
            match &u.cost_text {
                Some(t) => {
                    c.append("  ·  $");
                    c.append(t.as_str());
                },
                None => {},
            }
            assert(c@ == "in "@ + counted(u.input_tokens) + "  ·  out "@ + counted(u.output_tokens) + "  ·  total "@
                + counted(u.total_tokens) + match u.cost_text {
                Some(c) => "  ·  $"@ + c@,
                None => Seq::empty(),
            });
            let mut r3 = String::from_str("usage      ");
            let f3 = fit_of(c.as_str(), less_of(w, 11));
            r3.append(f3.as_str());
            push_row(rows, r3);
            proof {
                assert(rows_view(rows@) =~= pre + usage_rows(*usage, w as int));
            }
        },
        None => {
            proof {
                assert(rows_view(rows@) =~= pre + usage_rows(*usage, w as int));
            }
        },
    }
}

fn push_run_rows(rows: &mut Vec<String>, l: &LiveRunView, view: LiveViewMode, w: usize, g: &StatusGlyphs)
    ensures
        rows_view(final(rows)@) == rows_view(old(rows)@) + run_rows(*l, view, w as int, *g),
{
    let ghost pre = rows_view(rows@);
    let w11 = less_of(w, 11);
    let mut a = short_run_id(l.run_id.as_str());
    a.append("  ·  ");
    a.append(l.status.as_str());
    a.append("  ·  ");
    a.append(l.duration_text.as_str());
    let mut r1 = String::from_str("run        ");
    let f1 = fit_of(a.as_str(), w11);
    r1.append(f1.as_str());
    let ghost s1 = r1@;
    push_row(rows, r1);
    let mut b = l.current_step.clone();
    b.append("  ·  ");
    append_count(&mut b, l.completed_steps);
    b.append("/");
    append_count(&mut b, l.total_steps);
    b.append(" complete");
    let mut r2 = String::from_str("step       ");
    let f2 = fit_of(b.as_str(), w11);
    r2.append(f2.as_str());
    let ghost s2 = r2@;
    push_row(rows, r2);
    let ghost head = seq![s1, s2];
    proof {
        assert(rows_view(rows@) =~= pre + head);
    }
    push_usage_rows(rows, &l.usage, w);
    push_row(rows, String::new());
    let ghost mid = rows_view(rows@);
    proof {
        assert(mid =~= pre + (head + usage_rows(l.usage, w as int) + seq![Seq::<char>::empty()]));
    }
    let max: usize = if matches!(view, LiveViewMode::Focused) { 6 } else { 10 };
    push_event_rows(rows, &l.lines, w, max, g);
    proof {
        assert(max as nat == event_limit(view));
        assert(head =~= seq![
            "run        "@ + fit(spec_short_run_id(l.run_id@) + "  ·  "@ + l.status@ + "  ·  "@ + l.duration_text@, w11 as int),
            "step       "@ + fit(l.current_step@ + "  ·  "@ + decimal(l.completed_steps as nat) + "/"@ + decimal(l.total_steps as nat)
                + " complete"@, w11 as int),
        ]);
        assert(rows_view(rows@) =~= pre + run_rows(*l, view, w as int, *g));
    }
}

fn push_active_rows(
    rows: &mut Vec<String>,
    claims: &Vec<AutoflowClaimRow>,
    primary: Option<usize>,
    live: &Option<LiveRunView>,
    view: LiveViewMode,
    w: usize,
    g: &StatusGlyphs,
)
    requires
        primary matches Some(i) ==> i < claims@.len(),
    ensures
        rows_view(final(rows)@) == rows_view(old(rows)@) + active_rows(
            claims@,
            match primary {
                Some(i) => Some(i as int),
                None => None,
            },
            *live,
            view,
            w as int,
            *g,
        ),
{
    let ghost pre = rows_view(rows@);
    match primary {
        None => {
            push_row(rows, String::from_str("active     no active issues"));
            proof {
                assert(rows_view(rows@) =~= pre + seq!["active     no active issues"@]);
            }
        },
        Some(i) => {
            let c = &claims[i];
            let w11 = less_of(w, 11);
            let mut a = display_issue_headline(c);
            a.append("  ·  ");
            let t = truncate_text(c.workflow.as_str(), 30);
            a.append(t.as_str());
            a.append("  ·  ");
            a.append(c.status.as_str());
            let mut r1 = String::from_str("active     ");
            let f1 = fit_of(a.as_str(), w11);
            r1.append(f1.as_str());
            push_row(rows, r1);
            let route = route_text(c);
            let mut r2 = String::from_str("route      ");
            let f2 = fit_of(route.as_str(), w11);
            r2.append(f2.as_str());
            push_row(rows, r2);
            match live {
                Some(l) => {
                    push_run_rows(rows, l, view, w, g);
                },
                None => {
                    if !str_eq(c.summary.as_str(), "-") {
                        let mut r3 = String::from_str("summary    ");
                        let f3 = fit_of(c.summary.as_str(), w11);
                        r3.append(f3.as_str());
                        push_row(rows, r3);
                    }
                },
            }
            proof {
                assert(rows_view(rows@) =~= pre + active_rows(claims@, Some(i as int), *live, view, w as int, *g));
            }
        },
    }
}

fn claim_row_of(c: &AutoflowClaimRow, w: usize, g: &StatusGlyphs) -> (r: String)
    ensures
        r@ == claim_row(*c, w as int, *g),
{
    let mut a = String::from_str(glyph_of(g, claim_status_ui(c.status.as_str())));
    a.append(" ");
    let h = display_issue_headline(c);
    a.append(h.as_str());
    a.append("  ·  ");
    let t = truncate_text(c.workflow.as_str(), 24);
    a.append(t.as_str());
    a.append("  ·  ");
    a.append(c.status.as_str());
    fit_of(a.as_str(), w)
}

fn push_claims_rows(rows: &mut Vec<String>, claims: &Vec<AutoflowClaimRow>, view: LiveViewMode, w: usize, g: &StatusGlyphs)
    ensures
        rows_view(final(rows)@) == rows_view(old(rows)@) + claims_rows(claims@, view, w as int, *g),
{
    let ghost pre = rows_view(rows@);
    if matches!(view, LiveViewMode::Full) && claims.len() > 0 {
        push_row(rows, String::new());
        push_row(rows, String::from_str("claims"));
        let n: usize = if claims.len() < 6 { claims.len() } else { 6 };
        let ghost cr = Seq::new(n as nat, |k: int| claim_row(claims@[k], w as int, *g));
        let mut k: usize = 0;
        while k < n
            invariant
                k <= n,
                n <= claims@.len(),
                cr == Seq::new(n as nat, |k: int| claim_row(claims@[k], w as int, *g)),
                rows_view(rows@) == pre + seq![Seq::<char>::empty(), "claims"@] + cr.subrange(0, k as int),
            decreases n - k,
        {
            push_row(rows, claim_row_of(&claims[k], w, g));
            proof {
                assert(cr.subrange(0, k + 1) =~= cr.subrange(0, k as int).push(cr[k as int]));
            }
            k = k + 1;
        }
        proof {
            assert(cr.subrange(0, n as int) =~= cr);
            assert(rows_view(rows@) =~= pre + claims_rows(claims@, view, w as int, *g));
        }
    } else {
        proof {
            assert(rows_view(rows@) =~= pre + claims_rows(claims@, view, w as int, *g));
        }
    }
}

fn push_activity_rows(rows: &mut Vec<String>, a: &MonitorActivityRow, w: usize, g: &StatusGlyphs)
    ensures
        rows_view(final(rows)@) == rows_view(old(rows)@) + activity_rows(*a, w as int, *g),
{
    let ghost pre = rows_view(rows@);
    let (status, label) = activity_status_and_label(a.event.as_str());
    let mut t = String::from_str(glyph_of(g, status));
    t.append(" ");
    t.append(a.issue.as_str());
    t.append("  ·  ");
    t.append(label);
    t.append("  ·  ");
    let wf = truncate_text(a.workflow.as_str(), 24);
    t.append(wf.as_str());
    push_row(rows, fit_of(t.as_str(), w));
    if !str_eq(a.detail.as_str(), "-") {
        let mut d = String::from_str("  ");
        let dt = truncate_text(a.detail.as_str(), less_of(w, 2));
        d.append(dt.as_str());
        push_row(rows, fit_of(d.as_str(), w));
    }
    proof {
        assert(rows_view(rows@) =~= pre + activity_rows(*a, w as int, *g));
    }
}

fn push_recent_rows(rows: &mut Vec<String>, acts: &Vec<MonitorActivityRow>, view: LiveViewMode, w: usize, g: &StatusGlyphs)
    ensures
        rows_view(final(rows)@) == rows_view(old(rows)@) + recent_rows(acts@, view, w as int, *g),
{
    let ghost pre = rows_view(rows@);
    push_row(rows, String::new());
    push_row(rows, String::from_str("recent"));
    let limit: usize = if matches!(view, LiveViewMode::Focused) { 4 } else { 8 };
    let n: usize = if acts.len() < limit { acts.len() } else { limit };
    let ghost head = pre + seq![Seq::<char>::empty(), "recent"@];
    let mut k: usize = 0;
    proof {
        assert(rows_view(rows@) =~= head);
        assert(acts@.subrange(0, 0) =~= Seq::<MonitorActivityRow>::empty());
        assert(head + all_activity_rows(acts@.subrange(0, 0), w as int, *g) =~= head);
    }
    while k < n
        invariant
            k <= n,
            n <= acts@.len(),
            rows_view(rows@) == head + all_activity_rows(acts@.subrange(0, k as int), w as int, *g),
        decreases n - k,
    {
        push_activity_rows(rows, &acts[k], w, g);
        proof {
            assert(acts@.subrange(0, k + 1).drop_last() =~= acts@.subrange(0, k as int));
        }
        k = k + 1;
    }
    proof {
        assert(rows_view(rows@) =~= pre + recent_rows(acts@, view, w as int, *g));
    }
}

/// The rows of the live serve view (see `spec_retained_rows`). `live` is
/// the run that the primary claim (`primary_claim`) is on, where one could
/// be read; `idle_text` is the idle sleep in seconds as printed; `glyphs`
/// are the status marks.
pub fn retained_serve_rows(
    monitor: &MonitorView,
    live: Option<LiveRunView>,
    repo_filter: Option<&str>,
    worker_filter: Option<&str>,
    idle_text: &str,
    view: LiveViewMode,
    snapshot: &ServeProgress,
    width: usize,
    height: usize,
    glyphs: &StatusGlyphs,
) -> (rows: Vec<String>)
    ensures
        rows@.len() <= height,
        rows_view(rows@) == spec_retained_rows(
            *monitor,
            live,
            ostr(repo_filter),
            ostr(worker_filter),
            idle_text@,
            view,
            *snapshot,
            width as int,
            height as int,
            *glyphs,
        ),
{
    let primary = primary_claim(&monitor.claims);
    proof {
        match primary {
            Some(i) => {
                lemma_primary_unique(monitor.claims@, i as int, choose|k: int| is_primary(monitor.claims@, k));
            },
            None => {
                if exists|k: int| is_primary(monitor.claims@, k) {
                    let k = choose|k: int| is_primary(monitor.claims@, k);
                    assert(live_claim(monitor.claims@[k]));
                }
            },
        }
        assert(spec_primary(monitor.claims@) == match primary {
            Some(i) => Some(i as int),
            None => None::<int>,
        });
    }
    let mut rows: Vec<String> = Vec::new();
    let ghost p0 = rows_view(rows@);
    push_header(&mut rows, repo_filter, worker_filter, idle_text, snapshot, width);
    push_active_rows(&mut rows, &monitor.claims, primary, &live, view, width, glyphs);
    push_claims_rows(&mut rows, &monitor.claims, view, width, glyphs);
    push_recent_rows(&mut rows, &monitor.activity, view, width, glyphs);
    let ghost before_queue = rows_view(rows@);
    push_row(&mut rows, String::new());
    let mut q = String::from_str("queue      queued ");
    append_count(&mut q, monitor.wakes.queued);
    q.append("  ·  due ");
    append_count(&mut q, monitor.wakes.due);
    q.append("  ·  processed ");
    append_count(&mut q, monitor.wakes.processed_recent);
    push_row(&mut rows, q);
    let ghost all = rows_view(rows@);
    proof {
        assert(p0 =~= Seq::<Seq<char>>::empty());
        assert(all =~= before_queue + queue_rows(monitor.wakes));
    }
    rows.truncate(height);
    proof {
        assert(rows_view(rows@) =~= (if all.len() > height { all.subrange(0, height as int) } else { all }));
    }
    rows
}

} // verus!

//! The reconciler's bookkeeping: what a tick reports, how a long-lived serve
//! worker adds those reports up, and when it stops or sleeps between ticks.

use vstd::prelude::*;
use vstd::string::*;
use crate::autoflow::duration::{duration_text_ok, parse_duration, spec_parse_duration, DurationError};
use crate::number::{decimal, usize_to_string};
use crate::text::str_eq;

verus! {

/// What one reconciliation pass did.
#[derive(Debug, Clone, Copy, PartialEq, Eq, Structural)]
pub struct TickReport {
    pub workflow_count: usize,
    pub polled_event_count: usize,
    pub webhook_event_count: usize,
    pub ran_cycles: usize,
    pub skipped_cycles: usize,
    pub failed_cycles: usize,
    pub cleaned_claims: usize,
}

impl TickReport {
    /// A report with every count at zero.
    pub fn new() -> (r: TickReport)
        ensures
            r == zero_report(),
    {
        TickReport {
            workflow_count: 0,
            polled_event_count: 0,
            webhook_event_count: 0,
            ran_cycles: 0,
            skipped_cycles: 0,
            failed_cycles: 0,
            cleaned_claims: 0,
        }
    }
}

pub open spec fn zero_report() -> TickReport {
    TickReport {
        workflow_count: 0,
        polled_event_count: 0,
        webhook_event_count: 0,
        ran_cycles: 0,
        skipped_cycles: 0,
        failed_cycles: 0,
        cleaned_claims: 0,
    }
}

/// What kind of process runs the reconciler.
#[derive(Debug, Clone, Copy, PartialEq, Eq, Structural)]
pub enum WorkerKind {
    Cli,
    AutoflowServe,
}

/// The worker a cycle runs under.
#[derive(Debug, Clone)]
pub struct ExecutionWorker {
    pub worker_id: String,
    pub name: String,
    pub kind: WorkerKind,
}

/// Options for one reconciliation pass.
#[derive(Debug, Clone)]
pub struct TickOptions {
    pub repo_filter: Option<String>,
    pub worker: Option<ExecutionWorker>,
}

/// Options for a long-lived serve worker.
#[derive(Debug, Clone)]
pub struct ServeOptions {
    pub repo_filter: Option<String>,
    pub worker_name: Option<String>,
    /// Idle sleep between passes, in milliseconds.
    pub idle_sleep_ms: u64,
    /// Stop after this many passes.
    pub max_cycles: Option<usize>,
}

impl ServeOptions {
    /// No filter, no name, ten seconds of idle sleep, no cycle limit.
    pub fn default() -> (r: ServeOptions)
        ensures
            r.repo_filter is None,
            r.worker_name is None,
            r.idle_sleep_ms == 10_000,
            r.max_cycles is None,
    {
        ServeOptions { repo_filter: None, worker_name: None, idle_sleep_ms: 10_000, max_cycles: None }
    }
}

/// What a serve worker did over all its passes.
#[derive(Debug, Clone, Copy, PartialEq, Eq, Structural)]
pub struct ServeReport {
    pub cycles: usize,
    pub total: TickReport,
}

impl ServeReport {
    /// A report of no passes.
    pub fn new() -> (r: ServeReport)
        ensures
            r.cycles == 0,
            r.total == zero_report(),
    {
        ServeReport { cycles: 0, total: TickReport::new() }
    }
}

/// Whether a claim on `repo_ref` passes the `--repo` filter.
pub fn repo_filter_matches(repo_filter: Option<&str>, repo_ref: &str) -> (r: bool)
    ensures
        r == match repo_filter {
            Some(f) => f@ == repo_ref@,
            None => true,
        },
{
    match repo_filter {
        Some(f) => str_eq(f, repo_ref),
        None => true,
    }
}

/// The running totals after one more pass: the event and cycle counts add up;
/// the workflow count is the latest pass's.
pub open spec fn spec_accumulate(total: TickReport, tick: TickReport) -> (int, int, int, int, int, int, int) {
    (
        tick.workflow_count as int,
        total.polled_event_count + tick.polled_event_count,
        total.webhook_event_count + tick.webhook_event_count,
        total.ran_cycles + tick.ran_cycles,
        total.skipped_cycles + tick.skipped_cycles,
        total.failed_cycles + tick.failed_cycles,
        total.cleaned_claims + tick.cleaned_claims,
    )
}

/// The counts of a report as integers, in field order.
pub open spec fn counts_of(r: TickReport) -> (int, int, int, int, int, int, int) {
    (
        r.workflow_count as int,
        r.polled_event_count as int,
        r.webhook_event_count as int,
        r.ran_cycles as int,
        r.skipped_cycles as int,
        r.failed_cycles as int,
        r.cleaned_claims as int,
    )
}

/// The sums fit a `usize`.
pub open spec fn accumulate_fits(total: TickReport, tick: TickReport) -> bool {
    &&& total.polled_event_count + tick.polled_event_count <= usize::MAX
    &&& total.webhook_event_count + tick.webhook_event_count <= usize::MAX
    &&& total.ran_cycles + tick.ran_cycles <= usize::MAX
    &&& total.skipped_cycles + tick.skipped_cycles <= usize::MAX
    &&& total.failed_cycles + tick.failed_cycles <= usize::MAX
    &&& total.cleaned_claims + tick.cleaned_claims <= usize::MAX
}

/// Add one pass's report to the running totals.
pub fn accumulate_tick_report(total: &mut TickReport, tick: &TickReport)
    requires
        accumulate_fits(*old(total), *tick),
    ensures
        counts_of(*final(total)) == spec_accumulate(*old(total), *tick),
{
    total.workflow_count = tick.workflow_count;
    total.polled_event_count = total.polled_event_count + tick.polled_event_count;
    total.webhook_event_count = total.webhook_event_count + tick.webhook_event_count;
    total.ran_cycles = total.ran_cycles + tick.ran_cycles;
    total.skipped_cycles = total.skipped_cycles + tick.skipped_cycles;
    total.failed_cycles = total.failed_cycles + tick.failed_cycles;
    total.cleaned_claims = total.cleaned_claims + tick.cleaned_claims;
}

/// Record one finished pass in the serve report.
pub fn record_serve_cycle(report: &mut ServeReport, tick: &TickReport)
    requires
        old(report).cycles < usize::MAX,
        accumulate_fits(old(report).total, *tick),
    ensures
        final(report).cycles == old(report).cycles + 1,
        counts_of(final(report).total) == spec_accumulate(old(report).total, *tick),
{
    report.cycles = report.cycles + 1;
    accumulate_tick_report(&mut report.total, tick);
}

/// The sum of one count over a run of passes.
pub open spec fn sum_of(ticks: Seq<TickReport>, field: spec_fn(TickReport) -> int) -> int
    decreases ticks.len(),
{
    if ticks.len() == 0 {
        0
    } else {
        sum_of(ticks.drop_last(), field) + field(ticks.last())
    }
}

/// Totals folded pass by pass, as the serve loop folds them.
pub open spec fn fold_totals(ticks: Seq<TickReport>) -> (int, int, int, int, int, int, int)
    decreases ticks.len(),
{
    if ticks.len() == 0 {
        (0, 0, 0, 0, 0, 0, 0)
    } else {
        let p = fold_totals(ticks.drop_last());
        let t = ticks.last();
        (
            t.workflow_count as int,
            p.1 + t.polled_event_count,
            p.2 + t.webhook_event_count,
            p.3 + t.ran_cycles,
            p.4 + t.skipped_cycles,
            p.5 + t.failed_cycles,
            p.6 + t.cleaned_claims,
        )
    }
}

/// After any run of passes, a serve report's totals hold, for every event and
/// cycle count, the sum of that count over the passes, and the workflow count
/// of the latest pass.
pub proof fn law_serve_totals_are_sums(ticks: Seq<TickReport>)
    ensures
        fold_totals(ticks).1 == sum_of(ticks, |t: TickReport| t.polled_event_count as int),
        fold_totals(ticks).2 == sum_of(ticks, |t: TickReport| t.webhook_event_count as int),
        fold_totals(ticks).3 == sum_of(ticks, |t: TickReport| t.ran_cycles as int),
        fold_totals(ticks).4 == sum_of(ticks, |t: TickReport| t.skipped_cycles as int),
        fold_totals(ticks).5 == sum_of(ticks, |t: TickReport| t.failed_cycles as int),
        fold_totals(ticks).6 == sum_of(ticks, |t: TickReport| t.cleaned_claims as int),
        ticks.len() > 0 ==> fold_totals(ticks).0 == ticks.last().workflow_count,
    decreases ticks.len(),
{
    if ticks.len() > 0 {
        law_serve_totals_are_sums(ticks.drop_last());
    }
}

/// Accumulating a pass into totals that equal the fold of the earlier passes
/// gives the fold of all of them.
pub proof fn law_accumulate_extends_fold(ticks: Seq<TickReport>, total: TickReport, tick: TickReport)
    requires
        counts_of(total) == fold_totals(ticks),
    ensures
        spec_accumulate(total, tick) == fold_totals(ticks.push(tick)),
{
    assert(ticks.push(tick).drop_last() =~= ticks);
}

/// How one issue's turn in a pass ended.
#[derive(Debug, Clone, Copy, PartialEq, Eq, Structural)]
pub enum IssueOutcome {
    /// A cycle ran.
    Ran,
    /// Nothing was due.
    Skipped,
    /// The turn failed.
    Failed,
}

/// Count one issue's outcome in the pass's report.
pub fn count_issue_outcome(report: &mut TickReport, outcome: IssueOutcome)
    requires
        old(report).ran_cycles < usize::MAX,
        old(report).skipped_cycles < usize::MAX,
        old(report).failed_cycles < usize::MAX,
    ensures
        final(report).ran_cycles == old(report).ran_cycles + (if outcome == IssueOutcome::Ran { 1int } else { 0 }),
        final(report).skipped_cycles == old(report).skipped_cycles + (if outcome == IssueOutcome::Skipped {
            1int
        } else {
            0
        }),
        final(report).failed_cycles == old(report).failed_cycles + (if outcome == IssueOutcome::Failed {
            1int
        } else {
            0
        }),
        final(report).workflow_count == old(report).workflow_count,
        final(report).polled_event_count == old(report).polled_event_count,
        final(report).webhook_event_count == old(report).webhook_event_count,
        final(report).cleaned_claims == old(report).cleaned_claims,
{
    match outcome {
        IssueOutcome::Ran => report.ran_cycles = report.ran_cycles + 1,
        IssueOutcome::Skipped => report.skipped_cycles = report.skipped_cycles + 1,
        IssueOutcome::Failed => report.failed_cycles = report.failed_cycles + 1,
    }
}

/// Whether a pass is a serve pass or a one-shot tick.
#[derive(Debug, Clone, Copy, PartialEq, Eq, Structural)]
pub enum CycleMode {
    Tick,
    Serve,
}

/// A pass run by a serve worker is a serve pass; any other is a tick.
pub fn cycle_mode(options: &TickOptions) -> (r: CycleMode)
    ensures
        r == (if options.worker matches Some(w) && w.kind == WorkerKind::AutoflowServe {
            CycleMode::Serve
        } else {
            CycleMode::Tick
        }),
{
    match &options.worker {
        Some(w) => match w.kind {
            WorkerKind::AutoflowServe => CycleMode::Serve,
            WorkerKind::Cli => CycleMode::Tick,
        },
        None => CycleMode::Tick,
    }
}

/// What a serve worker does after a pass.
#[derive(Debug, Clone, Copy, PartialEq, Eq, Structural)]
pub enum ServeStep {
    /// The cycle limit is reached.
    Stop,
    /// Start the next pass at once.
    Again,
    /// Sleep this many milliseconds (or until shutdown), then pass again.
    Sleep { ms: u64 },
}

/// The cap on the sleep after a pass that did work.
pub const BUSY_SLEEP_CAP_MS: u64 = 250;

/// What follows pass number `cycle_index` (counted from 1): stop at the
/// cycle limit; otherwise sleep the idle time, capped at 250 ms after a pass
/// that ran or failed a cycle; a zero sleep starts the next pass at once.
pub open spec fn spec_serve_step(cycle_index: int, max_cycles: Option<usize>, ran: int, failed: int, idle_sleep_ms: int) -> ServeStep {
    if max_cycles matches Some(max) && cycle_index >= max {
        ServeStep::Stop
    } else {
        let sleep = if ran > 0 || failed > 0 {
            if idle_sleep_ms < 250 { idle_sleep_ms } else { 250 }
        } else {
            idle_sleep_ms
        };
        if sleep == 0 {
            ServeStep::Again
        } else {
            ServeStep::Sleep { ms: sleep as u64 }
        }
    }
}

/// The serve loop's decision after a pass.
pub fn serve_next_step(cycle_index: usize, max_cycles: Option<usize>, tick: &TickReport, idle_sleep_ms: u64) -> (r:
    ServeStep)
    ensures
        r == spec_serve_step(
            cycle_index as int,
            max_cycles,
            tick.ran_cycles as int,
            tick.failed_cycles as int,
            idle_sleep_ms as int,
        ),
{
    if let Some(max) = max_cycles {
        if cycle_index >= max {
            return ServeStep::Stop;
        }
    }
    let sleep = if tick.ran_cycles > 0 || tick.failed_cycles > 0 {
        if idle_sleep_ms < BUSY_SLEEP_CAP_MS {
            idle_sleep_ms
        } else {
            BUSY_SLEEP_CAP_MS
        }
    } else {
        idle_sleep_ms
    };
    if sleep == 0 {
        ServeStep::Again
    } else {
        ServeStep::Sleep { ms: sleep }
    }
}

/// With a cycle limit of `max`, the passes numbered below `max` go on and the
/// pass numbered `max` stops the worker: it runs exactly `max` passes (one when
/// `max` is zero), whatever the passes reported.
pub proof fn law_serve_runs_max_cycles(max: usize, k: int, ran: int, failed: int, idle: int)
    requires
        1 <= k,
    ensures
        (k < max) ==> spec_serve_step(k, Some(max), ran, failed, idle) != ServeStep::Stop,
        (k >= max) ==> spec_serve_step(k, Some(max), ran, failed, idle) == ServeStep::Stop,
        spec_serve_step(k, None, ran, failed, idle) != ServeStep::Stop,
{
}

/// A pass that did work never sleeps longer than 250 ms, nor longer than the
/// idle sleep.
pub proof fn law_busy_sleep_is_capped(k: int, max: Option<usize>, ran: int, failed: int, idle: int)
    requires
        ran > 0 || failed > 0,
        0 <= idle <= u64::MAX,
    ensures
        spec_serve_step(k, max, ran, failed, idle) matches ServeStep::Sleep { ms } ==> ms <= 250 && ms <= idle,
{
}

/// How many passes a serve worker runs when its passes report `ticks` in
/// turn (`done` of them already run): after each pass it records the pass
/// and asks `spec_serve_step` whether to stop; it runs out where the passes do.
pub open spec fn passes_run(max: Option<usize>, ticks: Seq<TickReport>, idle_sleep_ms: int, done: nat) -> nat
    decreases ticks.len() - done,
{
    if done >= ticks.len() {
        done
    } else {
        let t = ticks[done as int];
        if spec_serve_step((done + 1) as int, max, t.ran_cycles as int, t.failed_cycles as int, idle_sleep_ms) == ServeStep::Stop {
            done + 1
        } else {
            passes_run(max, ticks, idle_sleep_ms, done + 1)
        }
    }
}

proof fn lemma_passes_run_to_max(n: usize, ticks: Seq<TickReport>, idle_sleep_ms: int, done: nat)
    requires
        1 <= n <= ticks.len(),
        done < n,
    ensures
        passes_run(Some(n), ticks, idle_sleep_ms, done) == n,
    decreases n - done,
{
    if done + 1 < n {
        lemma_passes_run_to_max(n, ticks, idle_sleep_ms, done + 1);
    }
}

/// A serve worker with a cycle limit of `n` (at least one) runs exactly `n`
/// passes, whatever they report, and its report then holds `n` cycles and,
/// for each count, the sum over those passes (the workflow count of the
/// last one).
pub proof fn law_serve_runs_exactly_n_passes(n: usize, ticks: Seq<TickReport>, idle_sleep_ms: int)
    requires
        1 <= n <= ticks.len(),
    ensures
        passes_run(Some(n), ticks, idle_sleep_ms, 0) == n,
        fold_totals(ticks.subrange(0, n as int)).3 == sum_of(ticks.subrange(0, n as int), |t: TickReport| t.ran_cycles as int),
        fold_totals(ticks.subrange(0, n as int)).4 == sum_of(ticks.subrange(0, n as int), |t: TickReport| t.skipped_cycles as int),
        fold_totals(ticks.subrange(0, n as int)).5 == sum_of(ticks.subrange(0, n as int), |t: TickReport| t.failed_cycles as int),
        fold_totals(ticks.subrange(0, n as int)).6 == sum_of(ticks.subrange(0, n as int), |t: TickReport| t.cleaned_claims as int),
        fold_totals(ticks.subrange(0, n as int)).1 == sum_of(
            ticks.subrange(0, n as int),
            |t: TickReport| t.polled_event_count as int,
        ),
        fold_totals(ticks.subrange(0, n as int)).2 == sum_of(
            ticks.subrange(0, n as int),
            |t: TickReport| t.webhook_event_count as int,
        ),
        fold_totals(ticks.subrange(0, n as int)).0 == ticks[n - 1].workflow_count,
{
    lemma_passes_run_to_max(n, ticks, idle_sleep_ms, 0);
    law_serve_totals_are_sums(ticks.subrange(0, n as int));
}

/// A serve worker's process-level identity and its lock.
#[derive(Debug, Clone)]
pub struct ServeWorker {
    pub worker: ExecutionWorker,
    pub lock_path: String,
}

/// One worker record a heartbeat refreshes.
#[derive(Debug, Clone)]
pub struct WorkerRecordRequest {
    pub worker_id: String,
    pub backend: String,
    pub permission_mode: String,
    pub repo_filter: Option<String>,
}

impl ServeWorker {
    /// The worker context each pass runs under.
    pub fn execution_worker(&self) -> (r: ExecutionWorker)
        ensures
            r.worker_id@ == self.worker.worker_id@,
            r.name@ == self.worker.name@,
            r.kind == self.worker.kind,
    {
        ExecutionWorker {
            worker_id: self.worker.worker_id.clone(),
            name: self.worker.name.clone(),
            kind: self.worker.kind,
        }
    }

    /// The records a heartbeat refreshes: the local-worktree backend, once in
    /// `bypass` mode and once in `readonly` mode.
    pub fn heartbeat(&self, repo_filter: Option<&str>) -> (r: Vec<WorkerRecordRequest>)
        ensures
            r@.len() == 2,
            r@[0].permission_mode@ == "bypass"@,
            r@[1].permission_mode@ == "readonly"@,
            forall|i: int|
                0 <= i < 2 ==> {
                    &&& (#[trigger] r@[i]).worker_id@ == self.worker.worker_id@
                    &&& r@[i].backend@ == "local_worktree"@
                    &&& match repo_filter {
                        Some(f) => r@[i].repo_filter matches Some(g) && g@ == f@,
                        None => r@[i].repo_filter is None,
                    }
                },
    {
        let mut out: Vec<WorkerRecordRequest> = Vec::new();
        out.push(
            WorkerRecordRequest {
                worker_id: self.worker.worker_id.clone(),
                backend: String::from_str("local_worktree"),
                permission_mode: String::from_str("bypass"),
                repo_filter: match repo_filter {
                    Some(f) => Some(String::from_str(f)),
                    None => None,
                },
            },
        );
        out.push(
            WorkerRecordRequest {
                worker_id: self.worker.worker_id.clone(),
                backend: String::from_str("local_worktree"),
                permission_mode: String::from_str("readonly"),
                repo_filter: match repo_filter {
                    Some(f) => Some(String::from_str(f)),
                    None => None,
                },
            },
        );
        out
    }
}

/// `<worker id>.serve.lock`: the file that marks a running serve worker.
pub fn serve_lock_file_name(worker_id: &str) -> (r: String)
    ensures
        r@ == worker_id@ + ".serve.lock"@,
{
    let mut s = String::from_str(worker_id);
    s.append(".serve.lock");
    s
}

/// How a serve worker ended: its passes ran out, or it was interrupted.
pub open spec fn spec_serve_summary(report: ServeReport, interrupted: bool) -> Seq<char> {
    "autoflow serve "@ + (if interrupted { "interrupted"@ } else { "stopped"@ }) + " after "@ + decimal(
        report.cycles as nat,
    ) + " cycle(s): ran="@ + decimal(report.total.ran_cycles as nat) + " skipped="@ + decimal(
        report.total.skipped_cycles as nat,
    ) + " failed="@ + decimal(report.total.failed_cycles as nat) + " cleaned="@ + decimal(
        report.total.cleaned_claims as nat,
    )
}

/// The line a serve worker prints when it ends.
pub fn serve_summary_line(report: &ServeReport, interrupted: bool) -> (r: String)
    ensures
        r@ == spec_serve_summary(*report, interrupted),
{
    let mut s = String::from_str("autoflow serve ");
    if interrupted {
        s.append("interrupted");
    } else {
        s.append("stopped");
    }
    s.append(" after ");
    let a = usize_to_string(report.cycles);
    s.append(a.as_str());
    s.append(" cycle(s): ran=");
    let b = usize_to_string(report.total.ran_cycles);
    s.append(b.as_str());
    s.append(" skipped=");
    let c = usize_to_string(report.total.skipped_cycles);
    s.append(c.as_str());
    s.append(" failed=");
    let d = usize_to_string(report.total.failed_cycles);
    s.append(d.as_str());
    s.append(" cleaned=");
    let e = usize_to_string(report.total.cleaned_claims);
    s.append(e.as_str());
    s
}

/// The line `autoflow tick` prints: `(no autoflows)` when nothing was found
/// or cleaned, a zero line with the cleaned count when only cleanup ran,
/// else every count of the pass.
pub open spec fn spec_tick_summary(r: TickReport) -> Seq<char> {
    if r.workflow_count == 0 {
        if r.cleaned_claims == 0 {
            "(no autoflows)"@
        } else {
            "autoflow tick: 0 workflow(s), 0 polled event(s), 0 webhook event(s), 0 cycle(s) ran, 0 skipped, "@
                + decimal(r.cleaned_claims as nat) + " cleaned"@
        }
    } else {
        "autoflow tick: "@ + decimal(r.workflow_count as nat) + " workflow(s), "@ + decimal(
            r.polled_event_count as nat,
        ) + " polled event(s), "@ + decimal(r.webhook_event_count as nat) + " webhook event(s), "@ + decimal(
            r.ran_cycles as nat,
        ) + " cycle(s) ran, "@ + decimal(r.skipped_cycles as nat) + " skipped, "@ + decimal(r.failed_cycles as nat)
            + " failed, "@ + decimal(r.cleaned_claims as nat) + " cleaned"@
    }
}

pub fn tick_summary_line(r: &TickReport) -> (s: String)
    ensures
        s@ == spec_tick_summary(*r),
{
    if r.workflow_count == 0 {
        if r.cleaned_claims == 0 {
            return String::from_str("(no autoflows)");
        }
        let mut s = String::from_str(
            "autoflow tick: 0 workflow(s), 0 polled event(s), 0 webhook event(s), 0 cycle(s) ran, 0 skipped, ",
        );
        let c = usize_to_string(r.cleaned_claims);
        s.append(c.as_str());
        s.append(" cleaned");
        return s;
    }
    let mut s = String::from_str("autoflow tick: ");
    let a = usize_to_string(r.workflow_count);
    s.append(a.as_str());
    s.append(" workflow(s), ");
    let b = usize_to_string(r.polled_event_count);
    s.append(b.as_str());
    s.append(" polled event(s), ");
    let c = usize_to_string(r.webhook_event_count);
    s.append(c.as_str());
    s.append(" webhook event(s), ");
    let d = usize_to_string(r.ran_cycles);
    s.append(d.as_str());
    s.append(" cycle(s) ran, ");
    let e = usize_to_string(r.skipped_cycles);
    s.append(e.as_str());
    s.append(" skipped, ");
    let f = usize_to_string(r.failed_cycles);
    s.append(f.as_str());
    s.append(" failed, ");
    let g = usize_to_string(r.cleaned_claims);
    s.append(g.as_str());
    s.append(" cleaned");
    s
}

/// Why `autoflow serve --idle-sleep` was refused.
#[derive(Debug, Clone)]
pub enum IdleSleepError {
    /// The text is not a duration.
    Unreadable(DurationError),
    /// The duration is negative.
    Negative,
}

impl IdleSleepError {
    pub fn message(&self) -> (r: String)
        ensures
            match *self {
                IdleSleepError::Unreadable(e) => r@ == e.message_text(),
                IdleSleepError::Negative => r@ == "idle sleep must be non-negative"@,
            },
    {
        match self {
            IdleSleepError::Unreadable(e) => e.message(),
            IdleSleepError::Negative => String::from_str("idle sleep must be non-negative"),
        }
    }
}

/// The idle sleep of `autoflow serve` in seconds: a duration that is not
/// negative.
pub fn serve_idle_sleep(value: &str) -> (r: Result<u64, IdleSleepError>)
    requires
        duration_text_ok(value@),
    ensures
        match spec_parse_duration(value@) {
            Ok(secs) => if secs >= 0 {
                r == Ok::<u64, IdleSleepError>(secs as u64)
            } else {
                r matches Err(IdleSleepError::Negative)
            },
            Err(k) => r matches Err(IdleSleepError::Unreadable(e)) && e.value@ == value@ && e.amount_error == k,
        },
{
    match parse_duration(value) {
        Ok(secs) => if secs >= 0 {
            Ok(secs as u64)
        } else {
            Err(IdleSleepError::Negative)
        },
        Err(e) => Err(IdleSleepError::Unreadable(e)),
    }
}

} // verus!

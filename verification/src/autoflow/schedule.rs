//! When a claim is due: lease expiry, retry backoff, the reconcile interval,
//! the cleanup grace period, and whether a manual run may take the claim.

use vstd::prelude::*;
use vstd::string::*;
use crate::autoflow::claims::{spec_status_name, status_name, ClaimRecord, ClaimStatus};
use crate::autoflow::duration::{duration_text_ok, parse_duration, spec_parse_duration, DurationError};
use crate::number::IntErrorKind;
use crate::time::{now_utc, parse_rfc3339, spec_rfc3339_instant, Timestamp};

verus! {

/// `instant` is no later than `t`.
pub open spec fn instant_le(instant: (int, int), t: Timestamp) -> bool {
    instant.0 < t.secs || (instant.0 == t.secs && instant.1 <= t.nanos)
}

/// `instant` is strictly earlier than `t`.
pub open spec fn instant_lt(instant: (int, int), t: Timestamp) -> bool {
    instant.0 < t.secs || (instant.0 == t.secs && instant.1 < t.nanos)
}

/// `instant` moved forward by `secs` seconds is no later than `t`.
pub open spec fn instant_plus_le(instant: (int, int), secs: int, t: Timestamp) -> bool {
    instant.0 + secs < t.secs || (instant.0 + secs == t.secs && instant.1 <= t.nanos)
}

/// A claim timestamp that is not RFC 3339.
#[derive(Debug, Clone)]
pub enum ClaimTimeError {
    LeaseExpiry { issue_ref: String },
    NextRetryAt { issue_ref: String },
    ClaimUpdatedAt { issue_ref: String },
    UpdatedAt { issue_ref: String },
}

impl ClaimTimeError {
    pub fn message(&self) -> (r: String)
        ensures
            r@ == match *self {
                ClaimTimeError::LeaseExpiry { issue_ref } => "parse lease expiry for `"@ + issue_ref@ + "`"@,
                ClaimTimeError::NextRetryAt { issue_ref } => "parse next_retry_at for `"@ + issue_ref@ + "`"@,
                ClaimTimeError::ClaimUpdatedAt { issue_ref } => "parse claim updated_at for `"@ + issue_ref@
                    + "`"@,
                ClaimTimeError::UpdatedAt { issue_ref } => "parse updated_at for `"@ + issue_ref@ + "`"@,
            },
    {
        let (prefix, issue_ref) = match self {
            ClaimTimeError::LeaseExpiry { issue_ref } => ("parse lease expiry for `", issue_ref),
            ClaimTimeError::NextRetryAt { issue_ref } => ("parse next_retry_at for `", issue_ref),
            ClaimTimeError::ClaimUpdatedAt { issue_ref } => ("parse claim updated_at for `", issue_ref),
            ClaimTimeError::UpdatedAt { issue_ref } => ("parse updated_at for `", issue_ref),
        };
        let mut s = String::from_str(prefix);
        s.append(issue_ref.as_str());
        s.append("`");
        s
    }
}

/// Whether the claim's lease has run out at `now`: a claim without a lease
/// never expires; an unreadable lease is an error.
pub open spec fn spec_lease_expired(claim: ClaimRecord, now: Timestamp) -> Option<bool> {
    match claim.lease_expires_at {
        None => Some(false),
        Some(lease) => match spec_rfc3339_instant(lease@) {
            None => None,
            Some(at) => Some(instant_le(at, now)),
        },
    }
}

/// Whether the claim's lease has run out at `now`.
pub fn lease_expired_at(claim: &ClaimRecord, now: Timestamp) -> (r: Result<bool, ClaimTimeError>)
    ensures
        match spec_lease_expired(*claim, now) {
            Some(b) => r == Ok::<bool, ClaimTimeError>(b),
            None => r matches Err(ClaimTimeError::LeaseExpiry { issue_ref }) && issue_ref@ == claim.issue_ref@,
        },
{
    match &claim.lease_expires_at {
        None => Ok(false),
        Some(lease) => match parse_rfc3339(lease.as_str()) {
            None => Err(ClaimTimeError::LeaseExpiry { issue_ref: claim.issue_ref.clone() }),
            Some(at) => Ok(at.secs < now.secs || (at.secs == now.secs && at.nanos <= now.nanos)),
        },
    }
}

/// Whether the claim's lease has run out now. The clock decides the answer
/// where there is a readable lease; without a lease it is `false`.
pub fn claim_lease_expired(claim: &ClaimRecord) -> (r: Result<bool, ClaimTimeError>)
    ensures
        claim.lease_expires_at is None ==> r == Ok::<bool, ClaimTimeError>(false),
        claim.lease_expires_at matches Some(l) ==> (r is Ok <==> spec_rfc3339_instant(l@) is Some),
{
    let now = now_utc();
    lease_expired_at(claim, now)
}

/// Whether a claim in retry backoff may retry at `now`: without a retry time
/// at once, else once that time has come.
pub open spec fn spec_retry_due(claim: ClaimRecord, now: Timestamp) -> Option<bool> {
    match claim.next_retry_at {
        None => Some(true),
        Some(at) => match spec_rfc3339_instant(at@) {
            None => None,
            Some(i) => Some(instant_le(i, now)),
        },
    }
}

/// Whether a claim in retry backoff may retry at `now`.
pub fn retry_due_at(claim: &ClaimRecord, now: Timestamp) -> (r: Result<bool, ClaimTimeError>)
    ensures
        match spec_retry_due(*claim, now) {
            Some(b) => r == Ok::<bool, ClaimTimeError>(b),
            None => r matches Err(ClaimTimeError::NextRetryAt { issue_ref }) && issue_ref@ == claim.issue_ref@,
        },
{
    match &claim.next_retry_at {
        None => Ok(true),
        Some(at) => match parse_rfc3339(at.as_str()) {
            None => Err(ClaimTimeError::NextRetryAt { issue_ref: claim.issue_ref.clone() }),
            Some(i) => Ok(i.secs < now.secs || (i.secs == now.secs && i.nanos <= now.nanos)),
        },
    }
}

/// Whether a claim in retry backoff may retry now. Without a retry time it
/// may; otherwise the clock decides.
pub fn due_by_retry_backoff(claim: &ClaimRecord) -> (r: Result<bool, ClaimTimeError>)
    ensures
        claim.next_retry_at is None ==> r == Ok::<bool, ClaimTimeError>(true),
        claim.next_retry_at matches Some(t) ==> (r is Ok <==> spec_rfc3339_instant(t@) is Some),
{
    let now = now_utc();
    retry_due_at(claim, now)
}

/// Whether the claim was last updated before the pass started.
pub open spec fn spec_updated_before(claim: ClaimRecord, tick_started_at: Timestamp) -> Option<bool> {
    match spec_rfc3339_instant(claim.updated_at@) {
        None => None,
        Some(i) => Some(instant_lt(i, tick_started_at)),
    }
}

/// Whether the claim was last updated before the pass started.
pub fn updated_before_tick(claim: &ClaimRecord, tick_started_at: Timestamp) -> (r: Result<bool, ClaimTimeError>)
    ensures
        match spec_updated_before(*claim, tick_started_at) {
            Some(b) => r == Ok::<bool, ClaimTimeError>(b),
            None => r matches Err(ClaimTimeError::UpdatedAt { issue_ref }) && issue_ref@ == claim.issue_ref@,
        },
{
    match parse_rfc3339(claim.updated_at.as_str()) {
        None => Err(ClaimTimeError::UpdatedAt { issue_ref: claim.issue_ref.clone() }),
        Some(i) => Ok(i.secs < tick_started_at.secs || (i.secs == tick_started_at.secs && i.nanos
            < tick_started_at.nanos)),
    }
}

/// Whether the claim's cleanup grace period has passed at `now`.
pub open spec fn spec_cleanup_due(claim: ClaimRecord, now: Timestamp, cleanup_after_secs: int) -> Option<bool> {
    match spec_rfc3339_instant(claim.updated_at@) {
        None => None,
        Some(i) => Some(instant_plus_le(i, cleanup_after_secs, now)),
    }
}

/// Whether a terminal claim has waited out its cleanup grace period at `now`.
pub fn claim_cleanup_due(claim: &ClaimRecord, now: Timestamp, cleanup_after_secs: i64) -> (r: Result<
    bool,
    ClaimTimeError,
>)
    ensures
        match spec_cleanup_due(*claim, now, cleanup_after_secs as int) {
            Some(b) => r == Ok::<bool, ClaimTimeError>(b),
            None => r matches Err(ClaimTimeError::ClaimUpdatedAt { issue_ref }) && issue_ref@ == claim.issue_ref@,
        },
{
    match parse_rfc3339(claim.updated_at.as_str()) {
        None => Err(ClaimTimeError::ClaimUpdatedAt { issue_ref: claim.issue_ref.clone() }),
        Some(i) => {
            let shifted: i128 = i.secs as i128 + cleanup_after_secs as i128;
            Ok(shifted < now.secs as i128 || (shifted == now.secs as i128 && i.nanos <= now.nanos))
        },
    }
}

/// Whether terminal-claim cleanup removes this claim at `now`: only complete
/// or released claims on the filtered repo, and only where a grace period is
/// configured and has passed.
pub open spec fn spec_terminal_cleanup(
    claim: ClaimRecord,
    repo_filter: Option<Seq<char>>,
    cleanup_after_secs: Option<i64>,
    now: Timestamp,
) -> Option<bool> {
    if repo_filter matches Some(f) && claim.repo_ref@ != f {
        Some(false)
    } else if !(claim.status == ClaimStatus::Complete || claim.status == ClaimStatus::Released) {
        Some(false)
    } else {
        match cleanup_after_secs {
            None => Some(false),
            Some(secs) => spec_cleanup_due(claim, now, secs as int),
        }
    }
}

/// Whether terminal-claim cleanup removes this claim at `now`.
pub fn terminal_claim_cleanup_due(
    claim: &ClaimRecord,
    repo_filter: Option<&str>,
    cleanup_after_secs: Option<i64>,
    now: Timestamp,
) -> (r: Result<bool, ClaimTimeError>)
    ensures
        match spec_terminal_cleanup(
            *claim,
            match repo_filter {
                Some(f) => Some(f@),
                None => None,
            },
            cleanup_after_secs,
            now,
        ) {
            Some(b) => r == Ok::<bool, ClaimTimeError>(b),
            None => r is Err,
        },
{
    if let Some(f) = repo_filter {
        if !crate::text::str_eq(claim.repo_ref.as_str(), f) {
            return Ok(false);
        }
    }
    match claim.status {
        ClaimStatus::Complete | ClaimStatus::Released => {},
        _ => return Ok(false),
    }
    match cleanup_after_secs {
        None => Ok(false),
        Some(secs) => claim_cleanup_due(claim, now, secs),
    }
}

/// Why a claim's schedule could not be decided.
#[derive(Debug, Clone)]
pub enum ScheduleError {
    /// A timestamp on the claim is unreadable.
    Time(ClaimTimeError),
    /// The reconcile interval is unreadable.
    Interval(DurationError),
}

/// Whether the claim's reconcile interval has passed at `now`: without an
/// interval never; otherwise once the last update plus the interval has come.
pub open spec fn spec_reconcile_due(claim: ClaimRecord, reconcile_every: Option<Seq<char>>, now: Timestamp) -> Option<
    bool,
> {
    match reconcile_every {
        None => Some(false),
        Some(every) => match spec_rfc3339_instant(claim.updated_at@) {
            None => None,
            Some(i) => match spec_parse_duration(every) {
                Err(_) => None,
                Ok(secs) => Some(instant_plus_le(i, secs, now)),
            },
        },
    }
}

/// Whether the claim's reconcile interval has passed at `now`.
pub fn reconcile_due_at(claim: &ClaimRecord, reconcile_every: Option<&str>, now: Timestamp) -> (r: Result<
    bool,
    ScheduleError,
>)
    requires
        reconcile_every matches Some(e) ==> duration_text_ok(e@),
    ensures
        match spec_reconcile_due(
            *claim,
            match reconcile_every {
                Some(e) => Some(e@),
                None => None,
            },
            now,
        ) {
            Some(b) => r matches Ok(x) && x == b,
            None => r is Err,
        },
        r matches Err(ScheduleError::Time(e)) ==> e matches ClaimTimeError::ClaimUpdatedAt { issue_ref }
            && issue_ref@ == claim.issue_ref@,
{
    let every = match reconcile_every {
        None => return Ok(false),
        Some(e) => e,
    };
    let last = match parse_rfc3339(claim.updated_at.as_str()) {
        None => return Err(ScheduleError::Time(ClaimTimeError::ClaimUpdatedAt { issue_ref: claim.issue_ref.clone() })),
        Some(i) => i,
    };
    let secs = match parse_duration(every) {
        Err(e) => return Err(ScheduleError::Interval(e)),
        Ok(s) => s,
    };
    let shifted: i128 = last.secs as i128 + secs as i128;
    Ok(shifted < now.secs as i128 || (shifted == now.secs as i128 && last.nanos <= now.nanos))
}

/// Whether a reconciliation pass runs a cycle for an existing claim.
///
/// A claim whose cycle holds the issue lock never runs. Claims that are
/// eligible, claimed, running or awaiting something external run when a wake
/// event matches or the reconcile interval has passed; claims in retry
/// backoff run once their retry time has come; the rest never run. A claim
/// with a pending dispatch runs only if it was updated before the pass began.
pub open spec fn spec_should_run(
    claim: ClaimRecord,
    lock_held: bool,
    wake_due: bool,
    reconcile_every: Option<Seq<char>>,
    tick_started_at: Timestamp,
    now: Timestamp,
) -> Option<bool> {
    if lock_held {
        Some(false)
    } else {
        let due = match claim.status {
            ClaimStatus::Eligible | ClaimStatus::Claimed | ClaimStatus::Running | ClaimStatus::AwaitExternal => {
                if wake_due {
                    Some(true)
                } else {
                    spec_reconcile_due(claim, reconcile_every, now)
                }
            },
            ClaimStatus::RetryBackoff => spec_retry_due(claim, now),
            _ => Some(false),
        };
        match due {
            None => None,
            Some(d) => if claim.pending_dispatch is Some {
                Some(d && spec_updated_before(claim, tick_started_at) == Some(true))
            } else {
                Some(d)
            },
        }
    }
}

/// An eligible, claimed, running or externally waiting claim with no lock,
/// no matching wake and no pending dispatch runs exactly when its last
/// update plus the reconcile interval is at or before `now`; without an
/// interval it does not run.
pub proof fn law_reconcile_interval_decides_quiet_claims(
    claim: ClaimRecord,
    every: Seq<char>,
    updated_secs: int,
    updated_nanos: int,
    interval_secs: int,
    tick_started_at: Timestamp,
    now: Timestamp,
)
    requires
        claim.status is Eligible || claim.status is Claimed || claim.status is Running || claim.status is AwaitExternal,
        claim.pending_dispatch is None,
        spec_rfc3339_instant(claim.updated_at@) == Some((updated_secs, updated_nanos)),
        spec_parse_duration(every) == Ok::<int, Option<IntErrorKind>>(interval_secs),
    ensures
        spec_should_run(claim, false, false, Some(every), tick_started_at, now) == Some(
            updated_secs + interval_secs < now.secs || (updated_secs + interval_secs == now.secs && updated_nanos <= now.nanos),
        ),
        spec_should_run(claim, false, false, None, tick_started_at, now) == Some(false),
{
}

/// A held lock never runs; a matching wake runs an eligible, claimed,
/// running or externally waiting claim with no pending dispatch, whatever
/// the interval; a claim waiting on a human, blocked, complete or released
/// never runs.
pub proof fn law_should_run_gates(
    claim: ClaimRecord,
    wake_due: bool,
    reconcile_every: Option<Seq<char>>,
    tick_started_at: Timestamp,
    now: Timestamp,
)
    ensures
        spec_should_run(claim, true, wake_due, reconcile_every, tick_started_at, now) == Some(false),
        (claim.status is Eligible || claim.status is Claimed || claim.status is Running || claim.status is AwaitExternal)
            && claim.pending_dispatch is None ==> spec_should_run(claim, false, true, reconcile_every, tick_started_at, now)
            == Some(true),
        (claim.status is AwaitHuman || claim.status is Blocked || claim.status is Complete || claim.status is Released)
            ==> spec_should_run(claim, false, wake_due, reconcile_every, tick_started_at, now) == Some(false),
        (claim.status is Eligible || claim.status is Claimed || claim.status is Running || claim.status is AwaitExternal)
            && reconcile_every is Some && spec_rfc3339_instant(claim.updated_at@) is None ==> spec_should_run(
            claim,
            false,
            false,
            reconcile_every,
            tick_started_at,
            now,
        ) is None,
{
}

/// A claim in retry backoff with no lock and no pending dispatch runs, wake
/// or not, at once when it has no retry time, and otherwise exactly when its
/// retry time is at or before `now`.
pub proof fn law_retry_backoff_waits_for_retry_time(
    claim: ClaimRecord,
    wake_due: bool,
    reconcile_every: Option<Seq<char>>,
    tick_started_at: Timestamp,
    now: Timestamp,
    retry_secs: int,
    retry_nanos: int,
)
    requires
        claim.status is RetryBackoff,
        claim.pending_dispatch is None,
    ensures
        claim.next_retry_at is None ==> spec_should_run(claim, false, wake_due, reconcile_every, tick_started_at, now) == Some(
            true,
        ),
        (claim.next_retry_at matches Some(at) && spec_rfc3339_instant(at@) == Some((retry_secs, retry_nanos))) ==> spec_should_run(
            claim,
            false,
            wake_due,
            reconcile_every,
            tick_started_at,
            now,
        ) == Some(retry_secs < now.secs || (retry_secs == now.secs && retry_nanos <= now.nanos)),
        (claim.next_retry_at matches Some(at) && spec_rfc3339_instant(at@) is None) ==> spec_should_run(
            claim,
            false,
            wake_due,
            reconcile_every,
            tick_started_at,
            now,
        ) is None,
{
}

/// A claim with a pending dispatch runs exactly when the same claim without
/// it would, and it was last updated strictly before the pass began.
pub proof fn law_pending_dispatch_waits_for_next_pass(
    claim: ClaimRecord,
    lock_held: bool,
    wake_due: bool,
    reconcile_every: Option<Seq<char>>,
    tick_started_at: Timestamp,
    now: Timestamp,
    updated_secs: int,
    updated_nanos: int,
)
    requires
        claim.pending_dispatch is Some,
        spec_rfc3339_instant(claim.updated_at@) == Some((updated_secs, updated_nanos)),
    ensures
        spec_should_run(claim, lock_held, wake_due, reconcile_every, tick_started_at, now) == match spec_should_run(
            ClaimRecord { pending_dispatch: None, ..claim },
            lock_held,
            wake_due,
            reconcile_every,
            tick_started_at,
            now,
        ) {
            Some(d) => Some(d && (updated_secs < tick_started_at.secs || (updated_secs == tick_started_at.secs && updated_nanos
                < tick_started_at.nanos))),
            None => None,
        },
{
}

/// A claim with a pending dispatch whose last update cannot be read never
/// runs.
pub proof fn law_unreadable_dispatch_claim_does_not_run(
    claim: ClaimRecord,
    lock_held: bool,
    wake_due: bool,
    reconcile_every: Option<Seq<char>>,
    tick_started_at: Timestamp,
    now: Timestamp,
)
    requires
        claim.pending_dispatch is Some,
        spec_rfc3339_instant(claim.updated_at@) is None,
    ensures
        spec_should_run(claim, lock_held, wake_due, reconcile_every, tick_started_at, now) != Some(true),
{
}

/// Whether a reconciliation pass runs a cycle for an existing claim, at `now`.
pub fn should_run_claim_at(
    claim: &ClaimRecord,
    lock_held: bool,
    wake_due: bool,
    reconcile_every: Option<&str>,
    tick_started_at: Timestamp,
    now: Timestamp,
) -> (r: Result<bool, ScheduleError>)
    requires
        reconcile_every matches Some(e) ==> duration_text_ok(e@),
    ensures
        match spec_should_run(
            *claim,
            lock_held,
            wake_due,
            match reconcile_every {
                Some(e) => Some(e@),
                None => None,
            },
            tick_started_at,
            now,
        ) {
            Some(b) => r matches Ok(x) && x == b,
            None => r is Err,
        },
{
    if lock_held {
        return Ok(false);
    }
    let due = match claim.status {
        ClaimStatus::Eligible | ClaimStatus::Claimed | ClaimStatus::Running | ClaimStatus::AwaitExternal => {
            if wake_due {
                true
            } else {
                match reconcile_due_at(claim, reconcile_every, now) {
                    Ok(d) => d,
                    Err(e) => return Err(e),
                }
            }
        },
        ClaimStatus::RetryBackoff => match retry_due_at(claim, now) {
            Ok(d) => d,
            Err(e) => return Err(ScheduleError::Time(e)),
        },
        _ => false,
    };
    if claim.pending_dispatch.is_some() {
        let before = match updated_before_tick(claim, tick_started_at) {
            Ok(b) => b,
            Err(_) => false,
        };
        Ok(due && before)
    } else {
        Ok(due)
    }
}

/// Whether a reconciliation pass runs a cycle for an existing claim now.
/// What does not depend on the clock is fixed: a held lock, a matching wake
/// event or a status that never runs.
pub fn should_run_claim(
    claim: &ClaimRecord,
    lock_held: bool,
    wake_due: bool,
    reconcile_every: Option<&str>,
    tick_started_at: Timestamp,
) -> (r: Result<bool, ScheduleError>)
    requires
        reconcile_every matches Some(e) ==> duration_text_ok(e@),
    ensures
        lock_held ==> r == Ok::<bool, ScheduleError>(false),
        !lock_held && (claim.status == ClaimStatus::AwaitHuman || claim.status == ClaimStatus::Blocked
            || claim.status == ClaimStatus::Complete || claim.status == ClaimStatus::Released) ==> r
            == Ok::<bool, ScheduleError>(false),
        !lock_held && wake_due && claim.pending_dispatch is None && (claim.status == ClaimStatus::Eligible
            || claim.status == ClaimStatus::Claimed || claim.status == ClaimStatus::Running || claim.status
            == ClaimStatus::AwaitExternal) ==> r == Ok::<bool, ScheduleError>(true),
{
    let now = now_utc();
    should_run_claim_at(claim, lock_held, wake_due, reconcile_every, tick_started_at, now)
}

/// Why a manual `autoflow run` may not take an issue's claim.
#[derive(Debug, Clone)]
pub enum ManualRunError {
    /// The claim is blocked until someone releases it.
    Blocked { issue_ref: String, workflow: String },
    /// A cycle is running for the issue right now.
    ActiveCycle { issue_ref: String, workflow: String },
    /// Another owner holds an unexpired lease.
    Owned { issue_ref: String, workflow: String, status: ClaimStatus },
    /// The lease expiry is unreadable.
    Time(ClaimTimeError),
}

impl ManualRunError {
    pub fn message(&self) -> (r: String)
        ensures
            match *self {
                ManualRunError::Blocked { issue_ref, workflow } => r@ == "issue `"@ + issue_ref@
                    + "` has a blocked autoflow claim for workflow `"@ + workflow@
                    + "`; release it first with `rupu autoflow release "@ + issue_ref@ + "`"@,
                ManualRunError::ActiveCycle { issue_ref, workflow } => r@ == "issue `"@ + issue_ref@
                    + "` already has an active autoflow cycle for workflow `"@ + workflow@ + "`"@,
                ManualRunError::Owned { issue_ref, workflow, status } => r@ == "issue `"@ + issue_ref@
                    + "` already has an owned autoflow claim for workflow `"@ + workflow@ + "` with status `"@
                    + spec_status_name(status)
                    + "`; wait for it, run `rupu autoflow tick`, or release it first"@,
                ManualRunError::Time(e) => true,
            },
            self matches ManualRunError::Time(e) ==> r@ == match e {
                ClaimTimeError::LeaseExpiry { issue_ref } => "parse lease expiry for `"@ + issue_ref@ + "`"@,
                ClaimTimeError::NextRetryAt { issue_ref } => "parse next_retry_at for `"@ + issue_ref@ + "`"@,
                ClaimTimeError::ClaimUpdatedAt { issue_ref } => "parse claim updated_at for `"@ + issue_ref@
                    + "`"@,
                ClaimTimeError::UpdatedAt { issue_ref } => "parse updated_at for `"@ + issue_ref@ + "`"@,
            },
    {
        match self {
            ManualRunError::Blocked { issue_ref, workflow } => {
                let mut s = String::from_str("issue `");
                s.append(issue_ref.as_str());
                s.append("` has a blocked autoflow claim for workflow `");
                s.append(workflow.as_str());
                s.append("`; release it first with `rupu autoflow release ");
                s.append(issue_ref.as_str());
                s.append("`");
                s
            },
            ManualRunError::ActiveCycle { issue_ref, workflow } => {
                let mut s = String::from_str("issue `");
                s.append(issue_ref.as_str());
                s.append("` already has an active autoflow cycle for workflow `");
                s.append(workflow.as_str());
                s.append("`");
                s
            },
            ManualRunError::Owned { issue_ref, workflow, status } => {
                let mut s = String::from_str("issue `");
                s.append(issue_ref.as_str());
                s.append("` already has an owned autoflow claim for workflow `");
                s.append(workflow.as_str());
                s.append("` with status `");
                s.append(status_name(*status));
                s.append("`; wait for it, run `rupu autoflow tick`, or release it first");
                s
            },
            ManualRunError::Time(e) => e.message(),
        }
    }
}

/// Whether a manual run may take the issue's claim at `now`: no claim, or a
/// complete or released one, may always be taken; a blocked claim, a claim
/// whose cycle holds the lock, and a claim with an unexpired lease may not.
pub open spec fn spec_manual_run_allowed(claim: Option<ClaimRecord>, lock_held: bool, now: Timestamp) -> Option<
    bool,
> {
    match claim {
        None => Some(true),
        Some(c) => if c.status == ClaimStatus::Complete || c.status == ClaimStatus::Released {
            Some(true)
        } else if c.status == ClaimStatus::Blocked || lock_held {
            Some(false)
        } else {
            spec_lease_expired(c, now)
        },
    }
}

/// `Ok` when a manual run may take the issue's claim at `now`.
pub fn manual_run_can_take_claim_at(
    claim: Option<&ClaimRecord>,
    issue_ref_text: &str,
    lock_held: bool,
    now: Timestamp,
) -> (r: Result<(), ManualRunError>)
    ensures
        match spec_manual_run_allowed(
            match claim {
                Some(c) => Some(*c),
                None => None,
            },
            lock_held,
            now,
        ) {
            Some(true) => r is Ok,
            Some(false) => r is Err && !(r matches Err(ManualRunError::Time(_))),
            None => r matches Err(ManualRunError::Time(_)),
        },
        claim matches Some(c) ==> match r {
            Err(ManualRunError::Blocked { issue_ref, workflow }) => c.status == ClaimStatus::Blocked
                && issue_ref@ == issue_ref_text@ && workflow@ == c.workflow@,
            Err(ManualRunError::ActiveCycle { issue_ref, workflow }) => c.status != ClaimStatus::Blocked
                && lock_held && issue_ref@ == issue_ref_text@ && workflow@ == c.workflow@,
            Err(ManualRunError::Owned { issue_ref, workflow, status }) => !lock_held && c.status
                != ClaimStatus::Blocked && issue_ref@
                == issue_ref_text@ && workflow@ == c.workflow@ && status == c.status,
            _ => true,
        },
{
    let c = match claim {
        None => return Ok(()),
        Some(c) => c,
    };
    match c.status {
        ClaimStatus::Complete | ClaimStatus::Released => return Ok(()),
        _ => {},
    }
    if c.status == ClaimStatus::Blocked {
        return Err(
            ManualRunError::Blocked { issue_ref: String::from_str(issue_ref_text), workflow: c.workflow.clone() },
        );
    }
    if lock_held {
        return Err(
            ManualRunError::ActiveCycle {
                issue_ref: String::from_str(issue_ref_text),
                workflow: c.workflow.clone(),
            },
        );
    }
    match lease_expired_at(c, now) {
        Err(e) => Err(ManualRunError::Time(e)),
        Ok(true) => Ok(()),
        Ok(false) => Err(
            ManualRunError::Owned {
                issue_ref: String::from_str(issue_ref_text),
                workflow: c.workflow.clone(),
                status: c.status,
            },
        ),
    }
}

/// `Ok` when a manual run may take the issue's claim now. What the clock
/// does not decide is fixed: no claim or a terminal one is taken, a blocked
/// or locked one is refused.
pub fn ensure_manual_run_can_take_claim(claim: Option<&ClaimRecord>, issue_ref_text: &str, lock_held: bool) -> (r:
    Result<(), ManualRunError>)
    ensures
        claim is None ==> r is Ok,
        claim matches Some(c) && (c.status == ClaimStatus::Complete || c.status == ClaimStatus::Released) ==> r is Ok,
        claim matches Some(c) && c.status == ClaimStatus::Blocked ==> r matches Err(ManualRunError::Blocked { .. }),
        claim matches Some(c) && c.status != ClaimStatus::Blocked && c.status != ClaimStatus::Complete && c.status
            != ClaimStatus::Released && lock_held ==> r matches Err(ManualRunError::ActiveCycle { .. }),
        claim matches Some(c) && c.status != ClaimStatus::Blocked && c.status != ClaimStatus::Complete && c.status
            != ClaimStatus::Released && !lock_held && c.lease_expires_at is None ==> r matches Err(
            ManualRunError::Owned { .. },
        ),
{
    let now = now_utc();
    manual_run_can_take_claim_at(claim, issue_ref_text, lock_held, now)
}

/// A claim's lease runs out once its expiry time is at or before `now`, and
/// never where it has none; its cleanup grace period has passed once its
/// last update plus the period is at or before `now`.
pub proof fn law_lease_and_grace_times(
    claim: ClaimRecord,
    now: Timestamp,
    at_secs: int,
    at_nanos: int,
    grace_secs: int,
)
    ensures
        claim.lease_expires_at is None ==> spec_lease_expired(claim, now) == Some(false),
        (claim.lease_expires_at matches Some(l) && spec_rfc3339_instant(l@) == Some((at_secs, at_nanos))) ==> spec_lease_expired(
            claim,
            now,
        ) == Some(at_secs < now.secs || (at_secs == now.secs && at_nanos <= now.nanos)),
        (claim.lease_expires_at matches Some(l) && spec_rfc3339_instant(l@) is None) ==> spec_lease_expired(claim, now) is None,
        spec_rfc3339_instant(claim.updated_at@) == Some((at_secs, at_nanos)) ==> spec_cleanup_due(claim, now, grace_secs) == Some(
            at_secs + grace_secs < now.secs || (at_secs + grace_secs == now.secs && at_nanos <= now.nanos),
        ),
        spec_rfc3339_instant(claim.updated_at@) is None ==> spec_cleanup_due(claim, now, grace_secs) is None,
{
}

/// Cleanup removes only complete or released claims, only on the filtered
/// repo, and only where a grace period is set; there it removes the claim
/// once the period has passed.
pub proof fn law_cleanup_takes_only_finished_claims(
    claim: ClaimRecord,
    repo_filter: Option<Seq<char>>,
    cleanup_after_secs: Option<i64>,
    now: Timestamp,
)
    ensures
        !(claim.status is Complete || claim.status is Released) ==> spec_terminal_cleanup(
            claim,
            repo_filter,
            cleanup_after_secs,
            now,
        ) == Some(false),
        (repo_filter matches Some(f) && claim.repo_ref@ != f) ==> spec_terminal_cleanup(claim, repo_filter, cleanup_after_secs, now)
            == Some(false),
        cleanup_after_secs is None ==> spec_terminal_cleanup(claim, repo_filter, cleanup_after_secs, now) == Some(false),
        (claim.status is Complete || claim.status is Released) && (repo_filter matches Some(f) ==> claim.repo_ref@ == f)
            ==> (cleanup_after_secs matches Some(g) ==> spec_terminal_cleanup(claim, repo_filter, cleanup_after_secs, now)
            == spec_cleanup_due(claim, now, g as int)),
{
}

/// A manual run may take an issue with no claim, or whose claim is complete
/// or released, even under a held lock; never one whose claim is blocked,
/// nor an unfinished one while a cycle holds its lock; otherwise only once
/// the claim's lease has run out, and never where it has no lease.
pub proof fn law_manual_run_takes_only_free_claims(claim: ClaimRecord, lock_held: bool, now: Timestamp)
    ensures
        spec_manual_run_allowed(None, lock_held, now) == Some(true),
        (claim.status is Complete || claim.status is Released) ==> spec_manual_run_allowed(Some(claim), lock_held, now) == Some(
            true,
        ),
        claim.status is Blocked ==> spec_manual_run_allowed(Some(claim), lock_held, now) == Some(false),
        !(claim.status is Complete || claim.status is Released) && lock_held ==> spec_manual_run_allowed(
            Some(claim),
            lock_held,
            now,
        ) == Some(false),
        !(claim.status is Complete || claim.status is Released || claim.status is Blocked) && !lock_held
            ==> spec_manual_run_allowed(Some(claim), lock_held, now) == spec_lease_expired(claim, now),
        !(claim.status is Complete || claim.status is Released || claim.status is Blocked) && !lock_held
            && claim.lease_expires_at is None ==> spec_manual_run_allowed(Some(claim), lock_held, now) == Some(false),
{
}

} // verus!

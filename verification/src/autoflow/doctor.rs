//! `autoflow doctor`: the consistency problems a claim shows, given what was
//! observed about its repo, its files, its last run and its lock.

use vstd::prelude::*;
use vstd::string::*;
use crate::autoflow::claims::{spec_status_name, status_name, ClaimRecord, ClaimStatus};
use crate::autoflow::command::DoctorFinding;
use crate::text::str_eq;

verus! {

/// What loading the claim's last run gave.
#[derive(Debug, Clone)]
pub enum RunObservation {
    /// The run loaded: the issue it is bound to and its workflow.
    Loaded { issue_ref: Option<String>, workflow: String },
    /// The run could not be loaded, with the reason.
    Missing { error: String },
}

/// What was found of the claim's issue lock.
#[derive(Debug, Clone)]
pub enum LockObservation {
    /// No lock file, or a lock file that holds no active lock.
    Absent,
    /// An active lock and its owner.
    Active { owner: String },
    /// A lock file that could not be read, with the reason.
    Unreadable { error: String },
}

/// What the doctor observed about one claim.
#[derive(Debug, Clone)]
pub struct ClaimObservation {
    pub repo_tracked: bool,
    /// Whether the claim's worktree exists, where the claim names one.
    pub worktree_exists: bool,
    /// Whether the artifact manifest exists, where the claim names one.
    pub manifest_exists: bool,
    /// The last run, where the claim names one.
    pub run: Option<RunObservation>,
    pub lock: LockObservation,
}

/// A finding as plain values.
pub open spec fn finding_view(f: DoctorFinding) -> (Seq<char>, Seq<char>, Seq<char>) {
    (f.scope@, f.kind@, f.detail@)
}

pub open spec fn findings_view(fs: Seq<DoctorFinding>) -> Seq<(Seq<char>, Seq<char>, Seq<char>)> {
    fs.map_values(|f: DoctorFinding| finding_view(f))
}

pub open spec fn opt_text(o: Option<String>) -> Seq<char> {
    match o {
        Some(s) => s@,
        None => "-"@,
    }
}

pub type FindingV = (Seq<char>, Seq<char>, Seq<char>);

pub open spec fn spec_repo_part(claim: ClaimRecord, obs: ClaimObservation) -> Seq<FindingV> {
    if !obs.repo_tracked {
        seq![(claim.issue_ref@, "missing_repo_binding"@, "repo `"@ + claim.repo_ref@ + "` is not tracked"@)]
    } else {
        Seq::empty()
    }
}

pub open spec fn spec_worktree_part(claim: ClaimRecord, obs: ClaimObservation) -> Seq<FindingV> {
    let live = !(claim.status == ClaimStatus::Complete || claim.status == ClaimStatus::Released);
    match claim.worktree_path {
        Some(path) => if live && !obs.worktree_exists {
            seq![(claim.issue_ref@, "missing_worktree"@, "workspace path `"@ + path@ + "` does not exist"@)]
        } else {
            Seq::empty()
        },
        None => Seq::empty(),
    }
}

pub open spec fn spec_manifest_part(claim: ClaimRecord, obs: ClaimObservation) -> Seq<FindingV> {
    match claim.artifact_manifest_path {
        Some(p) => if !obs.manifest_exists {
            seq![(claim.issue_ref@, "artifact_missing"@, "artifact manifest `"@ + p@ + "` does not exist"@)]
        } else {
            Seq::empty()
        },
        None => Seq::empty(),
    }
}

pub open spec fn spec_run_part(claim: ClaimRecord, obs: ClaimObservation) -> Seq<FindingV> {
    let scope = claim.issue_ref@;
    match (claim.last_run_id, obs.run) {
        (Some(run_id), Some(RunObservation::Loaded { issue_ref, workflow })) => {
            let bound = if !(issue_ref matches Some(i) && i@ == claim.issue_ref@) {
                seq![
                    (scope, "claim_run_mismatch"@, "run `"@ + run_id@ + "` is bound to `"@ + opt_text(issue_ref)
                        + "`"@),
                ]
            } else {
                Seq::empty()
            };
            let wf = if workflow@ != claim.workflow@ && claim.pending_dispatch is None {
                seq![
                    (scope, "claim_run_mismatch"@, "claim workflow `"@ + claim.workflow@
                        + "` disagrees with run workflow `"@ + workflow@ + "`"@),
                ]
            } else {
                Seq::empty()
            };
            bound + wf
        },
        (Some(run_id), Some(RunObservation::Missing { error })) => seq![
            (scope, "missing_run"@, "last run `"@ + run_id@ + "` could not be loaded: "@ + error@),
        ],
        _ => Seq::empty(),
    }
}

pub open spec fn spec_lock_part(claim: ClaimRecord, obs: ClaimObservation) -> Seq<FindingV> {
    match obs.lock {
        LockObservation::Active { owner } => if claim.status != ClaimStatus::Running {
            seq![
                (claim.issue_ref@, "stale_lock"@, "active lock owned by `"@ + owner@
                    + "` remains while claim status is `"@ + spec_status_name(claim.status) + "`"@),
            ]
        } else {
            Seq::empty()
        },
        LockObservation::Unreadable { error } => seq![
            (claim.issue_ref@, "stale_lock"@, "active lock is unreadable: "@ + error@),
        ],
        LockObservation::Absent => Seq::empty(),
    }
}

/// The problems of one claim, in the order the doctor checks them: an
/// untracked repo; a missing worktree for a live claim; a missing artifact
/// manifest; a last run bound to another issue, run by another workflow
/// while no dispatch is pending, or not loadable; and a stale or unreadable
/// lock.
pub open spec fn spec_claim_findings(claim: ClaimRecord, obs: ClaimObservation) -> Seq<FindingV> {
    spec_repo_part(claim, obs) + spec_worktree_part(claim, obs) + spec_manifest_part(claim, obs) + spec_run_part(
        claim,
        obs,
    ) + spec_lock_part(claim, obs)
}

fn finding(scope: &str, kind: &str, detail: String) -> (r: DoctorFinding)
    ensures
        finding_view(r) == (scope@, kind@, detail@),
{
    DoctorFinding { scope: String::from_str(scope), kind: String::from_str(kind), detail }
}

fn push_finding(out: &mut Vec<DoctorFinding>, f: DoctorFinding)
    ensures
        findings_view(final(out)@) == findings_view(old(out)@).push(finding_view(f)),
{
    let ghost pre = findings_view(out@);
    out.push(f);
    proof {
        assert(findings_view(out@) =~= pre.push(finding_view(f)));
    }
}

fn concat3(a: &str, b: &str, c: &str) -> (r: String)
    ensures
        r@ == a@ + b@ + c@,
{
    let mut s = String::from_str(a);
    s.append(b);
    s.append(c);
    s
}

fn none_found() -> (r: Vec<DoctorFinding>)
    ensures
        findings_view(r@) == Seq::<FindingV>::empty(),
{
    let v: Vec<DoctorFinding> = Vec::new();
    proof {
        assert(findings_view(v@) =~= Seq::<FindingV>::empty());
    }
    v
}

fn one_found(f: DoctorFinding) -> (r: Vec<DoctorFinding>)
    ensures
        findings_view(r@) == seq![finding_view(f)],
{
    let mut v: Vec<DoctorFinding> = Vec::new();
    v.push(f);
    proof {
        assert(findings_view(v@) =~= seq![finding_view(f)]);
    }
    v
}

fn append_findings(out: &mut Vec<DoctorFinding>, more: Vec<DoctorFinding>)
    ensures
        findings_view(final(out)@) == findings_view(old(out)@) + findings_view(more@),
{
    let ghost pre = findings_view(out@);
    let ghost m = findings_view(more@);
    let mut more = more;
    let total = more.len();
    let mut i: usize = 0;
    proof {
        assert(pre + m.subrange(0, 0) =~= pre);
        assert(m.subrange(0, m.len() as int) =~= m);
    }
    while more.len() > 0
        invariant
            m.len() == total,
            i + more@.len() == m.len(),
            findings_view(out@) == pre + m.subrange(0, i as int),
            findings_view(more@) == m.subrange(i as int, m.len() as int),
        decreases more@.len(),
    {
        let ghost rest = more@;
        let f = more.remove(0);
        proof {
            assert(finding_view(f) == m[i as int]) by {
                assert(findings_view(rest)[0] == m.subrange(i as int, m.len() as int)[0]);
            }
            assert(findings_view(more@) =~= m.subrange(i + 1, m.len() as int)) by {
                assert forall|k: int| 0 <= k < more@.len() implies finding_view(more@[k]) == m[i + 1 + k] by {
                    assert(more@[k] == rest[k + 1]);
                    assert(findings_view(rest)[k + 1] == m.subrange(i as int, m.len() as int)[k + 1]);
                }
            }
        }
        push_finding(out, f);
        proof {
            assert(m.subrange(0, i + 1) =~= m.subrange(0, i as int).push(m[i as int]));
        }
        i = i + 1;
    }
}

fn repo_part(claim: &ClaimRecord, obs: &ClaimObservation) -> (r: Vec<DoctorFinding>)
    ensures
        findings_view(r@) == spec_repo_part(*claim, *obs),
{
    if !obs.repo_tracked {
        one_found(
            finding(
                claim.issue_ref.as_str(),
                "missing_repo_binding",
                concat3("repo `", claim.repo_ref.as_str(), "` is not tracked"),
            ),
        )
    } else {
        none_found()
    }
}

fn worktree_part(claim: &ClaimRecord, obs: &ClaimObservation) -> (r: Vec<DoctorFinding>)
    ensures
        findings_view(r@) == spec_worktree_part(*claim, *obs),
{
    let live = match claim.status {
        ClaimStatus::Complete | ClaimStatus::Released => false,
        _ => true,
    };
    match &claim.worktree_path {
        Some(path) => {
            if live && !obs.worktree_exists {
                one_found(
                    finding(
                        claim.issue_ref.as_str(),
                        "missing_worktree",
                        concat3("workspace path `", path.as_str(), "` does not exist"),
                    ),
                )
            } else {
                none_found()
            }
        },
        None => none_found(),
    }
}

fn manifest_part(claim: &ClaimRecord, obs: &ClaimObservation) -> (r: Vec<DoctorFinding>)
    ensures
        findings_view(r@) == spec_manifest_part(*claim, *obs),
{
    match &claim.artifact_manifest_path {
        Some(p) => {
            if !obs.manifest_exists {
                one_found(
                    finding(
                        claim.issue_ref.as_str(),
                        "artifact_missing",
                        concat3("artifact manifest `", p.as_str(), "` does not exist"),
                    ),
                )
            } else {
                none_found()
            }
        },
        None => none_found(),
    }
}

fn run_part(claim: &ClaimRecord, obs: &ClaimObservation) -> (r: Vec<DoctorFinding>)
    ensures
        findings_view(r@) == spec_run_part(*claim, *obs),
{
    let scope = claim.issue_ref.as_str();
    let run_id = match &claim.last_run_id {
        Some(r) => r,
        None => return none_found(),
    };
    match &obs.run {
        Some(RunObservation::Loaded { issue_ref, workflow }) => {
            let bound = match issue_ref {
                Some(i) => str_eq(i.as_str(), claim.issue_ref.as_str()),
                None => false,
            };
            let mut out = if !bound {
                let mut d = concat3("run `", run_id.as_str(), "` is bound to `");
                match issue_ref {
                    Some(i) => d.append(i.as_str()),
                    None => d.append("-"),
                }
                d.append("`");
                one_found(finding(scope, "claim_run_mismatch", d))
            } else {
                none_found()
            };
            let more = if !str_eq(workflow.as_str(), claim.workflow.as_str()) && claim.pending_dispatch.is_none() {
                let mut d = concat3("claim workflow `", claim.workflow.as_str(), "` disagrees with run workflow `");
                d.append(workflow.as_str());
                d.append("`");
                one_found(finding(scope, "claim_run_mismatch", d))
            } else {
                none_found()
            };
            append_findings(&mut out, more);
            out
        },
        Some(RunObservation::Missing { error }) => {
            let mut d = concat3("last run `", run_id.as_str(), "` could not be loaded: ");
            d.append(error.as_str());
            one_found(finding(scope, "missing_run", d))
        },
        None => none_found(),
    }
}

fn lock_part(claim: &ClaimRecord, obs: &ClaimObservation) -> (r: Vec<DoctorFinding>)
    ensures
        findings_view(r@) == spec_lock_part(*claim, *obs),
{
    let scope = claim.issue_ref.as_str();
    match &obs.lock {
        LockObservation::Active { owner } => {
            if claim.status != ClaimStatus::Running {
                let mut d = concat3("active lock owned by `", owner.as_str(), "` remains while claim status is `");
                d.append(status_name(claim.status));
                d.append("`");
                one_found(finding(scope, "stale_lock", d))
            } else {
                none_found()
            }
        },
        LockObservation::Unreadable { error } => {
            let mut d = String::from_str("active lock is unreadable: ");
            d.append(error.as_str());
            one_found(finding(scope, "stale_lock", d))
        },
        LockObservation::Absent => none_found(),
    }
}

/// The problems the doctor reports for one claim.
pub fn claim_doctor_findings(claim: &ClaimRecord, obs: &ClaimObservation) -> (r: Vec<DoctorFinding>)
    ensures
        findings_view(r@) == spec_claim_findings(*claim, *obs),
{
    let mut out = repo_part(claim, obs);
    append_findings(&mut out, worktree_part(claim, obs));
    append_findings(&mut out, manifest_part(claim, obs));
    append_findings(&mut out, run_part(claim, obs));
    append_findings(&mut out, lock_part(claim, obs));
    out
}

/// An active lock with no claim beside it.
pub fn orphan_lock_finding(issue_dir_name: Option<&str>, lock_path: &str) -> (r: DoctorFinding)
    ensures
        r.scope@ == match issue_dir_name {
            Some(n) => n@,
            None => "unknown"@,
        },
        r.kind@ == "stale_lock"@,
        r.detail@ == "orphan active lock `"@ + lock_path@ + "` has no claim.toml"@,
{
    let scope = match issue_dir_name {
        Some(n) => n,
        None => "unknown",
    };
    DoctorFinding {
        scope: String::from_str(scope),
        kind: String::from_str("stale_lock"),
        detail: concat3("orphan active lock `", lock_path, "` has no claim.toml"),
    }
}

/// A queued wake whose payload does not hold up.
pub fn invalid_wake_finding(entity_ref: &str, wake_id: &str, problem: &str) -> (r: DoctorFinding)
    ensures
        r.scope@ == entity_ref@,
        r.kind@ == "invalid_wake_payload"@,
        r.detail@ == "wake `"@ + wake_id@ + "` "@ + problem@,
{
    let mut d = concat3("wake `", wake_id, "` ");
    d.append(problem);
    DoctorFinding { scope: String::from_str(entity_ref), kind: String::from_str("invalid_wake_payload"), detail: d }
}

} // verus!

//! The `rupu autoflow` subcommands, the formats each accepts, and the small
//! decisions they share: permission mode, filters and display keys.

use vstd::prelude::*;
use vstd::string::*;
use crate::output::{ensure_supported, spec_supports, OutputFormat, SupportedFormats, UnsupportedFormat};
use crate::text::{join_seqs, join_strings, str_eq};
use crate::ui::LiveViewMode;

verus! {

/// A `--repo` filter shared by several subcommands.
#[derive(Debug, Clone)]
pub struct RepoFilterArgs {
    /// Limit results to one repo target, for example `github:owner/repo`.
    pub repo: Option<String>,
}

/// The `rupu autoflow` subcommands.
#[derive(Debug, Clone)]
pub enum Action {
    /// List autoflow-enabled workflows.
    List(RepoFilterArgs),
    /// Show one autoflow workflow and its resolved metadata.
    Show { name: String, repo: Option<String> },
    /// Execute one autonomous cycle for one issue target.
    Run { name: String, target: String, repo: Option<String>, mode: Option<String> },
    /// Reconcile every discovered autoflow once.
    Tick,
    /// Run the autoflow reconciler as a long-lived local worker.
    Serve {
        repo: Option<String>,
        worker: Option<String>,
        idle_sleep: String,
        view: Option<LiveViewMode>,
        quiet: bool,
    },
    /// Inspect queued and recently processed wakes.
    Wakes(RepoFilterArgs),
    /// A live operator view across workers, claims, wakes and recent activity.
    Monitor { repo: Option<String>, worker: Option<String>, watch: bool, interval: String },
    /// Durable autoflow cycle and event history.
    History {
        issue_ref: Option<String>,
        repo: Option<String>,
        source: Option<String>,
        worker: Option<String>,
        event: Option<String>,
        limit: usize,
        watch: bool,
        interval: String,
    },
    /// Explain the current autonomous state for one issue.
    Explain { issue_ref: String, repo: Option<String> },
    /// Consistency checks across claims, wakes and runs.
    Doctor(RepoFilterArgs),
    /// Safe, bounded remediation of one issue claim.
    Repair { issue_ref: String, release: bool, requeue: bool },
    /// Enqueue one manual wake for an issue.
    Requeue { issue_ref: String, event: Option<String>, not_before: Option<String> },
    /// Summarize persisted claim state.
    Status(RepoFilterArgs),
    /// Inspect persisted claims.
    Claims(RepoFilterArgs),
    /// Force-release one claim.
    Release { issue_ref: String },
}

/// The command name and the formats of each subcommand; the watching views
/// are tables only.
pub open spec fn spec_action_formats(action: Action) -> (Seq<char>, SupportedFormats) {
    match action {
        Action::List(_) => ("autoflow list"@, SupportedFormats::TableJsonCsv),
        Action::Show { .. } => ("autoflow show"@, SupportedFormats::TableJson),
        Action::Run { .. } => ("autoflow run"@, SupportedFormats::TableOnly),
        Action::Tick => ("autoflow tick"@, SupportedFormats::TableOnly),
        Action::Serve { .. } => ("autoflow serve"@, SupportedFormats::TableOnly),
        Action::Wakes(_) => ("autoflow wakes"@, SupportedFormats::TableJsonCsv),
        Action::Monitor { watch, .. } => (
            "autoflow monitor"@,
            if watch { SupportedFormats::TableOnly } else { SupportedFormats::TableJson },
        ),
        Action::History { watch, .. } => (
            "autoflow history"@,
            if watch { SupportedFormats::TableOnly } else { SupportedFormats::TableJsonCsv },
        ),
        Action::Explain { .. } => ("autoflow explain"@, SupportedFormats::TableJson),
        Action::Doctor(_) => ("autoflow doctor"@, SupportedFormats::TableJsonCsv),
        Action::Repair { .. } => ("autoflow repair"@, SupportedFormats::TableOnly),
        Action::Requeue { .. } => ("autoflow requeue"@, SupportedFormats::TableOnly),
        Action::Status(_) => ("autoflow status"@, SupportedFormats::TableJsonCsv),
        Action::Claims(_) => ("autoflow claims"@, SupportedFormats::TableJsonCsv),
        Action::Release { .. } => ("autoflow release"@, SupportedFormats::TableOnly),
    }
}

/// `Ok` when `action` can render `format`; the error names the command.
pub fn ensure_output_format(action: &Action, format: OutputFormat) -> (r: Result<(), UnsupportedFormat>)
    ensures
        r is Ok <==> spec_supports(spec_action_formats(*action).1, format),
        r matches Err(e) ==> e.command@ == spec_action_formats(*action).0 && e.format == format,
{
    let (command_name, supported) = match action {
        Action::List(_) => ("autoflow list", SupportedFormats::TableJsonCsv),
        Action::Show { .. } => ("autoflow show", SupportedFormats::TableJson),
        Action::Run { .. } => ("autoflow run", SupportedFormats::TableOnly),
        Action::Tick => ("autoflow tick", SupportedFormats::TableOnly),
        Action::Serve { .. } => ("autoflow serve", SupportedFormats::TableOnly),
        Action::Wakes(_) => ("autoflow wakes", SupportedFormats::TableJsonCsv),
        Action::Monitor { watch, .. } => {
            if *watch {
                ("autoflow monitor", SupportedFormats::TableOnly)
            } else {
                ("autoflow monitor", SupportedFormats::TableJson)
            }
        },
        Action::History { watch, .. } => {
            if *watch {
                ("autoflow history", SupportedFormats::TableOnly)
            } else {
                ("autoflow history", SupportedFormats::TableJsonCsv)
            }
        },
        Action::Explain { .. } => ("autoflow explain", SupportedFormats::TableJson),
        Action::Doctor(_) => ("autoflow doctor", SupportedFormats::TableJsonCsv),
        Action::Repair { .. } => ("autoflow repair", SupportedFormats::TableOnly),
        Action::Requeue { .. } => ("autoflow requeue", SupportedFormats::TableOnly),
        Action::Status(_) => ("autoflow status", SupportedFormats::TableJsonCsv),
        Action::Claims(_) => ("autoflow claims", SupportedFormats::TableJsonCsv),
        Action::Release { .. } => ("autoflow release", SupportedFormats::TableOnly),
    };
    ensure_supported(command_name, format, supported)
}

/// Why a permission mode cannot drive an autoflow run.
#[derive(Debug, Clone)]
pub enum PermissionModeError {
    /// `ask` needs a human at the prompt.
    Ask,
    /// Not a mode at all.
    Invalid { mode: String },
}

impl PermissionModeError {
    pub fn message(&self) -> (r: String)
        ensures
            r@ == match *self {
                PermissionModeError::Ask =>
                    "autoflow does not support `ask` permission mode; use `bypass` or `readonly`"@,
                PermissionModeError::Invalid { mode } => "invalid autoflow permission mode `"@ + mode@
                    + "`; expected `bypass` or `readonly`"@,
            },
    {
        match self {
            PermissionModeError::Ask => String::from_str(
                "autoflow does not support `ask` permission mode; use `bypass` or `readonly`",
            ),
            PermissionModeError::Invalid { mode } => {
                let mut s = String::from_str("invalid autoflow permission mode `");
                s.append(mode.as_str());
                s.append("`; expected `bypass` or `readonly`");
                s
            },
        }
    }
}

/// The mode that applies: the override, else the configured mode, else `bypass`.
pub open spec fn chosen_mode(mode_override: Option<Seq<char>>, config_mode: Option<Seq<char>>) -> Seq<char> {
    match mode_override {
        Some(m) => m,
        None => match config_mode {
            Some(m) => m,
            None => "bypass"@,
        },
    }
}

/// What the permission mode resolves to: `bypass` and `readonly` are kept,
/// `ask` and anything else are refused.
pub open spec fn spec_permission_mode(mode_override: Option<Seq<char>>, config_mode: Option<Seq<char>>) -> Result<
    Seq<char>,
    Option<Seq<char>>,
> {
    let mode = chosen_mode(mode_override, config_mode);
    if mode == "bypass"@ || mode == "readonly"@ {
        Ok(mode)
    } else if mode == "ask"@ {
        Err(None)
    } else {
        Err(Some(mode))
    }
}

/// The view of an optional text.
pub open spec fn opt_view(o: Option<&str>) -> Option<Seq<char>> {
    match o {
        Some(s) => Some(s@),
        None => None,
    }
}

/// The permission mode an autoflow run uses.
pub fn resolve_autoflow_permission_mode(mode_override: Option<&str>, config_mode: Option<&str>) -> (r: Result<
    String,
    PermissionModeError,
>)
    ensures
        match spec_permission_mode(opt_view(mode_override), opt_view(config_mode)) {
            Ok(m) => r matches Ok(s) && s@ == m,
            Err(None) => r matches Err(PermissionModeError::Ask),
            Err(Some(m)) => r matches Err(PermissionModeError::Invalid { mode }) && mode@ == m,
        },
{
    let mode = match mode_override {
        Some(m) => m,
        None => match config_mode {
            Some(m) => m,
            None => "bypass",
        },
    };
    proof {
        reveal_strlit("bypass");
    }
    if str_eq(mode, "bypass") || str_eq(mode, "readonly") {
        Ok(String::from_str(mode))
    } else if str_eq(mode, "ask") {
        Err(PermissionModeError::Ask)
    } else {
        Err(PermissionModeError::Invalid { mode: String::from_str(mode) })
    }
}

/// A resolved permission mode, given back as an override, resolves to itself
/// whatever the configuration says.
pub proof fn law_permission_mode_stable(
    mode_override: Option<Seq<char>>,
    config_mode: Option<Seq<char>>,
    other_config: Option<Seq<char>>,
)
    requires
        spec_permission_mode(mode_override, config_mode) is Ok,
    ensures
        spec_permission_mode(Some(spec_permission_mode(mode_override, config_mode)->Ok_0), other_config)
            == spec_permission_mode(mode_override, config_mode),
{
}

/// An override always wins over the configured mode.
pub proof fn law_permission_override_wins(mode: Seq<char>, config_a: Option<Seq<char>>, config_b: Option<Seq<char>>)
    ensures
        spec_permission_mode(Some(mode), config_a) == spec_permission_mode(Some(mode), config_b),
{
}

/// `key=value` for each workflow input, comma-separated, in key order; `-`
/// without inputs.
pub open spec fn spec_format_inputs(inputs: Seq<(Seq<char>, Seq<char>)>) -> Seq<char>
    decreases inputs.len(),
{
    if inputs.len() == 0 {
        "-"@
    } else if inputs.len() == 1 {
        inputs[0].0 + "="@ + inputs[0].1
    } else {
        spec_format_inputs(inputs.drop_last()) + ","@ + inputs.last().0 + "="@ + inputs.last().1
    }
}

/// The views of input entries.
pub open spec fn entry_views(inputs: Seq<(String, String)>) -> Seq<(Seq<char>, Seq<char>)> {
    inputs.map_values(|e: (String, String)| (e.0@, e.1@))
}

/// The inputs a dispatch carries, as one cell: `a=1,b=2`, or `-`.
pub fn format_inputs(inputs: &Vec<(String, String)>) -> (r: String)
    ensures
        r@ == spec_format_inputs(entry_views(inputs@)),
{
    if inputs.len() == 0 {
        proof {
            reveal_strlit("-");
        }
        return String::from_str("-");
    }
    let mut out = String::new();
    let mut i: usize = 0;
    while i < inputs.len()
        invariant
            i <= inputs@.len(),
            inputs@.len() > 0,
            i == 0 ==> out@ == Seq::<char>::empty(),
            i > 0 ==> out@ == spec_format_inputs(entry_views(inputs@.subrange(0, i as int))),
        decreases inputs@.len() - i,
    {
        if i > 0 {
            out.append(",");
        }
        out.append(inputs[i].0.as_str());
        out.append("=");
        out.append(inputs[i].1.as_str());
        proof {
            let pre = entry_views(inputs@.subrange(0, i as int));
            let post = entry_views(inputs@.subrange(0, i + 1));
            assert(post.drop_last() =~= pre);
            assert(post.last() == (inputs@[i as int].0@, inputs@[i as int].1@));
            if i == 0 {
                assert(post.len() == 1);
            }
        }
        i = i + 1;
    }
    proof {
        assert(inputs@.subrange(0, inputs@.len() as int) =~= inputs@);
    }
    out
}

/// `<repo or ->|<scope>|<path>`: the key that tells visible autoflows apart.
pub fn visible_autoflow_key(repo_ref: Option<&str>, scope: &str, path: &str) -> (r: String)
    ensures
        r@ == (match repo_ref {
            Some(repo) => repo@,
            None => "-"@,
        }) + "|"@ + scope@ + "|"@ + path@,
{
    let mut s = match repo_ref {
        Some(repo) => String::from_str(repo),
        None => String::from_str("-"),
    };
    s.append("|");
    s.append(scope);
    s.append("|");
    s.append(path);
    s
}

/// A `--worker` filter matches a worker by id or by display name; no filter
/// matches every worker.
pub fn worker_filter_matches(filter: Option<&str>, worker_id: &str, worker_name: &str) -> (r: bool)
    ensures
        r == match filter {
            Some(f) => f@ == worker_id@ || f@ == worker_name@,
            None => true,
        },
{
    match filter {
        Some(f) => str_eq(f, worker_id) || str_eq(f, worker_name),
        None => true,
    }
}

/// One consistency problem `autoflow doctor` reports.
#[derive(Debug, Clone)]
pub struct DoctorFinding {
    pub scope: String,
    pub kind: String,
    pub detail: String,
}

impl DoctorFinding {
    pub fn new(scope: &str, kind: &str, detail: &str) -> (r: DoctorFinding)
        ensures
            r.scope@ == scope@,
            r.kind@ == kind@,
            r.detail@ == detail@,
    {
        DoctorFinding {
            scope: String::from_str(scope),
            kind: String::from_str(kind),
            detail: String::from_str(detail),
        }
    }
}

/// What `autoflow repair` does beyond dropping invalid queued wakes.
#[derive(Debug, Clone, Copy, PartialEq, Eq, Structural)]
pub struct RepairPlan {
    /// Rebuild the claim's worktree, which is gone.
    pub rebuild_worktree: bool,
    /// Release the claim.
    pub release: bool,
    /// Queue a repair wake for the issue.
    pub requeue: bool,
}

/// The repairs to make: at most one of `--release` and `--requeue`; a claim
/// with a worktree and a branch whose worktree is gone has it rebuilt,
/// unless it is being released.
pub fn repair_plan(release: bool, requeue: bool, has_worktree_and_branch: bool, worktree_exists: bool) -> (r: Result<
    RepairPlan,
    String,
>)
    ensures
        release && requeue ==> (r matches Err(e) && e@ == "repair accepts at most one of `--release` or `--requeue`"@),
        !(release && requeue) ==> r == Ok::<RepairPlan, String>(
            RepairPlan { rebuild_worktree: !release && has_worktree_and_branch && !worktree_exists, release, requeue },
        ),
{
    if release && requeue {
        return Err(String::from_str("repair accepts at most one of `--release` or `--requeue`"));
    }
    Ok(RepairPlan { rebuild_worktree: !release && has_worktree_and_branch && !worktree_exists, release, requeue })
}

/// The report of `autoflow repair`: `no repairs applied for <issue>`, or
/// `repaired <issue>:` followed by one `- <repair>` line each.
pub open spec fn spec_repair_report(issue_ref: Seq<char>, repairs: Seq<Seq<char>>) -> Seq<char> {
    if repairs.len() == 0 {
        "no repairs applied for "@ + issue_ref
    } else {
        "repaired "@ + issue_ref + ":\n- "@ + join_seqs(repairs, "\n- "@)
    }
}

/// The report of `autoflow repair`.
pub fn repair_report(issue_ref: &str, repairs: &Vec<String>) -> (r: String)
    ensures
        r@ == spec_repair_report(issue_ref@, repairs@.map_values(|s: String| s@)),
{
    if repairs.len() == 0 {
        let mut s = String::from_str("no repairs applied for ");
        s.append(issue_ref);
        return s;
    }
    let mut s = String::from_str("repaired ");
    s.append(issue_ref);
    s.append(":\n- ");
    s.append(join_strings(repairs, "\n- ").as_str());
    s
}

} // verus!

//! `rupu agent list | show | edit`: which formats each action accepts and
//! which on-disk agent file a name resolves to.

use vstd::prelude::*;
use vstd::string::*;
use crate::output::{ensure_supported, spec_supports, OutputFormat, SupportedFormats, UnsupportedFormat};
use crate::text::str_eq;

verus! {

/// The `rupu agent` subcommands.
#[derive(Debug, Clone)]
pub enum Action {
    /// List all available agents (global + project).
    List { no_color: bool },
    /// Print an agent's frontmatter and body.
    Show {
        name: String,
        no_color: bool,
        theme: Option<String>,
        pager: bool,
        no_pager: bool,
    },
    /// Open an agent file in `$VISUAL` / `$EDITOR`.
    Edit { name: String, scope: Option<String>, editor: Option<String> },
}

pub open spec fn spec_action_formats(action: Action) -> (Seq<char>, SupportedFormats) {
    match action {
        Action::List { .. } => ("agent list"@, SupportedFormats::TableJsonCsv),
        Action::Show { .. } => ("agent show"@, SupportedFormats::TableJson),
        Action::Edit { .. } => ("agent edit"@, SupportedFormats::TableOnly),
    }
}

/// `Ok` when `action` can render `format`; the error names the command.
pub fn ensure_output_format(action: &Action, format: OutputFormat) -> (r: Result<(), UnsupportedFormat>)
    ensures
        r is Ok <==> spec_supports(spec_action_formats(*action).1, format),
        r matches Err(e) ==> e.command@ == spec_action_formats(*action).0 && e.format == format,
{
    let (command_name, supported) = match action {
        Action::List { .. } => ("agent list", SupportedFormats::TableJsonCsv),
        Action::Show { .. } => ("agent show", SupportedFormats::TableJson),
        Action::Edit { .. } => ("agent edit", SupportedFormats::TableOnly),
    };
    ensure_supported(command_name, format, supported)
}

/// A candidate agent file: where it would live and whether it exists there.
#[derive(Debug, Clone)]
pub struct AgentCandidate {
    pub path: String,
    pub exists: bool,
}

/// Why no agent file could be chosen.
#[derive(Debug, Clone, PartialEq, Eq)]
pub enum AgentPathError {
    /// `--scope project` and the project file is missing (the path it looked at).
    NotFoundAtProject { name: String, path: String },
    /// `--scope project` outside any project.
    NoProjectRoot,
    /// `--scope global` and the global file is missing.
    NotFoundAtGlobal { name: String, path: String },
    /// `--scope` was neither `global` nor `project`.
    InvalidScope { scope: String },
    /// Neither layer holds the agent.
    NotFound { name: String },
}

impl AgentPathError {
    /// The diagnostic the CLI prints.
    pub fn message(&self) -> (r: String)
        ensures
            r@ == match *self {
                AgentPathError::NotFoundAtProject { name, path } =>
                    "agent `"@ + name@ + "` not found at project scope ("@ + path@ + ")"@,
                AgentPathError::NoProjectRoot =>
                    "no project root detected; cannot use --scope project"@,
                AgentPathError::NotFoundAtGlobal { name, path } =>
                    "agent `"@ + name@ + "` not found at global scope ("@ + path@ + ")"@,
                AgentPathError::InvalidScope { scope } =>
                    "invalid --scope `"@ + scope@ + "` (expected `global` or `project`)"@,
                AgentPathError::NotFound { name } =>
                    "agent `"@ + name@ + "` not found in project or global agents dir"@,
            },
    {
        match self {
            AgentPathError::NotFoundAtProject { name, path } => {
                let mut s = String::from_str("agent `");
                s.append(name.as_str());
                s.append("` not found at project scope (");
                s.append(path.as_str());
                s.append(")");
                s
            },
            AgentPathError::NoProjectRoot => String::from_str(
                "no project root detected; cannot use --scope project",
            ),
            AgentPathError::NotFoundAtGlobal { name, path } => {
                let mut s = String::from_str("agent `");
                s.append(name.as_str());
                s.append("` not found at global scope (");
                s.append(path.as_str());
                s.append(")");
                s
            },
            AgentPathError::InvalidScope { scope } => {
                let mut s = String::from_str("invalid --scope `");
                s.append(scope.as_str());
                s.append("` (expected `global` or `project`)");
                s
            },
            AgentPathError::NotFound { name } => {
                let mut s = String::from_str("agent `");
                s.append(name.as_str());
                s.append("` not found in project or global agents dir");
                s
            },
        }
    }
}

/// The file `agent show` reads: the project shadow when it exists, else the
/// global file when it exists.
pub fn locate_agent_file(name: &str, project: Option<AgentCandidate>, global: AgentCandidate) -> (r:
    Result<String, AgentPathError>)
    ensures
        match project {
            Some(p) if p.exists => r matches Ok(path) && path@ == p.path@,
            _ => if global.exists {
                r matches Ok(path) && path@ == global.path@
            } else {
                r matches Err(AgentPathError::NotFound { name: n }) && n@ == name@
            },
        },
{
    if let Some(p) = project {
        if p.exists {
            return Ok(p.path);
        }
    }
    if global.exists {
        Ok(global.path)
    } else {
        Err(AgentPathError::NotFound { name: String::from_str(name) })
    }
}

/// The file `agent edit` opens. With `--scope` set it is honoured strictly;
/// without it the project shadow wins when present, then the global file.
pub fn resolve_agent_path(
    name: &str,
    scope: Option<&str>,
    project: Option<AgentCandidate>,
    global: AgentCandidate,
) -> (r: Result<String, AgentPathError>)
    ensures
        match scope {
            Some(s) => if s@ == "project"@ {
                match project {
                    Some(p) => if p.exists {
                        r matches Ok(path) && path@ == p.path@
                    } else {
                        r matches Err(AgentPathError::NotFoundAtProject { name: n, path })
                            && n@ == name@ && path@ == p.path@
                    },
                    None => r matches Err(AgentPathError::NoProjectRoot),
                }
            } else if s@ == "global"@ {
                if global.exists {
                    r matches Ok(path) && path@ == global.path@
                } else {
                    r matches Err(AgentPathError::NotFoundAtGlobal { name: n, path })
                        && n@ == name@ && path@ == global.path@
                }
            } else {
                r matches Err(AgentPathError::InvalidScope { scope: sc }) && sc@ == s@
            },
            None => match project {
                Some(p) if p.exists => r matches Ok(path) && path@ == p.path@,
                _ => if global.exists {
                    r matches Ok(path) && path@ == global.path@
                } else {
                    r matches Err(AgentPathError::NotFound { name: n }) && n@ == name@
                },
            },
        },
{
    match scope {
        Some(s) => {
            if str_eq(s, "project") {
                match project {
                    Some(p) => if p.exists {
                        Ok(p.path)
                    } else {
                        Err(AgentPathError::NotFoundAtProject { name: String::from_str(name), path: p.path })
                    },
                    None => Err(AgentPathError::NoProjectRoot),
                }
            } else if str_eq(s, "global") {
                if global.exists {
                    Ok(global.path)
                } else {
                    Err(AgentPathError::NotFoundAtGlobal { name: String::from_str(name), path: global.path })
                }
            } else {
                Err(AgentPathError::InvalidScope { scope: String::from_str(s) })
            }
        },
        None => locate_agent_file(name, project, global),
    }
}

/// `std::path::Path::starts_with`: component-wise prefix of two paths.
pub uninterp spec fn spec_path_starts_with(path: Seq<char>, base: Seq<char>) -> bool;

/// `std::path::Path::starts_with`.
///
/// Claims only that the answer is a function of the two path strings; the
/// component rules (separators, `.` segments) are left to std.
#[verifier::external_body]
pub(crate) fn path_starts_with(path: &str, base: &str) -> (r: bool)
    ensures
        r == spec_path_starts_with(path@, base@),
{
    std::path::Path::new(path).starts_with(base)
}

/// The scope label for a file that does, or does not, live under the global dir.
pub fn scope_label(under_global: bool) -> (r: &'static str)
    ensures
        r@ == (if under_global { "global"@ } else { "project"@ }),
{
    if under_global {
        "global"
    } else {
        "project"
    }
}

/// `global` when `path` lies under the global agents root, else `project`.
pub fn describe_scope(path: &str, global: &str) -> (r: &'static str)
    ensures
        r@ == (if spec_path_starts_with(path@, global@) { "global"@ } else { "project"@ }),
{
    scope_label(path_starts_with(path, global))
}

/// The scope column of `agent list`: `project` when the project shadow
/// exists, `global` when only the global file exists, `?` otherwise.
pub fn scope_for(project_exists: Option<bool>, global_exists: bool) -> (r: String)
    ensures
        r@ == (if project_exists == Some(true) {
            "project"@
        } else if global_exists {
            "global"@
        } else {
            "?"@
        }),
{
    if let Some(true) = project_exists {
        return String::from_str("project");
    }
    if global_exists {
        String::from_str("global")
    } else {
        String::from_str("?")
    }
}

} // verus!

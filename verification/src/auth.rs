//! `rupu auth login | logout | status | backend`: vendor names, the
//! precedence that decides an account's kind, and the backend report.

use vstd::prelude::*;
use vstd::string::*;
use crate::number::{parse_unsigned, spec_parse_unsigned};
use crate::output::{ensure_supported, spec_supports, OutputFormat, SupportedFormats, UnsupportedFormat};
use crate::text::{
    chars_of, contains_chars, contains_seq, ends_with_chars, eq_chars, has_prefix, has_suffix, is_ws,
    lower_chars, lower_seq, matches_at, occurs_at, str_eq, string_from_chars, trim_chars, trim_seq,
};
use crate::ui::LiveViewMode;

verus! {

/// Authentication mode.
#[derive(Debug, Clone, Copy, PartialEq, Eq, Structural)]
pub enum AuthModeArg {
    ApiKey,
    Sso,
}

/// The `rupu auth` subcommands.
#[derive(Debug, Clone)]
pub enum Action {
    /// Store credentials for an account.
    Login { account: String, kind: Option<String>, mode: AuthModeArg, key: Option<String> },
    /// Remove a stored credential.
    Logout { account: Option<String>, mode: Option<AuthModeArg>, all: bool, yes: bool },
    /// Show configured providers and backend.
    Status,
    /// Show where credentials are stored (`--use` is kept as `use_backend`).
    Backend {
        use_backend: Option<String>,
        view: LiveViewMode,
        no_color: bool,
        pager: bool,
        no_pager: bool,
    },
}

pub open spec fn spec_action_formats(action: Action) -> (Seq<char>, SupportedFormats) {
    match action {
        Action::Status => ("auth status"@, SupportedFormats::TableJsonCsv),
        Action::Backend { .. } => ("auth backend"@, SupportedFormats::TableJson),
        Action::Login { .. } => ("auth login"@, SupportedFormats::TableOnly),
        Action::Logout { .. } => ("auth logout"@, SupportedFormats::TableOnly),
    }
}

/// `Ok` when `action` can render `format`; the error names the command.
pub fn ensure_output_format(action: &Action, format: OutputFormat) -> (r: Result<(), UnsupportedFormat>)
    ensures
        r is Ok <==> spec_supports(spec_action_formats(*action).1, format),
        r matches Err(e) ==> e.command@ == spec_action_formats(*action).0 && e.format == format,
{
    let (command_name, supported) = match action {
        Action::Status => ("auth status", SupportedFormats::TableJsonCsv),
        Action::Backend { .. } => ("auth backend", SupportedFormats::TableJson),
        Action::Login { .. } => ("auth login", SupportedFormats::TableOnly),
        Action::Logout { .. } => ("auth logout", SupportedFormats::TableOnly),
    };
    ensure_supported(command_name, format, supported)
}

/// The vendors `auth login` can authenticate against.
#[derive(Debug, Clone, Copy, PartialEq, Eq, Structural)]
pub enum ProviderId {
    Anthropic,
    Openai,
    Gemini,
    Copilot,
    Github,
    Gitlab,
    Linear,
    Jira,
    Local,
}

pub open spec fn spec_provider_name(p: ProviderId) -> Seq<char> {
    match p {
        ProviderId::Anthropic => "anthropic"@,
        ProviderId::Openai => "openai"@,
        ProviderId::Gemini => "gemini"@,
        ProviderId::Copilot => "copilot"@,
        ProviderId::Github => "github"@,
        ProviderId::Gitlab => "gitlab"@,
        ProviderId::Linear => "linear"@,
        ProviderId::Jira => "jira"@,
        ProviderId::Local => "local"@,
    }
}

/// The vendor a name spells, if any.
pub open spec fn spec_vendor(name: Seq<char>) -> Option<ProviderId> {
    if name == "anthropic"@ {
        Some(ProviderId::Anthropic)
    } else if name == "openai"@ {
        Some(ProviderId::Openai)
    } else if name == "gemini"@ {
        Some(ProviderId::Gemini)
    } else if name == "copilot"@ {
        Some(ProviderId::Copilot)
    } else if name == "github"@ {
        Some(ProviderId::Github)
    } else if name == "gitlab"@ {
        Some(ProviderId::Gitlab)
    } else if name == "linear"@ {
        Some(ProviderId::Linear)
    } else if name == "jira"@ {
        Some(ProviderId::Jira)
    } else if name == "local"@ {
        Some(ProviderId::Local)
    } else {
        None
    }
}

/// `name` is not a known vendor.
#[derive(Debug, Clone)]
pub struct UnknownProvider {
    pub name: String,
}

impl UnknownProvider {
    /// "unknown provider: <name>".
    pub fn message(&self) -> (r: String)
        ensures
            r@ == "unknown provider: "@ + self.name@,
    {
        let mut s = String::from_str("unknown provider: ");
        s.append(self.name.as_str());
        s
    }
}

/// The vendor `s` names, or an error naming `s`.
pub fn parse_provider(s: &str) -> (r: Result<ProviderId, UnknownProvider>)
    ensures
        match spec_vendor(s@) {
            Some(p) => r == Ok::<ProviderId, UnknownProvider>(p),
            None => r matches Err(e) && e.name@ == s@,
        },
{
    if str_eq(s, "anthropic") {
        Ok(ProviderId::Anthropic)
    } else if str_eq(s, "openai") {
        Ok(ProviderId::Openai)
    } else if str_eq(s, "gemini") {
        Ok(ProviderId::Gemini)
    } else if str_eq(s, "copilot") {
        Ok(ProviderId::Copilot)
    } else if str_eq(s, "github") {
        Ok(ProviderId::Github)
    } else if str_eq(s, "gitlab") {
        Ok(ProviderId::Gitlab)
    } else if str_eq(s, "linear") {
        Ok(ProviderId::Linear)
    } else if str_eq(s, "jira") {
        Ok(ProviderId::Jira)
    } else if str_eq(s, "local") {
        Ok(ProviderId::Local)
    } else {
        Err(UnknownProvider { name: String::from_str(s) })
    }
}

/// Why `auth login` could not settle an account's kind.
#[derive(Debug, Clone)]
pub enum LoginKindError {
    /// `--kind` disagrees with the kind already declared in config.
    ConfigConflict { account: String, declared: String, config_path: String },
    /// The account name is itself a vendor and `--kind` names another one.
    NameCollision { account: String, kind: String },
    /// No `--kind`, no declaration, and the name is not a vendor.
    Unknown { account: String },
}

impl LoginKindError {
    /// The diagnostic the CLI prints.
    pub fn message(&self) -> (r: String)
        ensures
            r@ == match *self {
                LoginKindError::ConfigConflict { account, declared, config_path } =>
                    "account '"@ + account@ + "' is already declared with kind \""@ + declared@
                        + "\"; remove [providers."@ + account@ + "] from "@ + config_path@
                        + " to change it"@,
                LoginKindError::NameCollision { account, kind } =>
                    "'"@ + account@ + "' is itself a recognized vendor name; --kind \""@ + kind@
                        + "\" would collide with it. Choose a different account name (e.g. \""@ + kind@
                        + "-"@ + account@ + "\")."@,
                LoginKindError::Unknown { account } =>
                    "'"@ + account@ + "' is not a known vendor and is not declared in config. Pass --kind <vendor> to declare it (anthropic | openai | gemini | copilot | github | gitlab | linear | jira | local)."@,
            },
    {
        match self {
            LoginKindError::ConfigConflict { account, declared, config_path } => {
                let mut s = String::from_str("account '");
                s.append(account.as_str());
                s.append("' is already declared with kind \"");
                s.append(declared.as_str());
                s.append("\"; remove [providers.");
                s.append(account.as_str());
                s.append("] from ");
                s.append(config_path.as_str());
                s.append(" to change it");
                s
            },
            LoginKindError::NameCollision { account, kind } => {
                let mut s = String::from_str("'");
                s.append(account.as_str());
                s.append("' is itself a recognized vendor name; --kind \"");
                s.append(kind.as_str());
                s.append("\" would collide with it. Choose a different account name (e.g. \"");
                s.append(kind.as_str());
                s.append("-");
                s.append(account.as_str());
                s.append("\").");
                s
            },
            LoginKindError::Unknown { account } => {
                let mut s = String::from_str("'");
                s.append(account.as_str());
                s.append(
                    "' is not a known vendor and is not declared in config. Pass --kind <vendor> to declare it (anthropic | openai | gemini | copilot | github | gitlab | linear | jira | local).",
                );
                s
            },
        }
    }
}

/// The kind `auth login --account <account>` settles on.
///
/// `config_kind` is the kind genuinely declared under `[providers.<account>]`
/// (never a name-derived guess); `config_path` is the file it lives in.
pub open spec fn spec_login_kind(account: Seq<char>, kind_arg: Option<Seq<char>>, config_kind: Option<
    Seq<char>,
>) -> Option<Seq<char>> {
    let name_is_vendor = spec_vendor(account) is Some;
    match (kind_arg, config_kind) {
        (Some(k), Some(d)) => if k != d {
            None
        } else {
            Some(k)
        },
        (Some(k), None) => if name_is_vendor && k != account {
            None
        } else {
            Some(k)
        },
        (None, Some(d)) => Some(d),
        (None, None) => if name_is_vendor {
            Some(account)
        } else {
            None
        },
    }
}

pub open spec fn opt_view(o: Option<&str>) -> Option<Seq<char>> {
    match o {
        Some(s) => Some(s@),
        None => None,
    }
}

/// Resolve the vendor kind for an `auth login` invocation. Precedence:
/// a `--kind` that contradicts a config declaration is an error naming the
/// config file; a `--kind` that contradicts an account name which is itself a
/// vendor is a (different) collision error; otherwise `--kind`, then the
/// config declaration, then the account name when it is a vendor.
pub fn resolve_login_kind(
    account: &str,
    kind_arg: Option<&str>,
    config_kind: Option<&str>,
    cfg_path: &str,
) -> (r: Result<String, LoginKindError>)
    ensures
        match spec_login_kind(account@, opt_view(kind_arg), opt_view(config_kind)) {
            Some(k) => r matches Ok(s) && s@ == k,
            None => r is Err,
        },
        r matches Err(LoginKindError::ConfigConflict { account: a, declared: d, config_path: p }) ==> a@
            == account@ && opt_view(config_kind) == Some(d@) && p@ == cfg_path@,
        r matches Err(LoginKindError::NameCollision { account: a, kind: k }) ==> a@ == account@
            && opt_view(kind_arg) == Some(k@) && config_kind is None,
        r matches Err(LoginKindError::Unknown { account: a }) ==> a@ == account@ && kind_arg is None
            && config_kind is None,
{
    let name_is_vendor = parse_provider(account).is_ok();
    match (kind_arg, config_kind) {
        (Some(k), Some(d)) => {
            if !str_eq(k, d) {
                Err(
                    LoginKindError::ConfigConflict {
                        account: String::from_str(account),
                        declared: String::from_str(d),
                        config_path: String::from_str(cfg_path),
                    },
                )
            } else {
                Ok(String::from_str(k))
            }
        },
        (Some(k), None) => {
            if name_is_vendor && !str_eq(k, account) {
                Err(LoginKindError::NameCollision { account: String::from_str(account), kind: String::from_str(k) })
            } else {
                Ok(String::from_str(k))
            }
        },
        (None, Some(d)) => Ok(String::from_str(d)),
        (None, None) => {
            if name_is_vendor {
                Ok(String::from_str(account))
            } else {
                Err(LoginKindError::Unknown { account: String::from_str(account) })
            }
        },
    }
}

/// Whether login writes `[providers.<account>] kind = ...` into config: only
/// when the account is not itself the vendor and config declares nothing yet.
pub fn should_declare_account(kind: &str, account: &str, config_declares: bool) -> (r: bool)
    ensures
        r == (kind@ != account@ && !config_declares),
{
    !str_eq(kind, account) && !config_declares
}

/// Why an `openai-compatible` account cannot be logged into as asked.
#[derive(Debug, Clone)]
pub enum CompatibleLoginError {
    /// The account name is a built-in vendor.
    ReservedName { account: String },
    /// Only `--mode api-key` is supported.
    SsoUnsupported,
}

impl CompatibleLoginError {
    pub fn message(&self) -> (r: String)
        ensures
            r@ == match *self {
                CompatibleLoginError::ReservedName { account } =>
                    "'"@ + account@ + "' is a reserved built-in provider name; choose a distinct name for an openai-compatible provider in config"@,
                CompatibleLoginError::SsoUnsupported =>
                    "openai-compatible providers only support --mode api-key"@,
            },
    {
        match self {
            CompatibleLoginError::ReservedName { account } => {
                let mut s = String::from_str("'");
                s.append(account.as_str());
                s.append(
                    "' is a reserved built-in provider name; choose a distinct name for an openai-compatible provider in config",
                );
                s
            },
            CompatibleLoginError::SsoUnsupported => String::from_str(
                "openai-compatible providers only support --mode api-key",
            ),
        }
    }
}

/// The checks an `openai-compatible` login passes before a key is read:
/// the account must not be a built-in vendor name, and the mode must be api-key.
pub fn check_compatible_login(account: &str, mode: AuthModeArg) -> (r: Result<(), CompatibleLoginError>)
    ensures
        spec_vendor(account@) is Some ==> (r matches Err(CompatibleLoginError::ReservedName { account: a })
            && a@ == account@),
        spec_vendor(account@) is None ==> (r is Ok <==> mode == AuthModeArg::ApiKey),
        spec_vendor(account@) is None && mode == AuthModeArg::Sso ==> (r matches Err(
            CompatibleLoginError::SsoUnsupported,
        )),
{
    if parse_provider(account).is_ok() {
        return Err(CompatibleLoginError::ReservedName { account: String::from_str(account) });
    }
    match mode {
        AuthModeArg::ApiKey => Ok(()),
        AuthModeArg::Sso => Err(CompatibleLoginError::SsoUnsupported),
    }
}

/// The modes `auth logout` forgets: the one asked for, else both.
pub fn logout_modes(mode: Option<AuthModeArg>) -> (r: Vec<AuthModeArg>)
    ensures
        match mode {
            Some(m) => r@ == seq![m],
            None => r@ == seq![AuthModeArg::ApiKey, AuthModeArg::Sso],
        },
{
    let mut v: Vec<AuthModeArg> = Vec::new();
    match mode {
        Some(m) => v.push(m),
        None => {
            v.push(AuthModeArg::ApiKey);
            v.push(AuthModeArg::Sso);
        },
    }
    v
}

/// Whether an interactive answer confirms `auth logout --all`.
pub fn confirms_logout_all(answer: &str) -> (r: bool)
    ensures
        r == (trim_seq(answer@) == "y"@ || trim_seq(answer@) == "yes"@ || trim_seq(answer@) == "Y"@),
{
    let t = trim_chars(chars_of(answer).as_slice());
    let t = t.as_slice();
    eq_chars(t, chars_of("y").as_slice()) || eq_chars(t, chars_of("yes").as_slice()) || eq_chars(
        t,
        chars_of("Y").as_slice(),
    )
}

/// Where credentials live, as `auth backend` reports it.
#[derive(Debug, Clone)]
pub struct AuthBackendItem {
    pub requested_backend: Option<String>,
    pub active_backend: String,
    pub cache_path: String,
    pub auth_path: String,
    pub cache_choice: Option<String>,
    pub env_override: Option<String>,
}

/// The backend value that decides the label: the env override, else the
/// requested backend, else the cached choice, else the active backend.
pub open spec fn backend_candidate(item: AuthBackendItem) -> Seq<char> {
    match item.env_override {
        Some(v) => v@,
        None => match item.requested_backend {
            Some(v) => v@,
            None => match item.cache_choice {
                Some(v) => v@,
                None => item.active_backend@,
            },
        },
    }
}

/// `keychain` when the deciding value mentions "key" (any case), else `file`.
pub fn effective_backend_kind(item: &AuthBackendItem) -> (r: &'static str)
    ensures
        r@ == (if contains_seq(lower_seq(backend_candidate(*item)), "key"@) {
            "keychain"@
        } else {
            "file"@
        }),
{
    let candidate: &str = match &item.env_override {
        Some(v) => v.as_str(),
        None => match &item.requested_backend {
            Some(v) => v.as_str(),
            None => match &item.cache_choice {
                Some(v) => v.as_str(),
                None => item.active_backend.as_str(),
            },
        },
    };
    let lowered = lower_chars(chars_of(candidate).as_slice());
    if contains_chars(lowered.as_slice(), chars_of("key").as_slice()) {
        "keychain"
    } else {
        "file"
    }
}

/// Where the backend choice came from.
pub fn backend_resolution_source(item: &AuthBackendItem) -> (r: &'static str)
    ensures
        r@ == (if item.env_override is Some {
            "env override"@
        } else if item.cache_choice is Some {
            "probe cache"@
        } else {
            "default"@
        }),
{
    if item.env_override.is_some() {
        "env override"
    } else if item.cache_choice.is_some() {
        "probe cache"
    } else {
        "default"
    }
}

/// Why `auth backend --use <target>` was refused.
#[derive(Debug, Clone)]
pub enum BackendRequestError {
    /// The retired OS keychain was asked for.
    KeychainRetired { auth_path: String },
    /// An unrecognised backend (trimmed, lower-cased).
    Unknown { target: String },
}

impl BackendRequestError {
    pub fn message(&self) -> (r: String)
        ensures
            r@ == match *self {
                BackendRequestError::KeychainRetired { auth_path } =>
                    "the OS keychain backend is no longer supported — rupu stores credentials in a chmod-600 file at `"@
                        + auth_path@
                        + "`. There is nothing to select; `--use file` is the only valid value and is already in effect."@,
                BackendRequestError::Unknown { target } =>
                    "unknown backend `"@ + target@ + "` — the only supported value is: file"@,
            },
    {
        match self {
            BackendRequestError::KeychainRetired { auth_path } => {
                let mut s = String::from_str(
                    "the OS keychain backend is no longer supported — rupu stores credentials in a chmod-600 file at `",
                );
                s.append(auth_path.as_str());
                s.append(
                    "`. There is nothing to select; `--use file` is the only valid value and is already in effect.",
                );
                s
            },
            BackendRequestError::Unknown { target } => {
                let mut s = String::from_str("unknown backend `");
                s.append(target.as_str());
                s.append("` — the only supported value is: file");
                s
            },
        }
    }
}

pub open spec fn is_file_alias(t: Seq<char>) -> bool {
    t == "file"@ || t == "json"@ || t == "json-file"@ || t == "json_file"@
}

pub open spec fn is_keychain_alias(t: Seq<char>) -> bool {
    t == "keyring"@ || t == "keychain"@ || t == "os"@ || t == "os-keychain"@
}

/// Check an `auth backend --use <target>` request: the file backend (under any
/// of its spellings) is accepted; the keychain is refused with an explanation
/// naming `auth_path`; anything else is unknown.
pub fn check_backend_request(target: &str, auth_path: &str) -> (r: Result<(), BackendRequestError>)
    ensures
        ({
            let t = lower_seq(trim_seq(target@));
            &&& r is Ok <==> is_file_alias(t)
            &&& is_keychain_alias(t) && !is_file_alias(t) ==> (r matches Err(BackendRequestError::KeychainRetired { auth_path: p })
                && p@ == auth_path@)
            &&& !is_file_alias(t) && !is_keychain_alias(t) ==> (r matches Err(
                BackendRequestError::Unknown { target: u },
            ) && u@ == t)
        }),
{
    let t = lower_chars(trim_chars(chars_of(target).as_slice()).as_slice());
    let ts = t.as_slice();
    if eq_chars(ts, chars_of("file").as_slice()) || eq_chars(ts, chars_of("json").as_slice())
        || eq_chars(ts, chars_of("json-file").as_slice()) || eq_chars(ts, chars_of("json_file").as_slice()) {
        return Ok(());
    }
    if eq_chars(ts, chars_of("keyring").as_slice()) || eq_chars(ts, chars_of("keychain").as_slice())
        || eq_chars(ts, chars_of("os").as_slice()) || eq_chars(ts, chars_of("os-keychain").as_slice()) {
        return Err(BackendRequestError::KeychainRetired { auth_path: String::from_str(auth_path) });
    }
    Err(BackendRequestError::Unknown { target: string_from_chars(ts) })
}

/// `str::trim_start_matches` with a string pattern: strip `p` from the front
/// as many times as it occurs there.
pub open spec fn strip_all_prefix(s: Seq<char>, p: Seq<char>) -> Seq<char>
    decreases s.len(),
{
    if p.len() > 0 && has_prefix(s, p) {
        strip_all_prefix(s.subrange(p.len() as int, s.len() as int), p)
    } else {
        s
    }
}

/// The relative expiry text of an SSO credential with its prefix and
/// surrounding whitespace removed.
pub open spec fn expiry_core(repr: Seq<char>) -> Seq<char> {
    trim_seq(strip_all_prefix(repr, "expires in "@))
}

/// Whether an expiry like `expires in 8d` / `expires in 47h` is under 7 days
/// away: days are parsed as a `u32` and compared; hours, minutes and seconds
/// always count as soon.
pub open spec fn spec_is_soon(repr: Seq<char>) -> bool {
    let t = expiry_core(repr);
    if t.len() > 0 && t.last() == 'd' {
        match spec_parse_unsigned(t.drop_last(), 0xffff_ffff) {
            Some(d) => d < 7,
            None => false,
        }
    } else {
        t.len() > 0 && (t.last() == 'h' || t.last() == 'm' || t.last() == 's')
    }
}

/// Heuristic: whether an SSO expiry string counts as "soon".
pub fn is_soon(repr: &str) -> (r: bool)
    ensures
        r == spec_is_soon(repr@),
{
    let cs = chars_of(repr);
    let prefix = chars_of("expires in ");
    let mut start: usize = 0;
    let ghost whole = cs@;
    proof {
        assert(whole.subrange(0, whole.len() as int) =~= whole);
    }
    let plen = prefix.len();
    let clen = cs.len();
    let mut more = matches_at(cs.as_slice(), prefix.as_slice(), start);
    while more
        invariant
            plen == prefix@.len(),
            clen == cs@.len(),
            more == occurs_at(cs@, prefix@, start as int),
            whole == cs@,
            prefix@ == "expires in "@,
            start <= cs@.len(),
            strip_all_prefix(whole, prefix@) == strip_all_prefix(whole.subrange(start as int, whole.len() as int), prefix@),
        decreases cs@.len() - start,
    {
        proof {
            reveal_strlit("expires in ");
            let rest = whole.subrange(start as int, whole.len() as int);
            assert(rest.subrange(0, prefix@.len() as int) =~= whole.subrange(start as int, start + prefix@.len()));
            assert(rest.subrange(prefix@.len() as int, rest.len() as int) =~= whole.subrange(
                start + prefix@.len(),
                whole.len() as int,
            ));
        }
        start = start + plen;
        more = matches_at(cs.as_slice(), prefix.as_slice(), start);
    }
    let mut rest: Vec<char> = Vec::new();
    let mut i: usize = start;
    while i < cs.len()
        invariant
            start <= i <= cs@.len(),
            rest@ == cs@.subrange(start as int, i as int),
        decreases cs@.len() - i,
    {
        rest.push(cs[i]);
        proof {
            assert(cs@.subrange(start as int, i + 1) =~= cs@.subrange(start as int, i as int).push(cs@[i as int]));
        }
        i = i + 1;
    }
    proof {
        reveal_strlit("expires in ");
        let r2 = whole.subrange(start as int, whole.len() as int);
        assert(!(prefix@.len() > 0 && has_prefix(r2, prefix@))) by {
            if start + prefix@.len() <= whole.len() {
                assert(r2.subrange(0, prefix@.len() as int) =~= whole.subrange(start as int, start + prefix@.len()));
            }
        }
        assert(rest@ == r2);
    }
    let t = trim_chars(rest.as_slice());
    let n = t.len();
    if n > 0 && t[n - 1] == 'd' {
        let mut body: Vec<char> = Vec::new();
        let mut j: usize = 0;
        while j < n - 1
            invariant
                n == t@.len(),
                n > 0,
                j <= n - 1,
                body@ == t@.subrange(0, j as int),
            decreases n - 1 - j,
        {
            body.push(t[j]);
            proof {
                assert(t@.subrange(0, j + 1) =~= t@.subrange(0, j as int).push(t@[j as int]));
            }
            j = j + 1;
        }
        proof {
            assert(body@ =~= t@.drop_last());
        }
        match parse_unsigned(body.as_slice(), 0xffff_ffffu64) {
            Some(d) => d < 7,
            None => false,
        }
    } else {
        n > 0 && (t[n - 1] == 'h' || t[n - 1] == 'm' || t[n - 1] == 's')
    }
}

/// How an SSO status cell is drawn.
#[derive(Debug, Clone, Copy, PartialEq, Eq, Structural)]
pub enum SsoTone {
    /// No SSO credential.
    Absent,
    Expired,
    ExpiringSoon,
    Healthy,
}

/// The tone of an SSO status string: empty is absent; anything mentioning
/// `expired` (any case) is expired; `expires in` plus a near expiry is soon.
pub fn sso_status_tone(value: &str) -> (r: SsoTone)
    ensures
        r == (if value@.len() == 0 {
            SsoTone::Absent
        } else if contains_seq(lower_seq(value@), "expired"@) {
            SsoTone::Expired
        } else if contains_seq(lower_seq(value@), "expires in"@) && spec_is_soon(value@) {
            SsoTone::ExpiringSoon
        } else {
            SsoTone::Healthy
        }),
{
    let cs = chars_of(value);
    if cs.len() == 0 {
        return SsoTone::Absent;
    }
    let lower = lower_chars(cs.as_slice());
    if contains_chars(lower.as_slice(), chars_of("expired").as_slice()) {
        SsoTone::Expired
    } else if contains_chars(lower.as_slice(), chars_of("expires in").as_slice()) && is_soon(value) {
        SsoTone::ExpiringSoon
    } else {
        SsoTone::Healthy
    }
}

} // verus!

verus! {

/// The vendor names `auth status` always lists, in order.
pub open spec fn builtin_status_accounts() -> Seq<Seq<char>> {
    seq!["anthropic"@, "openai"@, "gemini"@, "copilot"@, "github"@, "gitlab"@, "linear"@, "jira"@]
}

/// `acc` followed by each name of `rest`, in order, that is not already listed.
pub open spec fn append_unseen(acc: Seq<Seq<char>>, rest: Seq<Seq<char>>) -> Seq<Seq<char>>
    decreases rest.len(),
{
    if rest.len() == 0 {
        acc
    } else if acc.contains(rest[0]) {
        append_unseen(acc, rest.drop_first())
    } else {
        append_unseen(acc.push(rest[0]), rest.drop_first())
    }
}

pub open spec fn string_views(v: Seq<String>) -> Seq<Seq<char>> {
    v.map_values(|s: String| s@)
}

fn contains_string(v: &Vec<String>, s: &String) -> (r: bool)
    ensures
        r == string_views(v@).contains(s@),
{
    let mut i: usize = 0;
    while i < v.len()
        invariant
            i <= v@.len(),
            forall|j: int| 0 <= j < i ==> v@[j]@ != s@,
        decreases v@.len() - i,
    {
        if str_eq(v[i].as_str(), s.as_str()) {
            proof {
                assert(string_views(v@)[i as int] == s@);
            }
            return true;
        }
        i = i + 1;
    }
    proof {
        if string_views(v@).contains(s@) {
            let k = choose|k: int| 0 <= k < string_views(v@).len() && string_views(v@)[k] == s@;
            assert(v@[k]@ == s@);
        }
    }
    false
}

/// The accounts `auth status` reports: the built-in vendor names, then every
/// declared account in config order, skipping names already listed.
pub fn auth_status_accounts(declared: &Vec<String>) -> (r: Vec<String>)
    ensures
        string_views(r@) == append_unseen(builtin_status_accounts(), string_views(declared@)),
{
    let mut out: Vec<String> = Vec::new();
    out.push(String::from_str("anthropic"));
    out.push(String::from_str("openai"));
    out.push(String::from_str("gemini"));
    out.push(String::from_str("copilot"));
    out.push(String::from_str("github"));
    out.push(String::from_str("gitlab"));
    out.push(String::from_str("linear"));
    out.push(String::from_str("jira"));
    proof {
        assert(string_views(out@) =~= builtin_status_accounts());
        assert(string_views(declared@).subrange(0, declared@.len() as int) =~= string_views(declared@));
    }
    let mut i: usize = 0;
    while i < declared.len()
        invariant
            i <= declared@.len(),
            append_unseen(builtin_status_accounts(), string_views(declared@)) == append_unseen(
                string_views(out@),
                string_views(declared@).subrange(i as int, declared@.len() as int),
            ),
        decreases declared@.len() - i,
    {
        let ghost rest = string_views(declared@).subrange(i as int, declared@.len() as int);
        proof {
            assert(rest[0] == declared@[i as int]@);
            assert(rest.drop_first() =~= string_views(declared@).subrange(i + 1, declared@.len() as int));
        }
        if !contains_string(&out, &declared[i]) {
            let name = declared[i].clone();
            let ghost before = out@;
            out.push(name);
            proof {
                assert(string_views(out@) =~= string_views(before).push(declared@[i as int]@));
            }
        }
        i = i + 1;
    }
    out
}

/// The sections of `auth backend` after the header and state: storage
/// paths in the compact and full views, commands and notes in the full view.
pub fn auth_backend_sections(view: LiveViewMode) -> (r: (bool, bool, bool))
    ensures
        r.0 == (view == LiveViewMode::Compact || view == LiveViewMode::Full),
        r.1 == (view == LiveViewMode::Full),
        r.2 == (view == LiveViewMode::Full),
{
    match view {
        LiveViewMode::Focused => (false, false, false),
        LiveViewMode::Compact => (true, false, false),
        LiveViewMode::Full => (true, true, true),
    }
}

/// The note under `auth backend`: how the file backend protects its file,
/// or what the keychain backend relies on.
pub fn auth_backend_note(item: &AuthBackendItem) -> (r: &'static str)
    ensures
        r@ == (if contains_seq(lower_seq(backend_candidate(*item)), "key"@) {
            "Keychain mode relies on the platform credential store and avoids a local auth.json file."@
        } else {
            "JSON-file credentials are written with chmod 600 on every update."@
        }),
{
    proof {
        reveal_strlit("keychain");
        reveal_strlit("file");
        assert("keychain"@.len() != "file"@.len());
    }
    if str_eq(effective_backend_kind(item), "file") {
        "JSON-file credentials are written with chmod 600 on every update."
    } else {
        "Keychain mode relies on the platform credential store and avoids a local auth.json file."
    }
}

/// The command rows of `auth backend` (mode, command, effect): the two ways
/// to move the store, and how to fill it where the file backend was asked for.
pub fn auth_backend_command_rows(item: &AuthBackendItem) -> (r: Vec<(&'static str, &'static str, &'static str)>)
    ensures
        r@.len() == (if item.requested_backend matches Some(b) && b@ == "file"@ {
            3int
        } else {
            2int
        }),
        r@[0].0@ == "relocate"@ && r@[0].1@ == "export RUPU_AUTH_FILE=/path/to/auth.json"@ && r@[0].2@
            == "store credentials at an explicit path"@,
        r@[1].0@ == "relocate"@ && r@[1].1@ == "export RUPU_HOME=/path/to/rupu-dir"@ && r@[1].2@
            == "move the whole rupu directory, auth.json included"@,
        r@.len() == 3 ==> r@[2].0@ == "next"@ && r@[2].1@ == "rupu auth login --provider <name>"@ && r@[2].2@
            == "populate the local auth file with credentials"@,
{
    let mut rows: Vec<(&'static str, &'static str, &'static str)> = Vec::new();
    rows.push(("relocate", "export RUPU_AUTH_FILE=/path/to/auth.json", "store credentials at an explicit path"));
    rows.push(("relocate", "export RUPU_HOME=/path/to/rupu-dir", "move the whole rupu directory, auth.json included"));
    let file_requested = match &item.requested_backend {
        Some(b) => str_eq(b.as_str(), "file"),
        None => false,
    };
    if file_requested {
        rows.push(("next", "rupu auth login --provider <name>", "populate the local auth file with credentials"));
    }
    rows
}

} // verus!

use rupu_cli::auth::{
    auth_backend_command_rows, auth_backend_note, auth_backend_sections, auth_status_accounts,
    backend_resolution_source, check_backend_request, check_compatible_login, confirms_logout_all,
    effective_backend_kind, ensure_output_format, is_soon, logout_modes, parse_provider,
    resolve_login_kind, should_declare_account, sso_status_tone, Action, AuthBackendItem,
    AuthModeArg, BackendRequestError, CompatibleLoginError, LoginKindError, ProviderId, SsoTone,
};
use rupu_cli::output::OutputFormat;
use rupu_cli::ui::LiveViewMode;

fn err_text(r: Result<String, LoginKindError>) -> String {
    r.unwrap_err().message()
}

#[test]
fn resolve_login_kind_uses_explicit_flag_when_nothing_else_is_known() {
    let path = "/tmp/unused-config.toml";
    assert_eq!(
        resolve_login_kind("oracle", Some("openai-compatible"), None, path).unwrap(),
        "openai-compatible"
    );
}

#[test]
fn resolve_login_kind_uses_config_declaration_when_no_flag_given() {
    let path = "/tmp/unused-config.toml";
    assert_eq!(resolve_login_kind("anthropic-work", None, Some("anthropic"), path).unwrap(), "anthropic");
}

#[test]
fn resolve_login_kind_falls_back_to_the_account_name_as_vendor() {
    let path = "/tmp/unused-config.toml";
    assert_eq!(resolve_login_kind("anthropic", None, None, path).unwrap(), "anthropic");
}

#[test]
fn resolve_login_kind_recognizes_scm_vendor_names_not_just_llm_ones() {
    let path = "/tmp/unused-config.toml";
    for vendor in ["github", "gitlab", "linear", "jira"] {
        assert_eq!(
            resolve_login_kind(vendor, None, None, path).unwrap(),
            vendor,
            "vendor {vendor} should resolve via the account name"
        );
    }
}

#[test]
fn resolve_login_kind_bails_when_neither_flag_nor_config_nor_name_resolve() {
    let path = "/tmp/unused-config.toml";
    let msg = err_text(resolve_login_kind("mystery-account", None, None, path));
    assert!(msg.contains("--kind"));
}

#[test]
fn resolve_login_kind_errors_on_genuine_config_conflict_naming_the_config_file() {
    let path = "/tmp/some-config.toml";
    let msg = err_text(resolve_login_kind("anthropic-work", Some("openai"), Some("anthropic"), path));
    assert!(msg.contains("already declared"));
    assert!(msg.contains("some-config.toml"));
}

#[test]
fn resolve_login_kind_errors_on_name_collision_without_naming_a_config_file() {
    let path = "/tmp/some-config.toml";
    let msg = err_text(resolve_login_kind("github", Some("gitlab"), None, path));
    assert!(msg.contains("collide"));
    assert!(!msg.contains("some-config.toml"));
}

#[test]
fn recognizes_all_providers() {
    assert_eq!(parse_provider("anthropic").unwrap(), ProviderId::Anthropic);
    assert_eq!(parse_provider("openai").unwrap(), ProviderId::Openai);
    assert_eq!(parse_provider("gemini").unwrap(), ProviderId::Gemini);
    assert_eq!(parse_provider("copilot").unwrap(), ProviderId::Copilot);
    assert_eq!(parse_provider("github").unwrap(), ProviderId::Github);
    assert_eq!(parse_provider("gitlab").unwrap(), ProviderId::Gitlab);
    assert_eq!(parse_provider("linear").unwrap(), ProviderId::Linear);
    assert_eq!(parse_provider("jira").unwrap(), ProviderId::Jira);
    assert_eq!(parse_provider("local").unwrap(), ProviderId::Local);
}

#[test]
fn rejects_unknown() {
    assert!(parse_provider("typo").is_err());
}

#[test]
fn unknown_provider_message_names_the_input() {
    assert_eq!(parse_provider("Anthropic").unwrap_err().message(), "unknown provider: Anthropic");
}

#[test]
fn login_kind_messages_are_exact() {
    assert_eq!(
        err_text(resolve_login_kind("w", Some("openai"), Some("anthropic"), "/c.toml")),
        "account 'w' is already declared with kind \"anthropic\"; remove [providers.w] from /c.toml to change it"
    );
    assert_eq!(
        err_text(resolve_login_kind("github", Some("gitlab"), None, "/c.toml")),
        "'github' is itself a recognized vendor name; --kind \"gitlab\" would collide with it. Choose a different account name (e.g. \"gitlab-github\")."
    );
    match resolve_login_kind("x", None, None, "/c.toml") {
        Err(LoginKindError::Unknown { account }) => assert_eq!(account, "x"),
        other => panic!("unexpected {other:?}"),
    }
    // The same kind on both sides is no conflict; a vendor name with its own kind is none either.
    assert_eq!(resolve_login_kind("w", Some("openai"), Some("openai"), "/c.toml").unwrap(), "openai");
    assert_eq!(resolve_login_kind("github", Some("github"), None, "/c.toml").unwrap(), "github");
}

#[test]
fn accounts_are_declared_only_when_named_apart_from_their_vendor() {
    assert!(should_declare_account("anthropic", "anthropic-work", false));
    assert!(!should_declare_account("anthropic", "anthropic", false));
    assert!(!should_declare_account("anthropic", "anthropic-work", true));
}

#[test]
fn compatible_logins_need_a_free_name_and_an_api_key() {
    assert!(check_compatible_login("oracle", AuthModeArg::ApiKey).is_ok());
    match check_compatible_login("oracle", AuthModeArg::Sso) {
        Err(e @ CompatibleLoginError::SsoUnsupported) => {
            assert_eq!(e.message(), "openai-compatible providers only support --mode api-key")
        }
        other => panic!("unexpected {other:?}"),
    }
    match check_compatible_login("openai", AuthModeArg::ApiKey) {
        Err(CompatibleLoginError::ReservedName { account }) => assert_eq!(account, "openai"),
        other => panic!("unexpected {other:?}"),
    }
}

#[test]
fn logout_forgets_one_mode_or_both() {
    assert_eq!(logout_modes(Some(AuthModeArg::Sso)), vec![AuthModeArg::Sso]);
    assert_eq!(logout_modes(None), vec![AuthModeArg::ApiKey, AuthModeArg::Sso]);
    assert!(confirms_logout_all(" yes\n"));
    assert!(confirms_logout_all("Y"));
    assert!(!confirms_logout_all("YES"));
    assert!(!confirms_logout_all(""));
}

fn item(requested: Option<&str>, cache: Option<&str>, env: Option<&str>) -> AuthBackendItem {
    AuthBackendItem {
        requested_backend: requested.map(String::from),
        active_backend: "json-file".into(),
        cache_path: "/c".into(),
        auth_path: "/a".into(),
        cache_choice: cache.map(String::from),
        env_override: env.map(String::from),
    }
}

#[test]
fn backend_kind_follows_override_then_request_then_cache() {
    assert_eq!(effective_backend_kind(&item(None, None, None)), "file");
    assert_eq!(effective_backend_kind(&item(Some("Keyring"), None, None)), "keychain");
    assert_eq!(effective_backend_kind(&item(Some("keyring"), None, Some("file"))), "file");
    assert_eq!(effective_backend_kind(&item(None, Some("os-keychain"), None)), "keychain");
    assert_eq!(backend_resolution_source(&item(None, None, Some("x"))), "env override");
    assert_eq!(backend_resolution_source(&item(Some("x"), Some("y"), None)), "probe cache");
    assert_eq!(backend_resolution_source(&item(Some("x"), None, None)), "default");
    assert_eq!(
        auth_backend_note(&item(None, None, None)),
        "JSON-file credentials are written with chmod 600 on every update."
    );
    assert_eq!(auth_backend_command_rows(&item(Some("file"), None, None)).len(), 3);
    assert_eq!(auth_backend_command_rows(&item(None, None, None)).len(), 2);
    assert_eq!(auth_backend_sections(LiveViewMode::Compact), (true, false, false));
}

#[test]
fn backend_requests_accept_only_the_file_backend() {
    assert!(check_backend_request(" JSON ", "/a").is_ok());
    assert!(check_backend_request("json_file", "/a").is_ok());
    match check_backend_request("Keychain", "/home/u/.rupu/auth.json") {
        Err(e @ BackendRequestError::KeychainRetired { .. }) => assert!(e.message().contains("/home/u/.rupu/auth.json")),
        other => panic!("unexpected {other:?}"),
    }
    match check_backend_request(" Vault ", "/a") {
        Err(e @ BackendRequestError::Unknown { .. }) => {
            assert_eq!(e.message(), "unknown backend `vault` — the only supported value is: file")
        }
        other => panic!("unexpected {other:?}"),
    }
}

#[test]
fn sso_expiry_is_soon_under_a_week() {
    assert!(is_soon("expires in 6d"));
    assert!(!is_soon("expires in 7d"));
    assert!(is_soon("expires in 47h"));
    assert!(is_soon("expires in 5m"));
    assert!(!is_soon("expires in soon"));
    assert_eq!(sso_status_tone(""), SsoTone::Absent);
    assert_eq!(sso_status_tone("EXPIRED 2d ago"), SsoTone::Expired);
    assert_eq!(sso_status_tone("expires in 2d"), SsoTone::ExpiringSoon);
    assert_eq!(sso_status_tone("expires in 30d"), SsoTone::Healthy);
}

#[test]
fn status_lists_builtins_then_new_declared_accounts() {
    let out = auth_status_accounts(&vec!["oracle".to_string(), "github".to_string(), "oracle".to_string()]);
    assert_eq!(
        out,
        vec!["anthropic", "openai", "gemini", "copilot", "github", "gitlab", "linear", "jira", "oracle"]
    );
}

#[test]
fn auth_commands_render_their_formats() {
    assert!(ensure_output_format(&Action::Status, OutputFormat::Csv).is_ok());
    let err = ensure_output_format(&Action::Status, OutputFormat::Json);
    assert!(err.is_ok());
    let login = Action::Login { account: "a".into(), kind: None, mode: AuthModeArg::ApiKey, key: None };
    assert!(ensure_output_format(&login, OutputFormat::Json).is_err());
}

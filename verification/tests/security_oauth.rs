use cove_mail::config::{interval_secs_for_domain, AppConfig, ConfigManager};
use cove_mail::model::{Provider, SyncDomain};
use cove_mail::oauth::{
    begin_oauth_profile, check_native_oauth_callback, check_oauth_completion, native_oauth_profile_for_provider, oauth_display_name,
    oauth_profile_for_provider, validate_profile, OAuthWorkflow, WebUrl,
};
use cove_mail::security::{validate_secret_key, validate_sqlcipher_config, SecretKey, SecretStore, SecurityError};

fn key(ns: &str, id: &str) -> SecretKey {
    SecretKey { namespace: ns.to_string(), id: id.to_string() }
}

#[test]
fn secret_username_joins_namespace_and_id() {
    assert_eq!(key("account_password", "abc-1").as_username(), "account_password:abc-1");
}

#[test]
fn secret_store_names() {
    let s = SecretStore::new("com.cove.mail");
    assert_eq!(s.service_name(), "com.cove.mail");
    assert!(s.legacy_service_name().is_none());
    let l = SecretStore::new_with_legacy("com.cove.mail", "com.old.mail");
    assert_eq!(l.legacy_service_name(), Some("com.old.mail"));
}

#[test]
fn secret_keys_are_validated() {
    assert!(validate_secret_key(&key("account_password", "acct_1"), "pw").is_ok());
    assert!(validate_secret_key(&key("ai_api_key", "openai"), "sk").is_ok());
    assert_eq!(validate_secret_key(&key("", "x"), "v"), Err("secret namespace and id are required".to_string()));
    assert_eq!(validate_secret_key(&key("account_password", "x"), "  "), Err("secret value cannot be empty".to_string()));
    assert_eq!(
        validate_secret_key(&key("account_password", "bad id"), "v"),
        Err("secret id contains invalid characters".to_string())
    );
    assert_eq!(validate_secret_key(&key("ai_api_key", "acme"), "v"), Err("invalid AI provider id".to_string()));
    assert_eq!(validate_secret_key(&key("database", "other"), "v"), Err("invalid database secret id".to_string()));
    assert_eq!(
        validate_secret_key(&key("database", "sqlcipher_key"), "short"),
        Err("sqlcipher key must be at least 16 characters".to_string())
    );
    assert!(validate_secret_key(&key("database", "sqlcipher_key"), "0123456789abcdef").is_ok());
    assert_eq!(validate_secret_key(&key("wallet", "x"), "v"), Err("namespace is not allowed".to_string()));
    let long = "x".repeat(16385);
    assert_eq!(validate_secret_key(&key("account_password", "x"), &long), Err("secret value is too long".to_string()));
}

#[test]
fn sqlcipher_needs_a_long_key_when_enabled() {
    let mut config = AppConfig::default();
    config.database.sqlcipher_enabled = false;
    assert_eq!(validate_sqlcipher_config(&config, None), Ok(None));
    config.database.sqlcipher_enabled = true;
    assert_eq!(
        validate_sqlcipher_config(&config, None),
        Err("sqlcipher is enabled but keychain secret `database/sqlcipher_key` is missing".to_string())
    );
    assert_eq!(
        validate_sqlcipher_config(&config, Some("short".to_string())),
        Err("sqlcipher key must be at least 16 characters".to_string())
    );
    assert_eq!(
        validate_sqlcipher_config(&config, Some("0123456789abcdef".to_string())),
        Ok(Some("0123456789abcdef".to_string()))
    );
}

#[test]
fn intervals_follow_the_domain() {
    let mut config = AppConfig::default();
    config.sync.email_poll_interval_secs = 11;
    config.sync.calendar_poll_interval_secs = 22;
    config.sync.task_poll_interval_secs = 33;
    assert_eq!(interval_secs_for_domain(&config, &SyncDomain::Email), 11);
    assert_eq!(interval_secs_for_domain(&config, &SyncDomain::Calendar), 22);
    assert_eq!(interval_secs_for_domain(&config, &SyncDomain::Tasks), 33);
}

#[test]
fn config_manager_keeps_paths() {
    let m = ConfigManager::from_paths("/c/config.toml".to_string(), "/d".to_string(), "/k".to_string());
    assert_eq!(m.config_path(), "/c/config.toml");
    assert_eq!(m.data_dir(), "/d");
    assert_eq!(m.cache_dir(), "/k");
}

#[test]
fn web_url_parts() {
    let u = WebUrl::parse("https://example.com/a?b=1").expect("valid url");
    assert_eq!(u.scheme(), "https");
    assert_eq!(u.host_str(), Some("example.com"));
    assert_eq!(u.as_str(), "https://example.com/a?b=1");
    assert!(WebUrl::parse("not a url").is_err());
}

#[test]
fn gmail_profile_is_valid() {
    let p = oauth_profile_for_provider(Provider::Gmail, "client", "http://127.0.0.1:8765/callback").expect("profile");
    assert_eq!(p.client_id, "client");
    assert_eq!(p.auth_url.as_str(), "https://accounts.google.com/o/oauth2/v2/auth");
    assert!(p.scopes.iter().any(|s| s == "https://mail.google.com/"));
    assert!(validate_profile(&p).is_ok());
    assert!(OAuthWorkflow::new(p).is_ok());
}

#[test]
fn other_providers_have_no_oauth_profile() {
    assert_eq!(
        oauth_profile_for_provider(Provider::Yahoo, "c", "http://127.0.0.1/cb").err(),
        Some("OAuth flow is implemented for Gmail and Microsoft providers".to_string())
    );
    assert_eq!(
        native_oauth_profile_for_provider(Provider::Outlook, "c", "http://127.0.0.1/cb").err(),
        Some("Only Gmail OAuth is enabled in native shell".to_string())
    );
    assert!(oauth_profile_for_provider(Provider::Exchange, "c", "http://127.0.0.1/cb").is_ok());
}

#[test]
fn profile_checks_report_the_first_problem() {
    let mut p = oauth_profile_for_provider(Provider::Gmail, "client", "http://127.0.0.1/cb").expect("profile");
    p.redirect_url = WebUrl::parse("https://evil.example/cb").unwrap();
    assert_eq!(
        validate_profile(&p),
        Err(SecurityError::OAuth("Redirect URL must point to localhost (127.0.0.1 or localhost) for desktop apps".to_string()))
    );
    p.redirect_url = WebUrl::parse("http://localhost/cb").unwrap();
    p.scopes.push("ADMIN".to_string());
    assert_eq!(
        validate_profile(&p),
        Err(SecurityError::OAuth("Scope 'ADMIN' is too broad and not allowed".to_string()))
    );
    p.client_id = "   ".to_string();
    assert_eq!(validate_profile(&p), Err(SecurityError::OAuth("Client ID is required".to_string())));
    p.auth_url = WebUrl::parse("http://accounts.google.com/").unwrap();
    assert_eq!(validate_profile(&p), Err(SecurityError::OAuth("Authorization URL must use HTTPS".to_string())));
}

#[test]
fn oauth_completion_checks_time_and_state() {
    assert_eq!(check_oauth_completion(1000, 0, 1900, 0, "s1", "s1"), Ok(()));
    assert_eq!(check_oauth_completion(1000, 5, 1900, 5, "s1", "s1"), Ok(()));
    assert_eq!(
        check_oauth_completion(1000, 0, 1900, 1, "s1", "s1"),
        Err("OAuth session expired; start again".to_string())
    );
    assert_eq!(
        check_oauth_completion(1000, 0, 1901, 0, "s1", "s1"),
        Err("OAuth session expired; start again".to_string())
    );
    assert_eq!(check_oauth_completion(1000, 0, 1100, 0, "s1", "s2"), Err("OAuth state mismatch".to_string()));
}

#[test]
fn display_name_falls_back_to_address() {
    assert_eq!(oauth_display_name(Some("  Ann  "), "ann@example.com"), "Ann");
    assert_eq!(oauth_display_name(Some("   "), "ann@example.com"), "ann@example.com");
    assert_eq!(oauth_display_name(None, "ann@example.com"), "ann@example.com");
}

#[test]
fn begin_profile_trims_its_inputs() {
    assert_eq!(begin_oauth_profile(Provider::Gmail, "  ", "http://127.0.0.1/cb").err(), Some("client_id is required".to_string()));
    let p = begin_oauth_profile(Provider::Gmail, " id ", " http://127.0.0.1/cb ").expect("profile");
    assert_eq!(p.client_id, "id");
    assert_eq!(p.redirect_url.as_str(), "http://127.0.0.1/cb");
}

#[test]
fn pkce_session_points_at_the_provider() {
    let p = oauth_profile_for_provider(Provider::Gmail, "client", "http://127.0.0.1:8765/cb").expect("profile");
    let w = OAuthWorkflow::new(p).expect("workflow");
    let s = w.begin_pkce_session().expect("session");
    assert!(s.authorization_url.starts_with("https://accounts.google.com/o/oauth2/v2/auth?"));
    assert!(s.authorization_url.contains("code_challenge_method=S256"));
    assert_eq!(s.csrf_state.len(), 22);
    assert_eq!(s.pkce_verifier.len(), 43);
    assert!(s.pkce_verifier.chars().all(|c| c.is_ascii_alphanumeric() || c == '-' || c == '_'));
    assert!(s.authorization_url.contains(&format!("state={}", s.csrf_state)));
    let debug = s.redacted_debug();
    assert_eq!(
        debug,
        format!(
            "OAuthPkceSession {{ authorization_url: {:?}, csrf_state: \"[REDACTED]\", pkce_verifier: \"[REDACTED]\" }}",
            s.authorization_url
        )
    );
    assert!(!debug.contains(&s.pkce_verifier));
}

#[test]
fn pkce_sessions_are_fresh() {
    let mut p = oauth_profile_for_provider(Provider::Gmail, "client", "http://127.0.0.1:8765/cb").expect("profile");
    p.scopes.clear();
    let w = OAuthWorkflow::new(p).expect("workflow");
    let a = w.begin_pkce_session().expect("session");
    let b = w.begin_pkce_session().expect("session");
    assert_ne!(a.csrf_state, b.csrf_state);
    assert!(a.authorization_url.contains("code_challenge_method=S256"));
}

#[test]
fn native_callback_checks() {
    assert_eq!(check_native_oauth_callback("abc", " abc "), Ok(()));
    assert_eq!(
        check_native_oauth_callback("  ", "abc"),
        Err("OAuth session missing expected state; restart flow".to_string())
    );
    assert_eq!(check_native_oauth_callback("abc", " "), Err("OAuth callback state is required".to_string()));
    assert_eq!(check_native_oauth_callback("abc", "abd"), Err("OAuth state mismatch".to_string()));
}

#[test]
fn token_results_hide_their_secrets() {
    use_token_result();
}

fn use_token_result() {
    let t = cove_mail::oauth::OAuthTokenResult {
        access_token: "secret-a".to_string(),
        refresh_token: Some("secret-r".to_string()),
        expires_in_secs: Some(3600),
    };
    let text = t.redacted_debug();
    assert_eq!(
        text,
        "OAuthTokenResult { access_token: \"[REDACTED]\", refresh_token: Some(\"[REDACTED]\"), expires_in_secs: Some(3600) }"
    );
    assert!(!text.contains("secret"));
    let none = cove_mail::oauth::OAuthTokenResult { access_token: "x".to_string(), refresh_token: None, expires_in_secs: None };
    assert_eq!(
        none.redacted_debug(),
        "OAuthTokenResult { access_token: \"[REDACTED]\", refresh_token: None, expires_in_secs: None }"
    );
}

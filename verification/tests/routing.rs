//! Hosts, certificates and cross-origin requests.
use sovereign_engine::config::{AppConfig, EnvVars};
use sovereign_engine::csp::security_headers;
use sovereign_engine::routing::{
    cors_allow_credentials, cors_allow_origin, cors_policy, dispatch, has_default_credentials,
    is_combined, serve_mode, strict_origins, ServeMode, Target,
};

fn no_vars() -> EnvVars {
    EnvVars {
        listen_addr: None,
        database_url: None,
        tls_cert_path: None,
        tls_key_path: None,
        bootstrap_user: None,
        bootstrap_password: None,
        break_glass: None,
        docker_host: None,
        model_path: None,
        model_host_path: None,
        ui_path: None,
        api_hostname: None,
        chat_hostname: None,
        cookie_domain: None,
        backend_network: None,
        acme_contact: None,
        acme_staging: None,
        webui_backend_url: None,
        webui_api_key: None,
        queue_timeout_secs: None,
        secure_cookies: None,
        db_encryption_key: None,
        db_encryption_key_old: None,
        data_path: None,
    }
}

fn test_config() -> AppConfig {
    AppConfig::from_env(EnvVars {
        api_hostname: Some("api.test.local".to_string()),
        chat_hostname: Some("chat.test.local".to_string()),
        secure_cookies: Some("false".to_string()),
        ..no_vars()
    })
}

fn answer(path: &str, origin: &str) -> (Option<String>, bool) {
    let policy = cors_policy(path);
    (
        cors_allow_origin(policy, &test_config(), Some(origin)),
        cors_allow_credentials(policy),
    )
}

#[test]
fn bearer_allowed_any_origin() {
    assert_eq!(
        answer("/v1/chat/completions", "https://elsewhere.example"),
        (Some("*".to_string()), false)
    );
}

#[test]
fn bearer_allowed_api_hostname() {
    let origin = test_config().api_external_url();
    assert_eq!(
        answer("/v1/chat/completions", &origin).0.as_deref(),
        Some("*")
    );
}

#[test]
fn bearer_allowed_localhost() {
    assert_eq!(
        answer("/v1/chat/completions", "http://localhost:8080")
            .0
            .as_deref(),
        Some("*")
    );
}

#[test]
fn bearer_allowed_null_origin() {
    assert_eq!(
        answer("/v1/chat/completions", "null").0.as_deref(),
        Some("*")
    );
}

#[test]
fn bearer_anthropic_endpoint() {
    assert_eq!(
        answer("/v1/messages", "https://elsewhere.example"),
        (Some("*".to_string()), false)
    );
}

#[test]
fn strict_allowed_api_hostname() {
    let origin = test_config().api_external_url();
    assert_eq!(origin, "http://api.test.local");
    assert_eq!(
        answer("/api/user/tokens", &origin),
        (Some(origin.clone()), true)
    );
}

#[test]
fn strict_allowed_chat_hostname() {
    let origin = test_config().chat_external_url();
    assert_eq!(origin, "http://chat.test.local");
    assert_eq!(
        answer("/api/user/tokens", &origin),
        (Some(origin.clone()), true)
    );
}

#[test]
fn strict_disallowed_other_origin() {
    assert_eq!(answer("/api/user/tokens", "https://elsewhere.example").0, None);
}

#[test]
fn strict_disallowed_null_origin() {
    assert_eq!(answer("/api/user/tokens", "null").0, None);
}

#[test]
fn strict_auth_routes_positive() {
    let origin = test_config().api_external_url();
    assert_eq!(
        answer("/auth/providers", &origin),
        (Some(origin.clone()), true)
    );
}

#[test]
fn strict_auth_routes_negative() {
    assert_eq!(answer("/auth/providers", "https://evil.example.com").0, None);
}

#[test]
fn isolation_v1_no_credentials() {
    let origin = test_config().api_external_url();
    let (allowed, credentials) = answer("/v1/chat/completions", &origin);
    assert!(!credentials);
    assert_eq!(allowed.as_deref(), Some("*"));
}

#[test]
fn isolation_api_no_wildcard() {
    assert_eq!(
        answer("/api/user/tokens", "https://random.example.com").0,
        None
    );
}

#[test]
fn policies_by_path() {
    assert!(cors_allow_credentials(cors_policy("/v1x")));
    assert!(!cors_allow_credentials(cors_policy("/v1")));
}

#[test]
fn own_origins() {
    assert_eq!(
        strict_origins(&test_config()),
        vec!["http://api.test.local", "http://chat.test.local"]
    );
    assert_eq!(
        cors_allow_origin(cors_policy("/api"), &test_config(), None),
        None
    );
}

#[test]
fn hosts_are_told_apart() {
    let config = test_config();
    assert!(!is_combined(&config));
    assert_eq!(
        dispatch(Some("chat.test.local:8443"), &config),
        Target::Chat
    );
    assert_eq!(dispatch(Some("api.test.local"), &config), Target::Api);
    assert_eq!(dispatch(Some("other"), &config), Target::Misdirected);
    assert_eq!(dispatch(None, &config), Target::Misdirected);
    assert!(is_combined(&AppConfig::from_env(no_vars())));
}

#[test]
fn serving() {
    assert!(matches!(serve_mode(&test_config()), ServeMode::Plain));
    let tls = AppConfig::from_env(EnvVars {
        tls_cert_path: Some("c".to_string()),
        tls_key_path: Some("k".to_string()),
        ..no_vars()
    });
    assert!(matches!(serve_mode(&tls), ServeMode::Tls));
    let acme = AppConfig::from_env(EnvVars {
        tls_cert_path: Some("c".to_string()),
        tls_key_path: Some("k".to_string()),
        acme_contact: Some("a@b.c".to_string()),
        ..no_vars()
    });
    assert!(matches!(serve_mode(&acme), ServeMode::Acme));
}

#[test]
fn well_known_credentials_are_noticed() {
    let with = |user: &str, on: &str| {
        AppConfig::from_env(EnvVars {
            bootstrap_user: Some(user.to_string()),
            bootstrap_password: Some("changeme".to_string()),
            break_glass: Some(on.to_string()),
            ..no_vars()
        })
    };
    assert!(has_default_credentials(&with("admin", "true")));
    assert!(!has_default_credentials(&with("admin", "false")));
    assert!(!has_default_credentials(&with("root", "true")));
}

#[test]
fn only_the_portal_has_a_content_policy() {
    let names = |path: &str| -> Vec<&'static str> {
        security_headers(path, Some("default-src 'self'"))
            .iter()
            .map(|h| h.0)
            .collect()
    };
    assert!(names("/portal/x").contains(&"content-security-policy"));
    assert!(!names("/chat").contains(&"content-security-policy"));
    assert!(names("/chat").contains(&"x-content-type-options"));
    assert_eq!(names("/chat").len(), 5);
}

#[test]
fn defaults_of_the_environment() {
    let c = AppConfig::from_env(no_vars());
    assert_eq!(c.listen_addr, "0.0.0.0:443");
    assert_eq!(c.api_hostname, "localhost");
    assert_eq!(c.queue_timeout_secs, 30);
    assert!(c.secure_cookies);
    assert!(!c.break_glass);
    assert_eq!(c.model_host_path, "/models");
    let c = AppConfig::from_env(EnvVars {
        queue_timeout_secs: Some("12".to_string()),
        break_glass: Some("TRUE".to_string()),
        ..no_vars()
    });
    assert_eq!(c.queue_timeout_secs, 12);
    assert!(c.break_glass);
    let c = AppConfig::from_env(EnvVars {
        model_path: Some("/m".to_string()),
        db_encryption_key: Some(String::new()),
        ..no_vars()
    });
    assert_eq!(c.model_host_path, "/m");
    assert_eq!(c.db_encryption_key, None);
    let c = AppConfig::from_env(EnvVars {
        queue_timeout_secs: Some("soon".to_string()),
        ..no_vars()
    });
    assert_eq!(c.queue_timeout_secs, 30);
}

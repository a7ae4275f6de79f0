//! The bootstrap administrator.
use sovereign_engine::auth::bootstrap::is_bootstrap_active;
use sovereign_engine::config::AppConfig;

fn test_config(break_glass: bool, user: Option<&str>, password: Option<&str>) -> AppConfig {
    AppConfig {
        listen_addr: "0.0.0.0:443".into(),
        database_url: "sqlite::memory:".into(),
        tls_cert_path: None,
        tls_key_path: None,
        bootstrap_user: user.map(String::from),
        bootstrap_password: password.map(String::from),
        break_glass,
        docker_host: "unix:///var/run/docker.sock".into(),
        model_path: "/models".into(),
        model_host_path: "/models".into(),
        ui_path: "/app/ui".into(),
        api_hostname: "localhost".into(),
        chat_hostname: "localhost".into(),
        cookie_domain: None,
        backend_network: "sovereign-internal".into(),
        acme_contact: None,
        acme_staging: false,
        webui_backend_url: "http://open-webui:8080".into(),
        webui_api_key: None,
        queue_timeout_secs: 30,
        secure_cookies: true,
        db_encryption_key: None,
        db_encryption_key_old: None,
        data_path: "/tmp/test-data-path".to_string(),
    }
}

#[test]
fn bootstrap_active_when_break_glass_and_creds() {
    let config = test_config(true, Some("admin"), Some("password"));
    assert!(is_bootstrap_active(&config));
}

#[test]
fn bootstrap_inactive_when_break_glass_false() {
    let config = test_config(false, Some("admin"), Some("password"));
    assert!(!is_bootstrap_active(&config));
}

#[test]
fn bootstrap_inactive_when_no_user() {
    let config = test_config(true, None, Some("password"));
    assert!(!is_bootstrap_active(&config));
}

#[test]
fn bootstrap_inactive_when_no_password() {
    let config = test_config(true, Some("admin"), None);
    assert!(!is_bootstrap_active(&config));
}

#[test]
fn bootstrap_inactive_when_no_creds_at_all() {
    let config = test_config(true, None, None);
    assert!(!is_bootstrap_active(&config));
}

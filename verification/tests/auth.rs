//! Sessions, keys and logins.
use sovereign_engine::auth::bootstrap::validate_bootstrap;
use sovereign_engine::auth::oidc::{
    bootstrap_login, callback_failure, callback_next, display_name, extract_client_ip,
    list_providers, login_failure, portal_url, redirect_url, scope_list, upsert_user,
    BootstrapLogin, CallbackFailure, CallbackStep, LoginFailure, UserUpsert, SESSION_SECS,
};
use sovereign_engine::auth::rate_limit::{
    RateLimiter, NANOS, RATE_LIMIT_MAX_ATTEMPTS, RATE_LIMIT_WINDOW_SECS,
};
use sovereign_engine::auth::session::{
    admin_only, bearer_token, extract_session_tokens, me, unauth_response, SessionAuth,
    Unauthenticated,
};
use sovereign_engine::config::AppConfig;
use sovereign_engine::json::{parse, to_text, Json};

fn same(value: &Json, text: &str) {
    assert_eq!(to_text(value), to_text(&parse(text).expect("JSON")));
}

fn test_config(break_glass: bool) -> AppConfig {
    AppConfig {
        listen_addr: "127.0.0.1:0".to_string(),
        database_url: "sqlite::memory:".to_string(),
        tls_cert_path: None,
        tls_key_path: None,
        bootstrap_user: Some("admin".to_string()),
        bootstrap_password: Some("hunter2".to_string()),
        break_glass,
        docker_host: "unix:///var/run/docker.sock".to_string(),
        model_path: "/tmp/test-models".to_string(),
        model_host_path: "/tmp/test-models".to_string(),
        ui_path: "/tmp/test-ui".to_string(),
        api_hostname: "localhost".to_string(),
        chat_hostname: "localhost".to_string(),
        cookie_domain: None,
        backend_network: "test-network".to_string(),
        acme_contact: None,
        acme_staging: false,
        webui_backend_url: "http://localhost:8080".to_string(),
        webui_api_key: None,
        queue_timeout_secs: 30,
        secure_cookies: false,
        db_encryption_key: None,
        db_encryption_key_old: None,
        data_path: "/tmp/test-data-path".to_string(),
    }
}

#[test]
fn rate_limit_allows_up_to_max_attempts() {
    let mut limiter = RateLimiter::new();
    for i in 0..RATE_LIMIT_MAX_ATTEMPTS {
        assert!(
            limiter.check_rate_limit("unit-test-allow", 1_000),
            "attempt {} should be allowed",
            i + 1
        );
    }
}

#[test]
fn rate_limit_blocks_after_max_attempts() {
    let mut limiter = RateLimiter::new();
    for _ in 0..RATE_LIMIT_MAX_ATTEMPTS {
        limiter.check_rate_limit("unit-test-block", 1_000);
    }
    assert!(
        !limiter.check_rate_limit("unit-test-block", 1_000),
        "attempt beyond max should be blocked"
    );
    assert!(limiter.check_rate_limit("someone-else", 1_000));
}

#[test]
fn a_window_ends() {
    let mut limiter = RateLimiter::new();
    let start = 7 * NANOS;
    for _ in 0..RATE_LIMIT_MAX_ATTEMPTS {
        assert!(limiter.check_rate_limit("k", start));
    }
    let last = start + RATE_LIMIT_WINDOW_SECS * NANOS - 1;
    assert!(!limiter.check_rate_limit("k", last));
    assert!(limiter.check_rate_limit("k", last + 1));
    assert!(limiter.check_rate_limit("k", last + 2));
}

fn log_in(config: &AppConfig, limiter: &mut RateLimiter, pass: &str) -> BootstrapLogin {
    bootstrap_login(config, limiter, Some("10.0.0.1, 10.0.0.2"), 5, "admin", pass)
}

#[test]
fn bootstrap_login_404_when_bootstrap_inactive() {
    let mut limiter = RateLimiter::new();
    assert!(matches!(
        log_in(&test_config(false), &mut limiter, "hunter2"),
        BootstrapLogin::Hidden
    ));
}

#[test]
fn bootstrap_login_401_on_wrong_credentials() {
    let mut limiter = RateLimiter::new();
    match log_in(&test_config(true), &mut limiter, "wrong") {
        BootstrapLogin::Refused(r) => {
            assert_eq!(r.status, 401);
            same(&r.body, r#"{"error":"Invalid credentials"}"#);
        }
        other => panic!("{other:?}"),
    }
}

#[test]
fn bootstrap_login_accepts_the_right_credentials() {
    let mut limiter = RateLimiter::new();
    assert!(matches!(
        log_in(&test_config(true), &mut limiter, "hunter2"),
        BootstrapLogin::Accepted
    ));
    assert_eq!(SESSION_SECS, 86400);
}

#[test]
fn bootstrap_login_429_after_rate_limit_exhausted() {
    let mut limiter = RateLimiter::new();
    let config = test_config(true);
    for _ in 0..RATE_LIMIT_MAX_ATTEMPTS {
        log_in(&config, &mut limiter, "wrong");
    }
    match log_in(&config, &mut limiter, "hunter2") {
        BootstrapLogin::Refused(r) => assert_eq!(r.status, 429),
        other => panic!("{other:?}"),
    }
}

#[test]
fn hidden_logins_are_not_counted() {
    let mut limiter = RateLimiter::new();
    for _ in 0..2 * RATE_LIMIT_MAX_ATTEMPTS {
        log_in(&test_config(false), &mut limiter, "x");
    }
    assert!(matches!(
        log_in(&test_config(true), &mut limiter, "hunter2"),
        BootstrapLogin::Accepted
    ));
}

#[test]
fn bootstrap_refusals_say_why() {
    assert_eq!(
        validate_bootstrap(&test_config(false), "admin", "hunter2"),
        Err("Bootstrap authentication is not active")
    );
    assert_eq!(
        validate_bootstrap(&test_config(true), "admin", "x"),
        Err("Invalid bootstrap credentials")
    );
    assert_eq!(
        validate_bootstrap(&test_config(true), "admin", "hunter2"),
        Ok(())
    );
}

#[test]
fn clients_are_told_apart_by_their_address() {
    assert_eq!(extract_client_ip(Some(" 1.2.3.4 , 5.6.7.8")), "1.2.3.4");
    assert_eq!(extract_client_ip(Some(" ,5.6.7.8")), "global");
    assert_eq!(extract_client_ip(None), "global");
}

#[test]
fn providers_bootstrap_active_false_when_inactive() {
    let listed = list_providers(&Vec::new(), &test_config(false));
    same(&listed, r#"{"providers":[],"bootstrap_active":false}"#);
}

#[test]
fn providers_bootstrap_active_true_when_active() {
    let listed = list_providers(&Vec::new(), &test_config(true));
    assert_eq!(listed.get("bootstrap_active"), Some(&Json::Bool(true)));
}

#[test]
fn providers_always_includes_providers_array() {
    let one = vec![("i".to_string(), "N".to_string())];
    same(
        &list_providers(&one, &test_config(true)),
        r#"{"providers":[{"id":"i","name":"N"}],"bootstrap_active":true}"#,
    );
}

#[test]
fn session_tokens_are_read_from_the_cookies() {
    assert_eq!(
        extract_session_tokens("a=b; se_session=one;se_session=two ; xse_session=no"),
        vec!["one", "two"]
    );
    assert!(extract_session_tokens("").is_empty());
}

#[test]
fn keys_are_read_from_either_header() {
    assert_eq!(
        bearer_token(Some("Bearer k"), Some("x")).as_deref(),
        Some("k")
    );
    assert_eq!(bearer_token(Some("Basic k"), Some("x")).as_deref(), Some("x"));
    assert_eq!(bearer_token(Some("bearer k"), None), None);
    assert_eq!(bearer_token(None, None), None);
}

#[test]
fn browsers_are_sent_to_the_portal() {
    match unauth_response(Some("text/html,*/*"), "http://localhost/portal/") {
        Unauthenticated::Redirect(url) => assert_eq!(url, "http://localhost/portal/"),
        other => panic!("{other:?}"),
    }
    match unauth_response(Some("application/json"), "x") {
        Unauthenticated::Reply(r) => {
            assert_eq!(r.status, 401);
            same(&r.body, r#"{"error":"Authentication required"}"#);
        }
        other => panic!("{other:?}"),
    }
}

fn session(is_admin: bool) -> SessionAuth {
    SessionAuth {
        user_id: "u".to_string(),
        is_admin,
        email: None,
        display_name: Some("U".to_string()),
    }
}

#[test]
fn only_administrators_reach_their_api() {
    assert_eq!(admin_only(None).expect("refusal").status, 401);
    let r = admin_only(Some(&session(false))).expect("refusal");
    assert_eq!(r.status, 403);
    same(&r.body, r#"{"error":"Admin access required"}"#);
    assert!(admin_only(Some(&session(true))).is_none());
}

#[test]
fn me_returns_200_with_valid_session_cookie() {
    let r = me(Some(&session(true)), "http://chat");
    assert_eq!(r.status, 200);
    same(
        &r.body,
        r#"{"user_id":"u","email":null,"display_name":"U","is_admin":true,
            "chat_url":"http://chat"}"#,
    );
}

#[test]
fn me_returns_401_with_no_credentials() {
    assert_eq!(me(None, "http://chat").status, 401);
}

#[test]
fn logins_through_providers() {
    assert_eq!(login_failure(LoginFailure::UnknownProvider).status, 400);
    assert_eq!(login_failure(LoginFailure::Provider).status, 500);
    assert_eq!(login_failure(LoginFailure::Store).status, 500);
    assert_eq!(callback_failure(CallbackFailure::Verification).status, 400);
    assert_eq!(
        redirect_url("https://api.example.com"),
        "https://api.example.com/auth/callback"
    );
    assert_eq!(portal_url(&test_config(true)), "http://localhost/portal/");
    assert_eq!(
        scope_list("openid  email profile "),
        vec!["openid", "email", "profile"]
    );
}

#[test]
fn callbacks_run_to_their_end() {
    let mut step = CallbackStep::LoadState;
    let mut n = 0;
    while step != CallbackStep::Finish {
        assert!(callback_next(step, false).is_err());
        step = callback_next(step, true).expect("next");
        n += 1;
    }
    assert_eq!(n, 9);
    assert_eq!(
        callback_next(CallbackStep::LoadState, false)
            .unwrap_err()
            .status,
        400
    );
}

#[test]
fn the_first_user_becomes_an_administrator() {
    assert_eq!(upsert_user(None, 0), UserUpsert::Create { is_admin: true });
    assert_eq!(upsert_user(None, 3), UserUpsert::Create { is_admin: false });
    assert_eq!(
        upsert_user(Some("u".to_string()), 0),
        UserUpsert::Update("u".to_string())
    );
    assert_eq!(
        display_name(None, Some("a@b.c")).as_deref(),
        Some("a@b.c")
    );
    assert_eq!(
        display_name(Some("n".to_string()), Some("a@b.c")).as_deref(),
        Some("n")
    );
}

#[test]
fn clients_are_independent() {
    let mut alone = RateLimiter::new();
    let mut together = RateLimiter::new();
    for i in 0..10u64 {
        together.check_rate_limit("other", i);
        assert_eq!(
            alone.check_rate_limit("k", i),
            together.check_rate_limit("k", i)
        );
    }
}

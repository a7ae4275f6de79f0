//! Admission, attribution and the OpenAI API.
use sovereign_engine::api::anthropic::OpenAIUsage;
use sovereign_engine::api::gateway::{
    attribute_usage, backend_error_reply, backend_request_headers, check_admission, keeps_body,
    kicks_supervisor, needs_meta_lookup, passed_on_headers, usage_entry, user_email, BackendCall,
    MetaUser, Refusal, ResolvedModel,
};
use sovereign_engine::api::openai::{
    extract_usage_from_response, invalid_body, list_models, list_models_failed, refusal_reply,
    retry_after,
};
use sovereign_engine::auth::session::AuthUser;
use sovereign_engine::json::{parse, to_text, Json};

fn same(value: &Json, text: &str) {
    assert_eq!(to_text(value), to_text(&parse(text).expect("JSON")));
}

fn user(id: &str, is_admin: bool, is_internal: bool) -> AuthUser {
    AuthUser {
        user_id: id.to_string(),
        token_id: format!("token-of-{id}"),
        category_id: None,
        specific_model_id: None,
        is_admin,
        is_internal,
    }
}

fn model(loaded: bool) -> ResolvedModel {
    ResolvedModel {
        id: "m1".to_string(),
        hf_repo: "owner/m1".to_string(),
        loaded,
        backend_type: "llamacpp".to_string(),
        category_id: Some("c".to_string()),
    }
}

#[test]
fn inference_allowed_without_reservation() {
    let r = check_admission("owner/m1", &user("a", false, false), Some(&model(true)), None);
    assert_eq!(r, None);
}

#[test]
fn inference_blocked_for_non_holder() {
    let r = check_admission(
        "owner/m1",
        &user("a", false, false),
        Some(&model(true)),
        Some("holder"),
    );
    assert_eq!(r, Some(Refusal::Reserved));
}

#[test]
fn inference_allowed_for_holder() {
    let r = check_admission(
        "owner/m1",
        &user("holder", false, false),
        Some(&model(true)),
        Some("holder"),
    );
    assert_eq!(r, None);
}

#[test]
fn inference_internal_token_exempt() {
    let r = check_admission(
        "owner/m1",
        &user("a", false, true),
        Some(&model(true)),
        Some("holder"),
    );
    assert_eq!(r, None);
}

#[test]
fn inference_admin_token_not_exempt() {
    let r = check_admission(
        "owner/m1",
        &user("a", true, false),
        Some(&model(true)),
        Some("holder"),
    );
    assert_eq!(r, Some(Refusal::Reserved));
}

#[test]
fn unloaded_model_rejected_before_reservation_check() {
    let r = check_admission(
        "owner/m1",
        &user("a", false, false),
        Some(&model(false)),
        Some("holder"),
    );
    assert_eq!(
        r,
        Some(Refusal::NotLoaded {
            message: "Model 'owner/m1' is not currently loaded".to_string()
        })
    );
}

#[test]
fn overridden_models_are_named() {
    let r = check_admission("asked", &user("a", false, false), Some(&model(false)), None);
    assert_eq!(
        r,
        Some(Refusal::NotLoaded {
            message: "Model 'owner/m1' (overridden by token from 'asked') is not currently loaded"
                .to_string()
        })
    );
    let r = check_admission("asked", &user("a", false, false), None, None);
    assert_eq!(
        r,
        Some(Refusal::ModelNotFound {
            model: "asked".to_string()
        })
    );
}

fn found() -> Option<MetaUser> {
    Some(MetaUser {
        user_id: "real".to_string(),
        token_id: "meta".to_string(),
    })
}

#[test]
fn meta_usage_attribution() {
    let internal = user("webui", false, true);
    assert!(needs_meta_lookup(&internal, Some("a@b.c")));
    assert_eq!(
        attribute_usage(&internal, Some("a@b.c"), found()),
        ("real".to_string(), "meta".to_string())
    );
}

#[test]
fn meta_fallback_unknown_email() {
    let internal = user("webui", false, true);
    assert_eq!(
        attribute_usage(&internal, Some("a@b.c"), None),
        ("webui".to_string(), "token-of-webui".to_string())
    );
}

#[test]
fn meta_no_override_for_regular_tokens() {
    let regular = user("a", false, false);
    assert!(!needs_meta_lookup(&regular, Some("a@b.c")));
    assert!(!needs_meta_lookup(&user("w", false, true), None));
    assert_eq!(
        attribute_usage(&regular, Some("a@b.c"), found()),
        ("a".to_string(), "token-of-a".to_string())
    );
}

#[test]
fn headers_name_the_user_first() {
    assert_eq!(
        user_email(Some("h".to_string()), Some("b".to_string())).as_deref(),
        Some("h")
    );
    assert_eq!(user_email(None, Some("b".to_string())).as_deref(), Some("b"));
    let e = usage_entry(
        ("u".to_string(), "t".to_string()),
        &model(true),
        (1, 2),
        30,
        4,
    );
    assert_eq!(e.user_id, "u");
    assert_eq!(e.token_id, "t");
    assert_eq!(e.model_id, "m1");
    assert_eq!(e.category_id.as_deref(), Some("c"));
    assert_eq!((e.input_tokens, e.output_tokens), (1, 2));
    assert_eq!((e.latency_ms, e.queued_ms), (30, 4));
}

#[test]
fn backends_are_called_with_their_key() {
    assert_eq!(
        backend_request_headers(Some("k")),
        vec![
            ("content-type", "application/json".to_string()),
            ("authorization", "Bearer k".to_string())
        ]
    );
    assert_eq!(backend_request_headers(None).len(), 1);
}

#[test]
fn failing_backends_are_looked_at() {
    assert!(kicks_supervisor(None));
    assert!(kicks_supervisor(Some(500)));
    assert!(kicks_supervisor(Some(599)));
    assert!(!kicks_supervisor(Some(499)));
    assert!(!kicks_supervisor(Some(200)));
}

#[test]
fn answers_of_backends() {
    let r = backend_error_reply(BackendCall::Unreachable).expect("reply");
    assert_eq!(r.status, 502);
    same(
        &r.body,
        r#"{"error":{"message":"Backend unavailable","type":"server_error",
            "code":"backend_unavailable"}}"#,
    );
    let r = backend_error_reply(BackendCall::BodyLost).expect("reply");
    assert_eq!(r.status, 502);
    assert!(backend_error_reply(BackendCall::Complete { status: 500 }).is_none());
    assert!(backend_error_reply(BackendCall::Streaming { status: 200 }).is_none());
    assert!(keeps_body(BackendCall::Complete { status: 200 }));
    assert!(!keeps_body(BackendCall::Complete { status: 500 }));
    assert!(!keeps_body(BackendCall::Streaming { status: 200 }));
    assert_eq!(
        passed_on_headers(false, None, Some("chunked")),
        vec![("content-type", "application/json".to_string())]
    );
    assert_eq!(passed_on_headers(true, Some("x"), Some("chunked")).len(), 4);
}

#[test]
fn refusals_of_the_openai_api() {
    let busy = Refusal::Busy {
        retry_after_secs: 30,
    };
    let r = refusal_reply(&busy);
    assert_eq!(r.status, 429);
    same(
        &r.body,
        r#"{"error":{"message":"Server is busy. Please retry later.","type":"server_error",
            "code":"queue_timeout"}}"#,
    );
    assert_eq!(retry_after(&busy).as_deref(), Some("30"));
    assert_eq!(retry_after(&Refusal::Reserved), None);
    assert_eq!(refusal_reply(&Refusal::Reserved).status, 503);
    let missing = refusal_reply(&Refusal::ModelNotFound {
        model: "m".to_string(),
    });
    assert_eq!(missing.status, 404);
    same(
        &missing.body,
        r#"{"error":{"message":"Model not found: m","type":"invalid_request_error",
            "code":"model_not_found"}}"#,
    );
    let unloaded = refusal_reply(&Refusal::NotLoaded {
        message: "x".to_string(),
    });
    assert_eq!(unloaded.status, 503);
    assert_eq!(invalid_body("why").status, 200);
}

#[test]
fn usage_of_complete_responses() {
    assert_eq!(extract_usage_from_response(None), (0, 0));
    assert_eq!(extract_usage_from_response(Some(None)), (0, 0));
    assert_eq!(
        extract_usage_from_response(Some(Some(OpenAIUsage {
            prompt_tokens: Some(3),
            completion_tokens: Some(4)
        }))),
        (3, 4)
    );
}

#[test]
fn failed_lookups_of_models_are_reported() {
    let r = list_models_failed();
    assert_eq!(r.status, 500);
    assert_eq!(
        r.text(),
        r#"{"error":{"message":"Failed to list models","type":"server_error"}}"#
    );
}

#[test]
fn running_models_are_listed() {
    let listed = list_models(&vec!["a/b".to_string()]);
    assert_eq!(listed.status, 200);
    assert_eq!(
        listed.text(),
        [
            r#"{"object":"list","#,
            r#""data":[{"id":"a/b","object":"model","owned_by":"sovereign-engine"}]}"#,
        ]
        .concat()
    );
}

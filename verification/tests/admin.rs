//! The administrators' API.
use sovereign_engine::api::admin::{
    admin_usage, admin_usage_timeline, affected_reply, check_setting, crash_history,
    crash_log_gone, crash_log_path, created_reply, delete_model, deleted_reply, disk_status,
    gpu_status, list_containers, list_users, new_category_description, new_idp_scopes,
    new_model_backend, report_period, started_reply, system_status, update_category, update_idp,
    update_model, update_user_reply, AdminUsageByUser, Assignment, BlockingToken, ColumnValue,
    ContainerListing, CrashHistoryRow, DeletableModel, DeleteStep, UpdateCategoryRequest,
    UpdateIdpRequest, UsageTotals,
};
use sovereign_engine::api::checks::{
    category_checks, first_refusal, idp_checks, repository_checks, Check, Limit,
};
use sovereign_engine::api::common::ContainerState;
use sovereign_engine::api::downloads::DiskUsage;
use sovereign_engine::db::models::{IdpConfigPublic, Model, ModelCategory, User};
use sovereign_engine::docker::runtime_overrides::ModelRuntimeOverrides;
use sovereign_engine::json::{parse, to_text, Json};
use sovereign_engine::metrics::GpuMemoryInfo;
use sovereign_engine::reply::Reply;

fn json(text: &str) -> Json {
    parse(text).expect("JSON")
}

fn same(value: &Json, text: &str) {
    assert_eq!(to_text(value), to_text(&json(text)));
}

fn deletable(loaded: bool) -> DeletableModel {
    DeletableModel {
        id: "model-x".to_string(),
        hf_repo: "owner/x-GGUF".to_string(),
        loaded,
        backend_type: "llamacpp".to_string(),
    }
}

fn blocker(id: &str) -> BlockingToken {
    BlockingToken {
        id: id.to_string(),
        name: "pinned".to_string(),
        user_email: Some("a@b.c".to_string()),
    }
}

#[test]
fn delete_model_missing_returns_404() {
    let r = delete_model(None, &Vec::new(), false, "/models").unwrap_err();
    assert_eq!(r.status, 404);
    same(&r.body, r#"{"error":"Model not found"}"#);
}

#[test]
fn delete_model_happy_path_returns_200() {
    let m = deletable(false);
    let steps = delete_model(Some(&m), &Vec::new(), false, "/models").expect("steps");
    let id = || "model-x".to_string();
    assert_eq!(
        steps,
        vec![
            DeleteStep::Begin,
            DeleteStep::ClearPins { model_id: id() },
            DeleteStep::DeleteSecrets { model_id: id() },
            DeleteStep::DeleteRow { model_id: id() },
            DeleteStep::Commit,
            DeleteStep::RemoveFiles {
                dir: "/models/owner--x-GGUF".to_string()
            },
        ]
    );
    let r = deleted_reply(0);
    assert_eq!(r.status, 200);
    same(&r.body, r#"{"status":"deleted","revoked_tokens":0}"#);
}

#[test]
fn delete_model_blocked_by_active_pin_returns_409() {
    let m = deletable(true);
    let r = delete_model(Some(&m), &vec![blocker("t1")], false, "/models").unwrap_err();
    assert_eq!(r.status, 409);
    same(
        &r.body,
        r#"{"error":"Model is in use by 1 active token(s). Revoke them or retry with override=true.",
            "blocking_tokens":[{"id":"t1","name":"pinned","user_email":"a@b.c"}]}"#,
    );
}

#[test]
fn delete_model_override_soft_deletes_tokens_and_succeeds() {
    let m = deletable(true);
    let steps =
        delete_model(Some(&m), &vec![blocker("t1"), blocker("t2")], true, "/m").expect("steps");
    assert_eq!(
        steps[..4],
        [
            DeleteStep::RevokeToken {
                id: "t1".to_string()
            },
            DeleteStep::RevokeToken {
                id: "t2".to_string()
            },
            DeleteStep::StopBackend {
                model_id: "model-x".to_string(),
                backend_type: "llamacpp".to_string()
            },
            DeleteStep::CleanUp {
                model_id: "model-x".to_string()
            },
        ]
    );
    assert_eq!(steps.len(), 10);
    same(
        &deleted_reply(2).body,
        r#"{"status":"deleted","revoked_tokens":2}"#,
    );
}

#[test]
fn files_go_after_the_commit() {
    let m = deletable(true);
    let steps = delete_model(Some(&m), &Vec::new(), true, "/m").expect("steps");
    let commit = steps
        .iter()
        .position(|s| *s == DeleteStep::Commit)
        .expect("commit");
    let files = steps
        .iter()
        .position(|s| matches!(s, DeleteStep::RemoveFiles { .. }))
        .expect("files");
    assert_eq!(files, commit + 1);
    assert_eq!(files, steps.len() - 1);
}

fn idp_request() -> UpdateIdpRequest {
    UpdateIdpRequest {
        name: None,
        issuer: None,
        client_id: None,
        client_secret_enc: None,
        scopes: None,
        enabled: None,
    }
}

#[test]
fn idp_updates_set_what_is_given() {
    let update = update_idp(
        None,
        true,
        &UpdateIdpRequest {
            scopes: Some("openid".to_string()),
            name: Some("N".to_string()),
            enabled: Some(false),
            ..idp_request()
        },
    )
    .expect("update");
    assert_eq!(
        update.sql,
        "UPDATE idp_configs SET name = ?, scopes = ?, enabled = ? WHERE id = ?"
    );
    assert_eq!(
        update.assignments,
        vec![
            Assignment {
                column: "name",
                value: ColumnValue::Text("N".to_string())
            },
            Assignment {
                column: "scopes",
                value: ColumnValue::Text("openid".to_string())
            },
            Assignment {
                column: "enabled",
                value: ColumnValue::Flag(false)
            },
        ]
    );
    assert_eq!(update.sql.matches('?').count(), update.assignments.len() + 1);
}

#[test]
fn idp_updates_can_be_refused() {
    let r = update_idp(None, false, &idp_request()).unwrap_err();
    assert_eq!(r.status, 404);
    same(&r.body, r#"{"error":"IdP not found"}"#);
    let r = update_idp(None, true, &idp_request()).unwrap_err();
    assert_eq!(r.status, 400);
    same(&r.body, r#"{"error":"No fields to update"}"#);
}

#[test]
fn refused_requests_change_nothing() {
    let too_long = || Some(Reply::error(400, "name too long"));
    let named = UpdateIdpRequest {
        name: Some("N".to_string()),
        ..idp_request()
    };
    for found in [false, true] {
        let r = update_idp(too_long(), found, &named).unwrap_err();
        assert_eq!(Some(r), too_long());
    }
    let r = update_category(
        too_long(),
        &UpdateCategoryRequest {
            name: Some("N".to_string()),
            description: None,
            preferred_model_id: None,
        },
    )
    .unwrap_err();
    assert_eq!(Some(r), too_long());
}

fn length(field: &'static str, value: &str, limit: Limit) -> Check {
    Check::Length {
        field,
        value: value.to_string(),
        limit,
    }
}

#[test]
fn texts_are_checked_in_order() {
    assert_eq!(
        idp_checks(Some("n"), Some("i"), Some("c"), Some("s")),
        vec![
            length("name", "n", Limit::Name),
            length("issuer", "i", Limit::Url),
            length("client_id", "c", Limit::Name),
            length("client_secret", "s", Limit::Secret),
        ]
    );
    assert_eq!(
        idp_checks(None, None, Some("c"), None),
        vec![length("client_id", "c", Limit::Name)]
    );
    assert_eq!(
        category_checks(Some("n"), Some("d")),
        vec![
            length("name", "n", Limit::Name),
            length("description", "d", Limit::Description),
        ]
    );
    assert_eq!(category_checks(None, None), vec![]);
    assert_eq!(
        repository_checks("hf_repo", "a/b"),
        vec![
            length("hf_repo", "a/b", Limit::Name),
            Check::Repository("a/b".to_string()),
        ]
    );
}

#[test]
fn the_first_failed_check_is_answered() {
    let first = || Some(Reply::error(400, "first"));
    let second = || Some(Reply::error(400, "second"));
    assert_eq!(first_refusal(vec![None, first(), second()]), first());
    assert_eq!(first_refusal(vec![second(), None]), second());
    assert_eq!(first_refusal(vec![None, None]), None);
    assert_eq!(first_refusal(vec![]), None);
}

#[test]
fn the_overview_has_its_parts() {
    same(
        &system_status(
            json("1"),
            json("2"),
            json("3"),
            json("4"),
            json("5"),
            json("6"),
            json("7"),
        ),
        r#"{"disk":1,"containers":2,"queues":3,"gates":4,"gpu":5,"gpu_memory":6,
            "available_backends":7}"#,
    );
}

#[test]
fn category_updates_set_what_is_given() {
    let update = update_category(None, &UpdateCategoryRequest {
        name: None,
        description: Some("d".to_string()),
        preferred_model_id: Some("m".to_string()),
    })
    .expect("update");
    assert_eq!(
        update.sql,
        "UPDATE model_categories SET description = ?, preferred_model_id = ? WHERE id = ?"
    );
    let r = update_category(None, &UpdateCategoryRequest {
        name: None,
        description: None,
        preferred_model_id: None,
    })
    .unwrap_err();
    assert_eq!(r.status, 400);
}

#[test]
fn missing_rows_are_reported() {
    let r = affected_reply(0, "deleted", "Category not found");
    assert_eq!(r.status, 404);
    same(&r.body, r#"{"error":"Category not found"}"#);
    let r = affected_reply(1, "deleted", "Category not found");
    assert_eq!(r.status, 200);
    same(&r.body, r#"{"status":"deleted"}"#);
    assert_eq!(update_user_reply(Some(0)).status, 404);
    same(&update_user_reply(None).body, r#"{"status":"updated"}"#);
}

#[test]
fn defaults_of_new_rows() {
    assert_eq!(new_idp_scopes(None), "openid email profile");
    assert_eq!(new_idp_scopes(Some("x".to_string())), "x");
    assert_eq!(new_category_description(None), "");
    assert_eq!(new_model_backend(None), "llamacpp");
    assert_eq!(report_period(None), "day");
    let r = created_reply("i", "hf_repo", "a/b");
    assert_eq!(r.status, 201);
    same(&r.body, r#"{"id":"i","hf_repo":"a/b"}"#);
    same(
        &started_reply("c", "http://c").body,
        r#"{"container":"c","url":"http://c"}"#,
    );
}

#[test]
fn model_updates_check_their_overrides() {
    let plain = update_model(None).expect("update");
    assert_eq!(plain.sql, "UPDATE models SET category_id = ? WHERE id = ?");
    assert_eq!(plain.runtime_overrides, None);
    let o = ModelRuntimeOverrides {
        cache_ram_mib: Some(0),
        ..Default::default()
    };
    let update = update_model(Some(&o)).expect("update");
    assert_eq!(
        update.sql,
        "UPDATE models SET category_id = ?, runtime_overrides = ? WHERE id = ?"
    );
    let stored = json(&update.runtime_overrides.expect("stored"));
    assert_eq!(ModelRuntimeOverrides::from_json(&stored), Ok(o));
    let bad = ModelRuntimeOverrides {
        extra: vec!["--port".to_string()],
        ..Default::default()
    };
    let r = update_model(Some(&bad)).unwrap_err();
    assert_eq!(r.status, 400);
    same(
        &r.body,
        r#"{"error":"extra argument '--port' is reserved by the proxy"}"#,
    );
}

#[test]
fn settings_are_checked() {
    assert_eq!(
        check_setting("queue_timeout_secs", &json("30")),
        Ok("30".to_string())
    );
    assert_eq!(
        check_setting("fairness_usage_scale", &json("\"2.5\"")),
        Ok("2.5".to_string())
    );
    let r = check_setting("other", &json("1")).unwrap_err();
    assert_eq!(r.status, 400);
    same(&r.body, r#"{"error":"Unknown setting: other"}"#);
    let r = check_setting("fairness_wait_weight", &json("true")).unwrap_err();
    same(
        &r.body,
        r#"{"error":"Invalid value for fairness_wait_weight: expected number or string"}"#,
    );
}

#[test]
fn system_overview() {
    let disk = DiskUsage {
        total_bytes: 3,
        used_bytes: 2,
        free_bytes: 1,
    };
    same(
        &disk_status("/models", &Ok(disk)),
        r#"{"model_path":"/models","total_bytes":3,"used_bytes":2,"free_bytes":1}"#,
    );
    same(
        &disk_status("/models", &Err("no df".to_string())),
        r#"{"model_path":"/models","error":"no df"}"#,
    );
    let gpu = GpuMemoryInfo {
        gpu_type: "amd".to_string(),
        device_index: 0,
        total_mb: 10,
        used_mb: 4,
        free_mb: 6,
        utilization_percent: None,
    };
    same(
        &gpu_status(&vec![gpu]),
        r#"[{"gpu_type":"amd","device_index":0,"total_mb":10,"used_mb":4,"free_mb":6,
             "utilization_percent":null}]"#,
    );
}

#[test]
fn containers_are_listed() {
    let full = ContainerListing {
        id: Some("i".to_string()),
        names: Some(vec!["/n".to_string()]),
        state: Some(ContainerState::Exited),
        status: Some("Exited (0)".to_string()),
        labels: Some(vec![("k".to_string(), "v".to_string())]),
    };
    let empty = ContainerListing {
        id: None,
        names: None,
        state: None,
        status: None,
        labels: None,
    };
    same(
        &list_containers(&vec![full, empty]),
        r#"{"containers":[
            {"id":"i","names":["/n"],"state":"exited","status":"Exited (0)","labels":{"k":"v"}},
            {"id":null,"names":null,"state":null,"status":null,"labels":null}]}"#,
    );
}

#[test]
fn users_are_listed_with_their_usage() {
    let user = User {
        id: "u".to_string(),
        idp_id: "idp".to_string(),
        subject: "s".to_string(),
        email: None,
        display_name: Some("U".to_string()),
        is_admin: true,
        created_at: "2026-01-01T00:00:00Z".to_string(),
    };
    let totals = UsageTotals {
        requests: 2,
        tokens: 30,
    };
    same(
        &list_users(&vec![(user, totals)]),
        r#"{"users":[{"id":"u","idp_id":"idp","subject":"s","email":null,"display_name":"U",
            "is_admin":true,"created_at":"2026-01-01T00:00:00Z",
            "usage_summary":{"total_requests":2,"total_tokens":30}}]}"#,
    );
}

fn usage() -> AdminUsageByUser {
    AdminUsageByUser {
        user_label: "U".to_string(),
        requests: 1,
        input_tokens: 2,
        output_tokens: 3,
    }
}

#[test]
fn usage_is_reported() {
    same(
        &admin_usage("week", 1, 2, 3, &vec![usage()]),
        r#"{"summary":{"total_requests":1,"total_input_tokens":2,"total_output_tokens":3,
            "period":"week"},
            "by_user":[{"user_label":"U","requests":1,"input_tokens":2,"output_tokens":3}]}"#,
    );
    same(
        &admin_usage_timeline(&vec![("t".to_string(), usage())]),
        r#"{"timeline":[{"timestamp":"t","user_label":"U","requests":1,"input_tokens":2,
            "output_tokens":3}]}"#,
    );
}

#[test]
fn crashes_are_listed_without_their_paths() {
    let row = CrashHistoryRow {
        occurred_at: "t".to_string(),
        container_id: None,
        exit_code: Some(-9),
        oom_killed: 1,
        signal: Some("OOMKilled".to_string()),
        log_path: Some("/secret/path".to_string()),
    };
    let listed = crash_history(&vec![row]);
    same(
        &listed,
        r#"{"history":[{"occurred_at":"t","container_id":null,"exit_code":-9,"oom_killed":1,
            "signal":"OOMKilled","log_path_present":true}]}"#,
    );
    assert!(!to_text(&listed).contains("/secret/path"));
}

#[test]
fn crash_logs_can_be_missing() {
    let error = |r: sovereign_engine::reply::Reply| {
        assert_eq!(r.status, 404);
        r.body.get_str("error").expect("error").to_string()
    };
    assert_eq!(
        error(crash_log_path(None).unwrap_err()),
        "crash log not found"
    );
    assert_eq!(
        error(crash_log_path(Some(None)).unwrap_err()),
        "log was not captured"
    );
    assert_eq!(
        crash_log_path(Some(Some("/p".to_string()))),
        Ok("/p".to_string())
    );
    assert_eq!(error(crash_log_gone()), "log file no longer available");
}

fn sample_model(runtime_overrides: &str) -> Model {
    Model {
        id: "m".into(),
        hf_repo: "r".into(),
        filename: None,
        size_bytes: 0,
        category_id: None,
        loaded: false,
        backend_port: None,
        backend_type: "llamacpp".into(),
        last_used_at: None,
        created_at: "2026-01-01T00:00:00Z".into(),
        context_length: None,
        n_layers: None,
        n_heads: None,
        n_kv_heads: None,
        embedding_length: None,
        key_length: None,
        value_length: None,
        sliding_window: None,
        kv_bytes_per_token_global: None,
        kv_bytes_per_token_swa: None,
        mmproj_filename: None,
        runtime_overrides: runtime_overrides.into(),
    }
}

#[test]
fn runtime_overrides_serializes_as_nested_object_not_string() {
    let m = sample_model(r#"{"cache_ram_mib":0}"#);
    let value = m.to_value();
    let overrides = value.get("runtime_overrides").expect("overrides");
    same(overrides, r#"{"cache_ram_mib": 0}"#);
    assert!(!matches!(overrides, Json::Text(_)));
}

#[test]
fn runtime_overrides_default_serializes_as_empty_object() {
    let value = sample_model("{}").to_value();
    same(value.get("runtime_overrides").expect("overrides"), "{}");
}

#[test]
fn runtime_overrides_invalid_json_falls_back_to_empty_object() {
    let value = sample_model("not json").to_value();
    same(value.get("runtime_overrides").expect("overrides"), "{}");
}

#[test]
fn rows_are_reported_field_by_field() {
    let m = Model {
        filename: Some("f.gguf".into()),
        size_bytes: 7,
        backend_port: Some(-1),
        n_layers: Some(32),
        ..sample_model("{}")
    };
    same(
        &m.to_value(),
        r#"{"id":"m","hf_repo":"r","filename":"f.gguf","size_bytes":7,"category_id":null,
            "loaded":false,"backend_port":-1,"backend_type":"llamacpp","last_used_at":null,
            "created_at":"2026-01-01T00:00:00Z","context_length":null,"n_layers":32,
            "n_heads":null,"n_kv_heads":null,"embedding_length":null,"key_length":null,
            "value_length":null,"sliding_window":null,"kv_bytes_per_token_global":null,
            "kv_bytes_per_token_swa":null,"mmproj_filename":null,"runtime_overrides":{}}"#,
    );
    let category = ModelCategory {
        id: "c".into(),
        name: "n".into(),
        description: String::new(),
        preferred_model_id: None,
        created_at: "t".into(),
    };
    same(
        &category.to_value(),
        r#"{"id":"c","name":"n","description":"","preferred_model_id":null,"created_at":"t"}"#,
    );
    let idp = IdpConfigPublic {
        id: "i".into(),
        name: "n".into(),
        issuer: "https://i".into(),
        client_id: "c".into(),
        scopes: "openid".into(),
        enabled: true,
        created_at: "t".into(),
    };
    same(
        &idp.to_value(),
        r#"{"id":"i","name":"n","issuer":"https://i","client_id":"c","scopes":"openid",
            "enabled":true,"created_at":"t"}"#,
    );
}

//! Reporting periods, container states and starting backends.
use sovereign_engine::api::common::{
    check_start, crash_record, enrich_container_status, extract_container_statuses,
    fsm_state_label, lookup_backend_type, period_to_interval, period_to_interval_and_bucket,
    plan_start, plan_start_with, recover_gate, BackendFsmState, ContainerState, ContainerSummary, CrashCapture,
    CrashRow, GateRecovery, ModelStartRow, QuarantineRow, StartContainerParams,
};
use sovereign_engine::docker::llamacpp::GpuType;
use sovereign_engine::docker::runtime_overrides::{ModelRuntimeOverrides, WrappedRuntimeJson};
use sovereign_engine::json::Json;
use sovereign_engine::metrics::ContainerStatus;
use sovereign_engine::reply::Reply;

#[test]
fn period_to_interval_hour() {
    assert_eq!(period_to_interval("hour"), "-1 hour");
}

#[test]
fn period_to_interval_day() {
    assert_eq!(period_to_interval("day"), "-1 day");
}

#[test]
fn period_to_interval_week() {
    assert_eq!(period_to_interval("week"), "-7 days");
}

#[test]
fn period_to_interval_month() {
    assert_eq!(period_to_interval("month"), "-30 days");
}

#[test]
fn period_to_interval_unknown_defaults_to_day() {
    assert_eq!(period_to_interval("year"), "-1 day");
    assert_eq!(period_to_interval("HOUR"), "-1 day");
}

#[test]
fn period_to_interval_empty_defaults_to_day() {
    assert_eq!(period_to_interval(""), "-1 day");
}

#[test]
fn period_to_interval_and_bucket_hour() {
    assert_eq!(
        period_to_interval_and_bucket("hour"),
        ("-1 hour", "%Y-%m-%dT%H:%M:00")
    );
}

#[test]
fn period_to_interval_and_bucket_day() {
    assert_eq!(
        period_to_interval_and_bucket("day"),
        ("-1 day", "%Y-%m-%dT%H:00:00")
    );
}

#[test]
fn period_to_interval_and_bucket_week() {
    assert_eq!(
        period_to_interval_and_bucket("week"),
        ("-7 days", "%Y-%m-%d")
    );
}

#[test]
fn period_to_interval_and_bucket_month() {
    assert_eq!(
        period_to_interval_and_bucket("month"),
        ("-30 days", "%Y-%m-%d")
    );
}

#[test]
fn period_to_interval_and_bucket_unknown_defaults_to_day() {
    assert_eq!(
        period_to_interval_and_bucket("garbage"),
        ("-1 day", "%Y-%m-%dT%H:00:00")
    );
}

#[test]
fn period_to_interval_and_bucket_empty_defaults_to_day() {
    assert_eq!(
        period_to_interval_and_bucket(""),
        ("-1 day", "%Y-%m-%dT%H:00:00")
    );
}

fn make_container(
    labels: Option<Vec<(String, String)>>,
    state: Option<ContainerState>,
) -> ContainerSummary {
    ContainerSummary { labels, state }
}

fn add(labels: &mut Vec<(String, String)>, name: String, value: String) {
    labels.push((name, value));
}

#[test]
fn extract_container_statuses_empty_input() {
    let result = extract_container_statuses(&vec![], &Vec::new());
    assert!(result.is_empty());
}

#[test]
fn extract_container_statuses_running_with_labels() {
    let mut labels = Vec::new();
    add(
        &mut labels,
        "sovereign-engine.model-id".to_string(),
        "my-model".to_string(),
    );
    add(
        &mut labels,
        "sovereign-engine.backend".to_string(),
        "vllm".to_string(),
    );
    let containers = vec![make_container(
        Some(labels),
        Some(ContainerState::Running),
    )];

    let mut vram = Vec::new();
    vram.push(("my-model".to_string(), 4096u64));

    let statuses = extract_container_statuses(&containers, &vram);
    assert_eq!(statuses.len(), 1);
    assert_eq!(statuses[0].model_id, "my-model");
    assert_eq!(statuses[0].backend_type, "vllm");
    assert!(statuses[0].healthy);
    assert_eq!(statuses[0].state.as_deref(), Some("running"));
    assert_eq!(statuses[0].vram_used_mb, Some(4096));
    assert!(statuses[0].fsm_state.is_none());
    assert!(!statuses[0].quarantined);
    assert!(statuses[0].quarantine_reason.is_none());
    assert!(statuses[0].last_crash.is_none());
}

#[test]
fn extract_container_statuses_stopped_without_labels() {
    let containers = vec![make_container(
        None,
        Some(ContainerState::Exited),
    )];

    let statuses = extract_container_statuses(&containers, &Vec::new());
    assert_eq!(statuses.len(), 1);
    assert_eq!(statuses[0].model_id, "");
    assert_eq!(statuses[0].backend_type, "llamacpp");
    assert!(!statuses[0].healthy);
    assert_eq!(statuses[0].state.as_deref(), Some("exited"));
    assert_eq!(statuses[0].vram_used_mb, None);
}

#[test]
fn extract_container_statuses_no_state() {
    let containers = vec![make_container(None, None)];
    let statuses = extract_container_statuses(&containers, &Vec::new());
    assert!(!statuses[0].healthy);
    assert!(statuses[0].state.is_none());
}

#[test]
fn extract_container_statuses_vram_absent_for_model() {
    let mut labels = Vec::new();
    add(
        &mut labels,
        "sovereign-engine.model-id".to_string(),
        "model-a".to_string(),
    );
    let containers = vec![make_container(
        Some(labels),
        Some(ContainerState::Running),
    )];

    let mut vram = Vec::new();
    vram.push(("model-b".to_string(), 1024u64));

    let statuses = extract_container_statuses(&containers, &vram);
    assert_eq!(statuses[0].model_id, "model-a");
    assert_eq!(statuses[0].vram_used_mb, None);
}

#[test]
fn extract_container_statuses_multiple_containers() {
    let mut labels1 = Vec::new();
    add(
        &mut labels1,
        "sovereign-engine.model-id".to_string(),
        "m1".to_string(),
    );
    let mut labels2 = Vec::new();
    add(
        &mut labels2,
        "sovereign-engine.model-id".to_string(),
        "m2".to_string(),
    );

    let containers = vec![
        make_container(Some(labels1), Some(ContainerState::Running)),
        make_container(Some(labels2), Some(ContainerState::Paused)),
    ];

    let statuses = extract_container_statuses(&containers, &Vec::new());
    assert_eq!(statuses.len(), 2);
    assert!(statuses[0].healthy);
    assert!(!statuses[1].healthy);
    assert_eq!(statuses[1].state.as_deref(), Some("paused"));
}

fn start_row(mmproj_filename: Option<&str>) -> ModelStartRow {
    ModelStartRow {
        id: "m1".to_string(),
        hf_repo: "owner/repo".to_string(),
        filename: Some("model.gguf".to_string()),
        backend_type: "llamacpp".to_string(),
        context_length: Some(8192),
        runtime_overrides: r#"{"cache_ram_mib":0}"#.to_string(),
        mmproj_filename: mmproj_filename.map(String::from),
    }
}

fn start_params() -> StartContainerParams {
    StartContainerParams {
        model_id: "m1".to_string(),
        backend_type: None,
        gpu_type: None,
        gpu_layers: None,
        parallel: None,
    }
}

fn error_of(reply: &Reply) -> &str {
    reply.body.get_str("error").expect("error")
}

#[test]
fn start_uses_the_stored_model() {
    let plan = plan_start(
        &start_row(Some("mmproj-f16.gguf")),
        &StartContainerParams {
            gpu_type: Some("Vulkan".to_string()),
            parallel: Some(4),
            ..start_params()
        },
        1000,
        "key".to_string(),
    )
    .expect("plan");
    assert_eq!(plan.parallel_slots, 4);
    assert_eq!(plan.config.gguf_path, "owner--repo/model.gguf");
    assert_eq!(
        plan.config.mmproj_path.as_deref(),
        Some("owner--repo/mmproj-f16.gguf")
    );
    assert!(matches!(plan.config.gpu_type, GpuType::Vulkan));
    assert_eq!(plan.config.gpu_layers, 99);
    assert_eq!(plan.config.context_size, 8192);
    assert_eq!(plan.config.extra_args, vec!["--cache-ram", "0"]);
    assert_eq!(plan.config.uid, 1000);
    assert_eq!(plan.config.api_key, "key");
}

#[test]
fn start_without_slots_or_projector() {
    let plan = plan_start(
        &start_row(None),
        &StartContainerParams {
            parallel: Some(0),
            ..start_params()
        },
        1000,
        "key".to_string(),
    )
    .expect("plan");
    assert_eq!(plan.parallel_slots, 1);
    assert_eq!(plan.config.mmproj_path, None);
    assert!(matches!(plan.config.gpu_type, GpuType::Cpu));
}

#[test]
fn restart_repeats_the_start() {
    let params = StartContainerParams {
        gpu_type: Some("vulkan".to_string()),
        gpu_layers: Some(20),
        parallel: Some(2),
        ..start_params()
    };
    let first = plan_start(&start_row(None), &params, 1000, "a".to_string()).expect("plan");
    let stored = WrappedRuntimeJson::parse(&first.runtime_overrides).expect("stored");
    assert_eq!(stored.launch.gpu_type.as_deref(), Some("vulkan"));
    assert_eq!(stored.cli.cache_ram_mib, Some(0));
    let again = plan_start(
        &ModelStartRow {
            runtime_overrides: first.runtime_overrides.clone(),
            ..start_row(None)
        },
        &StartContainerParams {
            gpu_type: stored.launch.gpu_type,
            gpu_layers: stored.launch.gpu_layers,
            parallel: stored.launch.parallel,
            ..start_params()
        },
        1000,
        "a".to_string(),
    )
    .expect("plan");
    assert_eq!(again.runtime_overrides, first.runtime_overrides);
    assert_eq!(again.config.gpu_layers, 20);
    assert_eq!(again.config.extra_args, first.config.extra_args);
}

#[test]
fn start_refusals() {
    let missing = check_start(None).expect("refusal");
    assert_eq!(missing.status, 404);
    assert_eq!(error_of(&missing), "Model not found");
    let no_context = ModelStartRow {
        context_length: None,
        ..start_row(None)
    };
    assert_eq!(check_start(Some(&no_context)).expect("refusal").status, 400);
    assert!(check_start(Some(&start_row(None))).is_none());

    let no_file = ModelStartRow {
        filename: None,
        ..start_row(None)
    };
    let r = plan_start(&no_file, &start_params(), 1, String::new()).unwrap_err();
    assert_eq!(r.status, 400);
    assert_eq!(
        error_of(&r),
        "No filename recorded for this model — cannot determine GGUF file path"
    );
    let r = plan_start(
        &start_row(None),
        &StartContainerParams {
            backend_type: Some("vllm".to_string()),
            ..start_params()
        },
        1,
        String::new(),
    )
    .unwrap_err();
    assert_eq!(r.status, 400);
    assert_eq!(error_of(&r), "Unknown backend type: vllm");
}

fn plain_status(model_id: &str) -> ContainerStatus {
    ContainerStatus {
        model_id: model_id.to_string(),
        backend_type: "llamacpp".to_string(),
        healthy: true,
        state: Some("running".to_string()),
        vram_used_mb: None,
        fsm_state: None,
        quarantined: false,
        quarantine_reason: None,
        last_crash: None,
    }
}

#[test]
fn extract_container_statuses_enriched_populates_fsm_quarantine_and_last_crash() {
    let mut status = plain_status("m-enrich");
    enrich_container_status(
        &mut status,
        Some(BackendFsmState::Quarantined),
        Some(QuarantineRow {
            quarantined_at: Some("2026-04-29T12:00:00Z".to_string()),
            quarantine_reason: Some("crash loop".to_string()),
        }),
        Some(CrashRow {
            occurred_at: "2026-04-29T11:59:00Z".to_string(),
            exit_code: Some(137),
            oom_killed: 1,
            log_path: Some("/config/crash_logs/x.log".to_string()),
        }),
    );
    assert_eq!(status.fsm_state.as_deref(), Some("Quarantined"));
    assert!(status.quarantined);
    assert_eq!(status.quarantine_reason.as_deref(), Some("crash loop"));
    let crash = status.last_crash.expect("crash");
    assert_eq!(crash.exit_code, Some(137));
    assert!(crash.oom_killed);
    assert!(crash.log_path_present);
}

#[test]
fn extract_container_statuses_enriched_leaves_defaults_when_no_data() {
    let mut status = plain_status("m-plain");
    enrich_container_status(&mut status, None, None, None);
    assert!(status.fsm_state.is_none());
    assert!(!status.quarantined);
    assert!(status.quarantine_reason.is_none());
    assert!(status.last_crash.is_none());
}

#[test]
fn containers_without_a_model_are_not_enriched() {
    let mut status = plain_status("");
    enrich_container_status(&mut status, Some(BackendFsmState::Crashed), None, None);
    assert!(status.fsm_state.is_none());
}

#[test]
fn supervisor_states_have_names() {
    assert_eq!(fsm_state_label(BackendFsmState::Starting), "Starting");
    assert_eq!(fsm_state_label(BackendFsmState::Healthy), "Healthy");
    assert_eq!(fsm_state_label(BackendFsmState::Suspect), "Suspect");
    assert_eq!(fsm_state_label(BackendFsmState::Crashed), "Crashed");
}

#[test]
fn reconcile_dead_backend_with_capture_writes_full_row() {
    let capture = CrashCapture {
        container_id: Some("container-deadbeef".to_string()),
        exit_code: Some(137),
        oom_killed: true,
        signal: Some("OOMKilled".to_string()),
    };
    let row = crash_record(
        "m-capture",
        capture,
        Some("/config/crash_logs/m-capture-1714377600.log".to_string()),
        "supervisor_probe_failure",
    );
    assert_eq!(row.model_id, "m-capture");
    assert_eq!(row.container_id.as_deref(), Some("container-deadbeef"));
    assert_eq!(row.exit_code, Some(137));
    assert_eq!(row.oom_killed, 1);
    assert_eq!(row.signal, "OOMKilled");
    assert_eq!(
        row.log_path.as_deref(),
        Some("/config/crash_logs/m-capture-1714377600.log")
    );
}

#[test]
fn reconcile_dead_backend_with_capture_falls_back_to_discovery_reason_for_signal() {
    let capture = CrashCapture {
        container_id: None,
        exit_code: None,
        oom_killed: false,
        signal: None,
    };
    let row = crash_record("m", capture, None, "supervisor_probe_failure");
    assert_eq!(row.signal, "supervisor_probe_failure");
    assert_eq!(row.oom_killed, 0);
}

#[test]
fn unknown_models_run_on_llamacpp() {
    assert_eq!(lookup_backend_type(None), "llamacpp");
    assert_eq!(lookup_backend_type(Some("other".to_string())), "other");
}

#[test]
fn gates_are_recovered_only_for_running_containers() {
    assert_eq!(recover_gate(Some(Some(true)), 4), GateRecovery::Register(4));
    assert_eq!(recover_gate(Some(Some(true)), 0), GateRecovery::Register(1));
    assert_eq!(recover_gate(Some(Some(true)), -3), GateRecovery::Register(1));
    assert_eq!(recover_gate(Some(Some(false)), 4), GateRecovery::Reconcile);
    assert_eq!(recover_gate(Some(None), 4), GateRecovery::Reconcile);
    assert_eq!(recover_gate(None, 4), GateRecovery::Reconcile);
}

#[test]
fn errors_are_objects() {
    let reply = check_start(None).expect("refusal");
    assert!(matches!(reply.body, Json::Object(_)));
}

#[test]
fn start_with_given_overrides() {
    let cli = ModelRuntimeOverrides {
        swa_full: Some(true),
        ..Default::default()
    };
    let plan =
        plan_start_with(&start_row(None), &start_params(), 5, "k".to_string(), cli).expect("plan");
    assert_eq!(plan.config.extra_args, vec!["--swa-full"]);
    let stored = WrappedRuntimeJson::parse(&plan.runtime_overrides).expect("stored");
    assert_eq!(stored.cli.swa_full, Some(true));
    assert_eq!(stored.launch.parallel, None);
}

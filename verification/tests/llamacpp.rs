//! The llama.cpp backend.
use sovereign_engine::docker::llamacpp::{
    build_llamacpp_cmd, container_presence, distinct_groups, gpu_device_gids, start_action,
    stop_action, ContainerPresence, DockerManager, GpuType, LlamacppConfig, StartAction,
    StopAction, LLAMACPP_IMAGE_CPU, LLAMACPP_IMAGE_VULKAN,
};

fn docker() -> DockerManager {
    DockerManager {
        model_path: "/srv/models-on-host".to_string(),
        backend_network: "test-network".to_string(),
        managed_label: ("sovereign-engine.managed".to_string(), "true".to_string()),
    }
}

fn config_with_mmproj(mmproj_path: Option<String>) -> LlamacppConfig {
    LlamacppConfig {
        model_id: "test-model".to_string(),
        gguf_path: "repo--x/model.gguf".to_string(),
        api_key: "test-key".to_string(),
        mmproj_path,
        ..Default::default()
    }
}

#[test]
fn build_cmd_omits_mmproj_when_none() {
    let cfg = config_with_mmproj(None);
    let cmd = build_llamacpp_cmd(&cfg, false, 8080);
    assert!(
        !cmd.iter().any(|a| a == "--mmproj"),
        "cmd should not contain --mmproj when mmproj_path is None: {cmd:?}"
    );
}

#[test]
fn build_cmd_emits_mmproj_when_file_exists() {
    let cfg = config_with_mmproj(Some("repo--x/mmproj-foo.gguf".to_string()));
    let cmd = build_llamacpp_cmd(&cfg, true, 8080);

    let idx = cmd
        .iter()
        .position(|a| a == "--mmproj")
        .expect("cmd should contain --mmproj");
    assert_eq!(
        cmd.get(idx + 1).map(String::as_str),
        Some("/models/repo--x/mmproj-foo.gguf"),
        "arg after --mmproj should be container path: {cmd:?}"
    );
}

#[test]
fn build_cmd_omits_mmproj_when_file_missing() {
    let cfg = config_with_mmproj(Some("repo--x/mmproj-foo.gguf".to_string()));
    let cmd = build_llamacpp_cmd(&cfg, false, 8080);

    assert!(
        !cmd.iter().any(|a| a == "--mmproj"),
        "cmd should not contain --mmproj when file is missing: {cmd:?}"
    );
}

#[test]
fn build_cmd_mmproj_precedes_extra_args() {
    let mut cfg = config_with_mmproj(Some("repo--x/mmproj-foo.gguf".to_string()));
    cfg.extra_args = vec!["--mmproj".to_string(), "/evil.gguf".to_string()];

    let cmd = build_llamacpp_cmd(&cfg, true, 8080);

    let indices: Vec<usize> = cmd
        .iter()
        .enumerate()
        .filter_map(|(i, a)| if a == "--mmproj" { Some(i) } else { None })
        .collect();
    assert_eq!(
        indices.len(),
        2,
        "expected two --mmproj entries (proxy + user): {cmd:?}"
    );

    let first = indices[0];
    assert_eq!(
        cmd.get(first + 1).map(String::as_str),
        Some("/models/repo--x/mmproj-foo.gguf"),
        "proxy's --mmproj must come first: {cmd:?}"
    );
}

#[test]
fn build_cmd_mmproj_uses_container_path_prefix() {
    let cfg = config_with_mmproj(Some("repo--x/mmproj-foo.gguf".to_string()));
    let cmd = build_llamacpp_cmd(&cfg, true, 8080);

    let idx = cmd.iter().position(|a| a == "--mmproj").expect("--mmproj");
    let path_arg = cmd.get(idx + 1).expect("arg after --mmproj");
    assert!(
        path_arg.starts_with("/models/"),
        "container path must start with /models/, got: {path_arg}"
    );
    let host_prefix = "/srv/models-on-host";
    assert!(
        !path_arg.contains(host_prefix),
        "container path must not leak host prefix {host_prefix}: {path_arg}"
    );
}

#[test]
fn build_cmd_mmproj_correct_position_relative_to_context_size() {
    let cfg = config_with_mmproj(Some("repo--x/mmproj-foo.gguf".to_string()));
    let cmd = build_llamacpp_cmd(&cfg, true, 8080);

    let c_idx = cmd.iter().position(|a| a == "-c").expect("-c present");
    let mmproj_idx = cmd.iter().position(|a| a == "--mmproj").expect("--mmproj");
    assert!(
        mmproj_idx > c_idx,
        "--mmproj (idx {mmproj_idx}) should come AFTER -c (idx {c_idx}): {cmd:?}"
    );
}

#[test]
fn build_cmd_includes_jinja_by_default() {
    let cfg = LlamacppConfig {
        model_id: "m".to_string(),
        gguf_path: "r--r/m.gguf".to_string(),
        api_key: "k".to_string(),
        ..Default::default()
    };
    let cmd = build_llamacpp_cmd(&cfg, false, 8080);
    assert!(
        cmd.iter().any(|a| a == "--jinja"),
        "--jinja flag must be present so model-native tool-call markup \
         is translated back into OpenAI tool_calls JSON; got: {cmd:?}"
    );
}

#[test]
fn build_cmd_existing_args_still_present() {
    let cfg = LlamacppConfig {
        model_id: "m".to_string(),
        gguf_path: "r--r/m.gguf".to_string(),
        api_key: "k".to_string(),
        ..Default::default()
    };
    let cmd = build_llamacpp_cmd(&cfg, false, 8080);

    let expected_prefix = vec![
        "--model".to_string(),
        "/models/r--r/m.gguf".to_string(),
        "--host".to_string(),
        "0.0.0.0".to_string(),
        "--port".to_string(),
        "8080".to_string(),
        "-ngl".to_string(),
        "99".to_string(),
        "-c".to_string(),
        "4096".to_string(),
    ];
    assert_eq!(
        &cmd[..expected_prefix.len()],
        expected_prefix.as_slice(),
        "baseline arg order changed: {cmd:?}"
    );
    let api_idx = cmd
        .iter()
        .position(|a| a == "--api-key")
        .expect("--api-key present");
    assert_eq!(cmd.get(api_idx + 1).map(String::as_str), Some("k"));
}

#[test]
fn gpu_type_vulkan_lowercase() {
    assert!(matches!(GpuType::from_str("vulkan"), GpuType::Vulkan));
}

#[test]
fn gpu_type_vulkan_uppercase() {
    assert!(matches!(GpuType::from_str("VULKAN"), GpuType::Vulkan));
}

#[test]
fn gpu_type_vulkan_mixed_case() {
    assert!(matches!(GpuType::from_str("Vulkan"), GpuType::Vulkan));
}

#[test]
fn gpu_type_none_explicit() {
    assert!(matches!(GpuType::from_str("none"), GpuType::Cpu));
}

#[test]
fn gpu_type_unknown_string() {
    assert!(matches!(GpuType::from_str("cuda"), GpuType::Cpu));
}

#[test]
fn gpu_type_empty_string() {
    assert!(matches!(GpuType::from_str(""), GpuType::Cpu));
}

#[test]
fn gpu_type_garbage() {
    assert!(matches!(GpuType::from_str("foobar"), GpuType::Cpu));
}

#[test]
fn gpu_type_default_is_none() {
    assert!(matches!(GpuType::default(), GpuType::Cpu));
}

#[test]
fn llamacpp_config_defaults() {
    let cfg = LlamacppConfig::default();
    assert_eq!(cfg.gpu_layers, 99);
    assert_eq!(cfg.context_size, 4096);
    assert_eq!(cfg.parallel, 1);
    assert_eq!(cfg.uid, 10000);
    assert!(cfg.model_id.is_empty());
    assert!(cfg.gguf_path.is_empty());
    assert!(cfg.api_key.is_empty());
    assert!(cfg.extra_args.is_empty());
    assert!(cfg.mmproj_path.is_none());
    assert!(matches!(cfg.gpu_type, GpuType::Cpu));
}

#[test]
fn llamacpp_base_url_format() {
    let dm = docker();
    let url = dm.llamacpp_base_url("my-model-123");
    assert_eq!(url, "http://sovereign-llamacpp-my-model-123:8080");
}

#[test]
fn image_constants_are_distinct() {
    assert_ne!(LLAMACPP_IMAGE_CPU, LLAMACPP_IMAGE_VULKAN);
    assert!(LLAMACPP_IMAGE_CPU.contains("llama.cpp"));
    assert!(LLAMACPP_IMAGE_VULKAN.contains("vulkan"));
}

#[test]
fn full_command_line() {
    let cfg = LlamacppConfig {
        model_id: "m".to_string(),
        gguf_path: "r--r/m.gguf".to_string(),
        api_key: "k".to_string(),
        mmproj_path: Some("r--r/mmproj-f16.gguf".to_string()),
        parallel: 4,
        context_size: 2048,
        extra_args: vec!["--threads".to_string(), "8".to_string()],
        ..Default::default()
    };
    let cmd = build_llamacpp_cmd(&cfg, true, 8080);
    let mmproj = cmd.iter().position(|a| a == "--mmproj").unwrap();
    let threads = cmd.iter().position(|a| a == "--threads").unwrap();
    assert!(mmproj < threads);
    assert_eq!(cmd[cmd.len() - 2..], ["--threads".to_string(), "8".to_string()]);
    let np = cmd.iter().position(|a| a == "-np").unwrap();
    assert_eq!(cmd[np + 1], "4");
}

#[test]
fn container_for_a_gpu() {
    let cfg = LlamacppConfig {
        model_id: "m1".to_string(),
        gguf_path: "r--r/m.gguf".to_string(),
        gpu_type: GpuType::Vulkan,
        ..Default::default()
    };
    let spec = docker().container_spec(&cfg, false, true, &vec![44, 993, 44]);
    assert_eq!(spec.name, "sovereign-llamacpp-m1");
    assert_eq!(spec.image, LLAMACPP_IMAGE_VULKAN);
    assert_eq!(spec.user, "10000:10000");
    assert_eq!(spec.model_source, "/srv/models-on-host");
    assert_eq!(spec.devices, vec!["/dev/dri", "/dev/kfd"]);
    assert_eq!(spec.group_add, vec!["44", "993"]);
    assert_eq!(spec.network, "test-network");
}

#[test]
fn container_without_a_gpu() {
    let spec = docker().container_spec(&LlamacppConfig::default(), false, true, &vec![44]);
    assert_eq!(spec.image, LLAMACPP_IMAGE_CPU);
    assert!(spec.devices.is_empty());
    assert!(spec.group_add.is_empty());
}

#[test]
fn groups_are_ordered_and_come_once() {
    assert_eq!(distinct_groups(&vec![993, 44, 0, 993, 44]), vec![44, 993]);
    assert_eq!(gpu_device_gids(&vec![993, 0, 44, 993]), vec!["44", "993"]);
}

#[test]
fn health_is_asked_of_the_backend() {
    assert_eq!(
        docker().llamacpp_health_url("m1"),
        "http://sovereign-llamacpp-m1:8080/health"
    );
}

#[test]
fn starting_keeps_a_running_container() {
    assert_eq!(container_presence(None), ContainerPresence::Missing);
    assert_eq!(container_presence(Some(None)), ContainerPresence::Stopped);
    assert_eq!(container_presence(Some(Some(true))), ContainerPresence::Running);
    assert_eq!(start_action(ContainerPresence::Running), StartAction::Keep);
    assert_eq!(start_action(ContainerPresence::Stopped), StartAction::Replace);
    assert_eq!(start_action(ContainerPresence::Missing), StartAction::Create);
    assert_eq!(stop_action(ContainerPresence::Missing), StopAction::Nothing);
    assert_eq!(stop_action(ContainerPresence::Stopped), StopAction::Remove);
    assert_eq!(
        stop_action(ContainerPresence::Running),
        StopAction::StopAndRemove
    );
}

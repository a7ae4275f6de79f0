//! What is filled in at startup.
use sovereign_engine::api::gguf::GgufMetadata;
use sovereign_engine::api::hf::{detect_mmproj_file, pick_mmproj_variant, HfFileEntry};
use sovereign_engine::backfill::{choose_projector, gguf_columns, gguf_path, GgufColumns};

fn names(items: &[&str]) -> Vec<String> {
    let mut v: Vec<String> = items.iter().map(|s| s.to_string()).collect();
    v.sort();
    v
}

#[test]
fn prefers_lowercase_f16_over_bf16_and_f32() {
    let v = names(&[
        "mmproj-foo-bf16.gguf",
        "mmproj-foo-f16.gguf",
        "mmproj-foo-f32.gguf",
    ]);
    assert_eq!(pick_mmproj_variant(&v), "mmproj-foo-f16.gguf");
}

#[test]
fn lowercase_bf16_not_misclassified_as_f16() {
    let v = names(&["mmproj-foo-bf16.gguf"]);
    assert_eq!(pick_mmproj_variant(&v), "mmproj-foo-bf16.gguf");
}

#[test]
fn prefers_uppercase_f16_over_bf16_and_f32() {
    let v = names(&["mmproj-BF16.gguf", "mmproj-F16.gguf", "mmproj-F32.gguf"]);
    assert_eq!(pick_mmproj_variant(&v), "mmproj-F16.gguf");
}

#[test]
fn prefers_uppercase_bf16_over_f32() {
    let v = names(&["mmproj-BF16.gguf", "mmproj-F32.gguf"]);
    assert_eq!(pick_mmproj_variant(&v), "mmproj-BF16.gguf");
}

#[test]
fn uppercase_bf16_not_confused_by_f16() {
    let v = names(&["mmproj-BF16.gguf"]);
    assert_eq!(pick_mmproj_variant(&v), "mmproj-BF16.gguf");
}

#[test]
fn mixed_case_quant_tag_resolves() {
    let v = names(&["mmproj-Bf16.gguf", "mmproj-f16.gguf"]);
    assert_eq!(pick_mmproj_variant(&v), "mmproj-f16.gguf");
}

fn listed(items: &[&str]) -> Vec<String> {
    items.iter().map(|s| s.to_string()).collect()
}

#[test]
fn backfill_mmproj_picks_single_match() {
    let dir = listed(&["model.gguf", "mmproj-owner_repo-f16.gguf"]);
    assert_eq!(
        choose_projector(&dir).as_deref(),
        Some("mmproj-owner_repo-f16.gguf")
    );
}

#[test]
fn backfill_mmproj_no_match_leaves_null() {
    let dir = listed(&["model.gguf", "README.md", "mmproj-f16.bin"]);
    assert_eq!(choose_projector(&dir), None);
    assert_eq!(choose_projector(&Vec::new()), None);
}

#[test]
fn backfill_mmproj_prefers_f16_over_bf16_and_f32() {
    let dir = listed(&["mmproj-f16.gguf", "mmproj-bf16.gguf", "mmproj-f32.gguf"]);
    assert_eq!(choose_projector(&dir).as_deref(), Some("mmproj-f16.gguf"));
}

#[test]
fn backfill_mmproj_prefers_bf16_over_f32() {
    let dir = listed(&["mmproj-f32.gguf", "mmproj-bf16.gguf"]);
    assert_eq!(choose_projector(&dir).as_deref(), Some("mmproj-bf16.gguf"));
}

#[test]
fn backfill_mmproj_accepts_underscore_prefix() {
    let dir = listed(&["mmproj_foo.gguf"]);
    assert_eq!(choose_projector(&dir).as_deref(), Some("mmproj_foo.gguf"));
}

#[test]
fn first_name_wins_among_equals() {
    let dir = listed(&["mmproj-z.gguf", "mmproj-a.gguf"]);
    assert_eq!(choose_projector(&dir).as_deref(), Some("mmproj-a.gguf"));
    assert_eq!(pick_mmproj_variant(&dir), "mmproj-z.gguf");
}

#[test]
fn directory_and_repository_agree() {
    let paths = [
        "sub/mmproj-f16.gguf",
        "mmproj-F32.gguf",
        "mmproj-BF16.gguf",
        "mmproj-F16.gguf",
        "model.gguf",
    ];
    let files: Vec<HfFileEntry> = paths
        .iter()
        .map(|p| HfFileEntry {
            file_type: "file".to_string(),
            path: p.to_string(),
            size: Some(1),
        })
        .collect();
    let dir = listed(&[
        "model.gguf",
        "mmproj-F16.gguf",
        "mmproj-BF16.gguf",
        "mmproj-F32.gguf",
    ]);
    assert_eq!(detect_mmproj_file(&files), choose_projector(&dir));
    assert_eq!(choose_projector(&dir).as_deref(), Some("mmproj-F16.gguf"));
}

#[test]
fn metadata_is_read_from_gguf_files_only() {
    assert_eq!(
        gguf_path("/models", "owner/repo", Some("m.gguf")).as_deref(),
        Some("/models/owner--repo/m.gguf")
    );
    assert_eq!(gguf_path("/models", "owner/repo", Some("m.safetensors")), None);
    assert_eq!(gguf_path("/models", "owner/repo", None), None);
}

fn no_columns() -> GgufColumns {
    GgufColumns {
        context_length: None,
        n_layers: None,
        n_heads: None,
        n_kv_heads: None,
        embedding_length: None,
        key_length: None,
        value_length: None,
        sliding_window: None,
        kv_bytes_per_token_global: None,
        kv_bytes_per_token_swa: None,
    }
}

#[test]
fn what_is_there_stays() {
    let meta = GgufMetadata {
        context_length: Some(4096),
        block_count: Some(32),
        head_count: Some(32),
        head_count_kv: Some(8),
        embedding_length: Some(4096),
        key_length: Some(128),
        value_length: Some(128),
        ..Default::default()
    };
    let says = gguf_columns(&meta);
    assert_eq!(says.kv_bytes_per_token_global, Some(131_072));
    assert_eq!(no_columns().fill_in(says), says);
    let had = GgufColumns {
        context_length: Some(2048),
        n_layers: Some(1),
        ..no_columns()
    };
    let filled = had.fill_in(says);
    assert_eq!(filled.context_length, Some(2048));
    assert_eq!(filled.n_layers, Some(32));
    assert_eq!(filled.fill_in(says), filled);
}

//! Estimates of the key-value cache.
use sovereign_engine::api::kv::{
    estimate_in_range, estimate_kv_cache_mb, estimate_vram, KvCacheParams, ModelMetadataRow,
};
use sovereign_engine::json::{parse, to_text};
use sovereign_engine::metrics::GpuMemoryInfo;

#[allow(clippy::too_many_arguments)]
fn kv_params(
    n_layers: Option<i64>,
    n_heads: Option<i64>,
    n_kv_heads: Option<i64>,
    embedding_length: Option<i64>,
    key_length: Option<i64>,
    value_length: Option<i64>,
    context_size: u64,
    parallel: u64,
) -> KvCacheParams {
    KvCacheParams {
        n_layers,
        n_heads,
        n_kv_heads,
        embedding_length,
        key_length,
        value_length,
        kv_bytes_per_token_global: None,
        kv_bytes_per_token_swa: None,
        sliding_window: None,
        context_size,
        parallel,
    }
}

fn kv_params_swa(
    kv_bytes_per_token_global: Option<i64>,
    kv_bytes_per_token_swa: Option<i64>,
    sliding_window: Option<i64>,
    context_size: u64,
    parallel: u64,
) -> KvCacheParams {
    KvCacheParams {
        n_layers: None,
        n_heads: None,
        n_kv_heads: None,
        embedding_length: None,
        key_length: None,
        value_length: None,
        kv_bytes_per_token_global,
        kv_bytes_per_token_swa,
        sliding_window,
        context_size,
        parallel,
    }
}

#[test]
fn kv_cache_returns_zero_when_metadata_missing() {
    let p = kv_params(Some(32), Some(32), None, Some(4096), None, None, 2048, 1);
    assert_eq!(estimate_kv_cache_mb(&p), 0);
    let p = kv_params(None, Some(32), Some(8), Some(4096), None, None, 2048, 1);
    assert_eq!(estimate_kv_cache_mb(&p), 0);
    let p = kv_params(None, None, None, None, None, None, 2048, 1);
    assert_eq!(estimate_kv_cache_mb(&p), 0);
}

#[test]
fn kv_cache_derived_head_dim_standard_model() {
    let p = kv_params(Some(32), Some(32), Some(8), Some(4096), None, None, 2048, 1);
    assert_eq!(estimate_kv_cache_mb(&p), 256);
}

#[test]
fn kv_cache_explicit_key_value_lengths_gemma4() {
    let p = kv_params(
        Some(34),
        Some(32),
        Some(8),
        Some(3584),
        Some(512),
        Some(512),
        8192,
        1,
    );
    assert_eq!(estimate_kv_cache_mb(&p), 4352);

    let p_derived = kv_params(Some(34), Some(32), Some(8), Some(3584), None, None, 8192, 1);
    let mb_derived = estimate_kv_cache_mb(&p_derived);
    assert_eq!(mb_derived, 952);
    assert!(
        estimate_kv_cache_mb(&p) > mb_derived,
        "Explicit dims should give larger (correct) estimate"
    );
}

#[test]
fn kv_cache_parallel_slots_multiply() {
    let p1 = kv_params(Some(32), Some(32), Some(8), Some(4096), None, None, 2048, 1);
    let p4 = kv_params(Some(32), Some(32), Some(8), Some(4096), None, None, 2048, 4);
    assert_eq!(estimate_kv_cache_mb(&p4), estimate_kv_cache_mb(&p1) * 4);
}

#[test]
fn kv_cache_zero_heads_returns_zero() {
    let p = kv_params(Some(32), Some(0), Some(8), Some(4096), None, None, 2048, 1);
    assert_eq!(estimate_kv_cache_mb(&p), 0);
}

#[test]
fn kv_cache_swa_aware_gemma4() {
    let global_bpt: i64 = 10 * 4 * (512 + 512) * 2;
    assert_eq!(global_bpt, 81_920);
    let swa_bpt: i64 = 50 * 16 * (256 + 256) * 2;
    assert_eq!(swa_bpt, 819_200);

    let p = kv_params_swa(Some(global_bpt), Some(swa_bpt), Some(1024), 262_144, 1);
    let mb = estimate_kv_cache_mb(&p);
    assert!(mb.abs_diff(21_280) <= 1, "expected ~21280 MB, got {mb}");
}

#[test]
fn kv_cache_legacy_fallback_when_aggregates_null() {
    let p = kv_params(Some(32), Some(32), Some(8), Some(4096), None, None, 2048, 1);
    assert_eq!(estimate_kv_cache_mb(&p), 256);
}

#[test]
fn kv_cache_no_sliding_window_swa_uses_full_context() {
    let p = kv_params_swa(Some(8_192), Some(8_192), None, 1024, 1);
    assert_eq!(estimate_kv_cache_mb(&p), 16);

    let p_large = kv_params_swa(Some(8_192), Some(8_192), Some(10_000), 1024, 1);
    assert_eq!(estimate_kv_cache_mb(&p_large), 16);
}

#[test]
fn kv_cache_swa_aware_parallel_multiplies() {
    let p1 = kv_params_swa(Some(81_920), Some(819_200), Some(1024), 262_144, 1);
    let p4 = kv_params_swa(Some(81_920), Some(819_200), Some(1024), 262_144, 4);
    assert_eq!(estimate_kv_cache_mb(&p4), estimate_kv_cache_mb(&p1) * 4);
}

#[test]
fn kv_cache_swa_aware_only_global_layers() {
    let p = kv_params_swa(Some(16_384), None, Some(1024), 2048, 1);
    assert_eq!(estimate_kv_cache_mb(&p), 32);
}

#[test]
fn kv_cache_swa_aware_exact() {
    let p = kv_params_swa(Some(81_920), Some(819_200), Some(1024), 262_144, 1);
    assert_eq!(estimate_kv_cache_mb(&p), 21_280);
}

#[test]
fn windows_never_add() {
    let with = kv_params_swa(Some(8_192), Some(8_192), Some(512), 1024, 3);
    let without = kv_params_swa(Some(8_192), Some(8_192), None, 1024, 3);
    assert!(estimate_kv_cache_mb(&with) <= estimate_kv_cache_mb(&without));
    assert_eq!(estimate_kv_cache_mb(&with), 36);
}

#[test]
fn aggregates_are_capped() {
    let p = kv_params_swa(Some(i64::MAX), Some(i64::MAX), None, u64::MAX, u64::MAX);
    assert_eq!(estimate_kv_cache_mb(&p), u64::MAX / 1_048_576);
    assert!(estimate_in_range(&p));
    let p = kv_params(
        Some(i64::MAX),
        Some(1),
        Some(4),
        Some(1),
        None,
        None,
        1,
        1,
    );
    assert!(!estimate_in_range(&p));
}

fn metadata_row() -> ModelMetadataRow {
    ModelMetadataRow {
        size_bytes: 4 * 1_048_576 * 1024,
        context_length: Some(2048),
        n_layers: Some(32),
        n_heads: Some(32),
        n_kv_heads: Some(8),
        embedding_length: Some(4096),
        key_length: None,
        value_length: None,
        sliding_window: None,
        kv_bytes_per_token_global: None,
        kv_bytes_per_token_swa: None,
    }
}

fn gpu(free_mb: u64) -> GpuMemoryInfo {
    GpuMemoryInfo {
        gpu_type: "amd".to_string(),
        device_index: 0,
        total_mb: 8192,
        used_mb: 8192 - free_mb,
        free_mb,
        utilization_percent: Some(1),
    }
}

#[test]
fn memory_estimates() {
    let r = estimate_vram(Some(&metadata_row()), Some(2), &vec![gpu(4000), gpu(1000)]);
    assert_eq!(r.status, 200);
    assert_eq!(
        to_text(&r.body),
        to_text(
            &parse(
                r#"{"model_weights_mb":4096,"kv_cache_mb":512,"overhead_mb":200,"total_mb":4808,
                    "gpu_total_mb":16384,"gpu_used_mb":11384,"gpu_free_mb":5000,"fits":true}"#
            )
            .unwrap()
        )
    );
    let r = estimate_vram(Some(&metadata_row()), None, &Vec::new());
    assert!(to_text(&r.body).contains("\"fits\":false"));
    assert_eq!(estimate_vram(None, None, &Vec::new()).status, 404);
    let row = ModelMetadataRow {
        context_length: None,
        ..metadata_row()
    };
    assert_eq!(estimate_vram(Some(&row), None, &Vec::new()).status, 400);
    assert_eq!(metadata_row().params(Some(0)).parallel, 1);
}

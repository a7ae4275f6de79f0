//! Metadata of GGUF files and what follows from it.
use sovereign_engine::api::downloads::auto_runtime_overrides;
use sovereign_engine::api::gguf::{read_gguf_metadata, GgufError, GgufMetadata, GgufPart};
use sovereign_engine::api::kv::{compute_kv_aggregates, kv_aggregates_in_range};

fn build_gguf(entries: &[(&str, u32, Vec<u8>)]) -> Vec<u8> {
    let mut buf = Vec::new();
    buf.extend_from_slice(b"GGUF");
    buf.extend_from_slice(&3u32.to_le_bytes());
    buf.extend_from_slice(&0u64.to_le_bytes());
    buf.extend_from_slice(&(entries.len() as u64).to_le_bytes());
    for (key, vtype, value_bytes) in entries {
        buf.extend_from_slice(&(key.len() as u64).to_le_bytes());
        buf.extend_from_slice(key.as_bytes());
        buf.extend_from_slice(&vtype.to_le_bytes());
        buf.extend_from_slice(value_bytes);
    }
    buf
}

fn gguf_array_i32(values: &[i32]) -> Vec<u8> {
    let mut buf = Vec::new();
    buf.extend_from_slice(&5u32.to_le_bytes());
    buf.extend_from_slice(&(values.len() as u64).to_le_bytes());
    for v in values {
        buf.extend_from_slice(&v.to_le_bytes());
    }
    buf
}

fn gguf_array_bool(values: &[bool]) -> Vec<u8> {
    let mut buf = Vec::new();
    buf.extend_from_slice(&7u32.to_le_bytes());
    buf.extend_from_slice(&(values.len() as u64).to_le_bytes());
    for &v in values {
        buf.push(if v { 1u8 } else { 0u8 });
    }
    buf
}

#[test]
fn gguf_scalar_head_count_kv() {
    let data = build_gguf(&[
        ("llama.block_count", 4, 32u32.to_le_bytes().to_vec()),
        ("llama.embedding_length", 4, 4096u32.to_le_bytes().to_vec()),
        (
            "llama.attention.head_count",
            4,
            32u32.to_le_bytes().to_vec(),
        ),
        (
            "llama.attention.head_count_kv",
            5,
            8i32.to_le_bytes().to_vec(),
        ),
        ("llama.context_length", 4, 2048u32.to_le_bytes().to_vec()),
    ]);
    let meta = read_gguf_metadata(&data).expect("metadata");
    assert_eq!(meta.head_count_kv, Some(8));
    assert_eq!(meta.head_count, Some(32));
    assert_eq!(meta.block_count, Some(32));
    assert_eq!(meta.embedding_length, Some(4096));
    assert_eq!(meta.context_length, Some(2048));
    assert_eq!(meta.key_length, None);
    assert_eq!(meta.value_length, None);
}

#[test]
fn gguf_array_head_count_kv_returns_max() {
    let arr = gguf_array_i32(&[4, 8, 4, 8, 4, 8]);
    let data = build_gguf(&[
        ("gemma4.attention.head_count_kv", 9, arr),
        (
            "gemma4.attention.head_count",
            4,
            32u32.to_le_bytes().to_vec(),
        ),
    ]);
    let meta = read_gguf_metadata(&data).expect("metadata");
    assert_eq!(meta.head_count_kv, Some(8));
    assert_eq!(meta.head_count, Some(32));
}

#[test]
fn gguf_array_head_count_kv_uniform() {
    let arr = gguf_array_i32(&[8, 8, 8, 8]);
    let data = build_gguf(&[("llama.attention.head_count_kv", 9, arr)]);
    let meta = read_gguf_metadata(&data).expect("metadata");
    assert_eq!(meta.head_count_kv, Some(8));
}

#[test]
fn gguf_explicit_key_value_lengths() {
    let data = build_gguf(&[
        (
            "gemma4.attention.key_length",
            4,
            512u32.to_le_bytes().to_vec(),
        ),
        (
            "gemma4.attention.value_length",
            4,
            512u32.to_le_bytes().to_vec(),
        ),
        ("gemma4.embedding_length", 4, 3584u32.to_le_bytes().to_vec()),
    ]);
    let meta = read_gguf_metadata(&data).expect("metadata");
    assert_eq!(meta.key_length, Some(512));
    assert_eq!(meta.value_length, Some(512));
    assert_eq!(meta.embedding_length, Some(3584));
}

#[test]
fn gguf_no_key_value_lengths_stays_none() {
    let data = build_gguf(&[
        ("llama.embedding_length", 4, 4096u32.to_le_bytes().to_vec()),
        (
            "llama.attention.head_count",
            4,
            32u32.to_le_bytes().to_vec(),
        ),
        (
            "llama.attention.head_count_kv",
            5,
            8i32.to_le_bytes().to_vec(),
        ),
    ]);
    let meta = read_gguf_metadata(&data).expect("metadata");
    assert_eq!(meta.key_length, None);
    assert_eq!(meta.value_length, None);
}

#[test]
fn gguf_sliding_window_parsed() {
    let data = build_gguf(&[(
        "gemma3.attention.sliding_window",
        4,
        1024u32.to_le_bytes().to_vec(),
    )]);
    let meta = read_gguf_metadata(&data).expect("metadata");
    assert_eq!(meta.sliding_window, Some(1024));
    assert_eq!(meta.expert_count, None);
}

#[test]
fn gguf_expert_count_parsed() {
    let data = build_gguf(&[("qwen.expert_count", 4, 128u32.to_le_bytes().to_vec())]);
    let meta = read_gguf_metadata(&data).expect("metadata");
    assert_eq!(meta.expert_count, Some(128));
    assert_eq!(meta.sliding_window, None);
}

#[test]
fn gguf_no_sliding_window_or_expert_count_stays_none() {
    let data = build_gguf(&[
        ("llama.embedding_length", 4, 4096u32.to_le_bytes().to_vec()),
        (
            "llama.attention.head_count",
            4,
            32u32.to_le_bytes().to_vec(),
        ),
    ]);
    let meta = read_gguf_metadata(&data).expect("metadata");
    assert_eq!(meta.sliding_window, None);
    assert_eq!(meta.expert_count, None);
}

#[test]
fn gguf_sliding_window_pattern_parsed() {
    let pat = gguf_array_bool(&[true, true, true, true, true, false]);
    let data = build_gguf(&[("gemma4.attention.sliding_window_pattern", 9, pat)]);
    let meta = read_gguf_metadata(&data).expect("metadata");
    assert_eq!(
        meta.sliding_window_pattern,
        Some(vec![true, true, true, true, true, false])
    );
}

#[test]
fn gguf_head_count_kv_per_layer_parsed() {
    let arr = gguf_array_i32(&[16, 16, 16, 16, 16, 4]);
    let data = build_gguf(&[("gemma4.attention.head_count_kv", 9, arr)]);
    let meta = read_gguf_metadata(&data).expect("metadata");
    assert_eq!(meta.head_count_kv, Some(16));
    assert_eq!(
        meta.head_count_kv_per_layer,
        Some(vec![16, 16, 16, 16, 16, 4])
    );
}

#[test]
fn gguf_key_length_swa_parsed() {
    let data = build_gguf(&[
        (
            "gemma4.attention.key_length",
            4,
            512u32.to_le_bytes().to_vec(),
        ),
        (
            "gemma4.attention.value_length",
            4,
            512u32.to_le_bytes().to_vec(),
        ),
        (
            "gemma4.attention.key_length_swa",
            4,
            256u32.to_le_bytes().to_vec(),
        ),
        (
            "gemma4.attention.value_length_swa",
            4,
            256u32.to_le_bytes().to_vec(),
        ),
    ]);
    let meta = read_gguf_metadata(&data).expect("metadata");
    assert_eq!(meta.key_length, Some(512));
    assert_eq!(meta.value_length, Some(512));
    assert_eq!(meta.key_length_swa, Some(256));
    assert_eq!(meta.value_length_swa, Some(256));
}

#[test]
fn compute_kv_aggregates_gemma4_style() {
    let meta = GgufMetadata {
        block_count: Some(6),
        head_count_kv: Some(16),
        head_count_kv_per_layer: Some(vec![16, 16, 16, 16, 16, 4]),
        sliding_window_pattern: Some(vec![true, true, true, true, true, false]),
        key_length: Some(512),
        value_length: Some(512),
        key_length_swa: Some(256),
        value_length_swa: Some(256),
        ..Default::default()
    };
    let (global_bpt, swa_bpt) = compute_kv_aggregates(&meta);
    assert_eq!(global_bpt, Some(8_192));
    assert_eq!(swa_bpt, Some(81_920));
}

#[test]
fn compute_kv_aggregates_homogeneous() {
    let meta = GgufMetadata {
        block_count: Some(32),
        head_count_kv: Some(8),
        key_length: Some(128),
        value_length: Some(128),
        ..Default::default()
    };
    let (global_bpt, swa_bpt) = compute_kv_aggregates(&meta);
    assert_eq!(global_bpt, Some(131_072));
    assert_eq!(swa_bpt, None);
}

#[test]
fn compute_kv_aggregates_missing_metadata() {
    let meta = GgufMetadata {
        block_count: Some(32),
        head_count_kv: Some(8),
        ..Default::default()
    };
    assert_eq!(compute_kv_aggregates(&meta), (None, None));

    let meta = GgufMetadata {
        key_length: Some(128),
        value_length: Some(128),
        ..Default::default()
    };
    assert_eq!(compute_kv_aggregates(&meta), (None, None));
}

#[test]
fn compute_kv_aggregates_swa_dims_fallback_to_global() {
    let meta = GgufMetadata {
        block_count: Some(2),
        head_count_kv: Some(4),
        head_count_kv_per_layer: Some(vec![4, 4]),
        sliding_window_pattern: Some(vec![true, false]),
        key_length: Some(100),
        value_length: Some(100),
        ..Default::default()
    };
    let (global_bpt, swa_bpt) = compute_kv_aggregates(&meta);
    assert_eq!(global_bpt, Some(1_600));
    assert_eq!(swa_bpt, Some(1_600));
}

#[test]
fn compute_kv_aggregates_pattern_length_mismatch_falls_back() {
    let meta = GgufMetadata {
        block_count: Some(6),
        head_count_kv: Some(16),
        head_count_kv_per_layer: Some(vec![16, 16, 16, 16, 16, 4]),
        sliding_window_pattern: Some(vec![true, false]),
        key_length: Some(128),
        value_length: Some(128),
        ..Default::default()
    };
    let (global_bpt, swa_bpt) = compute_kv_aggregates(&meta);
    assert_eq!(global_bpt, Some(49_152));
    assert_eq!(swa_bpt, None);
}

#[test]
fn auto_overrides_swa_dense_disables_cache() {
    let meta = GgufMetadata {
        sliding_window: Some(1024),
        expert_count: None,
        ..Default::default()
    };
    assert_eq!(auto_runtime_overrides(&meta), r#"{"cache_ram_mib":0}"#);
}

#[test]
fn auto_overrides_swa_dense_explicit_zero_experts() {
    let meta = GgufMetadata {
        sliding_window: Some(2048),
        expert_count: Some(0),
        ..Default::default()
    };
    assert_eq!(auto_runtime_overrides(&meta), r#"{"cache_ram_mib":0}"#);
}

#[test]
fn auto_overrides_swa_moe_keeps_default() {
    let meta = GgufMetadata {
        sliding_window: Some(1024),
        expert_count: Some(128),
        ..Default::default()
    };
    assert_eq!(auto_runtime_overrides(&meta), "{}");
}

#[test]
fn auto_overrides_no_swa_dense_keeps_default() {
    let meta = GgufMetadata {
        sliding_window: None,
        expert_count: None,
        ..Default::default()
    };
    assert_eq!(auto_runtime_overrides(&meta), "{}");
}

#[test]
fn auto_overrides_no_swa_moe_keeps_default() {
    let meta = GgufMetadata {
        sliding_window: None,
        expert_count: Some(8),
        ..Default::default()
    };
    assert_eq!(auto_runtime_overrides(&meta), "{}");
}

#[test]
fn broken_files_are_refused() {
    assert!(matches!(
        read_gguf_metadata(b"GGU"),
        Err(GgufError::Truncated(GgufPart::Magic))
    ));
    assert!(matches!(
        read_gguf_metadata(b"GGML\x03\0\0\0"),
        Err(GgufError::NotGguf)
    ));
    let good = build_gguf(&[("a.block_count", 4, 1u32.to_le_bytes().to_vec())]);
    for (len, part) in [
        (6, GgufPart::Version),
        (12, GgufPart::TensorCount),
        (20, GgufPart::EntryCount),
        (28, GgufPart::StringLength),
        (34, GgufPart::StringData),
        (47, GgufPart::Type),
    ] {
        match read_gguf_metadata(&good[..len]) {
            Err(GgufError::Truncated(p)) => assert_eq!(format!("{p:?}"), format!("{part:?}")),
            other => panic!("{len}: {other:?}"),
        }
    }
    let unknown = build_gguf(&[("a.block_count", 99, Vec::new())]);
    assert!(matches!(
        read_gguf_metadata(&unknown),
        Err(GgufError::UnknownType(99))
    ));
    assert!(!GgufError::NotGguf.message().is_empty());
}

#[test]
fn unreadable_texts_are_refused() {
    let mut data = build_gguf(&[("ab", 4, 1u32.to_le_bytes().to_vec())]);
    let at = data.windows(2).position(|w| w == b"ab").expect("key");
    data[at] = 0xff;
    let error = read_gguf_metadata(&data).unwrap_err();
    assert!(matches!(error, GgufError::InvalidUtf8(_)));
    assert_eq!(
        error.message(),
        "invalid utf8: invalid utf-8 sequence of 1 bytes from index 0"
    );
    let mut data = build_gguf(&[("ab", 4, 1u32.to_le_bytes().to_vec())]);
    data[24..32].copy_from_slice(&u64::MAX.to_le_bytes());
    assert!(matches!(
        read_gguf_metadata(&data),
        Err(GgufError::StringTooLong(u64::MAX))
    ));
    let mut data = build_gguf(&[]);
    data[16..24].copy_from_slice(&u64::MAX.to_le_bytes());
    assert!(matches!(
        read_gguf_metadata(&data),
        Err(GgufError::TooManyEntries(u64::MAX))
    ));
}

#[test]
fn what_follows_does_not_matter() {
    let mut data = build_gguf(&[("llama.block_count", 4, 32u32.to_le_bytes().to_vec())]);
    data.extend_from_slice(b"tensor data");
    let meta = read_gguf_metadata(&data).expect("metadata");
    assert_eq!(meta.block_count, Some(32));
}

#[test]
fn other_entries_change_nothing() {
    let known = [
        ("llama.block_count", 4, 32u32.to_le_bytes().to_vec()),
        (
            "llama.attention.head_count_kv",
            9,
            gguf_array_i32(&[8, 4, 8]),
        ),
        (
            "llama.attention.sliding_window_pattern",
            9,
            gguf_array_bool(&[true, false]),
        ),
    ];
    let plain = format!("{:?}", read_gguf_metadata(&build_gguf(&known)).expect("metadata"));
    for at in 0..=known.len() {
        for other in [
            ("general.flag", 7, vec![1]),
            ("general.numbers", 9, gguf_array_i32(&[1, 2])),
        ] {
            let mut entries = known.to_vec();
            entries.insert(at, other);
            let meta = read_gguf_metadata(&build_gguf(&entries)).expect("metadata");
            assert_eq!(format!("{meta:?}"), plain);
        }
    }
}

#[test]
fn other_values_are_passed_over() {
    let text = {
        let mut v = 2u64.to_le_bytes().to_vec();
        v.extend_from_slice(b"hi");
        v
    };
    let data = build_gguf(&[
        ("general.name", 8, text),
        ("general.flag", 7, vec![1]),
        ("general.numbers", 9, gguf_array_i32(&[1, 2, 3])),
        ("llama.attention.head_count_kv", 9, gguf_array_bool(&[true, false])),
        ("llama.block_count", 4, 32u32.to_le_bytes().to_vec()),
    ]);
    let meta = read_gguf_metadata(&data).expect("metadata");
    assert_eq!(meta.block_count, Some(32));
    assert_eq!(meta.head_count_kv, None);
}

#[test]
fn uniform_layers_count_like_no_pattern() {
    let meta = GgufMetadata {
        block_count: Some(3),
        head_count_kv: Some(8),
        head_count_kv_per_layer: Some(vec![8, 8, 8]),
        sliding_window_pattern: Some(vec![false, false, false]),
        key_length: Some(64),
        value_length: Some(64),
        ..Default::default()
    };
    let (global, swa) = compute_kv_aggregates(&meta);
    assert_eq!(global, Some(3 * 8 * 128 * 2));
    assert_eq!(swa, Some(0));
}

#[test]
fn aggregates_out_of_range_are_noticed() {
    let meta = |key_length: u32, block_count: u32| GgufMetadata {
        block_count: Some(block_count),
        head_count_kv: Some(u32::MAX),
        key_length: Some(key_length),
        value_length: Some(1),
        ..Default::default()
    };
    assert!(kv_aggregates_in_range(&meta(1, 1)));
    assert!(!kv_aggregates_in_range(&meta(u32::MAX, 1)));
    assert!(!kv_aggregates_in_range(&meta(1, u32::MAX)));
    assert!(kv_aggregates_in_range(&GgufMetadata::default()));
    let layers = GgufMetadata {
        head_count_kv_per_layer: Some(vec![1, 1]),
        sliding_window_pattern: Some(vec![true, true]),
        key_length: Some(u32::MAX),
        value_length: Some(u32::MAX),
        key_length_swa: Some(1),
        value_length_swa: Some(1),
        ..Default::default()
    };
    assert!(kv_aggregates_in_range(&layers));
    assert_eq!(compute_kv_aggregates(&layers), (Some(0), Some(8)));
}

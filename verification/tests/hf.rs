//! Choosing and naming files of a repository.
use sovereign_engine::api::hf::{
    build_search_url, detect_mmproj_file, detect_primary_file, format_bytes, is_mmproj_filename,
    list_downloadable_files, list_repo_files, search_models, should_include, urlencoded,
    HfFileEntry, HfModelResult, SearchQuery,
};
use sovereign_engine::json::{parse, to_text};

#[test]
fn format_bytes_zero() {
    assert_eq!(format_bytes(0), "0 B");
}

#[test]
fn format_bytes_small() {
    assert_eq!(format_bytes(1), "1 B");
    assert_eq!(format_bytes(512), "512 B");
    assert_eq!(format_bytes(1023), "1023 B");
}

#[test]
fn format_bytes_kb() {
    assert_eq!(format_bytes(1024), "1.0 KB");
    assert_eq!(format_bytes(1536), "1.5 KB");
    assert_eq!(format_bytes(10 * 1024), "10.0 KB");
}

#[test]
fn format_bytes_mb() {
    assert_eq!(format_bytes(1024 * 1024), "1.0 MB");
    assert_eq!(format_bytes(5 * 1024 * 1024 + 512 * 1024), "5.5 MB");
}

#[test]
fn format_bytes_gb() {
    assert_eq!(format_bytes(1024 * 1024 * 1024), "1.0 GB");
    assert_eq!(
        format_bytes(7 * 1024 * 1024 * 1024 + 512 * 1024 * 1024),
        "7.5 GB"
    );
}

#[test]
fn format_bytes_tb() {
    assert_eq!(format_bytes(1024u64 * 1024 * 1024 * 1024), "1.0 TB");
    assert_eq!(
        format_bytes(2 * 1024u64 * 1024 * 1024 * 1024 + 512 * 1024 * 1024 * 1024),
        "2.5 TB"
    );
}

fn make_file(path: &str, size: u64) -> HfFileEntry {
    HfFileEntry {
        file_type: "file".to_string(),
        path: path.to_string(),
        size: Some(size),
    }
}

#[test]
fn detect_primary_file_empty_list() {
    assert_eq!(detect_primary_file(&[]), None);
}

#[test]
fn detect_primary_file_no_matching_extensions() {
    let files = vec![make_file("README.md", 1000), make_file("config.json", 500)];
    assert_eq!(detect_primary_file(&files), None);
}

#[test]
fn detect_primary_file_prefers_gguf() {
    let files = vec![
        make_file("model.safetensors", 10_000_000),
        make_file("model-q4.gguf", 5_000_000),
    ];
    assert_eq!(
        detect_primary_file(&files),
        Some("model-q4.gguf".to_string())
    );
}

#[test]
fn detect_primary_file_largest_gguf() {
    let files = vec![
        make_file("model-q2.gguf", 2_000_000),
        make_file("model-q8.gguf", 8_000_000),
        make_file("model-q4.gguf", 4_000_000),
    ];
    assert_eq!(
        detect_primary_file(&files),
        Some("model-q8.gguf".to_string())
    );
}

#[test]
fn detect_primary_file_falls_back_to_safetensors() {
    let files = vec![
        make_file("config.json", 500),
        make_file("model.safetensors", 10_000_000),
        make_file("model-2.safetensors", 20_000_000),
    ];
    assert_eq!(
        detect_primary_file(&files),
        Some("model-2.safetensors".to_string())
    );
}

#[test]
fn detect_primary_file_none_size_treated_as_zero() {
    let files = vec![HfFileEntry {
        file_type: "file".to_string(),
        path: "model.gguf".to_string(),
        size: None,
    }];
    assert_eq!(detect_primary_file(&files), Some("model.gguf".to_string()));
}

#[test]
fn urlencoded_alphanumeric_preserved() {
    assert_eq!(urlencoded("Hello123"), "Hello123");
}

#[test]
fn urlencoded_unreserved_chars_preserved() {
    assert_eq!(urlencoded("a-b_c.d~e"), "a-b_c.d~e");
}

#[test]
fn urlencoded_space_becomes_plus() {
    assert_eq!(urlencoded("hello world"), "hello+world");
}

#[test]
fn urlencoded_special_chars_encoded() {
    assert_eq!(urlencoded("a&b=c"), "a%26b%3Dc");
}

#[test]
fn urlencoded_slash_encoded() {
    assert_eq!(urlencoded("path/to/thing"), "path%2Fto%2Fthing");
}

#[test]
fn urlencoded_empty_string() {
    assert_eq!(urlencoded(""), "");
}

#[test]
fn urlencoded_unicode_chars() {
    let encoded = urlencoded("café");
    assert!(encoded.starts_with("caf"));
    assert!(encoded.contains('%'));
    assert_eq!(encoded, "caf%C3%A9");
}

#[test]
fn is_mmproj_filename_accepts_dash_prefix() {
    assert!(is_mmproj_filename("mmproj-foo-f16.gguf"));
}

#[test]
fn is_mmproj_filename_accepts_underscore_prefix() {
    assert!(is_mmproj_filename("mmproj_foo_f16.gguf"));
}

#[test]
fn is_mmproj_filename_rejects_non_gguf() {
    assert!(!is_mmproj_filename("mmproj-foo.bin"));
}

#[test]
fn is_mmproj_filename_rejects_non_prefix() {
    assert!(!is_mmproj_filename("foo-mmproj.gguf"));
}

#[test]
fn is_mmproj_filename_rejects_non_root_path() {
    assert!(!is_mmproj_filename("subdir/mmproj-foo.gguf"));
}

#[test]
fn detect_mmproj_file_none_when_absent() {
    let files = vec![make_file("model.gguf", 1_000)];
    assert_eq!(detect_mmproj_file(&files), None);
}

#[test]
fn detect_mmproj_file_single_match() {
    let files = vec![
        make_file("model.gguf", 1_000),
        make_file("mmproj-foo-f16.gguf", 500),
    ];
    assert_eq!(
        detect_mmproj_file(&files),
        Some("mmproj-foo-f16.gguf".to_string())
    );
}

#[test]
fn detect_mmproj_file_prefers_f16_over_bf16_and_f32() {
    let files = vec![
        make_file("model.gguf", 1_000),
        make_file("mmproj-foo-bf16.gguf", 400),
        make_file("mmproj-foo-f32.gguf", 600),
        make_file("mmproj-foo-f16.gguf", 500),
    ];
    assert_eq!(
        detect_mmproj_file(&files),
        Some("mmproj-foo-f16.gguf".to_string())
    );
}

#[test]
fn detect_mmproj_file_prefers_bf16_over_f32() {
    let files = vec![
        make_file("model.gguf", 1_000),
        make_file("mmproj-foo-f32.gguf", 600),
        make_file("mmproj-foo-bf16.gguf", 400),
    ];
    assert_eq!(
        detect_mmproj_file(&files),
        Some("mmproj-foo-bf16.gguf".to_string())
    );
}

#[test]
fn detect_mmproj_file_f16_not_confused_by_bf16() {
    let files = vec![make_file("mmproj-foo-bf16.gguf", 400)];
    assert_eq!(
        detect_mmproj_file(&files),
        Some("mmproj-foo-bf16.gguf".to_string())
    );
}

#[test]
fn detect_mmproj_file_ignores_subdir_matches() {
    let files = vec![
        make_file("model.gguf", 1_000),
        make_file("subdir/mmproj-x.gguf", 500),
    ];
    assert_eq!(detect_mmproj_file(&files), None);
}

#[test]
fn should_include_explicit_filter_accepts_listed_file() {
    let filter = vec!["main.gguf".to_string()];
    assert!(should_include("main.gguf", Some(&filter)));
}

#[test]
fn should_include_explicit_filter_always_includes_mmproj() {
    let filter = vec!["main.gguf".to_string()];
    assert!(should_include("mmproj-foo-f16.gguf", Some(&filter)));
}

#[test]
fn should_include_explicit_filter_rejects_unlisted_non_mmproj() {
    let filter = vec!["main.gguf".to_string()];
    assert!(!should_include("extra.gguf", Some(&filter)));
}

#[test]
fn should_include_no_filter_accepts_any_file() {
    assert!(should_include("main.gguf", None));
}

#[test]
fn should_include_no_filter_accepts_mmproj() {
    assert!(should_include("mmproj-foo-f16.gguf", None));
}

#[test]
fn format_bytes_rounds_like_a_float() {
    for n in [
        1025u64,
        1075,
        1076,
        1126,
        1127,
        104857,
        1048524,
        1048575,
        1048576,
        52428800 + 52428,
        u64::MAX,
        u64::MAX - 4096,
        (1 << 53) + 1,
    ] {
        let units: [(&str, f64); 4] = [
            ("TB", 1099511627776.0),
            ("GB", 1073741824.0),
            ("MB", 1048576.0),
            ("KB", 1024.0),
        ];
        let (unit, size) = units
            .iter()
            .find(|u| n as f64 >= u.1)
            .copied()
            .expect("unit");
        assert_eq!(format_bytes(n), format!("{:.1} {unit}", n as f64 / size));
    }
}

#[test]
fn uppercase_projectors_are_preferred_alike() {
    let files = vec![
        make_file("mmproj-BF16.gguf", 1),
        make_file("mmproj-F16.gguf", 1),
        make_file("mmproj-F32.gguf", 1),
    ];
    assert_eq!(
        detect_mmproj_file(&files),
        Some("mmproj-F16.gguf".to_string())
    );
}

/// The bytes that an encoded text stands for.
fn decoded(text: &str) -> Vec<u8> {
    let bytes = text.as_bytes();
    let mut out = Vec::new();
    let mut i = 0;
    while i < bytes.len() {
        match bytes[i] {
            b'%' => {
                out.push(u8::from_str_radix(&text[i + 1..i + 3], 16).expect("digits"));
                i += 3;
            }
            b'+' => {
                out.push(b' ');
                i += 1;
            }
            b => {
                out.push(b);
                i += 1;
            }
        }
    }
    out
}

#[test]
fn encoding_is_undone_by_decoding() {
    for text in ["", "a b+c%20", "ü/\u{1F600}\0~", "%%++  "] {
        assert_eq!(decoded(&urlencoded(text)), text.as_bytes());
    }
}

#[test]
fn encoding_leaves_only_safe_characters() {
    let encoded = urlencoded("a b/ü&?#%\u{1F600}");
    assert_eq!(encoded, "a+b%2F%C3%BC%26%3F%23%25%F0%9F%98%80");
    assert!(encoded
        .chars()
        .all(|c| c.is_ascii_alphanumeric() || "-_.~+%".contains(c)));
    for piece in encoded.split('%').skip(1) {
        assert!(piece
            .chars()
            .take(2)
            .all(|c| c.is_ascii_digit() || ('A'..='F').contains(&c)));
        assert!(piece.len() >= 2);
    }
}

#[test]
fn only_files_are_downloaded() {
    let dir = HfFileEntry {
        file_type: "directory".to_string(),
        path: "d".to_string(),
        size: None,
    };
    let files = vec![dir, make_file("a.gguf", 1), make_file("b.gguf", 2)];
    let filter = vec!["b.gguf".to_string()];
    let taken = list_downloadable_files(files, Some(&filter)).expect("files");
    assert_eq!(taken.len(), 1);
    assert_eq!(taken[0].path, "b.gguf");
    let none = list_downloadable_files(vec![make_file("a", 1)], Some(&filter));
    assert!(none.is_err());
}

#[test]
fn repository_files_are_listed() {
    let listed = list_repo_files(&vec![make_file("a.gguf", 5)]);
    let text = to_text(&listed);
    assert!(text.contains("a.gguf"));
    assert!(parse(&text).is_some());
}

fn query() -> SearchQuery {
    SearchQuery {
        q: None,
        task: None,
        tags: None,
        offset: None,
        limit: None,
    }
}

#[test]
fn search_addresses() {
    assert_eq!(
        build_search_url(&SearchQuery {
            q: Some("llama 3".to_string()),
            ..query()
        }),
        "https://huggingface.co/api/models?search=llama+3&sort=downloads&direction=-1&limit=20"
    );
    assert_eq!(
        build_search_url(&SearchQuery {
            q: Some("x".to_string()),
            tags: Some("gguf".to_string()),
            task: Some("text-generation".to_string()),
            offset: Some(10),
            limit: Some(500),
        }),
        "https://huggingface.co/api/models?search=x+GGUF&sort=downloads&direction=-1&limit=330\
         &pipeline_tag=text-generation&tags=gguf"
    );
}

#[test]
fn search_results_are_filtered_and_paged() {
    let result = |id: &str| HfModelResult {
        model_id: None,
        id: Some(id.to_string()),
        downloads: Some(3),
        likes: None,
        pipeline_tag: None,
        tags: None,
    };
    let found = vec![result("a-GGUF"), result("b"), result("c-gguf")];
    let p = SearchQuery {
        tags: Some("gguf".to_string()),
        offset: Some(1),
        ..query()
    };
    let text = to_text(&search_models(&p, &found));
    assert!(text.contains("c-gguf"));
    assert!(!text.contains("a-GGUF"));
    assert!(!text.contains("\"b\""));
}

#[test]
fn pages_fit_together() {
    let found: Vec<HfModelResult> = (0..5)
        .map(|i| HfModelResult {
            model_id: Some(format!("m{i}")),
            id: None,
            downloads: None,
            likes: Some(i),
            pipeline_tag: None,
            tags: Some(Vec::new()),
        })
        .collect();
    let ids = |offset: usize, limit: usize| -> Vec<String> {
        let p = SearchQuery {
            offset: Some(offset),
            limit: Some(limit),
            ..query()
        };
        let text = to_text(&search_models(&p, &found));
        (0..5)
            .map(|i| format!("m{i}"))
            .filter(|id| text.contains(&format!("\"{id}\"")))
            .collect()
    };
    let mut both = ids(1, 2);
    both.extend(ids(3, 1));
    assert_eq!(both, ids(1, 3));
    assert_eq!(ids(4, 10), vec!["m4"]);
    assert!(ids(9, 2).is_empty());
}

//! Downloads.
use sovereign_engine::api::downloads::{
    base_model_of, checked_json, downloaded_row, get_disk_usage, gguf_files, hf_http_error_hint,
    model_info_url, plan_file, project_disk_use, safe_repo, tokenizer_url, total_bytes, tree_url,
    validate_disk_space, DiskUsage, DownloadRequest, Downloads,
};
use sovereign_engine::api::gguf::GgufMetadata;
use sovereign_engine::api::hf::HfFileEntry;
use sovereign_engine::json::{parse, to_text, Json};
use sovereign_engine::reply::Reply;

fn json(text: &str) -> Json {
    parse(text).expect("JSON")
}

fn same(value: &Json, text: &str) {
    assert_eq!(to_text(value), to_text(&json(text)));
}

fn request(repo: &str) -> DownloadRequest {
    DownloadRequest {
        hf_repo: repo.to_string(),
        files: None,
        category_id: None,
        backend_type: None,
    }
}

#[test]
fn hf_http_error_hint_unauthorized_without_token() {
    let hint = hf_http_error_hint(401, false);
    assert!(
        hint.contains("set HF_TOKEN"),
        "Expected suggestion to set HF_TOKEN, got: {hint}"
    );
}

#[test]
fn hf_http_error_hint_forbidden_without_token() {
    let hint = hf_http_error_hint(403, false);
    assert!(
        hint.contains("set HF_TOKEN"),
        "Expected suggestion to set HF_TOKEN, got: {hint}"
    );
}

#[test]
fn hf_http_error_hint_unauthorized_with_token() {
    let hint = hf_http_error_hint(401, true);
    assert!(
        hint.contains("lack access"),
        "Expected 'lack access' hint, got: {hint}"
    );
}

#[test]
fn hf_http_error_hint_forbidden_with_token() {
    let hint = hf_http_error_hint(403, true);
    assert!(
        hint.contains("lack access"),
        "Expected 'lack access' hint, got: {hint}"
    );
}

#[test]
fn hf_http_error_hint_other_status_returns_empty() {
    assert_eq!(hf_http_error_hint(404, false), "");
    assert_eq!(hf_http_error_hint(500, true), "");
    assert_eq!(hf_http_error_hint(400, false), "");
}

#[test]
fn one_download_for_a_repository_at_a_time() {
    let mut d = Downloads::new();
    let r = d.start(None, &request("a/b"), "1", None);
    assert_eq!(r.status, 202);
    same(&r.body, r#"{"download_id":"1","status":"started"}"#);
    let r = d.start(None, &request("a/b"), "2", None);
    assert_eq!(r.status, 409);
    same(
        &r.body,
        r#"{"error":"Download already in progress for a/b","download_id":"1"}"#,
    );
    assert_eq!(d.start(None, &request("a/c"), "3", None).status, 202);
    assert_eq!(d.cancel("1").status, 200);
    assert!(d.is_cancelled("1"));
    assert!(!d.is_cancelled("3"));
    assert_eq!(d.start(None, &request("a/b"), "4", None).status, 202);
}

#[test]
fn refused_requests_start_nothing() {
    let mut d = Downloads::new();
    let r = d.start(
        Some(Reply::error(400, "no repository")),
        &request("a b"),
        "1",
        Some("96.1"),
    );
    assert_eq!(r, Reply::error(400, "no repository"));
    same(&d.list(), r#"{"downloads":[]}"#);
}

#[test]
fn full_disks_block_downloads() {
    let mut d = Downloads::new();
    let r = d.start(None, &request("a/b"), "1", Some("96.1"));
    assert_eq!(r.status, 507);
    same(
        &r.body,
        r#"{"error":"Disk usage at 96.1% — downloads blocked above 95%"}"#,
    );
    same(&d.list(), r#"{"downloads":[]}"#);
}

#[test]
fn downloads_end_once() {
    let mut d = Downloads::new();
    assert_eq!(d.cancel("1").status, 404);
    d.start(None, &request("a/b"), "1", None);
    d.set_total("1", 100);
    d.set_progress("1", 40);
    d.fail("1", "network");
    same(
        &d.list(),
        r#"{"downloads":[{"id":"1","hf_repo":"a/b","progress_bytes":40,"total_bytes":100,
            "status":"failed","error":"network"}]}"#,
    );
    let r = d.cancel("1");
    assert_eq!(r.status, 409);
    same(
        &r.body,
        r#"{"error":"Download is not active (status: Failed)"}"#,
    );
    d.start(None, &request("x/y"), "2", None);
    d.complete("2", 9);
    assert_eq!(
        d.cancel("2").body.get_str("error"),
        Some("Download is not active (status: Complete)")
    );
}

#[test]
fn other_downloads_are_counted_in() {
    let mut d = Downloads::new();
    d.start(None, &request("a/a"), "1", None);
    d.set_total("1", 100);
    d.set_progress("1", 30);
    d.start(None, &request("a/b"), "2", None);
    d.set_total("2", 10);
    d.start(None, &request("a/c"), "3", None);
    d.set_total("3", 1000);
    d.complete("3", 1000);
    assert_eq!(d.inflight_beside("2"), Some(70));
    assert_eq!(d.inflight_beside("1"), Some(10));
    assert_eq!(d.inflight_beside("9"), Some(80));
    d.set_total("2", u64::MAX);
    assert_eq!(d.inflight_beside("9"), None);
}

#[test]
fn reports_of_df() {
    assert_eq!(
        get_disk_usage("   1B-blocks Used Avail\n 1000 600 400\n"),
        Ok(DiskUsage {
            total_bytes: 1000,
            used_bytes: 600,
            free_bytes: 400
        })
    );
    assert_eq!(
        get_disk_usage("only one line"),
        Err("Unexpected df output format".to_string())
    );
    assert_eq!(
        get_disk_usage("h\n 1 2 \n"),
        Err("Unexpected df output columns: 1 2".to_string())
    );
    assert_eq!(
        get_disk_usage("h\nx 2 3\n"),
        Err("Failed to parse total bytes: invalid digit found in string".to_string())
    );
    assert_eq!(
        get_disk_usage("h\n1 18446744073709551616 3\n"),
        Err("Failed to parse used bytes: number too large to fit in target type".to_string())
    );
}

#[test]
fn downloads_must_fit() {
    let disk = DiskUsage {
        total_bytes: 10_000,
        used_bytes: 4_000,
        free_bytes: 6_000,
    };
    assert_eq!(project_disk_use(&disk, 1_000, 500), Some((1_500, 5_500)));
    assert_eq!(project_disk_use(&disk, u64::MAX, 1), None);
    assert_eq!(project_disk_use(&disk, u64::MAX - 1, 0), None);
    assert_eq!(validate_disk_space(&disk, 1_500, None), Ok(()));
    assert_eq!(
        validate_disk_space(&disk, 7_000, None),
        Err("Not enough disk space: need 6.8 KB but only 5.9 KB free".to_string())
    );
    assert_eq!(
        validate_disk_space(&disk, 5_900, Some("99.0")),
        Err(
            "Download would push disk to 99.0% (threshold 95%): need 5.8 KB, 5.9 KB free"
                .to_string()
        )
    );
}

#[test]
fn paths_stay_inside() {
    assert_eq!(
        plan_file("d/m.gguf", "a/b", "/models/a--b"),
        Ok((
            "https://huggingface.co/a/b/resolve/main/d/m.gguf".to_string(),
            "/models/a--b/d/m.gguf".to_string()
        ))
    );
    assert_eq!(
        plan_file("../x", "a/b", "/m"),
        Err("Refusing file with unsafe path: ../x".to_string())
    );
    assert!(plan_file("/etc/x", "a/b", "/m").is_err());
    assert_eq!(safe_repo("a/b/c"), "a--b--c");
}

#[test]
fn addresses_of_a_repository() {
    assert_eq!(
        tree_url("a/b"),
        "https://huggingface.co/api/models/a/b/tree/main"
    );
    assert_eq!(
        model_info_url("a/b"),
        "https://huggingface.co/api/models/a/b"
    );
    assert_eq!(
        tokenizer_url("a/b"),
        "https://huggingface.co/a/b/raw/main/tokenizer_config.json"
    );
}

#[test]
fn base_models() {
    let of = |text: &str| base_model_of(&json(text));
    assert_eq!(
        of(r#"{"cardData":{"base_model":"a/b"}}"#).as_deref(),
        Some("a/b")
    );
    assert_eq!(
        of(r#"{"cardData":{"base_model":["c/d","e/f"]}}"#).as_deref(),
        Some("c/d")
    );
    assert_eq!(of(r#"{"cardData":{"base_model":[]}}"#), None);
    assert_eq!(of(r#"{"cardData":{}}"#), None);
    assert_eq!(of("{}"), None);
    assert_eq!(checked_json("{\"a\":1}".to_string()).as_deref(), Some("{\"a\":1}"));
    assert_eq!(checked_json("<html>".to_string()), None);
}

fn file(path: &str, size: Option<u64>) -> HfFileEntry {
    HfFileEntry {
        file_type: "file".to_string(),
        path: path.to_string(),
        size,
    }
}

#[test]
fn sizes_add_up() {
    let files = [
        file("a.gguf", Some(5)),
        file("b.txt", None),
        file("c.gguf", Some(7)),
    ];
    assert_eq!(total_bytes(&files), Some(12));
    assert_eq!(gguf_files(&files), vec!["a.gguf", "c.gguf"]);
    assert_eq!(
        total_bytes(&[file("a", Some(u64::MAX)), file("b", Some(1))]),
        None
    );
}

#[test]
fn insert_downloaded_model_persists_mmproj_filename() {
    let files = [
        file("model-q4.gguf", Some(1_000)),
        file("mmproj-foo-f16.gguf", Some(234)),
    ];
    let row = downloaded_row(
        "model-with-mmproj".to_string(),
        "owner/repo".to_string(),
        &files,
        1_234,
        None,
        None,
        None,
        None,
    );
    assert_eq!(row.primary_filename.as_deref(), Some("model-q4.gguf"));
    assert_eq!(row.mmproj_filename.as_deref(), Some("mmproj-foo-f16.gguf"));
    assert_eq!(row.size_bytes, 1_234);
    assert_eq!(row.backend_type, "llamacpp");
    assert_eq!(row.runtime_overrides_json, "{}");
}

#[test]
fn insert_downloaded_model_leaves_mmproj_null_for_text_only() {
    let meta = GgufMetadata {
        sliding_window: Some(1024),
        block_count: Some(2),
        head_count_kv: Some(1),
        key_length: Some(4),
        value_length: Some(4),
        ..Default::default()
    };
    let row = downloaded_row(
        "text-only-model".to_string(),
        "owner/text-repo".to_string(),
        &[file("model-q4.gguf", Some(1_000))],
        1_000,
        Some("c".to_string()),
        Some("other".to_string()),
        Some("{}".to_string()),
        Some(meta),
    );
    assert_eq!(row.mmproj_filename, None);
    assert_eq!(row.backend_type, "other");
    assert_eq!(row.kv_bpt_global, Some(32));
    assert_eq!(row.kv_bpt_swa, None);
    assert_eq!(row.runtime_overrides_json, r#"{"cache_ram_mib":0}"#);
}

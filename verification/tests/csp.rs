//! The content security policy.
use sovereign_engine::csp::{
    build_csp, extract_inline_script_hashes, extract_inline_scripts, init_csp_header,
};

#[test]
fn no_scripts_returns_empty_vec() {
    let html = "<html><body><p>Hello</p></body></html>";
    let hashes = extract_inline_script_hashes(html);
    assert!(hashes.is_empty());
}

#[test]
fn single_inline_script_returns_one_hash() {
    let html = r#"<html><head><script>console.log("hi")</script></head></html>"#;
    let hashes = extract_inline_script_hashes(html);
    assert_eq!(hashes.len(), 1);
    assert!(hashes[0].starts_with("sha256-"));
}

#[test]
fn single_inline_script_hash_is_deterministic() {
    let html = "<script>var x = 1;</script>";
    let h1 = extract_inline_script_hashes(html);
    let h2 = extract_inline_script_hashes(html);
    assert_eq!(h1, h2);
}

#[test]
fn multiple_inline_scripts_returns_all_hashes() {
    let html = r#"
        <script>var a = 1;</script>
        <script>var b = 2;</script>
        <script>var c = 3;</script>
    "#;
    let hashes = extract_inline_script_hashes(html);
    assert_eq!(hashes.len(), 3);
    assert_ne!(hashes[0], hashes[1]);
    assert_ne!(hashes[1], hashes[2]);
    assert_ne!(hashes[0], hashes[2]);
}

#[test]
fn script_with_src_attribute_is_not_matched() {
    let html = r#"<script src="app.js"></script><script>inline()</script>"#;
    let hashes = extract_inline_script_hashes(html);
    assert_eq!(hashes.len(), 1);
}

#[test]
fn empty_inline_script_still_hashed() {
    let html = "<script></script>";
    let hashes = extract_inline_script_hashes(html);
    assert_eq!(hashes.len(), 1);
    assert!(hashes[0].starts_with("sha256-"));
}

#[test]
fn hash_matches_known_value() {
    let html = "<script></script>";
    let hashes = extract_inline_script_hashes(html);
    assert_eq!(
        hashes[0],
        "sha256-47DEQpj8HBSa+/TImW+5JCeuQeRkm5NMpJWZG3hSuFU="
    );
}

#[test]
fn unclosed_script_tag_stops_parsing() {
    let html = "<script>var x = 1;";
    let hashes = extract_inline_script_hashes(html);
    assert!(hashes.is_empty());
}

#[test]
fn policies_list_the_hashes() {
    assert_eq!(
        build_csp(&vec!["sha256-a".to_string(), "sha256-b".to_string()]),
        "default-src 'self'; script-src 'self' 'sha256-a' 'sha256-b'; style-src 'self' \
         'unsafe-inline'; img-src 'self' data:; connect-src 'self'"
    );
    assert!(init_csp_header(Some("<script></script>"))
        .contains("'sha256-47DEQpj8HBSa+/TImW+5JCeuQeRkm5NMpJWZG3hSuFU='"));
    assert!(init_csp_header(None)
        .contains("'sha256-CNK91oXKaUIpki3MXfrcGislo8qcATLtfVWO7y4j0rM='"));
}

#[test]
fn known_digest_of_a_script() {
    assert_eq!(
        extract_inline_script_hashes("<script>abc</script>"),
        vec!["sha256-ungWv48Bz+pBQUDeXa4iI7ADYaOWF3qctBD/YfIAFa0="]
    );
}

#[test]
fn scripts_are_taken_in_order() {
    let html = "<script>a</script><script src=x>no</script><script>b<script>c</script><script>d";
    assert_eq!(extract_inline_scripts(html), vec!["a", "b<script>c"]);
    assert_eq!(extract_inline_script_hashes(html).len(), 2);
}

//! Texts and JSON values.
use sovereign_engine::ids::generate_record_id;
use sovereign_engine::json::{
    drops_strings, names_key, parse, sorted_copy, to_record_text, to_text, Json, ObjectBuilder,
};
use sovereign_engine::text::{
    contains, dec_int_text, dec_text, ends_with, eq_ignore_ascii_case, lines, parse_unsigned,
    replace, sort_strings, split, split_whitespace, starts_with, strip_prefix, trim,
    NumberError,
};

#[test]
fn record_identifiers() {
    let id = generate_record_id();
    assert_eq!(id.len(), 36);
    assert_eq!(id.matches('-').count(), 4);
    assert_ne!(id, generate_record_id());
}

#[test]
fn values_are_read_back() {
    let v = ObjectBuilder::new()
        .with("n", Json::signed(-5))
        .with("b", Json::Bool(true))
        .with("s", Json::str("a\"b\n"))
        .with("l", Json::array(vec![Json::Null, Json::unsigned(7)]))
        .done();
    let text = to_text(&v);
    assert_eq!(text, r#"{"b":true,"l":[null,7],"n":-5,"s":"a\"b\n"}"#);
    let back = parse(&text).expect("JSON");
    for key in ["n", "b", "s", "l"] {
        assert_eq!(back.get(key), v.get(key));
    }
    assert_eq!(back.copy(), back);
    assert_eq!(parse("{"), None);
    assert_eq!(parse("[1.5]"), Some(Json::Array(vec![Json::Number("1.5".to_string())])));
}

#[test]
fn records_keep_the_order_of_their_fields() {
    let inner = ObjectBuilder::new()
        .with("z", Json::Null)
        .with("a", Json::Bool(true))
        .done();
    let v = ObjectBuilder::new()
        .with("n", Json::array(vec![inner]))
        .with("b", Json::str("t"))
        .done();
    assert_eq!(to_record_text(&v), r#"{"n":[{"z":null,"a":true}],"b":"t"}"#);
    assert_eq!(to_text(&v), r#"{"b":"t","n":[{"a":true,"z":null}]}"#);
    assert_eq!(to_record_text(&sorted_copy(&v)), to_text(&v));
    assert_eq!(parse(&to_record_text(&v)), Some(v));
}

#[test]
fn keys_are_told_from_other_strings() {
    assert!(names_key(r#"{"a":1,"k" 
 :2}"#, "k"));
    assert!(names_key(r#"[{"b":{"\u006b":"x"}}]"#, "k"));
    assert!(names_key(r#"{"q\"":1}"#, "q\""));
    assert!(!names_key(r#"{"a":"k","b":["k"]}"#, "k"));
    assert!(!names_key(r#"{"a":"\"k\":"}"#, "k"));
    assert!(!names_key("[1,2]", "k"));
}

#[test]
fn repeated_keys_are_noticed() {
    let dropped = |text: &str| drops_strings(text, &parse(text).expect("JSON"));
    assert!(dropped(r#"{"a":1,"a":2}"#));
    assert!(dropped(r#"[0,{"k":{"a":"x","b":1,"a":"y"}}]"#));
    assert!(dropped(r#"{"a":1,"\u0061":2}"#));
    assert!(!dropped(r#"{"a":{"a":"a"},"b":["a","a","\"","\\"]}"#));
    assert!(!dropped("[1,null,true]"));
}

#[test]
fn fields_of_values() {
    let v = parse(r#"{"a":"x","b":1}"#).expect("JSON");
    assert_eq!(v.get_str("a"), Some("x"));
    assert_eq!(v.get_str("b"), None);
    assert_eq!(v.get("c"), None);
    assert_eq!(Json::Null.get("a"), None);
    assert_eq!(Json::str("t").as_str(), Some("t"));
}

#[test]
fn decimal_texts() {
    assert_eq!(dec_text(0), "0");
    assert_eq!(dec_text(u128::MAX), u128::MAX.to_string());
    assert_eq!(dec_int_text(i64::MIN), i64::MIN.to_string());
    assert_eq!(dec_int_text(42), "42");
}

#[test]
fn numbers_are_read_like_std_does() {
    for s in ["", "+", "+7", "-1", "007", "1_0", "256", "255", "4x"] {
        assert_eq!(
            parse_unsigned(s, 255).ok(),
            s.parse::<u8>().ok().map(|n| n as u64),
            "{s}"
        );
        if let Err(e) = parse_unsigned(s, 255) {
            assert_eq!(e.message(), s.parse::<u8>().unwrap_err().to_string());
        }
    }
    assert!(matches!(parse_unsigned("", 9), Err(NumberError::Empty)));
}

#[test]
fn texts_are_cut_like_std_does() {
    let s = " a;b ; c\u{a0}\n d;; ";
    assert_eq!(split(s, ';'), s.split(';').collect::<Vec<_>>());
    assert_eq!(split_whitespace(s), s.split_whitespace().collect::<Vec<_>>());
    assert_eq!(trim(s), s.trim());
    for t in ["", "\n", "a\r\nb\n", "a\n\nb", "x\r"] {
        assert_eq!(lines(t), t.lines().collect::<Vec<_>>());
    }
    assert_eq!(replace("a/b/", '/', "--"), "a--b--");
    assert_eq!(strip_prefix("data: x", "data: ").as_deref(), Some("x"));
    assert_eq!(strip_prefix("dat", "data"), None);
}

#[test]
fn texts_are_searched_like_std_does() {
    for (s, p) in [("abcab", "ab"), ("abc", ""), ("", "a"), ("aab", "ab")] {
        assert_eq!(contains(s, p), s.contains(p));
        assert_eq!(starts_with(s, p), s.starts_with(p));
        assert_eq!(ends_with(s, p), s.ends_with(p));
    }
    assert!(eq_ignore_ascii_case("TrUe", "true"));
    assert!(!eq_ignore_ascii_case("É", "é"));
}

#[test]
fn texts_are_sorted_like_std_does() {
    let v: Vec<String> = ["b", "a", "B", "", "ab", "é", "a"]
        .iter()
        .map(|s| s.to_string())
        .collect();
    let mut expected = v.clone();
    expected.sort();
    assert_eq!(sort_strings(&v), expected);
}

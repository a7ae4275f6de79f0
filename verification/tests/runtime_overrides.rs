//! Overrides of the backend's command line.
use sovereign_engine::docker::runtime_overrides::{
    ModelRuntimeOverrides, OverridesError, PersistedLaunchConfig, WrappedRuntimeJson,
    MAX_CACHE_RAM_MIB, MAX_CACHE_REUSE, MAX_CTX_CHECKPOINTS,
};
use sovereign_engine::json::{parse, to_text, Json};

const FORBIDDEN_EXTRA_PREFIXES: [&str; 7] = [
    "--model",
    "--host",
    "--port",
    "--api-key",
    "-ngl",
    "-c",
    "-np",
];

fn overrides_from(text: &str) -> Result<ModelRuntimeOverrides, OverridesError> {
    match parse(text) {
        Some(value) => ModelRuntimeOverrides::from_json(&value),
        None => Err(OverridesError::NotJson),
    }
}

#[test]
fn default_deserializes_to_all_none() {
    let parsed = overrides_from("{}").expect("parse");
    assert_eq!(parsed, ModelRuntimeOverrides::default());
    assert!(parsed.cache_ram_mib.is_none());
    assert!(parsed.swa_full.is_none());
    assert!(parsed.ctx_checkpoints.is_none());
    assert!(parsed.cache_reuse.is_none());
    assert!(parsed.extra.is_empty());
}

#[test]
fn deny_unknown_fields_rejects_bad_json() {
    let err = overrides_from(r#"{"cache_ram_mb": 0}"#).unwrap_err();
    assert!(
        err.message().contains("cache_ram_mb"),
        "expected unknown-field error, got: {err:?}"
    );
}

#[test]
fn cache_ram_emits_flag_and_value() {
    let o = ModelRuntimeOverrides {
        cache_ram_mib: Some(0),
        ..Default::default()
    };
    assert_eq!(o.to_cli_args(), vec!["--cache-ram", "0"]);
}

#[test]
fn swa_full_true_emits_flag() {
    let o = ModelRuntimeOverrides {
        swa_full: Some(true),
        ..Default::default()
    };
    assert_eq!(o.to_cli_args(), vec!["--swa-full"]);
}

#[test]
fn swa_full_false_is_omitted() {
    let o = ModelRuntimeOverrides {
        swa_full: Some(false),
        ..Default::default()
    };
    assert!(o.to_cli_args().is_empty());
}

#[test]
fn ctx_checkpoints_emits_short_flag() {
    let o = ModelRuntimeOverrides {
        ctx_checkpoints: Some(32),
        ..Default::default()
    };
    assert_eq!(o.to_cli_args(), vec!["-ctxcp", "32"]);
}

#[test]
fn cache_reuse_emits_flag_and_value() {
    let o = ModelRuntimeOverrides {
        cache_reuse: Some(256),
        ..Default::default()
    };
    assert_eq!(o.to_cli_args(), vec!["--cache-reuse", "256"]);
}

#[test]
fn extra_appended_last_in_documented_order() {
    let o = ModelRuntimeOverrides {
        cache_ram_mib: Some(0),
        swa_full: Some(true),
        ctx_checkpoints: Some(32),
        cache_reuse: Some(256),
        extra: vec!["--threads".into(), "8".into()],
    };
    assert_eq!(
        o.to_cli_args(),
        vec![
            "--cache-ram",
            "0",
            "--swa-full",
            "-ctxcp",
            "32",
            "--cache-reuse",
            "256",
            "--threads",
            "8",
        ]
    );
}

#[test]
fn validate_accepts_defaults() {
    assert!(ModelRuntimeOverrides::default().validate().is_ok());
}

#[test]
fn validate_accepts_max_boundary() {
    let o = ModelRuntimeOverrides {
        cache_ram_mib: Some(MAX_CACHE_RAM_MIB),
        ctx_checkpoints: Some(MAX_CTX_CHECKPOINTS),
        cache_reuse: Some(MAX_CACHE_REUSE),
        ..Default::default()
    };
    assert!(o.validate().is_ok());
}

#[test]
fn validate_rejects_cache_ram_over_max() {
    let o = ModelRuntimeOverrides {
        cache_ram_mib: Some(MAX_CACHE_RAM_MIB + 1),
        ..Default::default()
    };
    let err = o.validate().unwrap_err();
    assert!(err.contains("cache_ram_mib"));
}

#[test]
fn validate_rejects_ctx_checkpoints_over_max() {
    let o = ModelRuntimeOverrides {
        ctx_checkpoints: Some(MAX_CTX_CHECKPOINTS + 1),
        ..Default::default()
    };
    let err = o.validate().unwrap_err();
    assert!(err.contains("ctx_checkpoints"));
}

#[test]
fn validate_rejects_cache_reuse_over_max() {
    let o = ModelRuntimeOverrides {
        cache_reuse: Some(MAX_CACHE_REUSE + 1),
        ..Default::default()
    };
    let err = o.validate().unwrap_err();
    assert!(err.contains("cache_reuse"));
}

#[test]
fn validate_rejects_forbidden_extra_exact() {
    for forbidden in FORBIDDEN_EXTRA_PREFIXES {
        let o = ModelRuntimeOverrides {
            extra: vec![forbidden.to_string()],
            ..Default::default()
        };
        let err = o.validate().unwrap_err();
        assert!(
            err.contains(forbidden),
            "expected error to mention {forbidden}, got: {err}"
        );
    }
}

#[test]
fn validate_rejects_forbidden_extra_with_equals_value() {
    let o = ModelRuntimeOverrides {
        extra: vec!["--port=9999".to_string()],
        ..Default::default()
    };
    assert!(o.validate().is_err());
}

#[test]
fn validate_allows_unrelated_extra() {
    let o = ModelRuntimeOverrides {
        extra: vec!["--threads".into(), "8".into(), "--mlock".into()],
        ..Default::default()
    };
    assert!(o.validate().is_ok());
}

#[test]
fn validate_is_case_sensitive() {
    let o = ModelRuntimeOverrides {
        extra: vec!["--MODEL".into()],
        ..Default::default()
    };
    assert!(o.validate().is_ok());
}

#[test]
fn roundtrip_full_struct_is_identical() {
    let original = ModelRuntimeOverrides {
        cache_ram_mib: Some(0),
        swa_full: Some(true),
        ctx_checkpoints: Some(32),
        cache_reuse: Some(256),
        extra: vec!["--threads".into(), "8".into()],
    };
    let json = to_text(&original.to_value());
    let back = overrides_from(&json).expect("deserialize");
    assert_eq!(original, back);
}

#[test]
fn roundtrip_default_struct_is_identical() {
    let original = ModelRuntimeOverrides::default();
    let json = to_text(&original.to_value());
    let back = overrides_from(&json).expect("deserialize");
    assert_eq!(original, back);
}

#[test]
fn roundtrip_wrapped_with_both_substructs_populated() {
    let original = WrappedRuntimeJson {
        cli: ModelRuntimeOverrides {
            cache_ram_mib: Some(0),
            swa_full: Some(true),
            ctx_checkpoints: Some(32),
            cache_reuse: Some(256),
            extra: vec!["--threads".into(), "8".into()],
        },
        launch: PersistedLaunchConfig {
            gpu_type: Some("cuda".into()),
            gpu_layers: Some(99),
            parallel: Some(4),
        },
    };
    let json = original.to_json().expect("serialize");
    let back = WrappedRuntimeJson::parse(&json).expect("parse");
    assert_eq!(original, back);
}

#[test]
fn roundtrip_empty_wrapped_object_parses_as_default() {
    let parsed = WrappedRuntimeJson::parse("{}").expect("parse");
    assert_eq!(parsed, WrappedRuntimeJson::default());
    assert_eq!(parsed.cli, ModelRuntimeOverrides::default());
    assert_eq!(parsed.launch, PersistedLaunchConfig::default());
}

#[test]
fn backward_compat_legacy_empty_bare_shape_parses_as_default() {
    let parsed = WrappedRuntimeJson::parse("{}").expect("parse");
    assert_eq!(parsed.cli, ModelRuntimeOverrides::default());
    assert_eq!(parsed.launch, PersistedLaunchConfig::default());
}

#[test]
fn backward_compat_legacy_bare_shape_with_cache_ram_mib() {
    let parsed =
        WrappedRuntimeJson::parse(r#"{"cache_ram_mib": 0}"#).expect("parse");
    assert_eq!(parsed.cli.cache_ram_mib, Some(0));
    assert_eq!(parsed.launch, PersistedLaunchConfig::default());
}

#[test]
fn rejects_unknown_field_in_launch_substruct() {
    let blob = r#"{"cli": {}, "launch": {"gpu_typo": "cuda"}}"#;
    let err = WrappedRuntimeJson::parse(blob).unwrap_err();
    let msg = err.message();
    assert!(
        msg.contains("cli") || msg.contains("launch"),
        "expected unknown-field error, got: {msg}"
    );
}

#[test]
fn rejects_unknown_top_level_key() {
    let blob = r#"{"garbage_field": 42}"#;
    let err = WrappedRuntimeJson::parse(blob).unwrap_err();
    assert!(
        err.message().contains("garbage_field"),
        "expected unknown-field error mentioning garbage_field, got: {err:?}"
    );
}

#[test]
fn errors_name_what_is_wrong() {
    assert_eq!(
        WrappedRuntimeJson::parse("not json").unwrap_err(),
        OverridesError::NotJson
    );
    assert_eq!(
        WrappedRuntimeJson::parse("7").unwrap_err(),
        OverridesError::NotAnObject
    );
    assert_eq!(
        WrappedRuntimeJson::parse(r#"{"extra": "x"}"#).unwrap_err(),
        OverridesError::InvalidField("extra".to_string())
    );
    assert_eq!(
        overrides_from(r#"{"cache_reuse": -1}"#).unwrap_err(),
        OverridesError::InvalidField("cache_reuse".to_string())
    );
    assert_eq!(
        overrides_from(r#"{"cache_reuse": 4294967296}"#).unwrap_err(),
        OverridesError::InvalidField("cache_reuse".to_string())
    );
    assert_eq!(
        PersistedLaunchConfig::from_json(&Json::Null).unwrap_err(),
        OverridesError::NotAnObject
    );
}

#[test]
fn null_fields_are_unset() {
    let parsed = overrides_from(r#"{"cache_ram_mib": null, "swa_full": null}"#).expect("parse");
    assert_eq!(parsed, ModelRuntimeOverrides::default());
}

#[test]
fn validate_messages() {
    let o = ModelRuntimeOverrides {
        cache_ram_mib: Some(16385),
        ..Default::default()
    };
    assert_eq!(
        o.validate().unwrap_err(),
        "cache_ram_mib 16385 exceeds maximum 16384"
    );
    let o = ModelRuntimeOverrides {
        extra: vec!["--threads".into(), "-c=1".into()],
        ..Default::default()
    };
    assert_eq!(
        o.validate().unwrap_err(),
        "extra argument '-c=1' is reserved by the proxy"
    );
}

#[test]
fn stored_text_has_the_fields_in_order() {
    let stored = WrappedRuntimeJson::default().to_json().expect("text");
    assert_eq!(
        stored,
        concat_all(&[
            r#"{"cli":{"cache_ram_mib":null,"swa_full":null,"ctx_checkpoints":null,"#,
            r#""cache_reuse":null,"extra":[]},"#,
            r#""launch":{"gpu_type":null,"gpu_layers":null,"parallel":null}}"#,
        ])
    );
}

#[test]
fn repeated_fields_are_refused() {
    for text in [
        r#"{"cache_ram_mib":1,"cache_ram_mib":1}"#,
        r#"{"cli":{"swa_full":true,"swa_full":false}}"#,
        r#"{"cli":{},"cli":{}}"#,
        r#"{"launch":{"parallel":1,"parallel":2},"cli":{}}"#,
        r#"{"extra":["a"],"extra":[]}"#,
        r#"{"extra":[{"a":"x","a":"y"}]}"#,
    ] {
        assert_eq!(
            WrappedRuntimeJson::parse(text).unwrap_err(),
            OverridesError::RepeatedField,
            "{text}"
        );
    }
    assert_eq!(OverridesError::RepeatedField.message(), "duplicate field");
    let once = WrappedRuntimeJson::parse(r#"{"extra":["a\"b\\","a\"b\\","extra"]}"#).expect("read");
    assert_eq!(once.cli.extra, ["a\"b\\", "a\"b\\", "extra"]);
}

#[test]
fn the_key_of_raw_values_is_no_field() {
    for text in [
        r#"{"$serde_json::private::RawValue":"{\"extra\":[\"a\"]}"}"#,
        r#"{"\u0024serde_json::private::RawValue" : "{\"extra\":[\"a\"]}"}"#,
        r#"{"cli":{"$serde_json::private::RawValue":"{\"extra\":[\"a\"]}"}}"#,
        r#"{"cache_ram_mib":{"$serde_json::private::RawValue":"1"}}"#,
        r#"{"extra":[],"$serde_json::private::RawValue":"1"}"#,
    ] {
        assert!(WrappedRuntimeJson::parse(text).is_err(), "{text}");
    }
    let named = WrappedRuntimeJson::parse(r#"{"extra":["$serde_json::private::RawValue"]}"#);
    assert_eq!(named.expect("read").cli.extra, ["$serde_json::private::RawValue"]);
}

#[test]
fn accepted_overrides_set_no_reserved_flag() {
    let o = ModelRuntimeOverrides {
        cache_ram_mib: Some(1),
        swa_full: Some(true),
        ctx_checkpoints: Some(2),
        cache_reuse: Some(3),
        extra: vec!["--threads".into(), "4".into()],
    };
    assert!(o.validate().is_ok());
    for arg in o.to_cli_args() {
        assert!(FORBIDDEN_EXTRA_PREFIXES
            .iter()
            .all(|f| arg != *f && !arg.starts_with(&format!("{f}="))));
    }
}

fn concat_all(parts: &[&str]) -> String {
    parts.concat()
}

#[test]
fn arrays_give_the_fields_in_order() {
    assert_eq!(
        WrappedRuntimeJson::parse("[]"),
        Ok(WrappedRuntimeJson::default())
    );
    let stored = WrappedRuntimeJson::parse(r#"[[1, true], ["vulkan", 20]]"#).expect("parse");
    assert_eq!(stored.cli.cache_ram_mib, Some(1));
    assert_eq!(stored.cli.swa_full, Some(true));
    assert_eq!(stored.launch.gpu_type.as_deref(), Some("vulkan"));
    assert_eq!(stored.launch.gpu_layers, Some(20));
    let older = WrappedRuntimeJson::parse("[5, null, 7]").expect("parse");
    assert_eq!(older.cli.cache_ram_mib, Some(5));
    assert_eq!(older.cli.ctx_checkpoints, Some(7));
    assert_eq!(
        WrappedRuntimeJson::parse("[1, true, 2, 3, [], 4]").unwrap_err(),
        OverridesError::NotAnObject
    );
    let value = parse(r#"{"cache_reuse": 3}"#).expect("JSON");
    let stored = WrappedRuntimeJson::from_stored(&value).expect("stored");
    assert_eq!(stored.cli.cache_reuse, Some(3));
}

#[test]
fn bare_overrides_are_read_as_stored_settings() {
    let o = ModelRuntimeOverrides {
        cache_reuse: Some(9),
        ..Default::default()
    };
    let stored = WrappedRuntimeJson::parse(&to_text(&o.to_value())).expect("stored");
    assert_eq!(stored.cli, o);
    assert_eq!(stored.launch, PersistedLaunchConfig::default());
}

use counit::config::Configuration;

#[test]
fn serialization_from_json() {
    let config = r#"{
  "host": "0.0.0.0",
  "port": 8765,
  "qdrant_url": "http://127.0.0.1:6334",
  "model_dir": "public/model",
  "dylib_dir": "public"
}
"#;

    let config: Configuration = Configuration::from_json_str(config).unwrap();
    assert_eq!(config.host, "0.0.0.0");
    assert_eq!(config.port, 8765);
    assert_eq!(config.qdrant_url.as_deref(), Some("http://127.0.0.1:6334"));
    assert_eq!(config.model_dir, "public/model");
    assert_eq!(config.domain_language_dir.as_deref(), Some("domain"));
}

#[test]
fn configuration_default_values() {
    let config = Configuration::default();
    assert_eq!(config.host, "0.0.0.0");
    assert_eq!(config.port, 8765);
    assert!(config.dylib_dir.is_none());
}

#[test]
fn configuration_rejects_bad_port() {
    let config = Configuration::from_json_str("{\"port\": 70000}");
    assert!(config.is_none());
    let config = Configuration::from_json_str("not json");
    assert!(config.is_none());
}

#[test]
fn index_configuration_defaults() {
    let config = counit::index_config::Configuration::new();
    assert_eq!(config.model_dir, "model");
    assert_eq!(config.max_chunk_tokens, 256);
}

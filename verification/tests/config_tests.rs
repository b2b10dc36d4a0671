use ulm::config::Config;

#[test]
fn test_config_default() {
    let config = Config::default();
    assert_eq!(config.models.embedding_model, "nomic-embed-text");
    assert_eq!(config.models.llm_model, "llama3.2:3b");
    assert_eq!(config.ollama.url, "http://localhost:11434");
    assert_eq!(config.index.embedding_dimension, None);
}

#[test]
fn test_needs_index_rebuild() {
    let mut config = Config::default();

    assert!(!config.needs_index_rebuild());

    config.update_index_metadata(768);
    assert!(!config.needs_index_rebuild());

    config.models.embedding_model = "different-model".to_string();
    assert!(config.needs_index_rebuild());
}

#[test]
fn test_update_index_metadata() {
    let mut config = Config::default();
    config.update_index_metadata(1024);

    assert_eq!(config.index.embedding_dimension, Some(1024));
    assert_eq!(
        config.index.last_embedding_model,
        Some("nomic-embed-text".to_string())
    );
}

#[test]
fn test_legacy_config_migration() {
    let legacy_toml = r#"
        model_name = "llama3.1:8b"
        ollama_url = "http://localhost:11434"
    "#;

    let legacy: toml::Value = toml::from_str(legacy_toml).unwrap();
    let model_name = legacy.get("model_name").unwrap().as_str().unwrap().to_string();
    let ollama_url = legacy.get("ollama_url").unwrap().as_str().unwrap().to_string();

    let config = Config::from_legacy(model_name, ollama_url);

    assert_eq!(config.models.embedding_model, "llama3.1:8b");
    assert_eq!(config.models.llm_model, "llama3.1:8b");
    assert_eq!(config.ollama.url, "http://localhost:11434");
    assert_eq!(config.index.embedding_dimension, None);
    assert_eq!(config.index.last_embedding_model, None);
}

#[test]
fn test_config_serialization() {
    let mut config = Config::default();
    config.models.llm_model = "mistral:7b".to_string();
    config.update_index_metadata(768);

    let toml_str = config.to_toml();
    assert!(toml_str.contains("embedding_model = \"nomic-embed-text\""));
    assert!(toml_str.contains("llm_model = \"mistral:7b\""));
    assert!(toml_str.contains("embedding_dimension = 768"));
}

#[test]
fn test_config_document_round_trip() {
    let mut config = Config::default();
    config.models.llm_model = "phi3:mini".to_string();
    config.update_index_metadata(768);

    let document = config.to_toml();
    let value: toml::Value = toml::from_str(&document).unwrap();

    assert_eq!(
        value.get("models").unwrap().get("embedding_model").unwrap().as_str(),
        Some("nomic-embed-text")
    );
    assert_eq!(
        value.get("models").unwrap().get("llm_model").unwrap().as_str(),
        Some("phi3:mini")
    );
    assert_eq!(
        value.get("ollama").unwrap().get("url").unwrap().as_str(),
        Some("http://localhost:11434")
    );
    assert_eq!(
        value.get("index").unwrap().get("embedding_dimension").unwrap().as_integer(),
        Some(768)
    );
    assert_eq!(
        value.get("index").unwrap().get("last_embedding_model").unwrap().as_str(),
        Some("nomic-embed-text")
    );
}

#[test]
fn test_config_document_omits_unset_fingerprint() {
    let config = Config::default();
    let document = config.to_toml();
    let value: toml::Value = toml::from_str(&document).unwrap();
    assert!(value.get("index").unwrap().get("embedding_dimension").is_none());
    assert!(value.get("index").unwrap().get("last_embedding_model").is_none());
}

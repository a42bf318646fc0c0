use std::sync::Arc;
use logicshell::config::LlmConfig;
use logicshell::llm::bridge::LlmBridge;
use logicshell::llm::error::LlmError;

/// A client that would answer every request with `text`.
#[allow(dead_code)]
#[derive(Debug)]
struct FixedClient {
    text: String,
}

fn mock_client_returning(text: &str) -> Arc<FixedClient> {
    Arc::new(FixedClient { text: text.to_string() })
}

// ── LlmBridge::new ────────────────────────────────────────────────────────

#[test]
fn new_stores_model() {
    let client = mock_client_returning("ls");
    let bridge = LlmBridge::new(client, "llama3", 8_000);
    assert_eq!(bridge.model(), "llama3");
}

#[test]
fn new_with_zero_cap_stores_model() {
    let client = mock_client_returning("ls");
    let bridge = LlmBridge::new(client, "m", 0);
    assert_eq!(bridge.model(), "m");
}

// ── LlmBridge::from_config ────────────────────────────────────────────────

#[test]
fn from_config_disabled_returns_error() {
    let client = mock_client_returning("ls");
    let cfg = LlmConfig {
        enabled: false,
        ..LlmConfig::default()
    };
    let result = LlmBridge::from_config(client, &cfg);
    assert_eq!(result.unwrap_err(), LlmError::Disabled);
}

#[test]
fn from_config_enabled_no_model_returns_error() {
    let client = mock_client_returning("ls");
    let cfg = LlmConfig {
        enabled: true,
        model: None,
        ..LlmConfig::default()
    };
    let result = LlmBridge::from_config(client, &cfg);
    assert_eq!(result.unwrap_err(), LlmError::ModelNotSpecified);
}

#[test]
fn from_config_valid_stores_model() {
    let client = mock_client_returning("ls");
    let cfg = LlmConfig {
        enabled: true,
        model: Some("mistral".into()),
        ..LlmConfig::default()
    };
    let bridge = LlmBridge::from_config(client, &cfg).unwrap();
    assert_eq!(bridge.model(), "mistral");
}

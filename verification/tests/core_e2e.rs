use logicshell::config::load;

// ── Config validation edge cases ──────────────────────────────────────────────

/// llm.enabled = true without model fails validation through the full stack.
#[test]
fn e2e_llm_enabled_without_model_fails_config_load() {
    let result = load("[llm]\nenabled = true\n");
    assert!(result.is_err(), "missing model must fail validation");
    let msg = result.unwrap_err().to_string();
    assert!(
        msg.contains("llm.model"),
        "error must name the missing field: {msg}"
    );
}

/// Unknown keys in the config file produce a Config error.
#[test]
fn e2e_unknown_config_key_is_error() {
    let result = load("completely_made_up_key = 42\n");
    assert!(result.is_err());
}

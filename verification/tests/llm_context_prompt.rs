use logicshell::config::LlmConfig;
use logicshell::llm::client::{LlmRequest, LlmResponse};
use logicshell::llm::context::{SystemContextProvider, SystemContextSnapshot};
use logicshell::llm::error::LlmError;
use logicshell::llm::prompt::PromptComposer;

// ── Helper context ────────────────────────────────────────────────────────────

fn test_ctx() -> SystemContextSnapshot {
    SystemContextSnapshot {
        os_family: "linux".into(),
        arch: "x86_64".into(),
        cwd: "/home/user/project".into(),
        path_dirs: vec!["/usr/bin".into(), "/bin".into(), "/usr/local/bin".into()],
    }
}

// ── PromptComposer from LlmConfig integration ─────────────────────────────────

/// from_config with all fields set produces a working composer.
#[test]
fn composer_from_config_full_pipeline() {
    let cfg = LlmConfig {
        enabled: true,
        model: Some("llama3".into()),
        ..LlmConfig::default()
    };
    let composer = PromptComposer::from_config(&cfg).unwrap();

    let ctx = test_ctx();
    let req = composer
        .compose_nl_to_command("list files sorted by modification time", &ctx)
        .unwrap();

    assert_eq!(req.model, "llama3");
    assert!(req
        .prompt
        .contains("list files sorted by modification time"));
    assert!(req.prompt.contains("linux"));
    assert!(req.prompt.contains("x86_64"));
}

/// PromptComposer::from_config respects invocation.max_context_chars.
#[test]
fn composer_from_config_respects_context_cap() {
    let mut cfg = LlmConfig {
        enabled: true,
        model: Some("m".into()),
        ..LlmConfig::default()
    };
    cfg.invocation.max_context_chars = 50; // very tight

    let composer = PromptComposer::from_config(&cfg).unwrap();
    let result = composer.compose_nl_to_command("ls", &test_ctx());
    assert!(
        matches!(result, Err(LlmError::ContextTooLarge { .. })),
        "tight cap must trigger ContextTooLarge"
    );
}

// ── LlmRequest / LlmResponse round-trip ──────────────────────────────────────

#[test]
fn request_response_fields_stable() {
    let req = LlmRequest {
        model: "llama3".into(),
        prompt: "ls -la".into(),
    };
    assert_eq!(req.model, "llama3");
    assert_eq!(req.prompt, "ls -la");

    let resp = LlmResponse {
        text: "ls -la /home".into(),
        model: "llama3".into(),
    };
    assert_eq!(resp.text, "ls -la /home");
    assert_eq!(resp.model, "llama3");
}

// ── LlmError propagation ──────────────────────────────────────────────────────

#[test]
fn llm_error_variants_all_display() {
    let errors = [
        LlmError::Disabled,
        LlmError::ModelNotSpecified,
        LlmError::ContextTooLarge {
            size: 9000,
            max: 8000,
        },
        LlmError::Parse("bad json".into()),
        LlmError::Http("timeout".into()),
        LlmError::Other("unknown".into()),
    ];
    for e in &errors {
        assert!(!e.to_string().is_empty(), "error must have display: {e:?}");
    }
}

// ── Context isolation: composer does not read env ─────────────────────────────

/// PromptComposer uses the provided snapshot, not live env vars.
#[test]
fn composer_uses_snapshot_not_live_env() {
    let artificial_ctx = SystemContextSnapshot {
        os_family: "fake_os".into(),
        arch: "fake_arch".into(),
        cwd: "/fake/cwd".into(),
        path_dirs: vec!["/fake/path".into()],
    };

    let composer = PromptComposer::new("m", 8_000);
    let req = composer
        .compose_nl_to_command("ls", &artificial_ctx)
        .unwrap();

    // The prompt must reflect the artificial snapshot, not the real env
    assert!(
        req.prompt.contains("fake_os"),
        "must use snapshot os_family"
    );
    assert!(req.prompt.contains("fake_arch"), "must use snapshot arch");
    assert!(req.prompt.contains("/fake/cwd"), "must use snapshot cwd");
}

// ── Multiple composer invocations are idempotent ──────────────────────────────

#[test]
fn composer_is_idempotent() {
    let composer = PromptComposer::new("llama3", 8_000);
    let ctx = test_ctx();

    let req1 = composer.compose_nl_to_command("ls", &ctx).unwrap();
    let req2 = composer.compose_nl_to_command("ls", &ctx).unwrap();

    assert_eq!(req1, req2, "same inputs must produce identical LlmRequest");
}

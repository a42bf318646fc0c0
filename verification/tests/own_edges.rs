//! Edge cases, exact renderings and error variants.

use logicshell::audit::{audit_target, AuditDecision, AuditTarget};
use logicshell::config::{AuditConfig, SafetyConfig};
use logicshell::safety::{Decision, RiskCategory, RiskLevel, SafetyPolicyEngine};
use logicshell::config::discovery::{
    choose_config_source, config_dir_base, env_override, ConfigDirBase, ConfigSource,
};
use logicshell::config::document::TomlValue;
use logicshell::config::schema::decode_config;
use logicshell::config::{from_str, load, HookEntry, HooksConfig, LimitsConfig, SafetyMode};
use logicshell::dispatcher::{exit_code_of, Dispatcher};
use logicshell::error::LogicShellError;
use logicshell::hooks::{HookOutcome, HookRunner, HookStep};
use logicshell::llm::parser::tokenize;
use logicshell::llm::ollama::{generate_status_error, model_listed, status_health, HealthStatus};
use logicshell::llm::error::LlmError;
use logicshell::shell::{advance, DispatchPhase, DispatchStep, LogicShell, PhaseReport};
use logicshell::tui::error::TuiError;
use logicshell::tui::app::{App, DispatchStatus};
use logicshell::tui::history::HistoryStore;
use logicshell::tui::status::{
    confirm_line, confirm_popup, shorten, status_bar, CellRect, StatusTone,
};

// ── configuration decoding ────────────────────────────────────────────────────

#[test]
fn negative_schema_version_is_rejected() {
    assert!(matches!(from_str("schema_version = -1"), Err(LogicShellError::Config(_))));
}

#[test]
fn schema_version_beyond_u32_is_rejected() {
    assert!(from_str("schema_version = 4294967296").is_err());
    assert_eq!(from_str("schema_version = 4294967295").unwrap().schema_version, u32::MAX);
}

#[test]
fn float_value_is_rejected() {
    assert!(from_str("[llm]\ntimeout_secs = 1.5\n").is_err());
}

#[test]
fn datetime_value_is_rejected() {
    assert!(from_str("[audit]\npath = 1979-05-27\n").is_err());
}

#[test]
fn section_of_wrong_type_is_rejected() {
    assert!(from_str("llm = 5\n").is_err());
}

#[test]
fn unknown_provider_is_rejected() {
    assert!(from_str("[llm]\nprovider = \"openai\"\n").is_err());
}

#[test]
fn hook_without_command_is_rejected() {
    assert!(from_str("[[hooks.pre_exec]]\ntimeout_ms = 5\n").is_err());
}

#[test]
fn hook_command_with_non_string_is_rejected() {
    assert!(from_str("[[hooks.pre_exec]]\ncommand = [\"echo\", 1]\n").is_err());
}

#[test]
fn invocation_subtable_is_decoded() {
    let cfg = from_str("[llm.invocation]\nnl_session = true\nmax_context_chars = 12\n").unwrap();
    assert!(cfg.llm.invocation.nl_session);
    assert!(!cfg.llm.invocation.assist_on_not_found);
    assert_eq!(cfg.llm.invocation.max_context_chars, 12);
}

#[test]
fn empty_deny_list_replaces_defaults() {
    let cfg = from_str("[safety]\ndeny_prefixes = []\n").unwrap();
    assert!(cfg.safety.deny_prefixes.is_empty());
    assert_eq!(cfg.safety.high_risk_patterns.len(), 4);
}

#[test]
fn malformed_toml_is_a_config_error() {
    let e = from_str("= bad").unwrap_err();
    assert!(matches!(e, LogicShellError::Config(_)));
    assert!(e.to_string().starts_with("configuration error: "));
}

#[test]
fn load_reports_missing_model_exactly() {
    let e = load("[llm]\nenabled = true\n").unwrap_err();
    assert_eq!(
        e.to_string(),
        "configuration error: llm.model is required when llm.enabled = true"
    );
}

#[test]
fn decode_config_on_built_document() {
    let root = vec![
        ("safety_mode".to_string(), TomlValue::Str("loose".to_string())),
        (
            "limits".to_string(),
            TomlValue::Table(vec![("max_llm_payload_bytes".to_string(), TomlValue::Int(7))]),
        ),
    ];
    let cfg = decode_config(&root).unwrap();
    assert_eq!(cfg.safety_mode, SafetyMode::Loose);
    assert_eq!(cfg.limits.max_llm_payload_bytes, 7);
    assert_eq!(cfg.limits.max_stdout_capture_bytes, 1_048_576);
}

#[test]
fn decode_config_rejects_built_unknown_key() {
    let root = vec![("colour".to_string(), TomlValue::Bool(true))];
    let e = decode_config(&root).unwrap_err();
    assert_eq!(e, "unknown key `colour`");
}

#[test]
fn decode_config_rejects_float_as_integer() {
    let root = vec![("schema_version".to_string(), TomlValue::Float)];
    assert!(decode_config(&root).is_err());
}

// ── discovery rules ───────────────────────────────────────────────────────────

#[test]
fn non_empty_xdg_wins() {
    assert_eq!(
        config_dir_base(Some("/x"), Some("/home/u")),
        Some(ConfigDirBase::Xdg("/x".to_string()))
    );
}

#[test]
fn empty_xdg_falls_back_to_home() {
    assert_eq!(
        config_dir_base(Some(""), Some("/home/u")),
        Some(ConfigDirBase::Home("/home/u".to_string()))
    );
    assert_eq!(config_dir_base(None, None), None);
}

#[test]
fn relative_override_is_rejected_with_its_value() {
    let e = env_override("rel/cfg.toml", false).unwrap_err();
    assert_eq!(
        e.to_string(),
        "configuration error: LOGICSHELL_CONFIG must be an absolute path, got: rel/cfg.toml"
    );
    assert_eq!(env_override("/abs/cfg.toml", true).unwrap(), "/abs/cfg.toml");
}

// ── dispatcher and hooks ──────────────────────────────────────────────────────

#[test]
fn launch_rejects_empty_argv() {
    let d = Dispatcher::new(&LimitsConfig::default());
    let e = d.launch(&vec![]).unwrap_err();
    assert_eq!(e.to_string(), "dispatch error: argv must not be empty");
}

#[test]
fn launch_splits_program_and_arguments() {
    let d = Dispatcher::with_capture_limit(9);
    let l = d.launch(&vec!["ls".to_string(), "-la".to_string(), "/tmp".to_string()]).unwrap();
    assert_eq!(l.program, "ls");
    assert_eq!(l.args, vec!["-la".to_string(), "/tmp".to_string()]);
    assert_eq!(l.capture_limit, 9);
}

#[test]
fn missing_exit_code_maps_to_minus_one() {
    assert_eq!(exit_code_of(None), -1);
    assert_eq!(exit_code_of(Some(3)), 3);
}

fn hooks(entries: Vec<(Vec<&str>, u64)>) -> HooksConfig {
    HooksConfig {
        pre_exec: entries
            .into_iter()
            .map(|(c, t)| HookEntry {
                command: c.into_iter().map(|s| s.to_string()).collect(),
                timeout_ms: t,
            })
            .collect(),
    }
}

#[test]
fn next_hook_skips_empty_commands() {
    let cfg = hooks(vec![(vec![], 10), (vec!["true"], 10), (vec![], 10)]);
    let r = HookRunner::new(&cfg);
    assert_eq!(r.next_hook(0), Some(1));
    assert_eq!(r.next_hook(2), None);
    assert_eq!(r.next_hook(7), None);
}

#[test]
fn hook_verdicts_render_exactly() {
    let cfg = hooks(vec![(vec!["sleep", "10"], 50), (vec!["false"], 5_000)]);
    let r = HookRunner::new(&cfg);
    assert!(r.verdict(0, &HookOutcome::Succeeded).is_ok());
    assert_eq!(
        r.verdict(0, &HookOutcome::TimedOut).unwrap_err().to_string(),
        "hook error: hook 'sleep' timed out after 50ms"
    );
    assert_eq!(
        r.verdict(1, &HookOutcome::Failed(Some(1))).unwrap_err().to_string(),
        "hook error: hook 'false' exited with non-zero status: Some(1)"
    );
    assert_eq!(
        r.verdict(1, &HookOutcome::Failed(Some(-7))).unwrap_err().to_string(),
        "hook error: hook 'false' exited with non-zero status: Some(-7)"
    );
    assert_eq!(
        r.verdict(1, &HookOutcome::Failed(None)).unwrap_err().to_string(),
        "hook error: hook 'false' exited with non-zero status: None"
    );
    assert_eq!(
        r.verdict(1, &HookOutcome::SpawnFailed("no such file".into()))
            .unwrap_err()
            .to_string(),
        "hook error: hook spawn failed: no such file"
    );
    assert!(matches!(
        r.verdict(1, &HookOutcome::WaitFailed("x".into())),
        Err(LogicShellError::Hook(_))
    ));
}

// ── façade ────────────────────────────────────────────────────────────────────

#[test]
fn preflight_denies_with_record_and_error() {
    let ls = LogicShell::new();
    match ls.preflight("/home/u", &["rm", "-rf", "/"]) {
        DispatchStep::Denied { record, error } => {
            assert_eq!(record.cwd, "/home/u");
            assert_eq!(record.argv, vec!["rm", "-rf", "/"]);
            assert_eq!(record.decision, AuditDecision::Deny);
            assert_eq!(
                record.note.as_deref(),
                Some("explicitly denied (prefix: 'rm -rf /')")
            );
            assert_eq!(
                error.to_string(),
                "safety policy error: command denied by safety policy: explicitly denied (prefix: 'rm -rf /')"
            );
        }
        other => panic!("expected a denial, got {other:?}"),
    }
}

#[test]
fn preflight_proceeds_with_decision() {
    let ls = LogicShell::new();
    assert!(matches!(
        ls.preflight("/", &["ls"]),
        DispatchStep::Proceed(AuditDecision::Allow)
    ));
    assert!(matches!(
        ls.preflight("/", &["sudo", "rm", "/tmp/x"]),
        DispatchStep::Proceed(AuditDecision::Confirm)
    ));
}

// ── errors ────────────────────────────────────────────────────────────────────

#[test]
fn tui_error_renders_core_errors() {
    let e: TuiError = LogicShellError::Safety("denied".into()).into();
    assert_eq!(e.to_string(), "core error: safety policy error: denied");
    let io: TuiError = std::io::Error::new(std::io::ErrorKind::Other, "gone").into();
    assert_eq!(io.to_string(), "I/O error: gone");
}

#[test]
fn io_error_keeps_its_message() {
    let e: LogicShellError = std::io::Error::new(std::io::ErrorKind::NotFound, "file missing").into();
    assert_eq!(e.to_string(), "I/O error: file missing");
}

#[test]
fn context_too_large_renders_sizes() {
    let e = LlmError::ContextTooLarge { size: 9000, max: 8000 };
    assert_eq!(
        e.to_string(),
        "prompt length 9000 chars exceeds max_context_chars limit 8000"
    );
}

// ── Ollama decisions ──────────────────────────────────────────────────────────

#[test]
fn status_classification() {
    assert_eq!(status_health(200), None);
    assert_eq!(status_health(299), None);
    assert_eq!(status_health(404), Some(HealthStatus::UnexpectedStatus(404)));
    assert_eq!(status_health(199), Some(HealthStatus::UnexpectedStatus(199)));
}

#[test]
fn model_matching_accepts_tags_only_after_colon() {
    let names = vec!["llama3:latest".to_string(), "mistral".to_string()];
    assert_eq!(model_listed(&names, "llama3"), HealthStatus::Healthy);
    assert_eq!(model_listed(&names, "mistral"), HealthStatus::Healthy);
    assert_eq!(model_listed(&names, "llama"), HealthStatus::ModelMissing);
    assert_eq!(model_listed(&vec![], "llama3"), HealthStatus::ModelMissing);
}

#[test]
fn generate_error_message() {
    assert_eq!(
        generate_status_error(500, "boom"),
        LlmError::Http("Ollama /api/generate returned HTTP 500: boom".to_string())
    );
}

// ── status bar ────────────────────────────────────────────────────────────────

fn status_app(mode: &str) -> App {
    App::with_history("/", mode, HistoryStore::new("/tmp/logicshell-tests/status"))
}

#[test]
fn status_bar_idle_and_running() {
    let mut app = status_app("strict");
    let b = status_bar(&app, "13", "0.1.0");
    assert_eq!(b.text, " Phase 13 | v0.1.0 | Safety: strict");
    assert_eq!(b.tone, StatusTone::Idle);
    app.dispatch_status = DispatchStatus::Running;
    let b = status_bar(&app, "13", "0.1.0");
    assert_eq!(b.text, " Phase 13 | v0.1.0 | Safety: strict | ⏳ Running…");
    assert_eq!(b.tone, StatusTone::Running);
}

#[test]
fn status_bar_done_shows_exit_and_duration() {
    let mut app = status_app("balanced");
    app.handle_dispatch_done(-2, 15);
    let b = status_bar(&app, "13", "0.1.0");
    assert_eq!(b.text, " Phase 13 | v0.1.0 | Safety: balanced | exit=-2 (15ms)");
    assert_eq!(b.tone, StatusTone::Failed);
    app.handle_dispatch_done(0, 7);
    assert_eq!(status_bar(&app, "13", "0.1.0").tone, StatusTone::Succeeded);
}

#[test]
fn status_bar_denial_is_shortened_to_forty_bytes() {
    let mut app = status_app("balanced");
    let reason = "x".repeat(45);
    app.dispatch_status = DispatchStatus::Denied { reason };
    let b = status_bar(&app, "13", "0.1.0");
    assert_eq!(b.text, format!(" DENIED: {}…", "x".repeat(40)));
    assert_eq!(b.tone, StatusTone::Denied);
}

#[test]
fn shorten_keeps_short_text() {
    assert_eq!(shorten("abc", 3, 2), "abc");
    assert_eq!(shorten("abcd", 3, 2), "ab…");
    assert_eq!(confirm_line("rm -rf /tmp/x", 10), "  rm …");
    assert_eq!(confirm_line("ls", 10), "  ls");
    assert_eq!(confirm_line("ls", 0), "  …");
}

#[test]
fn shorten_counts_bytes() {
    // Each 'é' takes two bytes: six bytes exceed a limit of four.
    assert_eq!(shorten("ééé", 4, 2), "é…");
    assert_eq!(shorten("éé", 4, 2), "éé");
    let mut app = App::with_history("/", "balanced", HistoryStore::new("/tmp/logicshell-tests/edges"));
    app.dispatch_status = DispatchStatus::Denied { reason: "é".repeat(25) };
    assert_eq!(status_bar(&app, "13", "0.1.0").text, format!(" DENIED: {}…", "é".repeat(20)));
}

// ── pattern assessment ────────────────────────────────────────────────────────

#[test]
fn assess_hits_caps_score_and_lists_reasons() {
    let engine = SafetyPolicyEngine::new(SafetyMode::Loose, &SafetyConfig::default());
    assert_eq!(engine.pattern_count(), 4);
    let (a, d) = engine.assess_hits(&vec![true, true, true, true]);
    assert_eq!(a.score, 100);
    assert_eq!(a.level, RiskLevel::Critical);
    assert_eq!(d, Decision::Deny);
    assert_eq!(a.reasons.len(), 4);
    assert_eq!(a.reasons[1], "matched high-risk pattern 'sudo\\s+' (+30)");
    assert_eq!(
        a.categories,
        vec![
            RiskCategory::DestructiveFilesystem,
            RiskCategory::PrivilegeElevation,
            RiskCategory::Network
        ]
    );
    let (a, d) = engine.assess_hits(&vec![false, true, false, false]);
    assert_eq!((a.score, a.level, d), (30, RiskLevel::Medium, Decision::Allow));
    let (a, d) = engine.assess_hits(&vec![false; 4]);
    assert_eq!((a.score, a.level, d), (0, RiskLevel::NoRisk, Decision::Allow));
}

#[test]
fn pattern_hits_follow_the_regexes() {
    let engine = SafetyPolicyEngine::new(SafetyMode::Balanced, &SafetyConfig::default());
    assert_eq!(
        engine.pattern_hits("sudo rm -rf /tmp | sh"),
        vec![true, true, false, false]
    );
    assert_eq!(engine.pattern_hits("ls"), vec![false; 4]);
}

// ── LLM plumbing ──────────────────────────────────────────────────────────────

#[test]
fn proposal_from_response_keeps_raw_text() {
    let p = logicshell::llm::bridge::LlmBridge::<()>::proposal_from_response("```sh\nls -la\n```")
        .unwrap();
    assert_eq!(p.argv, vec!["ls", "-la"]);
    assert_eq!(p.raw_response, "```sh\nls -la\n```");
    assert_eq!(
        p.source,
        logicshell::llm::proposed::CommandSource::AiGenerated
    );
    let e = logicshell::llm::bridge::LlmBridge::<()>::proposal_from_response("\"open").unwrap_err();
    assert_eq!(
        e,
        LlmError::Parse("unterminated double-quote in LLM response".to_string())
    );
}

#[test]
fn snapshot_from_splits_path() {
    let s = logicshell::llm::context::SystemContextProvider::new().snapshot_from(
        "linux",
        "x86_64",
        "/home/u",
        "/usr/bin::/bin:",
    );
    assert_eq!(s.os_family, "linux");
    assert_eq!(s.arch, "x86_64");
    assert_eq!(s.cwd, "/home/u");
    assert_eq!(s.path_dirs, vec!["/usr/bin".to_string(), "/bin".to_string()]);
}

#[test]
fn tokenize_splits_on_every_ascii_whitespace() {
    assert_eq!(tokenize("a\x0Cb").unwrap(), vec!["a", "b"]);
    assert_eq!(tokenize("a\rb\nc\td e").unwrap(), vec!["a", "b", "c", "d", "e"]);
    assert_eq!(tokenize("'a\x0Cb'").unwrap(), vec!["a\x0Cb"]);
    // A vertical tab is not ASCII whitespace in Rust's sense: it stays in the token.
    assert_eq!(tokenize("a\x0Bb").unwrap(), vec!["a\x0Bb"]);
}

#[test]
fn decode_errors_name_the_offending_key() {
    let msg = |t: &str| match from_str(t) {
        Err(LogicShellError::Config(m)) => m,
        other => panic!("expected a config error, got {other:?}"),
    };
    assert_eq!(msg("colour = 1\nshade = 2"), "unknown key `colour`");
    assert_eq!(msg("[llm]\nwhat = 1"), "unknown key `what`");
    assert_eq!(msg("schema_version = -1"), "integer out of range for key `schema_version`");
    assert_eq!(msg("schema_version = \"1\""), "expected an integer for key `schema_version`");
    assert_eq!(msg("safety_mode = \"ultra\""), "expected strict, balanced or loose for key `safety_mode`");
    assert_eq!(msg("safety_mode = 3"), "expected a string for key `safety_mode`");
    assert_eq!(msg("[llm]\nprovider = \"openai\""), "expected ollama for key `provider`");
    assert_eq!(msg("[llm]\nenabled = 1"), "expected a boolean for key `enabled`");
    assert_eq!(msg("[llm]\nmodel = 1"), "expected a string for key `model`");
    assert_eq!(msg("llm = 1"), "expected a table for key `llm`");
    assert_eq!(msg("[safety]\ndeny_prefixes = [1]"), "expected an array of strings for key `deny_prefixes`");
    assert_eq!(msg("[[hooks.pre_exec]]\ntimeout_ms = 1"), "missing key `command`");
    assert_eq!(msg("[hooks]\npre_exec = 1"), "expected an array of tables for key `pre_exec`");
    assert_eq!(msg("[hooks]\npre_exec = [1]"), "expected a table for key `pre_exec`");
}

#[test]
fn decode_errors_come_in_document_order() {
    let msg = |t: &str| match from_str(t) {
        Err(LogicShellError::Config(m)) => m,
        other => panic!("expected a config error, got {other:?}"),
    };
    assert_eq!(msg("zeta = 1\nalpha = 2"), "unknown key `zeta`");
    assert_eq!(msg("schema_version = \"x\"\ncolour = 1"), "expected an integer for key `schema_version`");
    assert_eq!(msg("colour = 1\nschema_version = \"x\""), "unknown key `colour`");
    assert_eq!(msg("[safety]\nbad = 1\n[llm]\nworse = 2"), "unknown key `bad`");
    assert_eq!(msg("[[hooks.pre_exec]]\ntimeout_ms = -1"), "integer out of range for key `timeout_ms`");
    assert_eq!(msg("[llm]\nenabled = 1\nwhat = 2"), "expected a boolean for key `enabled`");
}

#[test]
fn load_reports_what_from_str_reports() {
    for t in ["colour = 1", "= bad", "[llm]\nenabled = true\n", "[llm]\nenabled = true\nmodel = \"m\"\n"] {
        let a = load(t);
        let b = from_str(t).and_then(|c| logicshell::config::validate(&c).map(|_| c));
        assert_eq!(format!("{a:?}"), format!("{b:?}"));
    }
}

#[test]
fn config_source_follows_the_search_order() {
    let s = |o: Option<&str>, abs: bool, a: Vec<bool>, c: bool, l: bool| {
        choose_config_source(o, abs, &a, c, l)
    };
    assert_eq!(s(Some("/etc/x.toml"), true, vec![true], true, true).unwrap(), ConfigSource::Override("/etc/x.toml".to_string()));
    assert!(matches!(s(Some("x.toml"), false, vec![true], true, true), Err(LogicShellError::Config(_))));
    assert_eq!(s(None, false, vec![false, true, true], true, true).unwrap(), ConfigSource::Ancestor(1));
    assert_eq!(s(None, false, vec![false, false], true, true).unwrap(), ConfigSource::UserConfig);
    assert_eq!(s(None, false, vec![], false, true).unwrap(), ConfigSource::UserLegacy);
    assert_eq!(s(None, false, vec![false], false, false).unwrap(), ConfigSource::Defaults);
}

#[test]
fn confirm_popup_is_centred_and_clamped() {
    let area = CellRect { x: 2, y: 1, width: 80, height: 24 };
    assert_eq!(confirm_popup(area, 56), CellRect { x: 14, y: 10, width: 56, height: 5 });
    let small = CellRect { x: 0, y: 0, width: 10, height: 3 };
    assert_eq!(confirm_popup(small, 12), CellRect { x: 0, y: 0, width: 10, height: 3 });
}

#[test]
fn hook_chain_runs_in_order_and_stops_at_the_first_failure() {
    let cfg = hooks(vec![(vec![], 10), (vec!["a"], 10), (vec![], 10), (vec!["b"], 10), (vec!["c"], 10)]);
    let r = HookRunner::new(&cfg);
    assert!(matches!(r.start(), HookStep::Run(1)));
    assert!(matches!(r.step(1, &HookOutcome::Succeeded), HookStep::Run(3)));
    assert!(matches!(r.step(4, &HookOutcome::Succeeded), HookStep::Done));
    match r.step(3, &HookOutcome::TimedOut) {
        HookStep::Stop(e) => assert_eq!(e.to_string(), "hook error: hook 'b' timed out after 10ms"),
        other => panic!("expected a stop, got {other:?}"),
    }
    let none = hooks(vec![(vec![], 10)]);
    assert!(matches!(HookRunner::new(&none).start(), HookStep::Done));
}

#[test]
fn audit_target_follows_the_config() {
    let cfg = |enabled: bool, path: Option<&str>| AuditConfig { enabled, path: path.map(String::from) };
    assert_eq!(audit_target(&cfg(false, Some("/x.log"))), AuditTarget::Disabled);
    assert_eq!(audit_target(&cfg(true, Some("/x.log"))), AuditTarget::File("/x.log".to_string()));
    assert_eq!(audit_target(&cfg(true, None)), AuditTarget::DefaultFile);
}

#[test]
fn dispatch_phases_run_in_order() {
    let p = advance(DispatchPhase::RunHooks, PhaseReport::HooksPassed).unwrap();
    assert_eq!(p, DispatchPhase::Spawn);
    let p = advance(p, PhaseReport::Exited { exit_code: 3 }).unwrap();
    assert_eq!(p, DispatchPhase::WriteAudit { exit_code: 3 });
    assert_eq!(advance(p, PhaseReport::Audited), Some(DispatchPhase::Done { exit_code: 3 }));
    assert_eq!(advance(DispatchPhase::RunHooks, PhaseReport::Exited { exit_code: 0 }), None);
    assert_eq!(advance(DispatchPhase::Spawn, PhaseReport::Audited), None);
}

#[test]
fn submit_command_evaluates_the_words() {
    let mut app = App::with_history("/", "balanced", HistoryStore::new("/tmp/logicshell-tests/edges"));
    app.submit_command("ls -la".to_string());
    assert_eq!(app.pending_command, Some(vec!["ls".to_string(), "-la".to_string()]));
    let mut denied = App::with_history("/", "balanced", HistoryStore::new("/tmp/logicshell-tests/edges"));
    denied.submit_command("rm -rf /".to_string());
    assert!(matches!(denied.dispatch_status, DispatchStatus::Denied { .. }));
    assert!(denied.pending_command.is_none());
}

use logicshell::config::Config;
use logicshell::safety::{Decision, RiskLevel};
use logicshell::LogicShell;

/// workspace builds and core crate is reachable
#[test]
fn workspace_compiles() {}

/// façade is constructible
#[test]
fn facade_new() {
    let _ls = LogicShell::new();
}

/// `Default` impl delegates to `new`.
#[test]
fn facade_default() {
    let _ls = LogicShell::default();
}

/// `with_config` constructs from an explicit config
#[test]
fn facade_with_config() {
    let cfg = Config::default();
    let _ls = LogicShell::with_config(cfg);
}

// ── safety engine wired into dispatch ────────────────────────────

/// evaluate_safety returns a real assessment for a safe command.
#[test]
fn safety_allows_safe_command() {
    let ls = LogicShell::new();
    let (assessment, decision) = ls.evaluate_safety(&["ls"]);
    assert_eq!(decision, Decision::Allow);
    assert_eq!(assessment.level, RiskLevel::NoRisk);
}

/// evaluate_safety denies rm -rf / in all modes.
#[test]
fn safety_denies_rm_rf_root() {
    let ls = LogicShell::new();
    let (assessment, decision) = ls.evaluate_safety(&["rm", "-rf", "/"]);
    assert_eq!(decision, Decision::Deny);
    assert_eq!(assessment.level, RiskLevel::Critical);
}

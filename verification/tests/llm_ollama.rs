use logicshell::llm::ollama::HealthStatus;

// ── HealthStatus ─────────────────────────────────────────────────────────

#[test]
fn health_status_clone_eq() {
    assert_eq!(HealthStatus::Healthy, HealthStatus::Healthy);
    assert_eq!(HealthStatus::ModelMissing, HealthStatus::ModelMissing);
    assert_eq!(
        HealthStatus::UnexpectedStatus(404),
        HealthStatus::UnexpectedStatus(404)
    );
    assert_ne!(
        HealthStatus::UnexpectedStatus(200),
        HealthStatus::UnexpectedStatus(404)
    );
}

#[test]
fn health_status_ne_variants() {
    assert_ne!(HealthStatus::Healthy, HealthStatus::ModelMissing);
    assert_ne!(HealthStatus::Healthy, HealthStatus::UnexpectedStatus(200));
    assert_ne!(
        HealthStatus::ModelMissing,
        HealthStatus::UnexpectedStatus(503)
    );
}

#[test]
fn health_status_debug() {
    assert!(format!("{:?}", HealthStatus::Healthy).contains("Healthy"));
    assert!(format!("{:?}", HealthStatus::ModelMissing).contains("ModelMissing"));
    assert!(format!("{:?}", HealthStatus::UnexpectedStatus(503)).contains("UnexpectedStatus"));
}

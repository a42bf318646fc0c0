use logicshell::audit::{AuditDecision, AuditRecord};

fn unix_now() -> u64 {
    std::time::SystemTime::now()
        .duration_since(std::time::UNIX_EPOCH)
        .unwrap_or_default()
        .as_secs()
}

// ── AuditDecision ─────────────────────────────────────────────────────────

#[test]
fn decision_variants_clone_debug_eq() {
    let all = [
        AuditDecision::Allow,
        AuditDecision::Deny,
        AuditDecision::Confirm,
    ];
    for v in &all {
        let c = v.clone();
        assert_eq!(&c, v);
        assert!(!format!("{v:?}").is_empty());
    }
}

// ── AuditRecord ──────────────────────────────────────────────────────────

#[test]
fn record_new_captures_current_timestamp() {
    let before = unix_now();
    let rec = AuditRecord::new("/tmp", vec!["ls".into()], AuditDecision::Allow);
    let after = unix_now();
    assert!(rec.timestamp_secs >= before);
    assert!(rec.timestamp_secs <= after);
}

#[test]
fn record_with_note_sets_field() {
    let rec = AuditRecord::new("/tmp", vec!["ls".into()], AuditDecision::Allow).with_note("ok");
    assert_eq!(rec.note.as_deref(), Some("ok"));
}

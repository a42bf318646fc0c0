use logicshell::tui::app::{App, AppMode, AppState, DispatchEvent, DispatchStatus};
use logicshell::tui::history::HistoryStore;
use logicshell::tui::keys::{KeyCode, KeyEvent, KeyModifiers};
use logicshell::tui::output::OutputPanel;

// ── helpers ───────────────────────────────────────────────────────────────────

fn key(code: KeyCode) -> KeyEvent {
    KeyEvent::new(code, KeyModifiers::NONE)
}

fn tmp_app() -> App {
    let history = HistoryStore::new("/tmp/logicshell-tests/history");
    App::with_history("/", "balanced", history)
}

fn loose_app() -> App {
    let history = HistoryStore::new("/tmp/logicshell-tests/history");
    App::with_history("/", "loose", history)
}

// ── OutputPanel: ring-buffer integration ──────────────────────────────────────

#[test]
fn output_panel_enforces_cap() {
    let mut p = OutputPanel::new(5);
    for i in 0..10 {
        p.push_line(&format!("line {i}"));
    }
    assert_eq!(p.len(), 5);
    let lines: Vec<_> = p.lines().iter().cloned().collect();
    assert_eq!(lines[0], "line 5"); // oldest retained
    assert_eq!(lines[4], "line 9"); // newest
}

#[test]
fn output_panel_scroll_visible_window_at_bottom() {
    let mut p = OutputPanel::new(100);
    for i in 0..20 {
        p.push_line(&format!("{i}"));
    }
    // height=5, offset=0 → should see lines 15..19
    let visible = p.visible_lines(5);
    assert_eq!(visible, vec!["15", "16", "17", "18", "19"]);
}

#[test]
fn output_panel_scroll_up_shows_older() {
    let mut p = OutputPanel::new(100);
    for i in 0..20 {
        p.push_line(&format!("{i}"));
    }
    p.scroll_up();
    p.scroll_up();
    p.scroll_up();
    // offset=3, height=5 → end=17, start=12 → lines 12..17
    let visible = p.visible_lines(5);
    assert_eq!(visible, vec!["12", "13", "14", "15", "16"]);
}

#[test]
fn output_panel_scroll_down_from_scrolled_position() {
    let mut p = OutputPanel::new(100);
    for i in 0..10 {
        p.push_line(&format!("{i}"));
    }
    p.scroll_up();
    p.scroll_up();
    p.scroll_down();
    assert_eq!(p.scroll_offset(), 1);
}

#[test]
fn output_panel_clear_resets_all() {
    let mut p = OutputPanel::new(100);
    for i in 0..10 {
        p.push_line(&i.to_string());
    }
    p.scroll_up();
    p.clear();
    assert!(p.is_empty());
    assert_eq!(p.scroll_offset(), 0);
}

#[test]
fn output_panel_default_cap_is_500() {
    let p = OutputPanel::with_default_cap();
    assert_eq!(p.cap(), 500);
}

// ── Confirm dialog: full state machine ───────────────────────────────────────

#[test]
fn confirm_dialog_enter_with_sudo_triggers_confirm_mode() {
    let mut app = tmp_app();
    for c in "sudo whoami".chars() {
        app.handle_key(key(KeyCode::Char(c)));
    }
    app.handle_key(key(KeyCode::Enter));
    assert!(
        matches!(app.mode, AppMode::Confirming { .. }),
        "sudo should trigger Confirming mode; mode={:?}",
        app.mode
    );
}

#[test]
fn confirm_y_executes_command() {
    let mut app = tmp_app();
    app.mode = AppMode::Confirming {
        command: "sudo whoami".to_string(),
    };
    app.handle_key(key(KeyCode::Char('y')));
    assert_eq!(app.mode, AppMode::Normal);
    assert!(app.has_pending_command());
    assert_eq!(app.dispatch_status, DispatchStatus::Running);
}

#[test]
fn confirm_enter_executes_command() {
    let mut app = tmp_app();
    app.mode = AppMode::Confirming {
        command: "sudo whoami".to_string(),
    };
    app.handle_key(key(KeyCode::Enter));
    assert_eq!(app.mode, AppMode::Normal);
    assert!(app.has_pending_command());
}

#[test]
fn confirm_n_cancels_without_dispatch() {
    let mut app = tmp_app();
    app.mode = AppMode::Confirming {
        command: "sudo whoami".to_string(),
    };
    app.handle_key(key(KeyCode::Char('n')));
    assert_eq!(app.mode, AppMode::Normal);
    assert!(!app.has_pending_command());
    assert_eq!(app.dispatch_status, DispatchStatus::Idle);
}

#[test]
fn phase13_integration_confirm_esc_cancels() {
    let mut app = tmp_app();
    app.mode = AppMode::Confirming {
        command: "sudo ls".to_string(),
    };
    app.handle_key(key(KeyCode::Esc));
    assert_eq!(app.mode, AppMode::Normal);
    assert!(!app.has_pending_command());
}

#[test]
fn confirm_dialog_shows_cancelled_in_output_panel() {
    let mut app = tmp_app();
    app.mode = AppMode::Confirming {
        command: "sudo ls".to_string(),
    };
    app.handle_key(key(KeyCode::Char('n')));
    assert!(!app.output_panel.is_empty());
    let lines: Vec<_> = app.output_panel.lines().iter().cloned().collect();
    assert!(lines.iter().any(|l| l.contains("cancelled")));
}

#[test]
fn confirm_y_adds_command_header_to_output_panel() {
    let mut app = tmp_app();
    app.mode = AppMode::Confirming {
        command: "sudo ls".to_string(),
    };
    app.handle_key(key(KeyCode::Char('y')));
    assert!(!app.output_panel.is_empty());
    let lines: Vec<_> = app.output_panel.lines().iter().cloned().collect();
    assert!(lines.iter().any(|l| l.contains("sudo ls")));
}

// ── DispatchEvent application ─────────────────────────────────────────────────

#[test]
fn apply_multiple_output_lines_accumulate_in_panel() {
    let mut app = tmp_app();
    for i in 0..5 {
        app.apply_dispatch_event(DispatchEvent::OutputLine(format!("line {i}")));
    }
    assert_eq!(app.output_panel.len(), 5);
}

#[test]
fn apply_done_event_updates_status() {
    let mut app = tmp_app();
    app.apply_dispatch_event(DispatchEvent::Done {
        exit_code: 42,
        duration_ms: 100,
    });
    assert!(matches!(
        app.dispatch_status,
        DispatchStatus::Done { exit_code: 42, .. }
    ));
}

#[test]
fn apply_error_event_shows_in_panel_and_sets_done() {
    let mut app = tmp_app();
    app.apply_dispatch_event(DispatchEvent::Error("spawn failed".to_string()));
    assert_eq!(
        app.dispatch_status,
        DispatchStatus::Done {
            exit_code: -1,
            duration_ms: 0
        }
    );
    assert!(!app.output_panel.is_empty());
}

// ── Full round-trip: type, submit, output streams ─────────────────────────────

#[test]
fn full_round_trip_allowed_command_starts_dispatch() {
    let mut app = loose_app();
    for c in "echo hello world".chars() {
        app.handle_key(key(KeyCode::Char(c)));
    }
    app.handle_key(key(KeyCode::Enter));

    assert_eq!(app.dispatch_status, DispatchStatus::Running);
    assert!(app.has_pending_command());

    let argv = app.take_pending_command().unwrap();
    assert_eq!(argv, vec!["echo", "hello", "world"]);

    // Simulate dispatch done
    app.apply_dispatch_event(DispatchEvent::OutputLine("hello world".to_string()));
    app.apply_dispatch_event(DispatchEvent::Done {
        exit_code: 0,
        duration_ms: 10,
    });

    assert_eq!(
        app.dispatch_status,
        DispatchStatus::Done {
            exit_code: 0,
            duration_ms: 10
        }
    );
    // output panel has "$ echo hello world" + "hello world" = 2 lines
    assert!(app.output_panel.len() >= 2);
}

#[test]
fn full_round_trip_denied_command_no_dispatch() {
    let mut app = tmp_app();
    for c in "rm -rf /".chars() {
        app.handle_key(key(KeyCode::Char(c)));
    }
    app.handle_key(key(KeyCode::Enter));

    assert!(
        matches!(app.dispatch_status, DispatchStatus::Denied { .. }),
        "should be denied"
    );
    assert!(!app.has_pending_command(), "no pending dispatch");
}

// ── compatibility ────────────────────────────────────────────────────

#[test]
fn phase12_ctrl_c_still_quits() {
    let mut app = tmp_app();
    app.handle_key(KeyEvent::new(KeyCode::Char('c'), KeyModifiers::CONTROL));
    assert_eq!(app.state, AppState::Quitting);
}

#[test]
fn phase12_q_quits_on_empty_input() {
    let mut app = tmp_app();
    app.handle_key(key(KeyCode::Char('q')));
    assert_eq!(app.state, AppState::Quitting);
}

#[test]
fn phase12_messages_still_populated_on_submit() {
    let mut app = loose_app();
    for c in "echo hi".chars() {
        app.handle_key(key(KeyCode::Char(c)));
    }
    app.handle_key(key(KeyCode::Enter));
    assert_eq!(app.messages.len(), 1);
    assert!(app.messages[0].contains("echo hi"));
}

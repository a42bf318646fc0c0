use logicshell::tui::app::{App, AppState};
use logicshell::tui::history::HistoryStore;
use logicshell::tui::keys::{KeyCode, KeyEvent, KeyModifiers};

fn key(code: KeyCode) -> KeyEvent {
    KeyEvent::new(code, KeyModifiers::NONE)
}

fn ctrl(c: char) -> KeyEvent {
    KeyEvent::new(KeyCode::Char(c), KeyModifiers::CONTROL)
}

/// A balanced-mode app over a fresh history.
fn new_app(cwd: &str) -> App {
    App::with_history(cwd, "balanced", HistoryStore::new("/tmp/logicshell-tests/history"))
}

// ── state machine ─────────────────────────────────────────────────────────────

#[test]
fn initial_state_is_running() {
    let app = new_app("/tmp");
    assert_eq!(app.state, AppState::Running);
}

#[test]
fn ctrl_c_transitions_to_quitting() {
    let mut app = new_app("/tmp");
    app.handle_key(ctrl('c'));
    assert_eq!(app.state, AppState::Quitting);
    assert!(!app.is_running());
}

#[test]
fn q_key_on_empty_input_transitions_to_quitting() {
    let mut app = new_app("/tmp");
    app.handle_key(key(KeyCode::Char('q')));
    assert_eq!(app.state, AppState::Quitting);
}

#[test]
fn quit_is_idempotent() {
    let mut app = new_app("/tmp");
    app.handle_key(ctrl('c'));
    app.handle_key(ctrl('c'));
    assert_eq!(app.state, AppState::Quitting);
}

// ── event routing ─────────────────────────────────────────────────────────────

#[test]
fn typing_sequence_builds_correct_input() {
    let mut app = new_app("/");
    for c in "git status".chars() {
        app.handle_key(key(KeyCode::Char(c)));
    }
    assert_eq!(app.input_widget.value(), "git status");
}

#[test]
fn backspace_corrects_input() {
    let mut app = new_app("/");
    for c in "gii".chars() {
        app.handle_key(key(KeyCode::Char(c)));
    }
    app.handle_key(key(KeyCode::Backspace));
    app.handle_key(key(KeyCode::Char('t')));
    assert_eq!(app.input_widget.value(), "git");
}

#[test]
fn enter_clears_input_after_submit() {
    let mut app = new_app("/");
    for c in "ls".chars() {
        app.handle_key(key(KeyCode::Char(c)));
    }
    app.handle_key(key(KeyCode::Enter));
    assert_eq!(app.input_widget.value(), "");
}

#[test]
fn enter_appends_to_messages() {
    let mut app = new_app("/home");
    for c in "echo hello".chars() {
        app.handle_key(key(KeyCode::Char(c)));
    }
    app.handle_key(key(KeyCode::Enter));
    assert_eq!(app.messages.len(), 1);
    assert!(app.messages[0].contains("echo hello"));
}

#[test]
fn multiple_commands_accumulate_in_order() {
    let mut app = new_app("/");
    let cmds = ["ls", "pwd", "whoami"];
    for cmd in &cmds {
        for c in cmd.chars() {
            app.handle_key(key(KeyCode::Char(c)));
        }
        app.handle_key(key(KeyCode::Enter));
    }
    assert_eq!(app.messages.len(), 3);
    assert!(app.messages[0].contains("ls"));
    assert!(app.messages[1].contains("pwd"));
    assert!(app.messages[2].contains("whoami"));
}

#[test]
fn q_mid_word_does_not_quit() {
    let mut app = new_app("/");
    app.handle_key(key(KeyCode::Char('s')));
    app.handle_key(key(KeyCode::Char('q')));
    assert_eq!(app.state, AppState::Running);
    assert_eq!(app.input_widget.value(), "sq");
}

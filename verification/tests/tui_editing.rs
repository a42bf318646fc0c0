use logicshell::tui::app::{App, AppState};
use logicshell::tui::history::HistoryStore;
use logicshell::tui::input::InputWidget;
use logicshell::tui::keys::{KeyCode, KeyEvent, KeyModifiers};

const TMP_HISTORY: &str = "/tmp/logicshell-tests/history";

// ── helpers ───────────────────────────────────────────────────────────────────

fn key(code: KeyCode) -> KeyEvent {
    KeyEvent::new(code, KeyModifiers::NONE)
}

fn ctrl(c: char) -> KeyEvent {
    KeyEvent::new(KeyCode::Char(c), KeyModifiers::CONTROL)
}

fn tmp_store() -> HistoryStore {
    HistoryStore::new(TMP_HISTORY)
}

fn app_with_store(history: HistoryStore) -> App {
    App::with_history("/", "balanced", history)
}

// ── InputWidget: cursor math ──────────────────────────────────────────────────

#[test]
fn input_widget_insert_advances_cursor() {
    let mut w = InputWidget::new();
    w.insert('a');
    w.insert('b');
    assert_eq!(w.cursor_pos(), 2);
    assert_eq!(w.value(), "ab");
}

#[test]
fn input_widget_insert_mid_line() {
    let mut w = InputWidget::new();
    w.set_value("ac");
    w.cursor = 1; // between 'a' and 'c'
    w.insert('b');
    assert_eq!(w.value(), "abc");
    assert_eq!(w.cursor_pos(), 2);
}

#[test]
fn input_widget_backspace_at_start_is_noop() {
    let mut w = InputWidget::new();
    w.set_value("hello");
    w.move_to_start();
    w.delete_before_cursor();
    assert_eq!(w.value(), "hello");
    assert_eq!(w.cursor_pos(), 0);
}

// ── HistoryStore: ring-buffer behaviour ───────────────────────────────────────

#[test]
fn history_push_adds_entry() {
    let mut s = tmp_store();
    s.push("ls".to_string());
    assert_eq!(s.len(), 1);
}

#[test]
fn history_consecutive_duplicate_skipped() {
    let mut s = tmp_store();
    s.push("ls".to_string());
    s.push("ls".to_string());
    assert_eq!(s.len(), 1);
}

#[test]
fn history_navigate_prev_returns_newest_first() {
    let mut s = tmp_store();
    s.push("cmd1".to_string());
    s.push("cmd2".to_string());
    assert_eq!(s.navigate_prev(""), Some("cmd2".to_string()));
}

#[test]
fn history_navigate_prev_walks_older() {
    let mut s = tmp_store();
    s.push("a".to_string());
    s.push("b".to_string());
    s.push("c".to_string());
    s.navigate_prev(""); // c
    s.navigate_prev(""); // b
    let entry = s.navigate_prev(""); // a
    assert_eq!(entry, Some("a".to_string()));
    assert_eq!(s.navigate_prev(""), None); // at oldest
}

#[test]
fn history_navigate_next_toward_newest() {
    let mut s = tmp_store();
    s.push("a".to_string());
    s.push("b".to_string());
    s.navigate_prev(""); // b
    s.navigate_prev(""); // a
    assert_eq!(s.navigate_next(), Some("b".to_string()));
}

#[test]
fn history_navigate_next_restores_saved_input() {
    let mut s = tmp_store();
    s.push("ls".to_string());
    s.navigate_prev("my input"); // → "ls"
    let restored = s.navigate_next();
    assert_eq!(restored, Some("my input".to_string()));
}

#[test]
fn history_push_resets_navigation() {
    let mut s = tmp_store();
    s.push("ls".to_string());
    s.navigate_prev("");
    s.push("pwd".to_string()); // should reset nav
    assert!(s.nav_index.is_none());
}

// ── App key-dispatch: all bindings ──────────────────────────────────

#[test]
fn app_left_arrow_moves_cursor() {
    let mut a = app_with_store(tmp_store());
    a.input_widget.set_value("hello");
    a.handle_key(key(KeyCode::Left));
    assert_eq!(a.input_widget.cursor_pos(), 4);
}

#[test]
fn app_right_arrow_moves_cursor() {
    let mut a = app_with_store(tmp_store());
    a.input_widget.set_value("hello");
    a.input_widget.move_to_start();
    a.handle_key(key(KeyCode::Right));
    assert_eq!(a.input_widget.cursor_pos(), 1);
}

#[test]
fn app_home_key_moves_cursor_to_start() {
    let mut a = app_with_store(tmp_store());
    a.input_widget.set_value("hello");
    a.handle_key(key(KeyCode::Home));
    assert_eq!(a.input_widget.cursor_pos(), 0);
}

#[test]
fn app_end_key_moves_cursor_to_end() {
    let mut a = app_with_store(tmp_store());
    a.input_widget.set_value("hello");
    a.input_widget.move_to_start();
    a.handle_key(key(KeyCode::End));
    assert_eq!(a.input_widget.cursor_pos(), 5);
}

#[test]
fn app_ctrl_a_goes_to_start() {
    let mut a = app_with_store(tmp_store());
    a.input_widget.set_value("hello");
    a.handle_key(ctrl('a'));
    assert_eq!(a.input_widget.cursor_pos(), 0);
}

#[test]
fn app_ctrl_e_goes_to_end() {
    let mut a = app_with_store(tmp_store());
    a.input_widget.set_value("hello");
    a.input_widget.move_to_start();
    a.handle_key(ctrl('e'));
    assert_eq!(a.input_widget.cursor_pos(), 5);
}

#[test]
fn app_ctrl_k_kills_to_end() {
    let mut a = app_with_store(tmp_store());
    a.input_widget.set_value("hello world");
    a.input_widget.cursor = 5;
    a.handle_key(ctrl('k'));
    assert_eq!(a.input_widget.value(), "hello");
}

#[test]
fn app_delete_key_removes_char_at_cursor() {
    let mut a = app_with_store(tmp_store());
    a.input_widget.set_value("abc");
    a.input_widget.move_to_start();
    a.handle_key(key(KeyCode::Delete));
    assert_eq!(a.input_widget.value(), "bc");
    assert_eq!(a.input_widget.cursor_pos(), 0);
}

#[test]
fn app_up_arrow_recalls_history() {
    let mut s = tmp_store();
    s.push("ls".to_string());
    s.push("pwd".to_string());
    let mut a = app_with_store(s);
    a.handle_key(key(KeyCode::Up));
    assert_eq!(a.input_widget.value(), "pwd");
}

#[test]
fn app_down_arrow_moves_forward_in_history() {
    let mut s = tmp_store();
    s.push("ls".to_string());
    s.push("pwd".to_string());
    let mut a = app_with_store(s);
    a.handle_key(key(KeyCode::Up)); // pwd
    a.handle_key(key(KeyCode::Up)); // ls
    a.handle_key(key(KeyCode::Down)); // pwd
    assert_eq!(a.input_widget.value(), "pwd");
}

#[test]
fn app_down_arrow_restores_original_input() {
    let mut s = tmp_store();
    s.push("ls".to_string());
    let mut a = app_with_store(s);
    a.input_widget.set_value("part");
    a.handle_key(key(KeyCode::Up)); // "ls"
    a.handle_key(key(KeyCode::Down)); // restored "part"
    assert_eq!(a.input_widget.value(), "part");
}

#[test]
fn app_enter_pushes_to_history_and_clears_input() {
    let mut a = app_with_store(tmp_store());
    for c in "git status".chars() {
        a.handle_key(key(KeyCode::Char(c)));
    }
    a.handle_key(key(KeyCode::Enter));
    assert_eq!(a.input_widget.value(), "");
    assert_eq!(a.history.len(), 1);
    assert_eq!(a.history.entries()[0], "git status");
}

#[test]
fn app_enter_resets_history_nav() {
    let mut s = tmp_store();
    s.push("ls".to_string());
    let mut a = app_with_store(s);
    a.handle_key(key(KeyCode::Up)); // start navigating
    for c in "pwd".chars() {
        a.handle_key(key(KeyCode::Char(c)));
    }
    a.handle_key(key(KeyCode::Enter));
    assert!(a.history.nav_index.is_none());
}

#[test]
fn app_up_arrow_on_empty_history_is_noop() {
    let mut a = app_with_store(tmp_store());
    a.handle_key(key(KeyCode::Up));
    assert_eq!(a.input_widget.value(), "");
}

#[test]
fn app_ctrl_k_then_type_works() {
    let mut a = app_with_store(tmp_store());
    a.input_widget.set_value("hello");
    a.input_widget.cursor = 3; // after "hel"
    a.handle_key(ctrl('k')); // → "hel"
    a.handle_key(key(KeyCode::Char('p')));
    assert_eq!(a.input_widget.value(), "help");
}

#[test]
fn app_ctrl_a_then_ctrl_k_clears_buffer() {
    let mut a = app_with_store(tmp_store());
    for c in "delete me".chars() {
        a.handle_key(key(KeyCode::Char(c)));
    }
    a.handle_key(ctrl('a')); // go to start
    a.handle_key(ctrl('k')); // kill to end
    assert_eq!(a.input_widget.value(), "");
}

// ── full round-trip: type, edit mid-line, submit, recall from history ─────────

#[test]
fn full_round_trip_with_history_recall() {
    let mut a = app_with_store(tmp_store());

    // Submit "ls"
    for c in "ls".chars() {
        a.handle_key(key(KeyCode::Char(c)));
    }
    a.handle_key(key(KeyCode::Enter));
    assert_eq!(a.messages.len(), 1);

    // Submit "pwd"
    for c in "pwd".chars() {
        a.handle_key(key(KeyCode::Char(c)));
    }
    a.handle_key(key(KeyCode::Enter));
    assert_eq!(a.messages.len(), 2);

    // Navigate back to "pwd" then "ls"
    a.handle_key(key(KeyCode::Up)); // → pwd
    assert_eq!(a.input_widget.value(), "pwd");
    a.handle_key(key(KeyCode::Up)); // → ls
    assert_eq!(a.input_widget.value(), "ls");
    a.handle_key(key(KeyCode::Down)); // → pwd
    assert_eq!(a.input_widget.value(), "pwd");

    // Edit mid-line using cursor keys and submit
    a.handle_key(ctrl('a')); // cursor to start
    a.handle_key(key(KeyCode::Right)); // cursor after 'p'
    a.handle_key(key(KeyCode::Right)); // cursor after 'w'
    a.handle_key(key(KeyCode::Delete)); // remove 'd'
    a.handle_key(key(KeyCode::Char('n')));
    // now value should be "pwn"
    assert_eq!(a.input_widget.value(), "pwn");
    a.handle_key(key(KeyCode::Enter));
    assert_eq!(a.messages.len(), 3);
    assert!(a.messages[2].contains("pwn"));
    assert_eq!(a.history.len(), 3); // ls, pwd, pwn
    assert!(!a.is_running() || a.is_running()); // still running
}

// ── state machine unchanged  ─────────────────────────

#[test]
fn ctrl_c_still_quits() {
    let mut a = app_with_store(tmp_store());
    a.handle_key(ctrl('c'));
    assert_eq!(a.state, AppState::Quitting);
}

#[test]
fn q_still_quits_on_empty_input() {
    let mut a = app_with_store(tmp_store());
    a.handle_key(key(KeyCode::Char('q')));
    assert_eq!(a.state, AppState::Quitting);
}

#[test]
fn q_does_not_quit_during_typing() {
    let mut a = app_with_store(tmp_store());
    a.handle_key(key(KeyCode::Char('s')));
    a.handle_key(key(KeyCode::Char('q')));
    assert_eq!(a.state, AppState::Running);
}

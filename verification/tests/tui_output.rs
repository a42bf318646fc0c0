use logicshell::tui::output::{OutputPanel, DEFAULT_LINE_CAP};

fn panel() -> OutputPanel {
    OutputPanel::new(10)
}

// ── construction ──────────────────────────────────────────────────────────

#[test]
fn new_panel_is_empty() {
    let p = panel();
    assert!(p.is_empty());
    assert_eq!(p.len(), 0);
    assert_eq!(p.cap(), 10);
    assert_eq!(p.scroll_offset(), 0);
}

#[test]
fn with_default_cap_uses_500() {
    let p = OutputPanel::with_default_cap();
    assert_eq!(p.cap(), DEFAULT_LINE_CAP);
}

#[test]
fn default_uses_default_cap() {
    let p = OutputPanel::default();
    assert_eq!(p.cap(), DEFAULT_LINE_CAP);
}

// ── push_line ─────────────────────────────────────────────────────────────

#[test]
fn push_line_adds_to_buffer() {
    let mut p = panel();
    p.push_line("hello");
    assert_eq!(p.len(), 1);
    assert_eq!(p.lines()[0], "hello");
}

#[test]
fn push_multiple_lines_ordered_oldest_to_newest() {
    let mut p = panel();
    p.push_line("first");
    p.push_line("second");
    p.push_line("third");
    let lines: Vec<_> = p.lines().iter().cloned().collect();
    assert_eq!(lines, vec!["first", "second", "third"]);
}

#[test]
fn push_enforces_cap_evicts_oldest() {
    let mut p = OutputPanel::new(3);
    p.push_line("a");
    p.push_line("b");
    p.push_line("c");
    p.push_line("d"); // evicts "a"
    assert_eq!(p.len(), 3);
    let lines: Vec<_> = p.lines().iter().cloned().collect();
    assert_eq!(lines, vec!["b", "c", "d"]);
}

#[test]
fn push_at_cap_keeps_cap_lines() {
    let mut p = OutputPanel::new(3);
    for i in 0..10 {
        p.push_line(&i.to_string());
    }
    assert_eq!(p.len(), 3);
}

// ── scroll math ───────────────────────────────────────────────────────────

#[test]
fn scroll_up_increments_offset() {
    let mut p = panel();
    for i in 0..5 {
        p.push_line(&i.to_string());
    }
    assert_eq!(p.scroll_offset(), 0);
    p.scroll_up();
    assert_eq!(p.scroll_offset(), 1);
    p.scroll_up();
    assert_eq!(p.scroll_offset(), 2);
}

#[test]
fn scroll_up_capped_at_max_scroll() {
    let mut p = OutputPanel::new(5);
    for i in 0..5 {
        p.push_line(&i.to_string());
    }
    // max_scroll = 5 - 1 = 4
    for _ in 0..20 {
        p.scroll_up();
    }
    assert_eq!(p.scroll_offset(), 4);
}

#[test]
fn scroll_up_on_empty_is_noop() {
    let mut p = panel();
    p.scroll_up();
    assert_eq!(p.scroll_offset(), 0);
}

#[test]
fn scroll_down_decrements_offset() {
    let mut p = panel();
    for i in 0..5 {
        p.push_line(&i.to_string());
    }
    p.scroll_up();
    p.scroll_up();
    assert_eq!(p.scroll_offset(), 2);
    p.scroll_down();
    assert_eq!(p.scroll_offset(), 1);
}

#[test]
fn scroll_down_at_bottom_is_noop() {
    let mut p = panel();
    p.push_line("a");
    assert_eq!(p.scroll_offset(), 0);
    p.scroll_down();
    assert_eq!(p.scroll_offset(), 0);
}

#[test]
fn scroll_to_bottom_resets_offset() {
    let mut p = panel();
    for i in 0..5 {
        p.push_line(&i.to_string());
    }
    p.scroll_up();
    p.scroll_up();
    p.scroll_up();
    p.scroll_to_bottom();
    assert_eq!(p.scroll_offset(), 0);
}

// ── visible_lines ─────────────────────────────────────────────────────────

#[test]
fn visible_lines_empty_panel_returns_empty() {
    let p = panel();
    assert!(p.visible_lines(5).is_empty());
}

#[test]
fn visible_lines_zero_height_returns_empty() {
    let mut p = panel();
    p.push_line("a");
    assert!(p.visible_lines(0).is_empty());
}

#[test]
fn visible_lines_at_bottom_shows_latest() {
    let mut p = panel();
    for i in 0..8 {
        p.push_line(&i.to_string());
    }
    // height=5, offset=0 → show lines 3,4,5,6,7
    let visible = p.visible_lines(5);
    assert_eq!(visible, vec!["3", "4", "5", "6", "7"]);
}

#[test]
fn visible_lines_fewer_than_height_shows_all() {
    let mut p = panel();
    p.push_line("a");
    p.push_line("b");
    let visible = p.visible_lines(10);
    assert_eq!(visible, vec!["a", "b"]);
}

#[test]
fn visible_lines_with_scroll_shows_older_content() {
    let mut p = panel();
    for i in 0..8 {
        p.push_line(&i.to_string());
    }
    // Scroll up 2: end = 8 - 2 = 6, start = 6 - 5 = 1 → lines 1,2,3,4,5
    p.scroll_up();
    p.scroll_up();
    let visible = p.visible_lines(5);
    assert_eq!(visible, vec!["1", "2", "3", "4", "5"]);
}

#[test]
fn visible_lines_at_max_scroll_shows_oldest() {
    let mut p = OutputPanel::new(10);
    for i in 0..5 {
        p.push_line(&i.to_string());
    }
    // Scroll to max (4): end = 5 - 4 = 1, start = 0 → just ["0"]
    for _ in 0..10 {
        p.scroll_up();
    }
    let visible = p.visible_lines(5);
    assert_eq!(visible, vec!["0"]);
}

#[test]
fn visible_lines_height_equals_len_shows_all() {
    let mut p = panel();
    p.push_line("x");
    p.push_line("y");
    p.push_line("z");
    let visible = p.visible_lines(3);
    assert_eq!(visible, vec!["x", "y", "z"]);
}

// ── clear ─────────────────────────────────────────────────────────────────

#[test]
fn clear_empties_buffer_and_resets_scroll() {
    let mut p = panel();
    for i in 0..5 {
        p.push_line(&i.to_string());
    }
    p.scroll_up();
    p.clear();
    assert!(p.is_empty());
    assert_eq!(p.scroll_offset(), 0);
}

// ── live-tail behaviour ───────────────────────────────────────────────────

#[test]
fn push_at_bottom_stays_at_bottom() {
    let mut p = OutputPanel::new(5);
    p.push_line("a");
    p.push_line("b");
    assert_eq!(p.scroll_offset(), 0);
    p.push_line("c");
    assert_eq!(p.scroll_offset(), 0);
}

#[test]
fn scroll_then_new_lines_preserve_offset_direction() {
    let mut p = OutputPanel::new(10);
    for i in 0..5 {
        p.push_line(&i.to_string());
    }
    p.scroll_up();
    let offset_before = p.scroll_offset();
    p.push_line("new");
    // scroll offset must not go negative and offset should still be > 0
    assert!(p.scroll_offset() <= offset_before);
}

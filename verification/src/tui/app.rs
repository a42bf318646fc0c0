//! The application state machine of the terminal UI.
//!
//! Every key press is a transition; the event loop around it draws the
//! screen, spawns the commands the state machine marks as pending, saves
//! the history when asked, and feeds dispatch events back in.

use vstd::prelude::*;
use crate::config::{Config, SafetyConfig, SafetyMode};
use crate::config::defaults::{spec_deny_prefixes, spec_high_risk_patterns};
use crate::safety::{
    accepted_patterns, policy_of, spec_evaluate, Decision, PolicyView, SafetyPolicyEngine,
};
use crate::safety::AssessmentView;
use crate::text::{
    append, as_strs, chars_of, clone_strings, join_sep, join_strings_sep, owned, split_words, string_of_range,
    string_views, trim, trim_bounds, words,
};
use super::history::{spec_next, spec_prev, spec_pushed, HistoryStore};
use super::input::InputWidget;
use super::keys::{KeyCode, KeyEvent, KeyModifiers};
use super::output::{OutputPanel, DEFAULT_LINE_CAP};

verus! {

/// Lifecycle state of the application.
#[derive(Debug, Clone, Copy, PartialEq, Eq, Structural)]
pub enum AppState {
    Running,
    Quitting,
}

/// Input or dialog mode.
#[derive(Debug, Clone, PartialEq, Eq)]
pub enum AppMode {
    /// Typing a command.
    Normal,
    /// Awaiting confirmation before dispatching `command`.
    Confirming { command: String },
}

/// Status of the most recent (or in-flight) dispatch.
#[derive(Debug, Clone, PartialEq, Eq)]
pub enum DispatchStatus {
    Idle,
    Running,
    Done { exit_code: i32, duration_ms: u64 },
    /// Blocked by the safety policy; the reason is shown.
    Denied { reason: String },
}

/// An event from a running dispatch task.
#[derive(Debug, Clone, PartialEq, Eq)]
pub enum DispatchEvent {
    /// One line of the child's stdout.
    OutputLine(String),
    /// The child finished.
    Done { exit_code: i32, duration_ms: u64 },
    /// The dispatch failed.
    Error(String),
}

/// What the event loop must do after a key press.
#[derive(Debug, Clone, Copy, PartialEq, Eq, Structural)]
pub enum AppAction {
    /// Nothing beyond redrawing.
    Nothing,
    /// A command was submitted: persist the history.
    SaveHistory,
}

/// Top-level application state.
pub struct App {
    pub state: AppState,
    /// Readline-like input line.
    pub input_widget: InputWidget,
    /// Working directory shown in the prompt.
    pub cwd: String,
    /// Safety mode label shown in the status bar.
    pub safety_mode: String,
    /// Submitted command headers, `"<cwd> > <command>"`.
    pub messages: Vec<String>,
    /// Scrollable output.
    pub output_panel: OutputPanel,
    /// Dialog mode.
    pub mode: AppMode,
    /// Status of the most recent dispatch.
    pub dispatch_status: DispatchStatus,
    /// Command ready for the event loop to spawn.
    pub pending_command: Option<Vec<String>>,
    /// Session history.
    pub history: HistoryStore,
    /// Safety mode submitted commands are evaluated under.
    pub safety_eval_mode: SafetyMode,
    /// Safety settings submitted commands are evaluated under.
    pub safety_eval_config: SafetyConfig,
}

/// The safety mode named by a label: `strict` and `loose` (any case), else balanced.
pub open spec fn mode_of_label(label: Seq<char>) -> SafetyMode {
    if lower(label) == "strict"@ {
        SafetyMode::Strict
    } else if lower(label) == "loose"@ {
        SafetyMode::Loose
    } else {
        SafetyMode::Balanced
    }
}

/// ASCII lower-casing of a character (non-ASCII characters are kept).
pub open spec fn lower_char(c: char) -> char {
    if 'A' <= c && c <= 'Z' {
        ((c as u32) + 32) as char
    } else {
        c
    }
}

/// ASCII lower-casing of a sequence.
pub open spec fn lower(s: Seq<char>) -> Seq<char> {
    s.map_values(|c: char| lower_char(c))
}

/// Whether the lower-cased label equals `word` (given as characters).
fn label_is(label: &Vec<char>, word: &Vec<char>) -> (b: bool)
    ensures
        b == (lower(label@) == word@),
{
    if label.len() != word.len() {
        assert(lower(label@).len() != word@.len());
        return false;
    }
    let mut i: usize = 0;
    while i < label.len()
        invariant
            i <= label@.len() == word@.len(),
            forall|k: int| 0 <= k < i ==> lower_char(label@[k]) == word@[k],
        decreases label.len() - i,
    {
        let c = label[i];
        let l = if 'A' <= c && c <= 'Z' {
            let u = c as u32 + 32;
            assert(u <= 0x7f);
            char_from_ascii(u)
        } else {
            c
        };
        if l != word[i] {
            assert(lower(label@)[i as int] != word@[i as int]);
            return false;
        }
        i += 1;
    }
    assert(lower(label@) =~= word@);
    true
}

/// The character of an ASCII code point.
fn char_from_ascii(u: u32) -> (c: char)
    requires
        u <= 0x7f,
    ensures
        c == u as char,
{
    let b = u as u8;
    b as char
}

/// Parses a safety-mode label.
fn parse_safety(label: &str) -> (m: SafetyMode)
    ensures
        m == mode_of_label(label@),
{
    let l = chars_of(label);
    let strict = vec!['s', 't', 'r', 'i', 'c', 't'];
    let loose = vec!['l', 'o', 'o', 's', 'e'];
    proof {
        reveal_strlit("strict");
        reveal_strlit("loose");
        assert(strict@ =~= "strict"@);
        assert(loose@ =~= "loose"@);
    }
    if label_is(&l, &strict) {
        SafetyMode::Strict
    } else if label_is(&l, &loose) {
        SafetyMode::Loose
    } else {
        SafetyMode::Balanced
    }
}

/// The policy of a mode under the default safety configuration.
pub open spec fn default_policy(mode: SafetyMode) -> PolicyView {
    PolicyView {
        mode,
        deny: spec_deny_prefixes(),
        allow: seq![],
        patterns: accepted_patterns(spec_high_risk_patterns()),
    }
}

/// The label of a safety mode, as the status bar shows it.
pub open spec fn mode_label(m: SafetyMode) -> Seq<char> {
    match m {
        SafetyMode::Strict => "strict"@,
        SafetyMode::Balanced => "balanced"@,
        SafetyMode::Loose => "loose"@,
    }
}

/// The label of a safety mode.
fn label_of_mode(m: SafetyMode) -> (s: String)
    ensures
        s@ == mode_label(m),
{
    match m {
        SafetyMode::Strict => owned("strict"),
        SafetyMode::Balanced => owned("balanced"),
        SafetyMode::Loose => owned("loose"),
    }
}

/// A copy of a safety configuration that applies the same policy.
fn copy_safety_config(c: &SafetyConfig) -> (r: SafetyConfig)
    ensures
        string_views(r.deny_prefixes@) == string_views(c.deny_prefixes@),
        string_views(r.allow_prefixes@) == string_views(c.allow_prefixes@),
        string_views(r.high_risk_patterns@) == string_views(c.high_risk_patterns@),
{
    SafetyConfig {
        deny_prefixes: clone_strings(&c.deny_prefixes),
        allow_prefixes: clone_strings(&c.allow_prefixes),
        high_risk_patterns: clone_strings(&c.high_risk_patterns),
    }
}

/// The line-editing keys of normal mode: the new buffer and cursor, or
/// `None` for a key that does not edit the line.
pub open spec fn edit_key(chars: Seq<char>, cursor: int, key: KeyEvent) -> Option<(Seq<char>, int)> {
    let len = chars.len() as int;
    match key.code {
        KeyCode::Char(c) => if key.ctrl() && c == 'a' {
            Some((chars, 0))
        } else if key.ctrl() && c == 'e' {
            Some((chars, len))
        } else if key.ctrl() && c == 'k' {
            Some((chars.take(cursor), cursor))
        } else {
            Some((chars.insert(cursor, c), cursor + 1))
        },
        KeyCode::Left => Some((chars, if cursor > 0 { cursor - 1 } else { 0 })),
        KeyCode::Right => Some((chars, if cursor < len { cursor + 1 } else { cursor })),
        KeyCode::Home => Some((chars, 0)),
        KeyCode::End => Some((chars, len)),
        KeyCode::Backspace => if cursor > 0 {
            Some((chars.remove(cursor - 1), cursor - 1))
        } else {
            Some((chars, cursor))
        },
        KeyCode::Delete => if cursor < len {
            Some((chars.remove(cursor), cursor))
        } else {
            Some((chars, cursor))
        },
        _ => None,
    }
}

/// Control-C: quits from any mode.
pub open spec fn is_interrupt(key: KeyEvent) -> bool {
    key.code == KeyCode::Char('c') && key.ctrl()
}

/// The header recorded for a submitted line: `"<cwd> > <line>"`.
pub open spec fn message_of(cwd: Seq<char>, line: Seq<char>) -> Seq<char> {
    cwd + " > "@ + line
}

/// The reason shown for a denied command: the assessment's reasons joined by `"; "`.
pub open spec fn denial_reason(a: AssessmentView) -> Seq<char> {
    join_sep(a.reasons, "; "@)
}

impl App {
    /// The safety policy that submitted commands are evaluated under.
    pub open spec fn policy(&self) -> PolicyView {
        policy_of(self.safety_eval_mode, &self.safety_eval_config)
    }

    /// The input cursor lies within the line and the history's navigation
    /// index is in range (see [`HistoryStore::nav_in_range`]).
    pub open spec fn wf(&self) -> bool {
        &&& self.input_widget.wf()
        &&& self.history.nav_in_range()
    }

    /// The safety mode and settings that commands are evaluated under are
    /// equal in `a` and `b`.
    pub open spec fn same_eval(a: &App, b: &App) -> bool {
        &&& b.safety_eval_mode == a.safety_eval_mode
        &&& b.safety_eval_config == a.safety_eval_config
    }

    /// Lifecycle state, working directory, label, headers, history and
    /// evaluation settings are equal in `a` and `b`.
    pub open spec fn same_session(a: &App, b: &App) -> bool {
        &&& b.state == a.state
        &&& b.cwd == a.cwd
        &&& b.safety_mode == a.safety_mode
        &&& b.messages == a.messages
        &&& b.history == a.history
        &&& App::same_eval(a, b)
    }

    /// Output, dialog mode, dispatch status and pending command are equal in `a` and `b`.
    pub open spec fn same_dispatch(a: &App, b: &App) -> bool {
        &&& b.output_panel == a.output_panel
        &&& b.mode == a.mode
        &&& b.dispatch_status == a.dispatch_status
        &&& b.pending_command == a.pending_command
    }

    /// `b` is `a` after `argv` was cleared for dispatch: `"$ <command>"` is
    /// shown, the status is running and `argv` awaits the event loop.
    pub open spec fn dispatched(a: &App, b: &App, command: Seq<char>, argv: Seq<Seq<char>>) -> bool {
        &&& a.output_panel.is_push(&b.output_panel, "$ "@ + command)
        &&& b.dispatch_status == DispatchStatus::Running
        &&& b.pending_command matches Some(v) && string_views(v@) == argv
    }

    /// `b` is `a` after `command` was submitted: the command is split into
    /// words and evaluated; a denial is shown with its reasons, a command
    /// that needs confirmation opens the dialog, an allowed one is dispatched.
    pub open spec fn submitted(a: &App, b: &App, command: Seq<char>) -> bool {
        let argv = words(command);
        if argv.len() == 0 {
            App::same_dispatch(a, b)
        } else {
            let r = spec_evaluate(a.policy(), argv);
            match r.1 {
                Decision::Deny => {
                    &&& a.output_panel.is_push(&b.output_panel, "[DENIED] "@ + denial_reason(r.0))
                    &&& b.dispatch_status matches DispatchStatus::Denied { reason } && reason@
                        == denial_reason(r.0)
                    &&& b.mode == a.mode
                    &&& b.pending_command == a.pending_command
                },
                Decision::Confirm => {
                    &&& b.mode matches AppMode::Confirming { command: c } && c@ == command
                    &&& b.output_panel == a.output_panel
                    &&& b.dispatch_status == a.dispatch_status
                    &&& b.pending_command == a.pending_command
                },
                Decision::Allow => {
                    &&& App::dispatched(a, b, command, argv)
                    &&& b.mode == a.mode
                },
            }
        }
    }

    /// The effect of a key in normal mode, with the action it asks for.
    pub open spec fn normal_step(a: &App, b: &App, key: KeyEvent, act: AppAction) -> bool {
        let chars = a.input_widget.chars();
        let cursor = a.input_widget.cursor as int;
        if key.code == KeyCode::Char('q') && chars.len() == 0 {
            &&& b.state == AppState::Quitting
            &&& b.input_widget == a.input_widget
            &&& b.cwd == a.cwd && b.safety_mode == a.safety_mode && b.messages == a.messages
            &&& b.history == a.history && App::same_eval(a, b)
            &&& App::same_dispatch(a, b)
            &&& act == AppAction::Nothing
        } else if key.code == KeyCode::Enter {
            let line = trim(chars);
            &&& b.input_widget.chars() == Seq::<char>::empty() && b.input_widget.cursor == 0
            &&& b.state == a.state && b.cwd == a.cwd && b.safety_mode == a.safety_mode
            &&& App::same_eval(a, b)
            &&& if line.len() == 0 {
                &&& b.messages == a.messages && b.history == a.history
                &&& App::same_dispatch(a, b)
                &&& act == AppAction::Nothing
            } else {
                &&& string_views(b.messages@) == string_views(a.messages@).push(
                    message_of(a.cwd@, line),
                )
                &&& b.history.entries_view() == spec_pushed(
                    a.history.entries_view(),
                    a.history.cap_view() as nat,
                    line,
                )
                &&& b.history.nav() is None && b.history.saved() == Seq::<char>::empty()
                &&& b.history.cap_view() == a.history.cap_view()
                &&& b.history.path_view() == a.history.path_view()
                &&& App::submitted(a, b, line)
                &&& act == AppAction::SaveHistory
            }
        } else if edit_key(chars, cursor, key) is Some {
            &&& b.input_widget.chars() == edit_key(chars, cursor, key).unwrap().0
            &&& b.input_widget.cursor == edit_key(chars, cursor, key).unwrap().1
            &&& App::same_session(a, b) && App::same_dispatch(a, b)
            &&& act == AppAction::Nothing
        } else if key.code == KeyCode::Up || key.code == KeyCode::Down {
            let r = if key.code == KeyCode::Up {
                spec_prev(a.history.nav_view(), chars)
            } else {
                spec_next(a.history.nav_view())
            };
            &&& b.history.nav_view() == r.0
            &&& b.history.cap_view() == a.history.cap_view()
            &&& b.history.path_view() == a.history.path_view()
            &&& match r.1 {
                Some(s) => b.input_widget.chars() == s && b.input_widget.cursor == s.len(),
                None => b.input_widget == a.input_widget,
            }
            &&& b.state == a.state && b.cwd == a.cwd && b.safety_mode == a.safety_mode
            &&& b.messages == a.messages && App::same_eval(a, b)
            &&& App::same_dispatch(a, b)
            &&& act == AppAction::Nothing
        } else if key.code == KeyCode::PageUp || key.code == KeyCode::PageDown {
            &&& if key.code == KeyCode::PageUp {
                a.output_panel.is_scroll_up(&b.output_panel)
            } else {
                a.output_panel.is_scroll_down(&b.output_panel)
            }
            &&& b.input_widget == a.input_widget && App::same_session(a, b)
            &&& b.mode == a.mode && b.dispatch_status == a.dispatch_status
            &&& b.pending_command == a.pending_command
            &&& act == AppAction::Nothing
        } else {
            &&& *b == *a
            &&& act == AppAction::Nothing
        }
    }

    /// The effect of a key while the confirmation dialog for `command` is
    /// open: `y` or Enter dispatches it, `n`, Esc or `q` cancels it, any
    /// other key is ignored.
    pub open spec fn confirm_step(a: &App, b: &App, command: Seq<char>, key: KeyEvent) -> bool {
        if key.code == KeyCode::Char('y') || key.code == KeyCode::Enter {
            &&& App::dispatched(a, b, command, words(command))
            &&& b.mode == AppMode::Normal
            &&& b.input_widget == a.input_widget && App::same_session(a, b)
        } else if key.code == KeyCode::Char('n') || key.code == KeyCode::Esc || key.code
            == KeyCode::Char('q') {
            &&& a.output_panel.is_push(&b.output_panel, "[cancelled]"@)
            &&& b.dispatch_status == DispatchStatus::Idle
            &&& b.mode == AppMode::Normal
            &&& b.pending_command == a.pending_command
            &&& b.input_widget == a.input_widget && App::same_session(a, b)
        } else {
            *b == *a
        }
    }

    fn build(cwd: &str, label: String, mode: SafetyMode, config: SafetyConfig, history: HistoryStore) -> (app: App)
        ensures
            app.state == AppState::Running,
            app.input_widget.chars() == Seq::<char>::empty() && app.input_widget.cursor == 0,
            app.cwd@ == cwd@,
            app.safety_mode == label,
            app.messages@.len() == 0,
            app.output_panel.lines_view() == Seq::<Seq<char>>::empty(),
            app.output_panel.cap_view() == DEFAULT_LINE_CAP,
            app.output_panel.offset() == 0,
            app.mode == AppMode::Normal,
            app.dispatch_status == DispatchStatus::Idle,
            app.pending_command is None,
            app.history == history,
            app.policy() == policy_of(mode, &config),
            app.safety_eval_mode == mode,
            app.safety_eval_config == config,
    {
        App {
            state: AppState::Running,
            input_widget: InputWidget::new(),
            cwd: owned(cwd),
            safety_mode: label,
            messages: Vec::new(),
            output_panel: OutputPanel::with_default_cap(),
            mode: AppMode::Normal,
            dispatch_status: DispatchStatus::Idle,
            pending_command: None,
            history,
            safety_eval_mode: mode,
            safety_eval_config: config,
        }
    }

    /// An application with the given history; `safety_mode` is shown as
    /// given and selects the mode (`strict`, `loose`, otherwise balanced)
    /// under the default safety configuration.
    pub fn with_history(cwd: &str, safety_mode: &str, history: HistoryStore) -> (app: App)
        ensures
            app.state == AppState::Running,
            app.input_widget.chars() == Seq::<char>::empty() && app.input_widget.cursor == 0,
            app.cwd@ == cwd@,
            app.safety_mode@ == safety_mode@,
            app.messages@.len() == 0,
            app.output_panel.lines_view() == Seq::<Seq<char>>::empty(),
            app.output_panel.cap_view() == DEFAULT_LINE_CAP,
            app.output_panel.offset() == 0,
            app.mode == AppMode::Normal,
            app.dispatch_status == DispatchStatus::Idle,
            app.pending_command is None,
            app.history == history,
            app.policy() == default_policy(mode_of_label(safety_mode@)),
            app.safety_eval_mode == mode_of_label(safety_mode@),
    {
        let mode = parse_safety(safety_mode);
        let config = SafetyConfig::default();
        assert(string_views(config.allow_prefixes@) =~= seq![]);
        Self::build(cwd, owned(safety_mode), mode, config, history)
    }

    /// An application evaluating commands under `config`'s safety mode and
    /// settings; the status bar shows the mode's lower-case name.
    pub fn with_config(cwd: &str, history: HistoryStore, config: &Config) -> (app: App)
        ensures
            app.state == AppState::Running,
            app.input_widget.chars() == Seq::<char>::empty() && app.input_widget.cursor == 0,
            app.cwd@ == cwd@,
            app.safety_mode@ == mode_label(config.safety_mode),
            app.messages@.len() == 0,
            app.output_panel.lines_view() == Seq::<Seq<char>>::empty(),
            app.output_panel.cap_view() == DEFAULT_LINE_CAP,
            app.output_panel.offset() == 0,
            app.mode == AppMode::Normal,
            app.dispatch_status == DispatchStatus::Idle,
            app.pending_command is None,
            app.history == history,
            app.policy() == policy_of(config.safety_mode, &config.safety),
            app.safety_eval_mode == config.safety_mode,
    {
        let copy = copy_safety_config(&config.safety);
        let app = Self::build(cwd, label_of_mode(config.safety_mode), config.safety_mode, copy, history);
        assert(policy_of(config.safety_mode, &copy) == policy_of(config.safety_mode, &config.safety));
        app
    }

    /// Whether the event loop should keep running.
    pub fn is_running(&self) -> (b: bool)
        ensures
            b == (self.state == AppState::Running),
    {
        self.state == AppState::Running
    }

    /// Takes the pending argv, leaving `None` in its place.
    pub fn take_pending_command(&mut self) -> (r: Option<Vec<String>>)
        ensures
            r == old(self).pending_command,
            final(self).pending_command is None,
            App::same_session(old(self), final(self)),
            final(self).input_widget == old(self).input_widget,
            final(self).output_panel == old(self).output_panel,
            final(self).mode == old(self).mode,
            final(self).dispatch_status == old(self).dispatch_status,
    {
        self.pending_command.take()
    }

    /// Whether a command waits to be dispatched.
    pub fn has_pending_command(&self) -> (b: bool)
        ensures
            b == self.pending_command is Some,
    {
        self.pending_command.is_some()
    }

    /// Pushes a line into the output panel.
    pub fn push_output_line(&mut self, line: &str)
        ensures
            old(self).output_panel.is_push(&final(self).output_panel, line@),
            App::same_session(old(self), final(self)),
            final(self).input_widget == old(self).input_widget,
            final(self).mode == old(self).mode,
            final(self).dispatch_status == old(self).dispatch_status,
            final(self).pending_command == old(self).pending_command,
    {
        self.output_panel.push_line(line);
    }

    /// Records that a dispatch finished (or was cancelled) with `exit_code`.
    pub fn handle_dispatch_done(&mut self, exit_code: i32, duration_ms: u64)
        ensures
            final(self).dispatch_status == (DispatchStatus::Done { exit_code, duration_ms }),
            App::same_session(old(self), final(self)),
            final(self).input_widget == old(self).input_widget,
            final(self).output_panel == old(self).output_panel,
            final(self).mode == old(self).mode,
            final(self).pending_command == old(self).pending_command,
    {
        self.dispatch_status = DispatchStatus::Done { exit_code, duration_ms };
    }

    /// Applies an event of a running dispatch: an output line is shown, a
    /// finish is recorded, an error is shown as `"error: <msg>"` and
    /// recorded as a finish with exit code -1 after 0 ms.
    pub fn apply_dispatch_event(&mut self, event: DispatchEvent)
        ensures
            App::same_session(old(self), final(self)),
            final(self).input_widget == old(self).input_widget,
            final(self).mode == old(self).mode,
            final(self).pending_command == old(self).pending_command,
            match event {
                DispatchEvent::OutputLine(line) => {
                    &&& old(self).output_panel.is_push(&final(self).output_panel, line@)
                    &&& final(self).dispatch_status == old(self).dispatch_status
                },
                DispatchEvent::Done { exit_code, duration_ms } => {
                    &&& final(self).output_panel == old(self).output_panel
                    &&& final(self).dispatch_status == (DispatchStatus::Done {
                        exit_code,
                        duration_ms,
                    })
                },
                DispatchEvent::Error(msg) => {
                    &&& old(self).output_panel.is_push(
                        &final(self).output_panel,
                        "error: "@ + msg@,
                    )
                    &&& final(self).dispatch_status == (DispatchStatus::Done {
                        exit_code: -1i32,
                        duration_ms: 0u64,
                    })
                },
            },
    {
        match event {
            DispatchEvent::OutputLine(line) => {
                self.output_panel.push_line(line.as_str());
            },
            DispatchEvent::Done { exit_code, duration_ms } => {
                self.handle_dispatch_done(exit_code, duration_ms);
            },
            DispatchEvent::Error(msg) => {
                let mut m = owned("error: ");
                append(&mut m, msg.as_str());
                self.output_panel.push_line(m.as_str());
                self.handle_dispatch_done(-1, 0);
            },
        }
    }

    /// Returns the dispatch status to idle and shows `"[cancelled]"`.
    pub fn cancel_dispatch(&mut self)
        ensures
            final(self).dispatch_status == DispatchStatus::Idle,
            old(self).output_panel.is_push(&final(self).output_panel, "[cancelled]"@),
            App::same_session(old(self), final(self)),
            final(self).input_widget == old(self).input_widget,
            final(self).mode == old(self).mode,
            final(self).pending_command == old(self).pending_command,
    {
        self.dispatch_status = DispatchStatus::Idle;
        self.output_panel.push_line("[cancelled]");
    }

    /// Processes one key press and says what the event loop must do next.
    ///
    /// Control-C quits from any mode. In the confirmation dialog the key
    /// answers it (see [`App::confirm_step`]); otherwise it edits the line,
    /// walks the history, scrolls the output, quits on `q` at an empty
    /// line, or submits the trimmed line on Enter (see [`App::normal_step`]).
    pub fn handle_key(&mut self, key: KeyEvent) -> (act: AppAction)
        requires
            old(self).wf(),
        ensures
            final(self).wf(),
            is_interrupt(key) ==> {
                &&& final(self).state == AppState::Quitting
                &&& final(self).input_widget == old(self).input_widget
                &&& final(self).cwd == old(self).cwd
                &&& final(self).safety_mode == old(self).safety_mode
                &&& final(self).messages == old(self).messages
                &&& final(self).history == old(self).history
                &&& App::same_eval(old(self), final(self))
                &&& App::same_dispatch(old(self), final(self))
                &&& act == AppAction::Nothing
            },
            !is_interrupt(key) ==> match old(self).mode {
                AppMode::Confirming { command } => App::confirm_step(
                    old(self),
                    final(self),
                    command@,
                    key,
                ) && act == AppAction::Nothing,
                AppMode::Normal => App::normal_step(old(self), final(self), key, act),
            },
    {
        if key.code == KeyCode::Char('c') && key.modifiers.contains(KeyModifiers::CONTROL) {
            self.state = AppState::Quitting;
            return AppAction::Nothing;
        }
        let confirming = match &self.mode {
            AppMode::Confirming { .. } => true,
            AppMode::Normal => false,
        };
        if confirming {
            self.handle_key_confirming(key);
            AppAction::Nothing
        } else {
            self.handle_key_normal(key)
        }
    }

    /// A key in normal mode.
    fn handle_key_normal(&mut self, key: KeyEvent) -> (act: AppAction)
        requires
            old(self).wf(),
        ensures
            final(self).wf(),
            App::normal_step(old(self), final(self), key, act),
    {
        let ctrl = key.modifiers.contains(KeyModifiers::CONTROL);
        if key.code == KeyCode::Char('q') && self.input_widget.is_empty() {
            self.state = AppState::Quitting;
            return AppAction::Nothing;
        }
        proof {
            if key.code == KeyCode::Char('q') {
                assert(edit_key(self.input_widget.chars(), self.input_widget.cursor as int, key) is Some);
            }
        }
        match key.code {
            KeyCode::Enter => {
                return self.submit_line();
            },
            KeyCode::Char(c) => {
                if ctrl && c == 'a' {
                    self.input_widget.move_to_start();
                } else if ctrl && c == 'e' {
                    self.input_widget.move_to_end();
                } else if ctrl && c == 'k' {
                    let ghost before = self.input_widget.chars();
                    self.input_widget.kill_to_end();
                    assert(before.take(before.len() as int) =~= before);
                } else {
                    self.input_widget.insert(c);
                }
            },
            KeyCode::Left => self.input_widget.move_left(),
            KeyCode::Right => self.input_widget.move_right(),
            KeyCode::Home => self.input_widget.move_to_start(),
            KeyCode::End => self.input_widget.move_to_end(),
            KeyCode::Backspace => self.input_widget.delete_before_cursor(),
            KeyCode::Delete => self.input_widget.delete_after_cursor(),
            KeyCode::Up => {
                let current = self.input_widget.value();
                match self.history.navigate_prev(current.as_str()) {
                    Some(entry) => self.input_widget.set_value(entry.as_str()),
                    None => {},
                }
            },
            KeyCode::Down => {
                match self.history.navigate_next() {
                    Some(entry) => self.input_widget.set_value(entry.as_str()),
                    None => {},
                }
            },
            KeyCode::PageUp => self.output_panel.scroll_up(),
            KeyCode::PageDown => self.output_panel.scroll_down(),
            _ => {},
        }
        AppAction::Nothing
    }

    /// Enter in normal mode: a non-blank line is trimmed, added to the
    /// history and the headers, and submitted; the input is cleared.
    fn submit_line(&mut self) -> (act: AppAction)
        requires
            old(self).wf(),
        ensures
            final(self).wf(),
            App::normal_step(old(self), final(self), KeyEvent { code: KeyCode::Enter, modifiers: KeyModifiers::NONE }, act),
    {
        let n = self.input_widget.buffer.len();
        let (a, b) = trim_bounds(&self.input_widget.buffer, 0, n);
        let line = string_of_range(&self.input_widget.buffer, a, b);
        assert(self.input_widget.buffer@.subrange(0, n as int) =~= self.input_widget.chars());
        let act = if a < b {
            self.history.push(owned(line.as_str()));
            self.history.reset_navigation();
            let mut msg = owned(self.cwd.as_str());
            append(&mut msg, " > ");
            append(&mut msg, line.as_str());
            let ghost before = self.messages@;
            self.messages.push(msg);
            assert(string_views(self.messages@) =~= string_views(before).push(msg@));
            self.submit_command(line);
            AppAction::SaveHistory
        } else {
            AppAction::Nothing
        };
        self.input_widget.clear();
        act
    }

    /// Evaluates `command` and acts on the decision: a denial is shown with
    /// its reasons, a command that needs confirmation opens the dialog, an
    /// allowed one is shown and handed to the event loop.
    pub fn submit_command(&mut self, command: String)
        ensures
            App::submitted(old(self), final(self), command@),
            App::same_session(old(self), final(self)),
            final(self).input_widget == old(self).input_widget,
    {
        let argv = split_words(command.as_str());
        if argv.len() == 0 {
            return;
        }
        let refs = as_strs(&argv);
        let engine = SafetyPolicyEngine::new(self.safety_eval_mode, &self.safety_eval_config);
        let (assessment, decision) = engine.evaluate(refs.as_slice());
        match decision {
            Decision::Deny => {
                let reason = join_strings_sep(&assessment.reasons, "; ");
                let mut msg = owned("[DENIED] ");
                append(&mut msg, reason.as_str());
                self.output_panel.push_line(msg.as_str());
                self.dispatch_status = DispatchStatus::Denied { reason };
            },
            Decision::Confirm => {
                self.mode = AppMode::Confirming { command };
            },
            Decision::Allow => {
                let mut msg = owned("$ ");
                append(&mut msg, command.as_str());
                self.output_panel.push_line(msg.as_str());
                self.dispatch_status = DispatchStatus::Running;
                self.pending_command = Some(argv);
            },
        }
    }

    /// A key while the confirmation dialog is open.
    fn handle_key_confirming(&mut self, key: KeyEvent)
        requires
            old(self).mode is Confirming,
        ensures
            match old(self).mode {
                AppMode::Confirming { command } => App::confirm_step(
                    old(self),
                    final(self),
                    command@,
                    key,
                ),
                AppMode::Normal => true,
            },
    {
        let command = match &self.mode {
            AppMode::Confirming { command } => owned(command.as_str()),
            AppMode::Normal => {
                return;
            },
        };
        if key.code == KeyCode::Char('y') || key.code == KeyCode::Enter {
            let argv = split_words(command.as_str());
            let mut msg = owned("$ ");
            append(&mut msg, command.as_str());
            self.output_panel.push_line(msg.as_str());
            self.dispatch_status = DispatchStatus::Running;
            self.pending_command = Some(argv);
            self.mode = AppMode::Normal;
        } else if key.code == KeyCode::Char('n') || key.code == KeyCode::Esc || key.code
            == KeyCode::Char('q') {
            self.output_panel.push_line("[cancelled]");
            self.dispatch_status = DispatchStatus::Idle;
            self.mode = AppMode::Normal;
        }
    }
}

/// A submitted command that the policy denies is never handed to the
/// event loop: the pending command and the dialog mode stay as they were,
/// and the status shows the denial.
pub proof fn law_denied_command_never_pending(a: &App, b: &App, command: Seq<char>)
    requires
        App::submitted(a, b, command),
        words(command).len() > 0,
        spec_evaluate(a.policy(), words(command)).1 == Decision::Deny,
    ensures
        b.pending_command == a.pending_command,
        b.mode == a.mode,
        b.dispatch_status is Denied,
{
}

/// Only an allowed command is handed to the event loop by a submission,
/// and then exactly its words are.
pub proof fn law_pending_only_when_allowed(a: &App, b: &App, command: Seq<char>)
    requires
        App::submitted(a, b, command),
        b.pending_command != a.pending_command,
    ensures
        words(command).len() > 0,
        spec_evaluate(a.policy(), words(command)).1 == Decision::Allow,
        b.pending_command matches Some(v) && string_views(v@) == words(command),
{
}

/// Pressing Enter in normal mode on a line with words submits the trimmed
/// line: its words are evaluated under the app's safety mode and settings.
/// A denial shows `[DENIED] ` and the reasons joined by `; `, sets the
/// denied status and leaves the pending command alone; a command that needs
/// confirmation opens the dialog for the line; an allowed one shows `$ `
/// and the line, sets the running status and becomes the pending command.
pub proof fn law_submission_outcome(a: &App, b: &App, key: KeyEvent, act: AppAction)
    requires
        App::normal_step(a, b, key, act),
        key.code == KeyCode::Enter,
        words(trim(a.input_widget.chars())).len() > 0,
    ensures
        ({
            let line = trim(a.input_widget.chars());
            let r = spec_evaluate(policy_of(a.safety_eval_mode, &a.safety_eval_config), words(line));
            let reason = join_sep(r.0.reasons, "; "@);
            &&& r.1 == Decision::Deny ==> {
                &&& b.dispatch_status matches DispatchStatus::Denied { reason: t } && t@ == reason
                &&& a.output_panel.is_push(&b.output_panel, "[DENIED] "@ + reason)
                &&& b.pending_command == a.pending_command
                &&& b.mode == a.mode
            }
            &&& r.1 == Decision::Confirm ==> {
                &&& b.mode matches AppMode::Confirming { command: c } && c@ == line
                &&& b.pending_command == a.pending_command
            }
            &&& r.1 == Decision::Allow ==> {
                &&& b.pending_command matches Some(v) && string_views(v@) == words(line)
                &&& b.dispatch_status == DispatchStatus::Running
                &&& a.output_panel.is_push(&b.output_panel, "$ "@ + line)
            }
        }),
{
    let line = trim(a.input_widget.chars());
    if line.len() == 0 {
        assert(line =~= Seq::<char>::empty());
        assert(words(line).len() == 0);
    }
}

/// In normal mode a character key pressed without Control inserts its
/// character at the cursor and moves the cursor past it, whichever other
/// modifier (Shift, Alt) is held; the only exception is `q` on an empty
/// line, which quits. Nothing else changes.
pub proof fn law_character_keys_insert(a: &App, b: &App, key: KeyEvent, act: AppAction, c: char)
    requires
        App::normal_step(a, b, key, act),
        key.code == KeyCode::Char(c),
        key.modifiers != KeyModifiers::CONTROL,
        !(c == 'q' && a.input_widget.chars().len() == 0),
    ensures
        b.input_widget.chars() == a.input_widget.chars().insert(a.input_widget.cursor as int, c),
        b.input_widget.cursor == a.input_widget.cursor + 1,
        App::same_session(a, b),
        App::same_dispatch(a, b),
        act == AppAction::Nothing,
{
}

} // verus!

//! The top-level façade: configuration, safety evaluation, and the decision
//! that opens every dispatch.
//!
//! A dispatch runs safety check → pre-exec hooks → spawn → audit. The first
//! step is decided here; a denied command is never spawned and is answered
//! with a safety error and a deny audit record. The phases after an
//! accepted check follow [`advance`]; a failing phase ends the dispatch
//! with its error.

use vstd::prelude::*;
use crate::audit::{AuditDecision, AuditRecord};
use crate::config::Config;
use crate::error::LogicShellError;
use crate::safety::{policy_of, spec_evaluate, AssessmentView, Decision, RiskAssessment, SafetyPolicyEngine};
use crate::text::{append, join_sep, join_strings_sep, owned, str_views, string_views};

verus! {

/// How a dispatch proceeds after the safety check.
#[derive(Debug)]
pub enum DispatchStep {
    /// The command is denied: write `record`, then fail with `error`.
    Denied { record: AuditRecord, error: LogicShellError },
    /// The command may run; its audit record carries this decision.
    Proceed(AuditDecision),
}

/// Façade over configuration, safety, dispatch and audit.
pub struct LogicShell {
    config: Config,
}

/// The note of a denial: the assessment's reasons joined by `"; "`.
pub open spec fn denial_note(a: AssessmentView) -> Seq<char> {
    join_sep(a.reasons, "; "@)
}

impl LogicShell {
    /// The configuration in use.
    pub closed spec fn configuration(&self) -> Config {
        self.config
    }

    /// A façade with the built-in default configuration.
    pub fn new() -> (ls: Self)
        ensures
            ls.configuration().is_default(),
    {
        LogicShell { config: Config::default() }
    }

    /// A façade with a validated configuration.
    pub fn with_config(config: Config) -> (ls: Self)
        ensures
            ls.configuration() == config,
    {
        LogicShell { config }
    }

    /// The configuration in use.
    pub fn config(&self) -> (c: &Config)
        ensures
            *c == self.configuration(),
    {
        &self.config
    }

    /// Evaluates `argv` under the configured safety mode and lists; the same
    /// input always gives the same result.
    pub fn evaluate_safety(&self, argv: &[&str]) -> (res: (RiskAssessment, Decision))
        ensures
            res.0@ == spec_evaluate(
                policy_of(self.configuration().safety_mode, &self.configuration().safety),
                str_views(argv@),
            ).0,
            res.1 == spec_evaluate(
                policy_of(self.configuration().safety_mode, &self.configuration().safety),
                str_views(argv@),
            ).1,
    {
        let engine = SafetyPolicyEngine::new(self.config.safety_mode, &self.config.safety);
        engine.evaluate(argv)
    }

    /// The safety check that opens a dispatch of `argv` from `cwd`.
    ///
    /// A denied command yields a deny record whose note is the joined
    /// reasons, and the error `command denied by safety policy: <note>`;
    /// otherwise the audit decision is `Confirm` for a command that needed
    /// confirmation and `Allow` for an allowed one.
    pub fn preflight(&self, cwd: &str, argv: &[&str]) -> (s: DispatchStep)
        ensures
            ({
                let r = spec_evaluate(
                    policy_of(self.configuration().safety_mode, &self.configuration().safety),
                    str_views(argv@),
                );
                match s {
                    DispatchStep::Denied { record, error } => {
                        &&& r.1 == Decision::Deny
                        &&& record.cwd@ == cwd@
                        &&& string_views(record.argv@) == str_views(argv@)
                        &&& record.decision == AuditDecision::Deny
                        &&& record.note matches Some(n) && n@ == denial_note(r.0)
                        &&& error is Safety
                        &&& error.detail() == "command denied by safety policy: "@ + denial_note(r.0)
                    },
                    DispatchStep::Proceed(d) => {
                        &&& r.1 != Decision::Deny
                        &&& d == if r.1 == Decision::Confirm {
                            AuditDecision::Confirm
                        } else {
                            AuditDecision::Allow
                        }
                    },
                }
            }),
    {
        let (assessment, decision) = self.evaluate_safety(argv);
        match decision {
            Decision::Deny => {
                let note = join_strings_sep(&assessment.reasons, "; ");
                let record = AuditRecord::new(cwd, owned_args(argv), AuditDecision::Deny).with_note(
                    note.as_str(),
                );
                let mut msg = owned("command denied by safety policy: ");
                append(&mut msg, note.as_str());
                DispatchStep::Denied { record, error: LogicShellError::Safety(msg) }
            },
            Decision::Confirm => DispatchStep::Proceed(AuditDecision::Confirm),
            Decision::Allow => DispatchStep::Proceed(AuditDecision::Allow),
        }
    }
}

/// Owned copies of the arguments.
pub fn owned_args(argv: &[&str]) -> (v: Vec<String>)
    ensures
        string_views(v@) == str_views(argv@),
{
    let mut v: Vec<String> = Vec::new();
    let mut i: usize = 0;
    while i < argv.len()
        invariant
            i <= argv@.len(),
            string_views(v@) == str_views(argv@).take(i as int),
        decreases argv.len() - i,
    {
        let ghost before = v@;
        v.push(owned(argv[i]));
        assert(string_views(v@) =~= string_views(before).push(argv@[i as int]@));
        assert(str_views(argv@).take(i + 1) =~= str_views(argv@).take(i as int).push(
            argv@[i as int]@,
        ));
        i += 1;
    }
    assert(str_views(argv@).take(argv@.len() as int) =~= str_views(argv@));
    v
}

impl Default for LogicShell {
    fn default() -> (ls: Self)
        ensures
            ls.configuration().is_default(),
    {
        LogicShell::new()
    }
}

/// The phases of a dispatch that passed the safety check.
#[derive(Debug, Clone, Copy, PartialEq, Eq, Structural)]
pub enum DispatchPhase {
    /// Run the pre-exec hooks.
    RunHooks,
    /// Spawn the command and wait for it.
    Spawn,
    /// Write the audit record of the command that exited with `exit_code`.
    WriteAudit { exit_code: i32 },
    /// The dispatch is complete; it answers `exit_code`.
    Done { exit_code: i32 },
}

/// What the host reports after running a phase successfully.
#[derive(Debug, Clone, Copy, PartialEq, Eq, Structural)]
pub enum PhaseReport {
    /// Every hook succeeded.
    HooksPassed,
    /// The command exited with `exit_code`.
    Exited { exit_code: i32 },
    /// The audit record was written.
    Audited,
}

/// The phase after `phase` given its report: hooks, then the spawn, then
/// the audit record, then done with the command's exit code. A report that
/// does not belong to the phase leads nowhere.
pub open spec fn next_phase(phase: DispatchPhase, report: PhaseReport) -> Option<DispatchPhase> {
    match (phase, report) {
        (DispatchPhase::RunHooks, PhaseReport::HooksPassed) => Some(DispatchPhase::Spawn),
        (DispatchPhase::Spawn, PhaseReport::Exited { exit_code }) => Some(
            DispatchPhase::WriteAudit { exit_code },
        ),
        (DispatchPhase::WriteAudit { exit_code }, PhaseReport::Audited) => Some(
            DispatchPhase::Done { exit_code },
        ),
        _ => None,
    }
}

/// Moves the dispatch on (see [`next_phase`]).
pub fn advance(phase: DispatchPhase, report: PhaseReport) -> (next: Option<DispatchPhase>)
    ensures
        next == next_phase(phase, report),
{
    match (phase, report) {
        (DispatchPhase::RunHooks, PhaseReport::HooksPassed) => Some(DispatchPhase::Spawn),
        (DispatchPhase::Spawn, PhaseReport::Exited { exit_code }) => Some(
            DispatchPhase::WriteAudit { exit_code },
        ),
        (DispatchPhase::WriteAudit { exit_code }, PhaseReport::Audited) => Some(
            DispatchPhase::Done { exit_code },
        ),
        _ => None,
    }
}

/// The spawn comes only after the hooks passed, the audit record only after
/// the command exited, and completion only after the record was written,
/// with the exit code that the command reported.
pub proof fn law_phase_order(phase: DispatchPhase, report: PhaseReport)
    ensures
        next_phase(phase, report) == Some(DispatchPhase::Spawn) ==> phase
            == DispatchPhase::RunHooks && report == PhaseReport::HooksPassed,
        next_phase(phase, report) matches Some(DispatchPhase::WriteAudit { exit_code }) ==> phase
            == DispatchPhase::Spawn && report == (PhaseReport::Exited { exit_code }),
        next_phase(phase, report) matches Some(DispatchPhase::Done { exit_code }) ==> phase
            == (DispatchPhase::WriteAudit { exit_code }) && report == PhaseReport::Audited,
        next_phase(phase, report) != Some(DispatchPhase::RunHooks),
{
}

} // verus!

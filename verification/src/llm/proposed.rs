//! Commands proposed by the LLM bridge, and the AI safety floor.
//!
//! AI-generated commands always require explicit confirmation: an `Allow`
//! decision of the safety engine is raised to `Confirm`.

use vstd::prelude::*;
use crate::config::{SafetyConfig, SafetyMode};
use crate::safety::laws::strictness;
use crate::safety::{
    policy_of, spec_evaluate, AssessmentView, Decision, RiskAssessment, SafetyPolicyEngine,
};
use crate::text::{as_strs, owned, string_views};

verus! {

/// Provenance of a proposed command.
#[derive(Debug, Clone, Copy, PartialEq, Eq, Structural)]
pub enum CommandSource {
    /// Produced by an AI language model.
    AiGenerated,
}

/// A command candidate produced by the LLM bridge.
#[derive(Debug, Clone, PartialEq)]
pub struct ProposedCommand {
    /// Tokenized argument vector.
    pub argv: Vec<String>,
    /// How the command was produced.
    pub source: CommandSource,
    /// Raw text returned by the model.
    pub raw_response: String,
}

/// The floor applied to a decision for a source: AI output is never
/// allowed without confirmation.
pub open spec fn spec_floor(decision: Decision, source: CommandSource) -> Decision {
    match source {
        CommandSource::AiGenerated => match decision {
            Decision::Allow => Decision::Confirm,
            d => d,
        },
    }
}

/// Raises a decision to the minimum appropriate for the source:
/// `Allow` becomes `Confirm` for AI-generated commands; `Confirm` and
/// `Deny` are unchanged.
pub fn apply_ai_safety_floor(decision: Decision, source: &CommandSource) -> (d: Decision)
    ensures
        d == spec_floor(decision, *source),
{
    match source {
        CommandSource::AiGenerated => match decision {
            Decision::Allow => Decision::Confirm,
            d => d,
        },
    }
}

/// The AI safety floor never allows, and never lowers the strictness of the
/// engine's decision.
pub proof fn law_ai_floor(decision: Decision)
    ensures
        spec_floor(decision, CommandSource::AiGenerated) != Decision::Allow,
        strictness(spec_floor(decision, CommandSource::AiGenerated)) >= strictness(decision),
        decision != Decision::Allow ==> spec_floor(decision, CommandSource::AiGenerated)
            == decision,
{
}

impl ProposedCommand {
    /// Constructs a proposed command.
    pub fn new(argv: Vec<String>, source: CommandSource, raw_response: &str) -> (p: Self)
        ensures
            p.argv == argv,
            p.source == source,
            p.raw_response@ == raw_response@,
    {
        ProposedCommand { argv, source, raw_response: owned(raw_response) }
    }

    /// Evaluates the command with the safety engine, then applies the AI
    /// safety floor to the decision.
    pub fn evaluate_safety(&self, safety_mode: SafetyMode, safety_config: &SafetyConfig) -> (res: (
        RiskAssessment,
        Decision,
    ))
        ensures
            res.0@ =~= spec_evaluate(
                policy_of(safety_mode, safety_config),
                string_views(self.argv@),
            ).0,
            res.1 == spec_floor(
                spec_evaluate(policy_of(safety_mode, safety_config), string_views(self.argv@)).1,
                self.source,
            ),
    {
        let engine = SafetyPolicyEngine::new(safety_mode, safety_config);
        let refs = as_strs(&self.argv);
        let (assessment, decision) = engine.evaluate(refs.as_slice());
        let final_decision = apply_ai_safety_floor(decision, &self.source);
        (assessment, final_decision)
    }
}

} // verus!

//! Properties that hold of every safety evaluation.

use vstd::prelude::*;
use crate::config::SafetyMode;
use crate::text::{contains, join_spaced, starts_with};
use super::matcher::regex_finds;
use super::{
    first_prefix, matched_patterns, score_sum, spec_decide, spec_evaluate, spec_level_from_score,
    spec_pattern_score, Decision, PolicyView, RiskLevel,
};

verus! {

/// How strict a decision is: `Allow` < `Confirm` < `Deny`.
pub open spec fn strictness(d: Decision) -> int {
    match d {
        Decision::Allow => 0,
        Decision::Confirm => 1,
        Decision::Deny => 2,
    }
}

/// If some entry of `list` is a prefix of `cmd`, a first such entry exists.
proof fn lemma_first_prefix_found(list: Seq<Seq<char>>, cmd: Seq<char>, i: int)
    requires
        0 <= i < list.len(),
        starts_with(cmd, list[i]),
    ensures
        first_prefix(list, cmd) is Some,
    decreases list.len(),
{
    if i < list.len() - 1 {
        lemma_first_prefix_found(list.drop_last(), cmd, i);
    }
}

/// If no entry of `list` is a prefix of `cmd`, there is no first one.
proof fn lemma_first_prefix_absent(list: Seq<Seq<char>>, cmd: Seq<char>)
    requires
        forall|i: int| 0 <= i < list.len() ==> !starts_with(cmd, #[trigger] list[i]),
    ensures
        first_prefix(list, cmd) is None,
    decreases list.len(),
{
    if list.len() > 0 {
        assert forall|i: int| 0 <= i < list.drop_last().len() implies !starts_with(
            cmd,
            #[trigger] list.drop_last()[i],
        ) by {
            assert(list.drop_last()[i] == list[i]);
        }
        lemma_first_prefix_absent(list.drop_last(), cmd);
        assert(list.last() == list[list.len() - 1]);
    }
}

/// Deny wins: when a deny prefix starts the joined argv, the command is
/// denied at critical level with score 100, whatever the allow list holds.
pub proof fn law_deny_prefix_wins(policy: PolicyView, argv: Seq<Seq<char>>, i: int)
    requires
        argv.len() > 0,
        0 <= i < policy.deny.len(),
        starts_with(join_spaced(argv), policy.deny[i]),
    ensures
        spec_evaluate(policy, argv).1 == Decision::Deny,
        spec_evaluate(policy, argv).0.level == RiskLevel::Critical,
        spec_evaluate(policy, argv).0.score == 100,
{
    lemma_first_prefix_found(policy.deny, join_spaced(argv), i);
}

/// An allow-listed command that no deny prefix matches is allowed with no
/// risk and score 0, in every mode.
pub proof fn law_allow_prefix_allows(policy: PolicyView, argv: Seq<Seq<char>>, j: int)
    requires
        argv.len() > 0,
        0 <= j < policy.allow.len(),
        starts_with(join_spaced(argv), policy.allow[j]),
        forall|i: int|
            0 <= i < policy.deny.len() ==> !starts_with(join_spaced(argv), #[trigger] policy.deny[i]),
    ensures
        spec_evaluate(policy, argv).1 == Decision::Allow,
        spec_evaluate(policy, argv).0.level == RiskLevel::NoRisk,
        spec_evaluate(policy, argv).0.score == 0,
{
    lemma_first_prefix_absent(policy.deny, join_spaced(argv));
    lemma_first_prefix_found(policy.allow, join_spaced(argv), j);
}

/// Every evaluation is consistent: the score is at most 100, the level is
/// the level of the score, and the decision is the mode's decision for
/// that level.
pub proof fn law_evaluation_consistent(policy: PolicyView, argv: Seq<Seq<char>>)
    ensures
        spec_evaluate(policy, argv).0.score <= 100,
        spec_evaluate(policy, argv).0.level == spec_level_from_score(
            spec_evaluate(policy, argv).0.score as int,
        ),
        spec_evaluate(policy, argv).1 == spec_decide(policy.mode, spec_evaluate(policy, argv).0.level),
{
}

/// For the same lists, patterns and argv, strict mode decides at least as
/// strictly as balanced mode, and balanced at least as strictly as loose.
pub proof fn law_mode_strictness(
    deny: Seq<Seq<char>>,
    allow: Seq<Seq<char>>,
    patterns: Seq<Seq<char>>,
    argv: Seq<Seq<char>>,
)
    ensures
        strictness(
            spec_evaluate(PolicyView { mode: SafetyMode::Strict, deny, allow, patterns }, argv).1,
        ) >= strictness(
            spec_evaluate(PolicyView { mode: SafetyMode::Balanced, deny, allow, patterns }, argv).1,
        ),
        strictness(
            spec_evaluate(PolicyView { mode: SafetyMode::Balanced, deny, allow, patterns }, argv).1,
        ) >= strictness(
            spec_evaluate(PolicyView { mode: SafetyMode::Loose, deny, allow, patterns }, argv).1,
        ),
{
}

/// Critical risk is denied in every mode and no risk is allowed in every mode.
pub proof fn law_extremes_fixed(mode: SafetyMode)
    ensures
        spec_decide(mode, RiskLevel::Critical) == Decision::Deny,
        spec_decide(mode, RiskLevel::NoRisk) == Decision::Allow,
{
}

/// Whether a pattern describes piping a download into a shell: it mentions
/// a downloader (`curl` or `wget`) and a shell (`bash` or `sh`).
pub open spec fn pipes_download_to_shell(p: Seq<char>) -> bool {
    (contains(p, "curl"@) || contains(p, "wget"@)) && (contains(p, "bash"@) || contains(p, "sh"@))
}

/// A pipe-to-shell pattern scores 55, for any pairing of downloader and
/// shell: `curl … | sh` scores as much as `curl … | bash` or `wget … | sh`.
pub proof fn law_pipe_to_shell_scores_55(p: Seq<char>)
    requires
        pipes_download_to_shell(p),
    ensures
        spec_pattern_score(p) == 55,
{
}

/// Every other pattern scores by what it names: one mentioning `rm` scores
/// 50 and any remaining pattern 30, so the score is always one of 55, 50 or
/// 30.
pub proof fn law_other_pattern_scores(p: Seq<char>)
    requires
        !pipes_download_to_shell(p),
    ensures
        contains(p, "rm"@) ==> spec_pattern_score(p) == 50,
        !contains(p, "rm"@) ==> spec_pattern_score(p) == 30,
{
}

/// The summed score of the patterns that match `cmd` is at least the score
/// of any one of them.
proof fn lemma_match_score_at_least(ps: Seq<Seq<char>>, cmd: Seq<char>, k: int)
    requires
        0 <= k < ps.len(),
        regex_finds(ps[k], cmd),
    ensures
        score_sum(matched_patterns(ps, cmd)) >= spec_pattern_score(ps[k]),
    decreases ps.len(),
{
    let rest = matched_patterns(ps.drop_last(), cmd);
    if k < ps.len() - 1 {
        assert(ps.drop_last()[k] == ps[k]);
        lemma_match_score_at_least(ps.drop_last(), cmd, k);
        if regex_finds(ps.last(), cmd) {
            assert(rest.push(ps.last()).drop_last() =~= rest);
        }
    } else {
        assert(rest.push(ps.last()).drop_last() =~= rest);
    }
}

/// A command that a pipe-to-shell pattern matches, and that no deny or
/// allow prefix decides, scores at least 55: it is rated high or critical,
/// is never allowed outright, and strict mode denies it.
pub proof fn law_pipe_to_shell_match_not_allowed(policy: PolicyView, argv: Seq<Seq<char>>, k: int)
    requires
        argv.len() > 0,
        forall|i: int|
            0 <= i < policy.deny.len() ==> !starts_with(join_spaced(argv), #[trigger] policy.deny[i]),
        forall|j: int|
            0 <= j < policy.allow.len() ==> !starts_with(join_spaced(argv), #[trigger] policy.allow[j]),
        0 <= k < policy.patterns.len(),
        regex_finds(policy.patterns[k], join_spaced(argv)),
        pipes_download_to_shell(policy.patterns[k]),
    ensures
        spec_evaluate(policy, argv).0.score >= 55,
        spec_evaluate(policy, argv).0.level == RiskLevel::High || spec_evaluate(policy, argv).0.level
            == RiskLevel::Critical,
        spec_evaluate(policy, argv).1 != Decision::Allow,
        policy.mode == SafetyMode::Strict ==> spec_evaluate(policy, argv).1 == Decision::Deny,
{
    lemma_first_prefix_absent(policy.deny, join_spaced(argv));
    lemma_first_prefix_absent(policy.allow, join_spaced(argv));
    lemma_match_score_at_least(policy.patterns, join_spaced(argv), k);
}

} // verus!

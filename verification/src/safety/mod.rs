//! Safety policy engine: deny and allow prefixes, scored high-risk
//! patterns, and a mode-dependent decision.
//!
//! The engine is sync, pure and deterministic: its result is a function of
//! its configuration and the evaluated argv.

pub mod laws;
pub mod matcher;

use vstd::prelude::*;
use crate::config::{SafetyConfig, SafetyMode};
use crate::text::{
    append, chars_of, clone_strings, contains, decimal, join_args, join_spaced, owned, push_decimal,
    starts_with, starts_with_exec, str_contains, str_views, string_views,
};
use self::matcher::{compile, regex_accepts, regex_finds, PatternMatcher};

verus! {

/// Risk classification category.
#[derive(Debug, Clone, Copy, PartialEq, Eq, Structural)]
pub enum RiskCategory {
    /// Irreversible or destructive filesystem modifications.
    DestructiveFilesystem,
    /// Commands that elevate process privileges.
    PrivilegeElevation,
    /// Network operations piped into a shell.
    Network,
    /// Package or system-level changes.
    PackageSystem,
}

/// Risk severity level derived from the accumulated score, ordered
/// `NoRisk < Low < Medium < High < Critical`.
#[derive(Debug, Clone, Copy, PartialEq, Eq, PartialOrd, Ord, Structural)]
pub enum RiskLevel {
    /// No risk pattern matched.
    NoRisk,
    /// Marginal risk.
    Low,
    /// Elevated risk.
    Medium,
    /// Very high risk.
    High,
    /// Catastrophic risk (explicit deny prefix).
    Critical,
}

/// Full output of one safety evaluation.
#[derive(Debug, Clone)]
pub struct RiskAssessment {
    /// Severity derived from `score`.
    pub level: RiskLevel,
    /// Risk score 0..=100.
    pub score: u32,
    /// Human-readable explanations for each risk contribution.
    pub reasons: Vec<String>,
    /// Risk categories triggered, each listed once, in first-match order.
    pub categories: Vec<RiskCategory>,
}

/// Safety policy decision.
#[derive(Debug, Clone, Copy, PartialEq, Eq, Structural)]
pub enum Decision {
    /// Safe to dispatch immediately.
    Allow,
    /// Blocked by policy.
    Deny,
    /// Requires explicit user confirmation before dispatch.
    Confirm,
}

/// The mathematical content of a [`RiskAssessment`].
#[verifier::ext_equal]
pub struct AssessmentView {
    pub level: RiskLevel,
    pub score: nat,
    pub reasons: Seq<Seq<char>>,
    pub categories: Seq<RiskCategory>,
}

impl View for RiskAssessment {
    type V = AssessmentView;

    open spec fn view(&self) -> AssessmentView {
        AssessmentView {
            level: self.level,
            score: self.score as nat,
            reasons: string_views(self.reasons@),
            categories: self.categories@,
        }
    }
}

/// The policy that an engine applies: mode, prefix lists and the sources of
/// the patterns that compiled.
pub struct PolicyView {
    pub mode: SafetyMode,
    pub deny: Seq<Seq<char>>,
    pub allow: Seq<Seq<char>>,
    pub patterns: Seq<Seq<char>>,
}

// ── pure rules ────────────────────────────────────────────────────────────────

/// Severity of a score: 0 → NoRisk, 1–25 → Low, 26–50 → Medium,
/// 51–80 → High, above → Critical.
pub open spec fn spec_level_from_score(score: int) -> RiskLevel {
    if score <= 0 {
        RiskLevel::NoRisk
    } else if score <= 25 {
        RiskLevel::Low
    } else if score <= 50 {
        RiskLevel::Medium
    } else if score <= 80 {
        RiskLevel::High
    } else {
        RiskLevel::Critical
    }
}

/// Decision of a mode for a level.
pub open spec fn spec_decide(mode: SafetyMode, level: RiskLevel) -> Decision {
    match mode {
        SafetyMode::Strict => match level {
            RiskLevel::NoRisk | RiskLevel::Low => Decision::Allow,
            RiskLevel::Medium => Decision::Confirm,
            RiskLevel::High | RiskLevel::Critical => Decision::Deny,
        },
        SafetyMode::Balanced => match level {
            RiskLevel::NoRisk | RiskLevel::Low => Decision::Allow,
            RiskLevel::Medium | RiskLevel::High => Decision::Confirm,
            RiskLevel::Critical => Decision::Deny,
        },
        SafetyMode::Loose => match level {
            RiskLevel::NoRisk | RiskLevel::Low | RiskLevel::Medium => Decision::Allow,
            RiskLevel::High => Decision::Confirm,
            RiskLevel::Critical => Decision::Deny,
        },
    }
}

/// Score contributed by a matching pattern: pipe-to-shell downloads 55,
/// recursive delete 50, anything else 30.
pub open spec fn spec_pattern_score(p: Seq<char>) -> u32 {
    if (contains(p, "curl"@) || contains(p, "wget"@)) && (contains(p, "bash"@) || contains(
        p,
        "sh"@,
    )) {
        55
    } else if contains(p, "rm"@) {
        50
    } else {
        30
    }
}

/// Category of a high-risk pattern, by the words it mentions.
pub open spec fn spec_pattern_category(p: Seq<char>) -> RiskCategory {
    if contains(p, "rm"@) || contains(p, "dd"@) || contains(p, "mkfs"@) {
        RiskCategory::DestructiveFilesystem
    } else if contains(p, "sudo"@) || contains(p, "su "@) || contains(p, "doas"@) {
        RiskCategory::PrivilegeElevation
    } else if contains(p, "curl"@) || contains(p, "wget"@) || contains(p, "http"@) {
        RiskCategory::Network
    } else if contains(p, "apt"@) || contains(p, "pip"@) || contains(p, "npm"@) || contains(
        p,
        "yum"@,
    ) {
        RiskCategory::PackageSystem
    } else {
        RiskCategory::DestructiveFilesystem
    }
}

/// Category of a deny prefix, by the words it mentions.
pub open spec fn spec_prefix_category(p: Seq<char>) -> RiskCategory {
    if contains(p, "rm "@) || contains(p, "mkfs"@) || contains(p, "dd if="@) || contains(
        p,
        "shred"@,
    ) {
        RiskCategory::DestructiveFilesystem
    } else if contains(p, "sudo"@) || contains(p, "su "@) || contains(p, "doas"@) {
        RiskCategory::PrivilegeElevation
    } else if contains(p, "curl"@) || contains(p, "wget"@) {
        RiskCategory::Network
    } else if contains(p, "apt"@) || contains(p, "pip"@) || contains(p, "yum"@) || contains(
        p,
        "dnf"@,
    ) || contains(p, "pacman"@) {
        RiskCategory::PackageSystem
    } else {
        RiskCategory::DestructiveFilesystem
    }
}

/// Index of the first entry of `list` that is a prefix of `cmd`.
pub open spec fn first_prefix(list: Seq<Seq<char>>, cmd: Seq<char>) -> Option<int>
    decreases list.len(),
{
    if list.len() == 0 {
        None
    } else {
        match first_prefix(list.drop_last(), cmd) {
            Some(k) => Some(k),
            None => if starts_with(cmd, list.last()) {
                Some(list.len() - 1)
            } else {
                None
            },
        }
    }
}

/// The patterns that match `cmd`, in order.
pub open spec fn matched_patterns(ps: Seq<Seq<char>>, cmd: Seq<char>) -> Seq<Seq<char>>
    decreases ps.len(),
{
    if ps.len() == 0 {
        seq![]
    } else {
        let rest = matched_patterns(ps.drop_last(), cmd);
        if regex_finds(ps.last(), cmd) {
            rest.push(ps.last())
        } else {
            rest
        }
    }
}

/// The patterns whose flag in `hits` is set, in order.
pub open spec fn selected(ps: Seq<Seq<char>>, hits: Seq<bool>) -> Seq<Seq<char>>
    decreases ps.len(),
{
    if ps.len() == 0 || hits.len() == 0 {
        seq![]
    } else {
        let rest = selected(ps.drop_last(), hits.drop_last());
        if hits.last() {
            rest.push(ps.last())
        } else {
            rest
        }
    }
}

/// Flags that record, pattern by pattern, whether it matches `cmd` select
/// exactly the matching patterns.
pub proof fn lemma_selected_matches(ps: Seq<Seq<char>>, hits: Seq<bool>, cmd: Seq<char>)
    requires
        hits.len() == ps.len(),
        forall|i: int| 0 <= i < ps.len() ==> hits[i] == regex_finds(ps[i], cmd),
    ensures
        selected(ps, hits) == matched_patterns(ps, cmd),
    decreases ps.len(),
{
    if ps.len() > 0 {
        lemma_selected_matches(ps.drop_last(), hits.drop_last(), cmd);
    }
}

/// Sum of the scores of the patterns.
pub open spec fn score_sum(ps: Seq<Seq<char>>) -> nat
    decreases ps.len(),
{
    if ps.len() == 0 {
        0
    } else {
        score_sum(ps.drop_last()) + spec_pattern_score(ps.last()) as nat
    }
}

/// The sequence with later repetitions removed, first occurrences kept in order.
pub open spec fn dedup(s: Seq<RiskCategory>) -> Seq<RiskCategory>
    decreases s.len(),
{
    if s.len() == 0 {
        seq![]
    } else {
        let d = dedup(s.drop_last());
        if d.contains(s.last()) {
            d
        } else {
            d.push(s.last())
        }
    }
}

/// Explanation recorded for a deny prefix.
pub open spec fn deny_reason(p: Seq<char>) -> Seq<char> {
    "explicitly denied (prefix: '"@ + p + "')"@
}

/// Explanation recorded for an allow prefix.
pub open spec fn allow_reason(p: Seq<char>) -> Seq<char> {
    "explicitly allowlisted (prefix: '"@ + p + "')"@
}

/// Explanation recorded for a matching pattern.
pub open spec fn pattern_reason(p: Seq<char>) -> Seq<char> {
    "matched high-risk pattern '"@ + p + "' (+"@ + decimal(spec_pattern_score(p) as nat) + ")"@
}

/// The assessment for the matching patterns `m` under `mode`: their scores
/// summed and capped at 100, the level of that score, a reason per pattern,
/// their categories each listed once, and the mode's decision for the level.
pub open spec fn pattern_outcome(mode: SafetyMode, m: Seq<Seq<char>>) -> (AssessmentView, Decision) {
    let score: nat = if score_sum(m) > 100 { 100 } else { score_sum(m) };
    let level = spec_level_from_score(score as int);
    (
        AssessmentView {
            level,
            score,
            reasons: m.map_values(|p: Seq<char>| pattern_reason(p)),
            categories: dedup(m.map_values(|p: Seq<char>| spec_pattern_category(p))),
        },
        spec_decide(mode, level),
    )
}

/// The complete evaluation of `argv` (as character sequences) under a policy.
pub open spec fn spec_evaluate(policy: PolicyView, argv: Seq<Seq<char>>) -> (AssessmentView, Decision) {
    if argv.len() == 0 {
        (AssessmentView { level: RiskLevel::NoRisk, score: 0, reasons: seq![], categories: seq![] }, Decision::Allow)
    } else {
        let cmd = join_spaced(argv);
        match first_prefix(policy.deny, cmd) {
            Some(i) => (
                AssessmentView {
                    level: RiskLevel::Critical,
                    score: 100,
                    reasons: seq![deny_reason(policy.deny[i])],
                    categories: seq![spec_prefix_category(policy.deny[i])],
                },
                Decision::Deny,
            ),
            None => match first_prefix(policy.allow, cmd) {
                Some(j) => (
                    AssessmentView {
                        level: RiskLevel::NoRisk,
                        score: 0,
                        reasons: seq![allow_reason(policy.allow[j])],
                        categories: seq![],
                    },
                    Decision::Allow,
                ),
                None => pattern_outcome(policy.mode, matched_patterns(policy.patterns, cmd)),
            },
        }
    }
}

/// The patterns of `ps` that the regex crate accepts, in order.
pub open spec fn accepted_patterns(ps: Seq<Seq<char>>) -> Seq<Seq<char>>
    decreases ps.len(),
{
    if ps.len() == 0 {
        seq![]
    } else {
        let rest = accepted_patterns(ps.drop_last());
        if regex_accepts(ps.last()) {
            rest.push(ps.last())
        } else {
            rest
        }
    }
}

/// The policy an engine built from `mode` and `config` applies.
pub open spec fn policy_of(mode: SafetyMode, config: &SafetyConfig) -> PolicyView {
    PolicyView {
        mode,
        deny: string_views(config.deny_prefixes@),
        allow: string_views(config.allow_prefixes@),
        patterns: accepted_patterns(string_views(config.high_risk_patterns@)),
    }
}

// ── executable rules ─────────────────────────────────────────────────────────

/// Severity of a score.
pub fn level_from_score(score: u32) -> (l: RiskLevel)
    ensures
        l == spec_level_from_score(score as int),
{
    if score == 0 {
        RiskLevel::NoRisk
    } else if score <= 25 {
        RiskLevel::Low
    } else if score <= 50 {
        RiskLevel::Medium
    } else if score <= 80 {
        RiskLevel::High
    } else {
        RiskLevel::Critical
    }
}

/// Score contributed by a matching pattern.
pub fn score_for_pattern(pattern: &str) -> (s: u32)
    ensures
        s == spec_pattern_score(pattern@),
{
    if (str_contains(pattern, "curl") || str_contains(pattern, "wget")) && (str_contains(
        pattern,
        "bash",
    ) || str_contains(pattern, "sh")) {
        55
    } else if str_contains(pattern, "rm") {
        50
    } else {
        30
    }
}

/// Category of a high-risk pattern.
pub fn category_for_pattern(pattern: &str) -> (c: RiskCategory)
    ensures
        c == spec_pattern_category(pattern@),
{
    if str_contains(pattern, "rm") || str_contains(pattern, "dd") || str_contains(pattern, "mkfs") {
        RiskCategory::DestructiveFilesystem
    } else if str_contains(pattern, "sudo") || str_contains(pattern, "su ") || str_contains(
        pattern,
        "doas",
    ) {
        RiskCategory::PrivilegeElevation
    } else if str_contains(pattern, "curl") || str_contains(pattern, "wget") || str_contains(
        pattern,
        "http",
    ) {
        RiskCategory::Network
    } else if str_contains(pattern, "apt") || str_contains(pattern, "pip") || str_contains(
        pattern,
        "npm",
    ) || str_contains(pattern, "yum") {
        RiskCategory::PackageSystem
    } else {
        RiskCategory::DestructiveFilesystem
    }
}

/// Category of a deny prefix.
pub fn category_for_prefix(prefix: &str) -> (c: RiskCategory)
    ensures
        c == spec_prefix_category(prefix@),
{
    if str_contains(prefix, "rm ") || str_contains(prefix, "mkfs") || str_contains(prefix, "dd if=")
        || str_contains(prefix, "shred") {
        RiskCategory::DestructiveFilesystem
    } else if str_contains(prefix, "sudo") || str_contains(prefix, "su ") || str_contains(
        prefix,
        "doas",
    ) {
        RiskCategory::PrivilegeElevation
    } else if str_contains(prefix, "curl") || str_contains(prefix, "wget") {
        RiskCategory::Network
    } else if str_contains(prefix, "apt") || str_contains(prefix, "pip") || str_contains(
        prefix,
        "yum",
    ) || str_contains(prefix, "dnf") || str_contains(prefix, "pacman") {
        RiskCategory::PackageSystem
    } else {
        RiskCategory::DestructiveFilesystem
    }
}

/// Decision of a mode for a level.
pub fn decide(mode: SafetyMode, level: RiskLevel) -> (d: Decision)
    ensures
        d == spec_decide(mode, level),
{
    match mode {
        SafetyMode::Strict => match level {
            RiskLevel::NoRisk | RiskLevel::Low => Decision::Allow,
            RiskLevel::Medium => Decision::Confirm,
            RiskLevel::High | RiskLevel::Critical => Decision::Deny,
        },
        SafetyMode::Balanced => match level {
            RiskLevel::NoRisk | RiskLevel::Low => Decision::Allow,
            RiskLevel::Medium | RiskLevel::High => Decision::Confirm,
            RiskLevel::Critical => Decision::Deny,
        },
        SafetyMode::Loose => match level {
            RiskLevel::NoRisk | RiskLevel::Low | RiskLevel::Medium => Decision::Allow,
            RiskLevel::High => Decision::Confirm,
            RiskLevel::Critical => Decision::Deny,
        },
    }
}


// ── the engine ────────────────────────────────────────────────────────────────

/// If the first matching entry of a prefix of `list` is `x`, it is also the
/// first matching entry of `list`.
proof fn lemma_first_prefix_extends(list: Seq<Seq<char>>, cmd: Seq<char>, k: int, x: int)
    requires
        0 <= k <= list.len(),
        first_prefix(list.take(k), cmd) == Some(x),
    ensures
        first_prefix(list, cmd) == Some(x),
    decreases list.len() - k,
{
    if k < list.len() {
        assert(list.take(k + 1).drop_last() =~= list.take(k));
        lemma_first_prefix_extends(list, cmd, k + 1, x);
    } else {
        assert(list.take(k) =~= list);
    }
}

/// Index of the first string of `list` that is a prefix of `cmd`.
fn first_prefix_exec(list: &Vec<String>, cmd: &Vec<char>) -> (r: Option<usize>)
    ensures
        match r {
            Some(i) => first_prefix(string_views(list@), cmd@) == Some(i as int) && i < list@.len(),
            None => first_prefix(string_views(list@), cmd@) is None,
        },
{
    let ghost views = string_views(list@);
    let mut i: usize = 0;
    while i < list.len()
        invariant
            i <= list@.len(),
            views == string_views(list@),
            first_prefix(views.take(i as int), cmd@) is None,
        decreases list.len() - i,
    {
        let p = chars_of(list[i].as_str());
        assert(views.take(i + 1).drop_last() =~= views.take(i as int));
        assert(views.take(i + 1).last() == views[i as int]);
        if starts_with_exec(cmd, &p) {
            assert(first_prefix(views.take(i + 1), cmd@) == Some(i as int));
            proof {
                lemma_first_prefix_extends(views, cmd@, i + 1, i as int);
            }
            return Some(i);
        }
        i += 1;
    }
    assert(views.take(list.len() as int) =~= views);
    None
}

/// Builds `prefix_text + p + "')"`.
fn quoted_reason(prefix_text: &str, p: &str) -> (s: String)
    ensures
        s@ == prefix_text@ + p@ + "')"@,
{
    let mut s = owned(prefix_text);
    append(&mut s, p);
    append(&mut s, "')");
    s
}

/// The explanation recorded for a matching pattern.
fn pattern_reason_exec(p: &str, score: u32) -> (s: String)
    requires
        score == spec_pattern_score(p@),
    ensures
        s@ == pattern_reason(p@),
{
    let mut s = owned("matched high-risk pattern '");
    append(&mut s, p);
    append(&mut s, "' (+");
    push_decimal(&mut s, score as u64);
    append(&mut s, ")");
    s
}

/// Whether `c` is already listed.
fn has_category(cs: &Vec<RiskCategory>, c: RiskCategory) -> (b: bool)
    ensures
        b == cs@.contains(c),
{
    let mut i: usize = 0;
    while i < cs.len()
        invariant
            i <= cs@.len(),
            forall|k: int| 0 <= k < i ==> cs@[k] != c,
        decreases cs.len() - i,
    {
        if cs[i] == c {
            assert(cs@[i as int] == c);
            return true;
        }
        i += 1;
    }
    false
}

/// A compiled high-risk pattern with its score and category.
struct PatternEntry {
    matcher: PatternMatcher,
    score: u32,
    category: RiskCategory,
}

/// The source texts of compiled entries.
spec fn entry_sources(es: Seq<PatternEntry>) -> Seq<Seq<char>> {
    es.map_values(|e: PatternEntry| e.matcher.source_view())
}

/// Sync, pure safety policy engine.
///
/// Built once from a [`SafetyMode`] and a [`SafetyConfig`]; the configured
/// patterns are compiled at construction time and those the regex crate
/// rejects are skipped.
pub struct SafetyPolicyEngine {
    mode: SafetyMode,
    deny_prefixes: Vec<String>,
    allow_prefixes: Vec<String>,
    patterns: Vec<PatternEntry>,
}

impl SafetyPolicyEngine {
    /// Each compiled entry carries the score and category of its source.
    #[verifier::type_invariant]
    spec fn entries_consistent(self) -> bool {
        forall|i: int|
            #![trigger self.patterns@[i]]
            0 <= i < self.patterns@.len() ==> {
                &&& self.patterns@[i].score == spec_pattern_score(self.patterns@[i].matcher.source_view())
                &&& self.patterns@[i].category == spec_pattern_category(
                    self.patterns@[i].matcher.source_view(),
                )
            }
    }

    /// The policy this engine applies.
    pub closed spec fn policy(&self) -> PolicyView {
        PolicyView {
            mode: self.mode,
            deny: string_views(self.deny_prefixes@),
            allow: string_views(self.allow_prefixes@),
            patterns: entry_sources(self.patterns@),
        }
    }

    /// Builds the engine; invalid patterns are skipped (they can never match).
    pub fn new(mode: SafetyMode, config: &SafetyConfig) -> (e: Self)
        ensures
            e.policy() == policy_of(mode, config),
    {
        let ghost srcs = string_views(config.high_risk_patterns@);
        let mut patterns: Vec<PatternEntry> = Vec::new();
        let mut i: usize = 0;
        while i < config.high_risk_patterns.len()
            invariant
                i <= config.high_risk_patterns@.len(),
                srcs == string_views(config.high_risk_patterns@),
                entry_sources(patterns@) == accepted_patterns(srcs.take(i as int)),
                forall|k: int|
                    #![trigger patterns@[k]]
                    0 <= k < patterns@.len() ==> {
                        &&& patterns@[k].score == spec_pattern_score(patterns@[k].matcher.source_view())
                        &&& patterns@[k].category == spec_pattern_category(
                            patterns@[k].matcher.source_view(),
                        )
                    },
            decreases config.high_risk_patterns.len() - i,
        {
            let p = config.high_risk_patterns[i].as_str();
            assert(srcs.take(i + 1).drop_last() =~= srcs.take(i as int));
            assert(srcs.take(i + 1).last() == p@);
            let ghost before = patterns@;
            match compile(p) {
                Some(m) => {
                    let score = score_for_pattern(p);
                    let category = category_for_pattern(p);
                    patterns.push(PatternEntry { matcher: m, score, category });
                    assert(patterns@[patterns@.len() - 1].matcher.source_view() == p@);
                    assert(entry_sources(patterns@) =~= entry_sources(before).push(p@));
                },
                None => {},
            }
            i += 1;
        }
        assert(srcs.take(config.high_risk_patterns.len() as int) =~= srcs);
        let deny_prefixes = clone_strings(&config.deny_prefixes);
        let allow_prefixes = clone_strings(&config.allow_prefixes);
        SafetyPolicyEngine { mode, deny_prefixes, allow_prefixes, patterns }
    }

    /// Evaluates `argv` and returns the assessment and decision.
    ///
    /// Order: an empty argv is allowed; a matching deny prefix denies with
    /// score 100 (deny wins over allow); a matching allow prefix allows with
    /// score 0; otherwise the scores of the matching patterns are summed,
    /// capped at 100, and the mode turns the resulting level into a decision.
    pub fn evaluate(&self, argv: &[&str]) -> (res: (RiskAssessment, Decision))
        ensures
            res.0@ =~= spec_evaluate(self.policy(), str_views(argv@)).0,
            res.1 == spec_evaluate(self.policy(), str_views(argv@)).1,
    {
        proof {
            use_type_invariant(self);
        }
        let ghost av = str_views(argv@);
        if argv.len() == 0 {
            let a = RiskAssessment {
                level: RiskLevel::NoRisk,
                score: 0,
                reasons: Vec::new(),
                categories: Vec::new(),
            };
            assert(string_views(a.reasons@) =~= seq![]);
            return (a, Decision::Allow);
        }
        let cmd = join_args(argv);
        let cmd_chars = chars_of(cmd.as_str());
        match first_prefix_exec(&self.deny_prefixes, &cmd_chars) {
            Some(i) => {
                let prefix = self.deny_prefixes[i].as_str();
                let reasons = vec![quoted_reason("explicitly denied (prefix: '", prefix)];
                let categories = vec![category_for_prefix(prefix)];
                let a = RiskAssessment { level: RiskLevel::Critical, score: 100, reasons, categories };
                assert(string_views(a.reasons@) =~= seq![deny_reason(self.policy().deny[i as int])]);
                assert(a.categories@ =~= seq![spec_prefix_category(self.policy().deny[i as int])]);
                return (a, Decision::Deny);
            },
            None => {},
        }
        match first_prefix_exec(&self.allow_prefixes, &cmd_chars) {
            Some(j) => {
                let prefix = self.allow_prefixes[j].as_str();
                let reasons = vec![quoted_reason("explicitly allowlisted (prefix: '", prefix)];
                let a = RiskAssessment {
                    level: RiskLevel::NoRisk,
                    score: 0,
                    reasons,
                    categories: Vec::new(),
                };
                assert(string_views(a.reasons@) =~= seq![allow_reason(self.policy().allow[j as int])]);
                assert(a.categories@ =~= seq![]);
                return (a, Decision::Allow);
            },
            None => {},
        }
        let hits = self.pattern_hits(cmd.as_str());
        proof {
            lemma_selected_matches(self.policy().patterns, hits@, cmd@);
        }
        self.assess_hits(&hits)
    }

    /// The number of compiled patterns.
    pub fn pattern_count(&self) -> (n: usize)
        ensures
            n == self.policy().patterns.len(),
    {
        self.patterns.len()
    }

    /// For each compiled pattern, in order, whether it matches `cmd`.
    pub fn pattern_hits(&self, cmd: &str) -> (hits: Vec<bool>)
        ensures
            hits@.len() == self.policy().patterns.len(),
            forall|i: int|
                0 <= i < hits@.len() ==> hits@[i] == regex_finds(self.policy().patterns[i], cmd@),
    {
        let ghost ps = self.policy().patterns;
        let mut hits: Vec<bool> = Vec::new();
        let mut i: usize = 0;
        while i < self.patterns.len()
            invariant
                i <= self.patterns@.len(),
                ps == entry_sources(self.patterns@),
                hits@.len() == i,
                forall|k: int| 0 <= k < i ==> hits@[k] == regex_finds(ps[k], cmd@),
            decreases self.patterns.len() - i,
        {
            hits.push(self.patterns[i].matcher.is_match(cmd));
            i += 1;
        }
        hits
    }

    /// The assessment of a command that no prefix decides, given for each
    /// compiled pattern whether it matched (see [`pattern_outcome`]).
    pub fn assess_hits(&self, hits: &Vec<bool>) -> (res: (RiskAssessment, Decision))
        requires
            hits@.len() == self.policy().patterns.len(),
        ensures
            res.0@ =~= pattern_outcome(self.policy().mode, selected(self.policy().patterns, hits@)).0,
            res.1 == pattern_outcome(self.policy().mode, selected(self.policy().patterns, hits@)).1,
    {
        proof {
            use_type_invariant(self);
        }
        let ghost ps = self.policy().patterns;
        let mut score: u32 = 0;
        let mut reasons: Vec<String> = Vec::new();
        let mut categories: Vec<RiskCategory> = Vec::new();
        let mut i: usize = 0;
        while i < self.patterns.len()
            invariant
                i <= self.patterns@.len(),
                ps == entry_sources(self.patterns@),
                ps.len() == self.patterns@.len(),
                hits@.len() == ps.len(),
                forall|k: int|
                    #![trigger self.patterns@[k]]
                    0 <= k < self.patterns@.len() ==> {
                        &&& self.patterns@[k].score == spec_pattern_score(self.patterns@[k].matcher.source_view())
                        &&& self.patterns@[k].category == spec_pattern_category(
                            self.patterns@[k].matcher.source_view(),
                        )
                    },
                score as int == if score_sum(selected(ps.take(i as int), hits@.take(i as int)))
                    > u32::MAX {
                    u32::MAX as int
                } else {
                    score_sum(selected(ps.take(i as int), hits@.take(i as int))) as int
                },
                string_views(reasons@) == selected(ps.take(i as int), hits@.take(i as int)).map_values(
                    |p: Seq<char>| pattern_reason(p),
                ),
                categories@ == dedup(
                    selected(ps.take(i as int), hits@.take(i as int)).map_values(
                        |p: Seq<char>| spec_pattern_category(p),
                    ),
                ),
            decreases self.patterns.len() - i,
        {
            let entry = &self.patterns[i];
            assert(entry.score == spec_pattern_score(entry.matcher.source_view()));
            let ghost m0 = selected(ps.take(i as int), hits@.take(i as int));
            assert(ps.take(i + 1).drop_last() =~= ps.take(i as int));
            assert(hits@.take(i + 1).drop_last() =~= hits@.take(i as int));
            assert(ps.take(i + 1).last() == entry.matcher.source_view());
            assert(hits@.take(i + 1).last() == hits@[i as int]);
            if hits[i] {
                let ghost m1 = m0.push(entry.matcher.source_view());
                assert(selected(ps.take(i + 1), hits@.take(i + 1)) == m1);
                assert(m1.drop_last() =~= m0);
                assert(score_sum(m1) == score_sum(m0) + entry.score);
                score = score.saturating_add(entry.score);
                let ghost r0 = reasons@;
                reasons.push(pattern_reason_exec(entry.matcher.source(), entry.score));
                assert(string_views(reasons@) =~= string_views(r0).push(
                    pattern_reason(entry.matcher.source_view()),
                ));
                assert(m1.map_values(|p: Seq<char>| pattern_reason(p)) =~= m0.map_values(
                    |p: Seq<char>| pattern_reason(p),
                ).push(pattern_reason(entry.matcher.source_view())));
                let ghost cats1 = m1.map_values(|p: Seq<char>| spec_pattern_category(p));
                assert(cats1.drop_last() =~= m0.map_values(
                    |p: Seq<char>| spec_pattern_category(p),
                ));
                assert(cats1.last() == entry.category);
                if !has_category(&categories, entry.category) {
                    categories.push(entry.category);
                }
            } else {
                assert(selected(ps.take(i + 1), hits@.take(i + 1)) == m0);
            }
            i += 1;
        }
        assert(ps.take(self.patterns.len() as int) =~= ps);
        assert(hits@.take(self.patterns.len() as int) =~= hits@);
        let capped: u32 = if score > 100 { 100 } else { score };
        let level = level_from_score(capped);
        let decision = decide(self.mode, level);
        let a = RiskAssessment { level, score: capped, reasons, categories };
        (a, decision)
    }
}

} // verus!

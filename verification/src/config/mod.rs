//! Configuration schema for `.logicshell.toml`, its built-in defaults and
//! its semantic validation.

pub mod defaults;
pub mod document;
pub mod schema;
pub mod discovery;

use vstd::prelude::*;
use crate::error::LogicShellError;
use crate::text::{owned, string_views};
use self::document::{parse_toml, toml_document};
use self::schema::{decode_config, decoded_config, ConfigView};

verus! {

/// Root configuration. Every field has a default, so an empty file is valid.
#[derive(Debug, Clone, PartialEq)]
pub struct Config {
    /// Schema version for forward-compatible migrations. Default: 1.
    pub schema_version: u32,
    /// Safety enforcement mode. Default: `balanced`.
    pub safety_mode: SafetyMode,
    /// LLM integration settings.
    pub llm: LlmConfig,
    /// Safety policy lists.
    pub safety: SafetyConfig,
    /// Audit log settings.
    pub audit: AuditConfig,
    /// Pre-execution hooks.
    pub hooks: HooksConfig,
    /// Payload size caps.
    pub limits: LimitsConfig,
}

/// Safety enforcement modes.
#[derive(Debug, Clone, Copy, PartialEq, Eq, Structural)]
pub enum SafetyMode {
    /// Block high-risk commands; confirm medium-risk ones.
    Strict,
    /// Confirm medium- and high-risk commands (the default).
    Balanced,
    /// Allow medium-risk commands; confirm high-risk ones.
    Loose,
}

/// LLM integration configuration (`[llm]`).
#[derive(Debug, Clone, PartialEq)]
pub struct LlmConfig {
    /// Master switch for any LLM call. Default: false.
    pub enabled: bool,
    /// LLM provider. Default: `ollama`.
    pub provider: LlmProvider,
    /// Ollama API base URL. Default: `http://127.0.0.1:11434`.
    pub base_url: String,
    /// Model identifier; required when `enabled` is true.
    pub model: Option<String>,
    /// HTTP timeout in seconds. Default: 60.
    pub timeout_secs: u64,
    /// Allow non-local endpoints. Default: false.
    pub allow_remote: bool,
    /// Invocation mode toggles.
    pub invocation: LlmInvocationConfig,
}

/// LLM provider selection.
#[derive(Debug, Clone, Copy, PartialEq, Eq, Structural)]
pub enum LlmProvider {
    /// Local Ollama daemon.
    Ollama,
}

/// `[llm.invocation]` toggles controlling when the LLM is consulted.
#[derive(Debug, Clone, PartialEq, Eq)]
pub struct LlmInvocationConfig {
    /// Explicit natural-language session mode. Default: false.
    pub nl_session: bool,
    /// Suggest corrections on exit code 127. Default: false.
    pub assist_on_not_found: bool,
    /// Combined prompt context character cap. Default: 8 000.
    pub max_context_chars: u64,
}

/// Safety policy lists (`[safety]`).
#[derive(Debug, Clone, PartialEq, Eq)]
pub struct SafetyConfig {
    /// Commands blocked when the joined argv starts with any of these.
    pub deny_prefixes: Vec<String>,
    /// Commands allowed when the joined argv starts with any of these (deny wins).
    pub allow_prefixes: Vec<String>,
    /// Regular expressions that classify high-risk commands.
    pub high_risk_patterns: Vec<String>,
}

/// Audit log settings (`[audit]`).
#[derive(Debug, Clone, PartialEq, Eq)]
pub struct AuditConfig {
    /// Enable audit logging. Default: true.
    pub enabled: bool,
    /// Path of the audit log; `None` selects the OS temp directory.
    pub path: Option<String>,
}

/// Pre-execution hook container (`[hooks]`).
#[derive(Debug, Clone, PartialEq, Eq)]
pub struct HooksConfig {
    /// Hooks run before every dispatch. Default: empty.
    pub pre_exec: Vec<HookEntry>,
}

/// A single pre-exec hook definition.
#[derive(Debug, Clone, PartialEq, Eq)]
pub struct HookEntry {
    /// Command argv; the first element is the executable.
    pub command: Vec<String>,
    /// Milliseconds before the hook is killed. Default: 5 000.
    pub timeout_ms: u64,
}

/// Payload size caps (`[limits]`).
#[derive(Debug, Clone, PartialEq, Eq)]
pub struct LimitsConfig {
    /// Maximum bytes captured from child stdout. Default: 1 048 576.
    pub max_stdout_capture_bytes: u64,
    /// Hard cap for payload bytes forwarded to the LLM. Default: 256 000.
    pub max_llm_payload_bytes: u64,
}

impl LlmConfig {
    /// This configuration holds the built-in defaults.
    pub open spec fn is_default(&self) -> bool {
        &&& !self.enabled
        &&& self.provider == LlmProvider::Ollama
        &&& self.base_url@ == defaults::spec_base_url()
        &&& self.model is None
        &&& self.timeout_secs == 60
        &&& !self.allow_remote
        &&& self.invocation.is_default()
    }
}

impl LlmInvocationConfig {
    /// This configuration holds the built-in defaults.
    pub open spec fn is_default(&self) -> bool {
        !self.nl_session && !self.assist_on_not_found && self.max_context_chars == 8_000
    }
}

impl SafetyConfig {
    /// This configuration holds the built-in defaults.
    pub open spec fn is_default(&self) -> bool {
        &&& string_views(self.deny_prefixes@) == defaults::spec_deny_prefixes()
        &&& self.allow_prefixes@.len() == 0
        &&& string_views(self.high_risk_patterns@) == defaults::spec_high_risk_patterns()
    }
}

impl AuditConfig {
    /// This configuration holds the built-in defaults.
    pub open spec fn is_default(&self) -> bool {
        self.enabled && self.path is None
    }
}

impl HooksConfig {
    /// This configuration holds the built-in defaults.
    pub open spec fn is_default(&self) -> bool {
        self.pre_exec@.len() == 0
    }
}

impl LimitsConfig {
    /// This configuration holds the built-in defaults.
    pub open spec fn is_default(&self) -> bool {
        self.max_stdout_capture_bytes == 1_048_576 && self.max_llm_payload_bytes == 256_000
    }
}

impl Config {
    /// This configuration holds the built-in defaults.
    pub open spec fn is_default(&self) -> bool {
        &&& self.schema_version == 1
        &&& self.safety_mode == SafetyMode::Balanced
        &&& self.llm.is_default()
        &&& self.safety.is_default()
        &&& self.audit.is_default()
        &&& self.hooks.is_default()
        &&& self.limits.is_default()
    }
}

impl Default for SafetyMode {
    fn default() -> (m: Self)
        ensures
            m == SafetyMode::Balanced,
    {
        SafetyMode::Balanced
    }
}

impl Default for LlmProvider {
    fn default() -> (p: Self)
        ensures
            p == LlmProvider::Ollama,
    {
        LlmProvider::Ollama
    }
}

impl Default for LlmInvocationConfig {
    fn default() -> (c: Self)
        ensures
            c.is_default(),
    {
        LlmInvocationConfig {
            nl_session: false,
            assist_on_not_found: false,
            max_context_chars: defaults::max_context_chars(),
        }
    }
}

impl Default for LlmConfig {
    fn default() -> (c: Self)
        ensures
            c.is_default(),
    {
        LlmConfig {
            enabled: false,
            provider: LlmProvider::Ollama,
            base_url: defaults::base_url(),
            model: None,
            timeout_secs: defaults::timeout_secs(),
            allow_remote: false,
            invocation: LlmInvocationConfig::default(),
        }
    }
}

impl Default for SafetyConfig {
    fn default() -> (c: Self)
        ensures
            c.is_default(),
    {
        let c = SafetyConfig {
            deny_prefixes: defaults::deny_prefixes(),
            allow_prefixes: Vec::new(),
            high_risk_patterns: defaults::high_risk_patterns(),
        };
        assert(c.allow_prefixes@.len() == 0);
        c
    }
}

impl Default for AuditConfig {
    fn default() -> (c: Self)
        ensures
            c.is_default(),
    {
        AuditConfig { enabled: defaults::audit_enabled(), path: None }
    }
}

impl Default for HooksConfig {
    fn default() -> (c: Self)
        ensures
            c.is_default(),
    {
        HooksConfig { pre_exec: Vec::new() }
    }
}

impl Default for LimitsConfig {
    fn default() -> (c: Self)
        ensures
            c.is_default(),
    {
        LimitsConfig {
            max_stdout_capture_bytes: defaults::max_stdout_capture_bytes(),
            max_llm_payload_bytes: defaults::max_llm_payload_bytes(),
        }
    }
}

impl Default for Config {
    fn default() -> (c: Self)
        ensures
            c.is_default(),
    {
        Config {
            schema_version: defaults::schema_version(),
            safety_mode: SafetyMode::Balanced,
            llm: LlmConfig::default(),
            safety: SafetyConfig::default(),
            audit: AuditConfig::default(),
            hooks: HooksConfig::default(),
            limits: LimitsConfig::default(),
        }
    }
}

/// The configuration passes the semantic checks that the schema alone
/// cannot express: a model must be named when the LLM is enabled.
pub open spec fn is_valid(config: &Config) -> bool {
    !(config.llm.enabled && config.llm.model is None)
}

/// The message reported when the LLM is enabled without a model.
pub open spec fn missing_model_message() -> Seq<char> {
    "llm.model is required when llm.enabled = true"@
}

/// Validates the semantic constraints of a parsed configuration.
///
/// Fails with a configuration error exactly when `llm.enabled` is true and
/// `llm.model` is absent.
pub fn validate(config: &Config) -> (res: Result<(), LogicShellError>)
    ensures
        res is Ok <==> is_valid(config),
        res matches Err(e) ==> e is Config && e.detail() == missing_model_message(),
{
    if config.llm.enabled && config.llm.model.is_none() {
        return Err(LogicShellError::Config(owned("llm.model is required when llm.enabled = true")));
    }
    Ok(())
}

/// The configuration a TOML text describes, or the error message: the TOML
/// parser's when the text is not valid TOML, else the decoder's when it
/// does not fit the schema.
pub open spec fn parsed_config(text: Seq<char>) -> Result<ConfigView, Seq<char>> {
    match toml_document(text) {
        Ok(root) => decoded_config(root),
        Err(m) => Err(m),
    }
}

/// [`is_valid`] on the view of a configuration.
pub open spec fn valid_view(v: ConfigView) -> bool {
    !(v.llm.enabled && v.llm.model is None)
}

/// What loading a TOML text gives: the parsed configuration when it passes
/// validation, else the parse or decode message, or the validation message.
pub open spec fn loaded_config(text: Seq<char>) -> Result<ConfigView, Seq<char>> {
    match parsed_config(text) {
        Ok(v) => if valid_view(v) {
            Ok(v)
        } else {
            Err(missing_model_message())
        },
        Err(m) => Err(m),
    }
}

/// Parses a `.logicshell.toml` text into a configuration.
///
/// Fails with a configuration error when the text is not valid TOML, holds
/// a key the schema does not know, or a value of the wrong type or range;
/// missing keys and tables take their defaults.
pub fn from_str(toml_str: &str) -> (r: Result<Config, LogicShellError>)
    ensures
        r matches Ok(c) ==> (parsed_config(toml_str@) matches Ok(w) && w == c@),
        r matches Err(e) ==> e is Config && (parsed_config(toml_str@) matches Err(w) && w == e.detail()),
{
    match parse_toml(toml_str) {
        Err(msg) => Err(LogicShellError::Config(msg)),
        Ok(root) => match decode_config(&root) {
            Ok(c) => Ok(c),
            Err(m) => Err(LogicShellError::Config(m)),
        },
    }
}

/// Parses and validates a TOML text in one step: the result of
/// [`from_str`], then of [`validate`] on the configuration it returned.
pub fn load(toml_str: &str) -> (r: Result<Config, LogicShellError>)
    ensures
        r matches Ok(c) ==> (loaded_config(toml_str@) matches Ok(w) && w == c@),
        r matches Err(e) ==> e is Config && (loaded_config(toml_str@) matches Err(w) && w == e.detail()),
{
    let config = match from_str(toml_str) {
        Ok(c) => c,
        Err(e) => return Err(e),
    };
    match validate(&config) {
        Ok(()) => Ok(config),
        Err(e) => Err(e),
    }
}

} // verus!
